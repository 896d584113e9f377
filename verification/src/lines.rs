//! Lines of a text: as `str::lines` cuts them, without their endings, and
//! whole, each with the line feed that ends it.

use vstd::prelude::*;
use crate::text::append_chars;
use crate::text::slice_chars;

verus! {

/// The index of the first line feed in `s`, or the length of `s` where it has
/// none.
pub open spec fn line_end(s: Seq<char>) -> nat
    decreases s.len(),
{
    if s.len() == 0 || s[0] == '\n' {
        0
    } else {
        1 + line_end(s.drop_first())
    }
}

/// `line_end` lies in the text, at a line feed unless it is the end of the
/// text, and no line feed stands before it.
pub proof fn lemma_line_end(s: Seq<char>)
    ensures
        line_end(s) <= s.len(),
        line_end(s) < s.len() ==> s[line_end(s) as int] == '\n',
        forall|i: int| 0 <= i < line_end(s) ==> s[i] != '\n',
    decreases s.len(),
{
    if !(s.len() == 0 || s[0] == '\n') {
        lemma_line_end(s.drop_first());
        assert forall|i: int| 0 <= i < line_end(s) implies s[i] != '\n' by {
            if i > 0 {
                assert(s[i] == s.drop_first()[i - 1]);
            }
        }
    }
}

/// A line without the carriage return that ended it, if one did.
pub open spec fn strip_cr(line: Seq<char>) -> Seq<char> {
    if line.len() > 0 && line.last() == '\r' {
        line.drop_last()
    } else {
        line
    }
}

/// The lines of `s`. A line ends at a line feed, or at a carriage return
/// directly followed by one; neither belongs to the line. What stands after
/// the last line feed is a line unless it is empty, and is kept as it is.
pub open spec fn lines_of(s: Seq<char>) -> Seq<Seq<char>>
    decreases s.len(),
{
    let n = line_end(s);
    if s.len() == 0 {
        Seq::empty()
    } else if n >= s.len() {
        seq![s]
    } else {
        seq![strip_cr(s.take(n as int))] + lines_of(s.skip(n as int + 1))
    }
}

/// The views of a vector of lines.
pub open spec fn views(lines: Seq<Vec<char>>) -> Seq<Seq<char>> {
    lines.map_values(|l: Vec<char>| l@)
}

/// The lines of `text`.
pub fn split_lines(text: &Vec<char>) -> (lines: Vec<Vec<char>>)
    ensures
        views(lines@) =~= lines_of(text@),
{
    let mut lines: Vec<Vec<char>> = Vec::new();
    let mut start: usize = 0;
    let n = text.len();
    proof {
        assert(text@.skip(0) =~= text@);
        assert(views(lines@) + lines_of(text@) =~= lines_of(text@));
    }
    while start < n
        invariant
            start <= n == text.len(),
            lines_of(text@) =~= views(lines@) + lines_of(text@.skip(start as int)),
        decreases n - start,
    {
        let ghost rest = text@.skip(start as int);
        let mut end: usize = start;
        while end < n && text[end] != '\n'
            invariant
                start <= end <= n == text.len(),
                rest == text@.skip(start as int),
                line_end(rest) == (end - start) + line_end(text@.skip(end as int)),
            decreases n - end,
        {
            assert(text@.skip(end as int).drop_first() =~= text@.skip(end + 1));
            end += 1;
        }
        proof {
            lemma_line_end(rest);
            assert(line_end(text@.skip(end as int)) == 0);
            assert(line_end(rest) == end - start);
        }
        if end >= n {
            let line = slice_chars(text, start, n);
            proof {
                assert(line@ =~= rest);
                assert(lines_of(rest) =~= seq![rest]);
                assert(text@.skip(n as int) =~= Seq::<char>::empty());
                assert(lines_of(text@.skip(n as int)) =~= Seq::<Seq<char>>::empty());
                assert(views(lines@.push(line)) =~= views(lines@) + seq![line@]);
            }
            lines.push(line);
            start = n;
        } else {
            let stop: usize = if end > start && text[end - 1] == '\r' {
                end - 1
            } else {
                end
            };
            let line = slice_chars(text, start, stop);
            proof {
                assert(rest.take(end - start) =~= text@.subrange(start as int, end as int));
                assert(line@ =~= strip_cr(rest.take(end - start)));
                assert(rest.skip(end - start + 1) =~= text@.skip(end + 1));
                assert(views(lines@.push(line)) =~= views(lines@) + seq![line@]);
                assert(lines_of(rest) =~= seq![line@] + lines_of(text@.skip(end + 1)));
            }
            lines.push(line);
            start = end + 1;
        }
    }
    proof {
        assert(text@.skip(start as int) =~= Seq::<char>::empty());
        assert(views(lines@) + Seq::<Seq<char>>::empty() =~= views(lines@));
    }
    lines
}

/// The lines of `s` with their endings: each line reaches up to its line
/// feed and holds it. What stands after the last line feed is a line unless
/// it is empty. Put one behind the other, the lines are the text.
pub open spec fn whole_lines(s: Seq<char>) -> Seq<Seq<char>>
    decreases s.len(),
{
    let n = line_end(s);
    if s.len() == 0 {
        Seq::empty()
    } else if n >= s.len() {
        seq![s]
    } else {
        seq![s.take(n as int + 1)] + whole_lines(s.skip(n as int + 1))
    }
}

/// The lines put one behind the other.
pub open spec fn concat(lines: Seq<Seq<char>>) -> Seq<char>
    decreases lines.len(),
{
    if lines.len() == 0 {
        Seq::empty()
    } else {
        concat(lines.drop_last()) + lines.last()
    }
}

/// A line and further lines, put one behind the other, begin with the line.
pub proof fn lemma_concat_first(first: Seq<char>, rest: Seq<Seq<char>>)
    ensures
        concat(seq![first] + rest) == first + concat(rest),
    decreases rest.len(),
{
    let all = seq![first] + rest;
    if rest.len() == 0 {
        assert(all.drop_last() =~= Seq::<Seq<char>>::empty());
        assert(concat(all.drop_last()) =~= Seq::<char>::empty());
        assert(concat(rest) =~= Seq::<char>::empty());
        assert(all.last() == first);
        assert(concat(all) == concat(all.drop_last()) + all.last());
        assert(concat(all) =~= first + concat(rest));
    } else {
        assert(all.drop_last() =~= seq![first] + rest.drop_last());
        assert(all.last() == rest.last());
        lemma_concat_first(first, rest.drop_last());
        assert(concat(all) =~= first + concat(rest));
    }
}

/// The whole lines of a text, put one behind the other, are the text.
pub proof fn lemma_whole_lines_are_the_text(s: Seq<char>)
    ensures
        concat(whole_lines(s)) == s,
    decreases s.len(),
{
    if s.len() > 0 {
        let n = line_end(s);
        lemma_line_end(s);
        if n >= s.len() {
            assert(whole_lines(s) =~= seq![s]);
            lemma_concat_first(s, Seq::empty());
            assert(seq![s] + Seq::<Seq<char>>::empty() =~= seq![s]);
            assert(concat(Seq::<Seq<char>>::empty()) =~= Seq::<char>::empty());
            assert(concat(seq![s]) =~= s);
        } else {
            let first = s.take(n as int + 1);
            let rest = s.skip(n as int + 1);
            lemma_whole_lines_are_the_text(rest);
            lemma_concat_first(first, whole_lines(rest));
            assert(first + rest =~= s);
        }
    }
}

/// Whether the last character of `s` is a line feed.
pub open spec fn ends_with_newline(s: Seq<char>) -> bool {
    s.len() > 0 && s.last() == '\n'
}

/// Whether `line` is one line with or without its ending: it is not empty,
/// and holds no line feed but at its end.
pub open spec fn is_whole_line(line: Seq<char>) -> bool {
    line.len() > 0 && forall|j: int| 0 <= j < line.len() - 1 ==> #[trigger] line[j] != '\n'
}

/// Whether `lines` are the whole lines of a text: each is one line, and
/// each but the last has its ending.
pub open spec fn are_whole_lines(lines: Seq<Seq<char>>) -> bool {
    forall|i: int|
        0 <= i < lines.len() ==> is_whole_line(#[trigger] lines[i]) && (i < lines.len() - 1
            ==> ends_with_newline(lines[i]))
}

/// The whole lines of a text are whole lines.
pub proof fn lemma_whole_lines_shape(s: Seq<char>)
    ensures
        are_whole_lines(whole_lines(s)),
    decreases s.len(),
{
    if s.len() > 0 {
        let n = line_end(s);
        lemma_line_end(s);
        if n >= s.len() {
            assert(whole_lines(s) =~= seq![s]);
        } else {
            let first = s.take(n as int + 1);
            let rest = s.skip(n as int + 1);
            lemma_whole_lines_shape(rest);
            let tail = whole_lines(rest);
            let all = whole_lines(s);
            assert(all =~= seq![first] + tail);
            assert(is_whole_line(first));
            assert(ends_with_newline(first));
            assert forall|i: int| 0 <= i < all.len() implies is_whole_line(#[trigger] all[i])
                && (i < all.len() - 1 ==> ends_with_newline(all[i])) by {
                if i > 0 {
                    assert(all[i] == tail[i - 1]);
                }
            }
        }
    }
}

/// A line that has its ending ends where the ending is, whatever follows.
pub proof fn lemma_line_end_of_line(line: Seq<char>, rest: Seq<char>)
    requires
        is_whole_line(line),
        ends_with_newline(line),
    ensures
        line_end(line + rest) == line.len() - 1,
    decreases line.len(),
{
    let all = line + rest;
    if line.len() == 1 {
        assert(all[0] == '\n');
    } else {
        assert(all[0] == line[0]);
        assert(line[0] != '\n');
        let shorter = line.drop_first();
        assert(all.drop_first() =~= shorter + rest);
        assert forall|j: int| 0 <= j < shorter.len() - 1 implies #[trigger] shorter[j]
            != '\n' by {
            assert(shorter[j] == line[j + 1]);
        }
        lemma_line_end_of_line(shorter, rest);
    }
}

/// A text without a line feed is one line.
pub proof fn lemma_line_end_without_newline(line: Seq<char>)
    requires
        forall|j: int| 0 <= j < line.len() ==> #[trigger] line[j] != '\n',
    ensures
        line_end(line) == line.len(),
    decreases line.len(),
{
    if line.len() > 0 {
        let shorter = line.drop_first();
        assert forall|j: int| 0 <= j < shorter.len() implies #[trigger] shorter[j] != '\n' by {
            assert(shorter[j] == line[j + 1]);
        }
        lemma_line_end_without_newline(shorter);
    }
}

/// Whole lines, put one behind the other, make a text whose whole lines
/// they are.
pub proof fn lemma_whole_lines_of_concat(lines: Seq<Seq<char>>)
    requires
        are_whole_lines(lines),
    ensures
        whole_lines(concat(lines)) == lines,
    decreases lines.len(),
{
    if lines.len() == 0 {
        assert(concat(lines) =~= Seq::<char>::empty());
        assert(whole_lines(concat(lines)) =~= lines);
    } else {
        let first = lines[0];
        let others = lines.skip(1);
        assert(lines =~= seq![first] + others);
        lemma_concat_first(first, others);
        let text = concat(lines);
        let rest = concat(others);
        assert(text == first + rest);
        assert(is_whole_line(first));
        assert forall|i: int| 0 <= i < others.len() implies is_whole_line(#[trigger] others[i])
            && (i < others.len() - 1 ==> ends_with_newline(others[i])) by {
            assert(others[i] == lines[i + 1]);
        }
        lemma_whole_lines_of_concat(others);
        if ends_with_newline(first) {
            lemma_line_end_of_line(first, rest);
            assert(text.take(first.len() as int) =~= first);
            assert(text.skip(first.len() as int) =~= rest);
            assert(whole_lines(text) =~= seq![first] + whole_lines(rest));
        } else {
            assert(others.len() == 0);
            assert(rest =~= Seq::<char>::empty());
            assert(text =~= first);
            assert forall|j: int| 0 <= j < first.len() implies #[trigger] first[j] != '\n' by {
                if j == first.len() - 1 {
                    assert(first.last() == first[j]);
                }
            }
            lemma_line_end_without_newline(first);
            assert(whole_lines(text) =~= seq![first]);
        }
    }
}

/// Lines put one behind the other end as the last of them does, where it is
/// not empty.
pub proof fn lemma_concat_last(lines: Seq<Seq<char>>)
    requires
        lines.len() > 0,
        lines.last().len() > 0,
    ensures
        concat(lines).len() > 0,
        concat(lines).last() == lines.last().last(),
{
}

/// The lines of `text` with their endings.
pub fn split_whole_lines(text: &Vec<char>) -> (lines: Vec<Vec<char>>)
    ensures
        views(lines@) =~= whole_lines(text@),
{
    let mut lines: Vec<Vec<char>> = Vec::new();
    let mut start: usize = 0;
    let n = text.len();
    proof {
        assert(text@.skip(0) =~= text@);
        assert(views(lines@) + whole_lines(text@) =~= whole_lines(text@));
    }
    while start < n
        invariant
            start <= n == text.len(),
            whole_lines(text@) =~= views(lines@) + whole_lines(text@.skip(start as int)),
        decreases n - start,
    {
        let ghost rest = text@.skip(start as int);
        let mut end: usize = start;
        while end < n && text[end] != '\n'
            invariant
                start <= end <= n == text.len(),
                rest == text@.skip(start as int),
                line_end(rest) == (end - start) + line_end(text@.skip(end as int)),
            decreases n - end,
        {
            assert(text@.skip(end as int).drop_first() =~= text@.skip(end + 1));
            end += 1;
        }
        proof {
            lemma_line_end(rest);
            assert(line_end(text@.skip(end as int)) == 0);
        }
        let stop: usize = if end < n {
            end + 1
        } else {
            n
        };
        let line = slice_chars(text, start, stop);
        proof {
            assert(views(lines@.push(line)) =~= views(lines@) + seq![line@]);
            if end < n {
                assert(line@ =~= rest.take(end - start + 1));
                assert(rest.skip(end - start + 1) =~= text@.skip(stop as int));
                assert(whole_lines(rest) =~= seq![line@] + whole_lines(text@.skip(stop as int)));
            } else {
                assert(line@ =~= rest);
                assert(text@.skip(n as int) =~= Seq::<char>::empty());
                assert(whole_lines(text@.skip(n as int)) =~= Seq::<Seq<char>>::empty());
                assert(whole_lines(rest) =~= seq![rest]);
            }
        }
        lines.push(line);
        start = stop;
    }
    proof {
        assert(text@.skip(start as int) =~= Seq::<char>::empty());
        assert(views(lines@) + Seq::<Seq<char>>::empty() =~= views(lines@));
    }
    lines
}

/// Puts `lines` one behind the other.
pub fn concat_lines(lines: &Vec<Vec<char>>) -> (out: Vec<char>)
    ensures
        out@ == concat(views(lines@)),
{
    let mut out: Vec<char> = Vec::new();
    let mut i: usize = 0;
    while i < lines.len()
        invariant
            i <= lines.len(),
            out@ == concat(views(lines@).take(i as int)),
        decreases lines.len() - i,
    {
        proof {
            assert(views(lines@).take(i + 1).drop_last() =~= views(lines@).take(i as int));
            assert(views(lines@).take(i + 1).last() == lines@[i as int]@);
        }
        append_chars(&mut out, &lines[i]);
        i += 1;
    }
    proof {
        assert(views(lines@).take(lines.len() as int) =~= views(lines@));
    }
    out
}

/// The lines put together again, with one line feed between each two.
pub open spec fn join_lines(lines: Seq<Seq<char>>) -> Seq<char>
    decreases lines.len(),
{
    if lines.len() == 0 {
        Seq::empty()
    } else if lines.len() == 1 {
        lines[0]
    } else {
        join_lines(lines.drop_last()) + seq!['\n'] + lines.last()
    }
}

/// Joins `lines` with one line feed between each two.
pub fn join(lines: &Vec<Vec<char>>) -> (out: Vec<char>)
    ensures
        out@ == join_lines(views(lines@)),
{
    let mut out: Vec<char> = Vec::new();
    let mut i: usize = 0;
    while i < lines.len()
        invariant
            i <= lines.len(),
            out@ == join_lines(views(lines@).take(i as int)),
        decreases lines.len() - i,
    {
        let ghost before = views(lines@).take(i as int);
        let ghost after = views(lines@).take(i + 1);
        proof {
            assert(after.drop_last() =~= before);
            assert(after.last() == lines@[i as int]@);
        }
        if i > 0 {
            out.push('\n');
        }
        append_chars(&mut out, &lines[i]);
        proof {
            if i == 0 {
                assert(out@ =~= after[0]);
            } else {
                assert(out@ =~= join_lines(before) + seq!['\n'] + after.last());
            }
        }
        i += 1;
    }
    proof {
        assert(views(lines@).take(lines.len() as int) =~= views(lines@));
    }
    out
}

} // verus!
