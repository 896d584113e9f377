//! Texts as characters: copying, comparing, classes of characters and
//! trimming.
//!
//! Text is handled as a vector of characters, whose view is the same
//! `Seq<char>` that a `str` or a `String` has.

use vstd::prelude::*;

verus! {

/// `String::push` appends one character at the end of the string.
pub assume_specification[ String::push ](s: &mut String, c: char)
    ensures
        final(s)@ == old(s)@.push(c),
;

/// The characters of `s`, in order.
pub fn chars_of(s: &str) -> (out: Vec<char>)
    ensures
        out@ == s@,
{
    let mut out: Vec<char> = Vec::new();
    for c in it: s.chars()
        invariant
            it.seq() == s@,
            out@ =~= it.seq().take(it.index() as int),
    {
        out.push(c);
    }
    assert(out@ =~= s@);
    out
}

/// The string whose characters are `v`.
pub fn string_of(v: &Vec<char>) -> (out: String)
    ensures
        out@ == v@,
{
    let mut out = String::new();
    let mut i: usize = 0;
    while i < v.len()
        invariant
            i <= v.len(),
            out@ =~= v@.take(i as int),
        decreases v.len() - i,
    {
        out.push(v[i]);
        i += 1;
    }
    assert(out@ =~= v@);
    out
}

/// The view of an optional string.
pub open spec fn option_text(s: Option<String>) -> Option<Seq<char>> {
    match s {
        Some(t) => Some(t@),
        None => None,
    }
}

/// Appends the characters of `src` to `dst`.
pub fn append_chars(dst: &mut Vec<char>, src: &Vec<char>)
    ensures
        final(dst)@ == old(dst)@ + src@,
{
    let mut i: usize = 0;
    while i < src.len()
        invariant
            i <= src.len(),
            dst@ =~= old(dst)@ + src@.take(i as int),
        decreases src.len() - i,
    {
        dst.push(src[i]);
        i += 1;
    }
    assert(src@.take(src.len() as int) =~= src@);
}

/// Appends the characters of the string `src` to `dst`.
pub fn append_str(dst: &mut Vec<char>, src: &str)
    ensures
        final(dst)@ == old(dst)@ + src@,
{
    let chars = chars_of(src);
    append_chars(dst, &chars);
}

/// The characters of `v` from index `from` up to, not including, `to`.
pub fn slice_chars(v: &Vec<char>, from: usize, to: usize) -> (out: Vec<char>)
    requires
        from <= to <= v.len(),
    ensures
        out@ == v@.subrange(from as int, to as int),
{
    let mut out: Vec<char> = Vec::new();
    let mut i: usize = from;
    while i < to
        invariant
            from <= i <= to <= v.len(),
            out@ =~= v@.subrange(from as int, i as int),
        decreases to - i,
    {
        out.push(v[i]);
        i += 1;
    }
    out
}

/// A copy of `v`.
pub fn copy_chars(v: &Vec<char>) -> (out: Vec<char>)
    ensures
        out@ == v@,
{
    let out = slice_chars(v, 0, v.len());
    assert(v@.subrange(0, v.len() as int) =~= v@);
    out
}

/// Whether two character vectors hold the same characters.
pub fn same_chars(a: &Vec<char>, b: &Vec<char>) -> (r: bool)
    ensures
        r == (a@ == b@),
{
    if a.len() != b.len() {
        return false;
    }
    let mut i: usize = 0;
    while i < a.len()
        invariant
            i <= a.len(),
            a.len() == b.len(),
            a@.take(i as int) =~= b@.take(i as int),
        decreases a.len() - i,
    {
        if a[i] != b[i] {
            return false;
        }
        assert(a@.take(i + 1) =~= a@.take(i as int).push(a@[i as int]));
        assert(b@.take(i + 1) =~= b@.take(i as int).push(b@[i as int]));
        i += 1;
    }
    assert(a@ =~= a@.take(a.len() as int));
    assert(b@ =~= b@.take(b.len() as int));
    true
}

/// A set of characters that trimming and counting work with.
#[derive(Clone, Copy, Debug)]
pub enum CharClass {
    /// Unicode white space, as `char::is_whitespace` has it.
    Whitespace,
    /// The backtick.
    Backtick,
    /// The two quote characters, `"` and `'`.
    Quote,
    /// The two quote characters and the space.
    QuoteOrSpace,
    /// Every character but the line feed.
    NotNewline,
}

/// Unicode's `White_Space` property, which `char::is_whitespace` tests.
pub open spec fn is_whitespace(c: char) -> bool {
    let n = c as u32;
    (0x09 <= n <= 0x0D) || n == 0x20 || n == 0x85 || n == 0xA0 || n == 0x1680 || (0x2000 <= n
        <= 0x200A) || n == 0x2028 || n == 0x2029 || n == 0x202F || n == 0x205F || n == 0x3000
}

/// Whether `c` belongs to `class`.
pub open spec fn in_class(class: CharClass, c: char) -> bool {
    match class {
        CharClass::Whitespace => is_whitespace(c),
        CharClass::Backtick => c == '`',
        CharClass::Quote => c == '"' || c == '\'',
        CharClass::QuoteOrSpace => c == '"' || c == '\'' || c == ' ',
        CharClass::NotNewline => c != '\n',
    }
}

/// Whether `c` belongs to `class`.
pub fn class_has(class: CharClass, c: char) -> (r: bool)
    ensures
        r == in_class(class, c),
{
    match class {
        CharClass::Whitespace => {
            let n: u32 = c as u32;
            (0x09 <= n && n <= 0x0D) || n == 0x20 || n == 0x85 || n == 0xA0 || n == 0x1680 || (
            0x2000 <= n && n <= 0x200A) || n == 0x2028 || n == 0x2029 || n == 0x202F || n
                == 0x205F || n == 0x3000
        },
        CharClass::Backtick => c == '`',
        CharClass::Quote => c == '"' || c == '\'',
        CharClass::QuoteOrSpace => c == '"' || c == '\'' || c == ' ',
        CharClass::NotNewline => c != '\n',
    }
}

/// How many characters at the start of `s` belong to `class`.
pub open spec fn leading_count(s: Seq<char>, class: CharClass) -> nat
    decreases s.len(),
{
    if s.len() > 0 && in_class(class, s[0]) {
        1 + leading_count(s.drop_first(), class)
    } else {
        0
    }
}

/// How many characters at the end of `s` belong to `class`.
pub open spec fn trailing_count(s: Seq<char>, class: CharClass) -> nat
    decreases s.len(),
{
    if s.len() > 0 && in_class(class, s.last()) {
        1 + trailing_count(s.drop_last(), class)
    } else {
        0
    }
}

/// The characters that `leading_count` counts are of the class, and the
/// one behind them is not.
pub proof fn lemma_leading_count(s: Seq<char>, class: CharClass)
    ensures
        leading_count(s, class) <= s.len(),
        forall|j: int| 0 <= j < leading_count(s, class) ==> in_class(class, #[trigger] s[j]),
        leading_count(s, class) < s.len() ==> !in_class(
            class,
            s[leading_count(s, class) as int],
        ),
    decreases s.len(),
{
    if s.len() > 0 && in_class(class, s[0]) {
        let rest = s.drop_first();
        lemma_leading_count(rest, class);
        assert forall|j: int| 0 <= j < leading_count(s, class) implies in_class(
            class,
            #[trigger] s[j],
        ) by {
            if j > 0 {
                assert(s[j] == rest[j - 1]);
            }
        }
        if leading_count(s, class) < s.len() {
            assert(s[leading_count(s, class) as int] == rest[leading_count(rest, class) as int]);
        }
    }
}

/// Where the first `p` characters of `s` are of the class and the one
/// behind them is not, `leading_count` counts `p`.
pub proof fn lemma_leading_count_is(s: Seq<char>, class: CharClass, p: nat)
    requires
        p <= s.len(),
        forall|j: int| 0 <= j < p ==> in_class(class, #[trigger] s[j]),
        p < s.len() ==> !in_class(class, s[p as int]),
    ensures
        leading_count(s, class) == p,
    decreases p,
{
    if p > 0 {
        let rest = s.drop_first();
        assert(in_class(class, s[0]));
        assert forall|j: int| 0 <= j < p - 1 implies in_class(class, #[trigger] rest[j]) by {
            assert(rest[j] == s[j + 1]);
        }
        if p - 1 < rest.len() {
            assert(rest[p - 1] == s[p as int]);
        }
        lemma_leading_count_is(rest, class, (p - 1) as nat);
    }
}

/// Behind a character that is not of the class, `trailing_count` stops.
pub proof fn lemma_trailing_count_stops(s: Seq<char>, class: CharClass)
    requires
        s.len() > 0,
        !in_class(class, s[0]),
    ensures
        trailing_count(s, class) < s.len(),
    decreases s.len(),
{
    if s.len() > 1 && in_class(class, s.last()) {
        assert(s.drop_last()[0] == s[0]);
        lemma_trailing_count_stops(s.drop_last(), class);
    }
}

/// `s` without its leading characters of `class`.
pub open spec fn strip_leading(s: Seq<char>, class: CharClass) -> Seq<char> {
    s.skip(leading_count(s, class) as int)
}

/// `s` without its trailing characters of `class`.
pub open spec fn strip_trailing(s: Seq<char>, class: CharClass) -> Seq<char> {
    s.take(s.len() - trailing_count(s, class))
}

/// `s` without the characters of `class` at either end.
pub open spec fn strip_both(s: Seq<char>, class: CharClass) -> Seq<char> {
    strip_trailing(strip_leading(s, class), class)
}

/// `s` without trailing white space.
pub open spec fn trim_end(s: Seq<char>) -> Seq<char> {
    strip_trailing(s, CharClass::Whitespace)
}

/// `s` without white space at either end.
pub open spec fn trim(s: Seq<char>) -> Seq<char> {
    strip_both(s, CharClass::Whitespace)
}

/// Counts the characters of `class` in `v` from index `from` on, stopping at
/// the first that is not of the class or at index `to`.
pub fn count_leading(v: &Vec<char>, from: usize, to: usize, class: CharClass) -> (n: usize)
    requires
        from <= to <= v.len(),
    ensures
        n == leading_count(v@.subrange(from as int, to as int), class),
        from + n <= to,
{
    let mut i: usize = from;
    while i < to && class_has(class, v[i])
        invariant
            from <= i <= to <= v.len(),
            leading_count(v@.subrange(from as int, to as int), class) == (i - from)
                + leading_count(v@.subrange(i as int, to as int), class),
        decreases to - i,
    {
        assert(v@.subrange(i as int, to as int).drop_first() =~= v@.subrange(
            i + 1,
            to as int,
        ));
        i += 1;
    }
    i - from
}

/// Counts the characters of `class` in `v` from index `to` backwards, stopping
/// at the first that is not of the class or at index `from`.
pub fn count_trailing(v: &Vec<char>, from: usize, to: usize, class: CharClass) -> (n: usize)
    requires
        from <= to <= v.len(),
    ensures
        n == trailing_count(v@.subrange(from as int, to as int), class),
        from + n <= to,
{
    let mut i: usize = to;
    while i > from && class_has(class, v[i - 1])
        invariant
            from <= i <= to <= v.len(),
            trailing_count(v@.subrange(from as int, to as int), class) == (to - i)
                + trailing_count(v@.subrange(from as int, i as int), class),
        decreases i - from,
    {
        assert(v@.subrange(from as int, i as int).drop_last() =~= v@.subrange(
            from as int,
            i - 1,
        ));
        i -= 1;
    }
    to - i
}

/// `v` without the characters of `class` at either end.
pub fn strip_chars(v: &Vec<char>, class: CharClass) -> (out: Vec<char>)
    ensures
        out@ == strip_both(v@, class),
{
    let lead = count_leading(v, 0, v.len(), class);
    let trail = count_trailing(v, lead, v.len(), class);
    proof {
        assert(v@.subrange(0, v.len() as int) =~= v@);
        assert(v@.subrange(lead as int, v.len() as int) =~= v@.skip(lead as int));
        assert(v@.skip(lead as int).take(v.len() - lead - trail) =~= v@.subrange(
            lead as int,
            v.len() - trail,
        ));
    }
    slice_chars(v, lead, v.len() - trail)
}

/// `v` without trailing characters of `class`.
pub fn strip_chars_end(v: &Vec<char>, class: CharClass) -> (out: Vec<char>)
    ensures
        out@ == strip_trailing(v@, class),
{
    let trail = count_trailing(v, 0, v.len(), class);
    proof {
        assert(v@.subrange(0, v.len() as int) =~= v@);
        assert(v@.take(v.len() - trail) =~= v@.subrange(0, v.len() - trail));
    }
    slice_chars(v, 0, v.len() - trail)
}

/// `n` times the character `c`.
pub open spec fn repeated(c: char, n: nat) -> Seq<char> {
    Seq::new(n, |i: int| c)
}

/// Whether `s` begins with `prefix`.
pub open spec fn has_prefix(s: Seq<char>, prefix: Seq<char>) -> bool {
    prefix.len() <= s.len() && s.take(prefix.len() as int) == prefix
}

/// Whether `v` begins with the characters of `prefix`.
pub fn starts_with(v: &Vec<char>, prefix: &str) -> (r: bool)
    ensures
        r == has_prefix(v@, prefix@),
{
    let p = chars_of(prefix);
    if p.len() > v.len() {
        return false;
    }
    let head = slice_chars(v, 0, p.len());
    proof {
        assert(v@.take(p.len() as int) =~= v@.subrange(0, p.len() as int));
    }
    same_chars(&head, &p)
}

/// Whether the characters of `word` stand in `v` from index `at` on.
pub fn has_word_at(v: &Vec<char>, at: usize, word: &str) -> (r: bool)
    requires
        at <= v.len(),
    ensures
        r == has_prefix(v@.skip(at as int), word@),
{
    let w = chars_of(word);
    if w.len() > v.len() - at {
        return false;
    }
    let piece = slice_chars(v, at, at + w.len());
    proof {
        assert(v@.skip(at as int).take(w.len() as int) =~= v@.subrange(
            at as int,
            at + w.len(),
        ));
    }
    same_chars(&piece, &w)
}

} // verus!
