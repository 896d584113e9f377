//! Fenced code blocks: the lines that open and close them, the check that
//! every block names its language, and the repair of those that name none.
//!
//! Validation takes the document line by line, each line with its ending,
//! and changes nothing but the fence lines that it repairs.

use vstd::prelude::*;
use crate::error::Failure;
use crate::error::ResolveError;
use crate::lines::concat;
use crate::lines::concat_lines;
use crate::lines::lines_of;
use crate::lines::split_lines;
use crate::lines::split_whole_lines;
use crate::lines::views;
use crate::lines::whole_lines;
use crate::offsets::byte_len;
use crate::offsets::byte_length;
use crate::offsets::char_index;
use crate::offsets::char_index_at;
use crate::offsets::clip;
use crate::text::append_chars;
use crate::text::chars_of;
use crate::text::copy_chars;
use crate::text::count_leading;
use crate::text::count_trailing;
use crate::text::leading_count;
use crate::text::slice_chars;
use crate::text::trailing_count;
use crate::text::string_of;
use crate::text::strip_both;
use crate::text::CharClass;

verus! {

/// What a fence line holds: three backticks or more after its indentation.
/// The line may be given with or without its ending, which is white space.
pub struct FenceMark {
    /// The number of characters of white space before the backticks.
    pub lead: usize,
    /// The bytes that the white space before the backticks takes.
    pub indent: usize,
    /// The number of backticks.
    pub ticks: usize,
    /// Whether anything but white space follows the backticks.
    pub has_language: bool,
}

/// The fence mark of `line`, if it is a fence line.
pub open spec fn fence_mark(line: Seq<char>) -> Option<FenceMark> {
    let ws = leading_count(line, CharClass::Whitespace) as int;
    let body = line.skip(ws);
    let ticks = leading_count(body, CharClass::Backtick);
    if ticks >= 3 {
        Some(
            FenceMark {
                lead: ws as usize,
                indent: clip(byte_len(line.take(ws))),
                ticks: ticks as usize,
                has_language: strip_both(body.skip(ticks as int), CharClass::Whitespace).len()
                    > 0,
            },
        )
    } else {
        None
    }
}

/// Reads the fence mark of `line`.
pub fn read_fence_mark(line: &Vec<char>) -> (r: Option<FenceMark>)
    ensures
        r == fence_mark(line@),
        match r {
            Some(mark) => mark.lead + mark.ticks == marker_end(line@) && marker_end(line@)
                <= line@.len(),
            None => true,
        },
{
    let n = line.len();
    let ws = count_leading(line, 0, n, CharClass::Whitespace);
    let ticks = count_leading(line, ws, n, CharClass::Backtick);
    proof {
        assert(line@.subrange(0, n as int) =~= line@);
        assert(line@.subrange(ws as int, n as int) =~= line@.skip(ws as int));
    }
    if ticks >= 3 {
        let indent = byte_length(line, 0, ws);
        let after = ws + ticks;
        let lead = count_leading(line, after, n, CharClass::Whitespace);
        let trail = count_trailing(line, after + lead, n, CharClass::Whitespace);
        proof {
            assert(line@.subrange(0, ws as int) =~= line@.take(ws as int));
            let tail = line@.skip(ws as int).skip(ticks as int);
            assert(tail =~= line@.subrange(after as int, n as int));
            assert(tail.skip(lead as int) =~= line@.subrange(after + lead, n as int));
        }
        Some(FenceMark { lead: ws, indent, ticks, has_language: n - after - lead - trail > 0 })
    } else {
        None
    }
}

/// Where the backticks of the fence line `line` end: behind its white space
/// and the backticks that follow it.
pub open spec fn marker_end(line: Seq<char>) -> nat {
    let ws = leading_count(line, CharClass::Whitespace);
    ws + leading_count(line.skip(ws as int), CharClass::Backtick)
}

/// The fence line `line` with `language` put directly behind its backticks.
/// Nothing of the line is taken away: its indentation, its backticks, what
/// stands behind them and its ending stay as they are.
pub open spec fn repaired_line(line: Seq<char>, language: Seq<char>) -> Seq<char> {
    line.take(marker_end(line) as int) + language + line.skip(marker_end(line) as int)
}

/// Where a scan of the lines of a document stands.
pub struct FenceScan {
    /// The open fence, if the scan stands inside one: the index of its
    /// opening line, counted from zero, and its indentation.
    pub open: Option<(nat, usize)>,
    /// The lines passed so far, repaired where that was asked for.
    pub lines: Seq<Seq<char>>,
    /// What stopped the scan.
    pub failure: Option<Failure>,
}

/// The scan after one more line, `line`, at index `index`.
pub open spec fn scan_line(
    scan: FenceScan,
    index: nat,
    line: Seq<char>,
    default_language: Option<Seq<char>>,
) -> FenceScan {
    if scan.failure is Some {
        scan
    } else {
        match (fence_mark(line), scan.open) {
            (None, _) => FenceScan { lines: scan.lines.push(line), ..scan },
            (Some(mark), None) => {
                if mark.has_language {
                    FenceScan {
                        open: Some((index, mark.indent)),
                        lines: scan.lines.push(line),
                        failure: None,
                    }
                } else {
                    match default_language {
                        Some(language) => FenceScan {
                            open: Some((index, mark.indent)),
                            lines: scan.lines.push(repaired_line(line, language)),
                            failure: None,
                        },
                        None => FenceScan {
                            failure: Some(Failure::MissingFenceLanguage { line: index + 1 }),
                            ..scan
                        },
                    }
                }
            },
            (Some(mark), Some((open_index, open_indent))) => {
                if mark.indent != open_indent {
                    FenceScan {
                        failure: Some(
                            Failure::FenceIndentMismatch {
                                open_line: open_index + 1,
                                close_line: index + 1,
                                open_indent: open_indent as nat,
                                close_indent: mark.indent as nat,
                            },
                        ),
                        ..scan
                    }
                } else if mark.has_language {
                    FenceScan {
                        failure: Some(
                            Failure::UnexpectedNestedFenceOpen {
                                open_line: open_index + 1,
                                new_line: index + 1,
                            },
                        ),
                        ..scan
                    }
                } else {
                    FenceScan { open: None, lines: scan.lines.push(line), failure: None }
                }
            },
        }
    }
}

/// The scan after the first `n` of `lines`.
pub open spec fn scan_lines(
    lines: Seq<Seq<char>>,
    n: nat,
    default_language: Option<Seq<char>>,
) -> FenceScan
    decreases n,
{
    if n == 0 || n > lines.len() {
        FenceScan { open: None, lines: Seq::empty(), failure: None }
    } else {
        scan_line(
            scan_lines(lines, (n - 1) as nat, default_language),
            (n - 1) as nat,
            lines[n - 1],
            default_language,
        )
    }
}

/// What the validation of `content` gives: the document itself, but for the
/// fences that name no language, which are opened with `default_language`
/// instead; or the first fault in its fences. The lines are taken with their
/// endings, so that every character outside the repaired lines stays in its
/// place.
pub open spec fn validated(content: Seq<char>, default_language: Option<Seq<char>>) -> Result<
    Seq<char>,
    Failure,
> {
    let lines = whole_lines(content);
    let scan = scan_lines(lines, lines.len(), default_language);
    match (scan.failure, scan.open) {
        (Some(failure), _) => Err(failure),
        (None, Some((open_index, _))) => Err(Failure::UnclosedFence { open_line: open_index + 1 }),
        (None, None) => Ok(concat(scan.lines)),
    }
}

/// The view of an optional string.
pub open spec fn text_of(s: Option<&str>) -> Option<Seq<char>> {
    match s {
        Some(t) => Some(t@),
        None => None,
    }
}

/// The open fence of a scan, from the one that the scanning code holds.
pub open spec fn scan_open(open: Option<(usize, usize)>) -> Option<(nat, usize)> {
    match open {
        Some((index, indent)) => Some((index as nat, indent)),
        None => None,
    }
}

/// The fence line `line` with `language` put directly behind its backticks.
fn repair_line(line: &Vec<char>, mark: &FenceMark, language: &Vec<char>) -> (out: Vec<char>)
    requires
        mark.lead + mark.ticks == marker_end(line@),
        marker_end(line@) <= line@.len(),
    ensures
        out@ == repaired_line(line@, language@),
{
    let len: usize = line.len();
    let at = mark.lead + mark.ticks;
    let mut out = slice_chars(line, 0, at);
    append_chars(&mut out, language);
    let tail = slice_chars(line, at, line.len());
    append_chars(&mut out, &tail);
    proof {
        assert(line@.take(at as int) =~= line@.subrange(0, at as int));
        assert(line@.skip(at as int) =~= line@.subrange(at as int, line@.len() as int));
    }
    out
}

/// Checks that every fenced code block of `content` names a language and is
/// closed by a line of the same indentation. With a language in
/// `fix_missing_lang`, a fence that names none is opened with that one
/// instead: the language is put directly behind its backticks. Without, such
/// a fence is the fault `MissingFenceLanguage`. The text that comes back is
/// `content` itself but for the repaired lines; without a language to repair
/// with, it is `content`.
pub fn validate_and_fix_code_fences(content: &str, fix_missing_lang: Option<&str>) -> (r: Result<
    String,
    ResolveError,
>)
    ensures
        match validated(content@, text_of(fix_missing_lang)) {
            Ok(text) => r is Ok && r->Ok_0@ == text,
            Err(failure) => r is Err && r->Err_0@ == failure,
        },
{
    let text = chars_of(content);
    match validate_chars(&text, fix_missing_lang) {
        Ok(out) => Ok(string_of(&out)),
        Err(e) => Err(e),
    }
}

/// `validate_and_fix_code_fences` on characters.
pub fn validate_chars(text: &Vec<char>, fix_missing_lang: Option<&str>) -> (r: Result<
    Vec<char>,
    ResolveError,
>)
    ensures
        match validated(text@, text_of(fix_missing_lang)) {
            Ok(fixed) => r is Ok && r->Ok_0@ == fixed,
            Err(failure) => r is Err && r->Err_0@ == failure,
        },
{
    let lines = split_whole_lines(text);
    let ghost default_language = text_of(fix_missing_lang);
    let ghost all = whole_lines(text@);
    let mut out: Vec<Vec<char>> = Vec::new();
    let mut open: Option<(usize, usize)> = None;
    let mut i: usize = 0;
    proof {
        assert(views(lines@).len() == lines.len());
    }
    while i < lines.len()
        invariant
            i <= lines.len(),
            views(lines@) == all,
            all == whole_lines(text@),
            default_language == text_of(fix_missing_lang),
            all.len() == lines.len(),
            scan_lines(all, i as nat, default_language).open == scan_open(open),
            scan_lines(all, i as nat, default_language).lines =~= views(out@),
            scan_lines(all, i as nat, default_language).failure is None,
            match open {
                Some((l, _)) => l < i,
                None => true,
            },
        decreases lines.len() - i,
    {
        let line = &lines[i];
        let ghost before = scan_lines(all, i as nat, default_language);
        proof {
            assert(all[i as int] == line@);
            assert(scan_lines(all, (i + 1) as nat, default_language) == scan_line(
                before,
                i as nat,
                line@,
                default_language,
            ));
        }
        let kept: Vec<char> = match (read_fence_mark(line), open) {
            (None, _) => copy_chars(line),
            (Some(mark), None) => {
                if mark.has_language {
                    open = Some((i, mark.indent));
                    copy_chars(line)
                } else {
                    match fix_missing_lang {
                        Some(language) => {
                            open = Some((i, mark.indent));
                            let language_chars = chars_of(language);
                            repair_line(line, &mark, &language_chars)
                        },
                        None => {
                            proof {
                                lemma_scan_failure_stays(
                                    all,
                                    (i + 1) as nat,
                                    all.len(),
                                    default_language,
                                );
                            }
                            return Err(ResolveError::MissingFenceLanguage { line: i + 1 });
                        },
                    }
                }
            },
            (Some(mark), Some((open_index, open_indent))) => {
                if mark.indent != open_indent {
                    proof {
                        lemma_scan_failure_stays(
                            all,
                            (i + 1) as nat,
                            all.len(),
                            default_language,
                        );
                    }
                    return Err(
                        ResolveError::FenceIndentMismatch {
                            open_line: open_index + 1,
                            close_line: i + 1,
                            open_indent,
                            close_indent: mark.indent,
                        },
                    );
                } else if mark.has_language {
                    proof {
                        lemma_scan_failure_stays(
                            all,
                            (i + 1) as nat,
                            all.len(),
                            default_language,
                        );
                    }
                    return Err(
                        ResolveError::UnexpectedNestedFenceOpen {
                            open_line: open_index + 1,
                            new_line: i + 1,
                        },
                    );
                } else {
                    open = None;
                    copy_chars(line)
                }
            },
        };
        proof {
            assert(views(out@.push(kept)) =~= views(out@).push(kept@));
        }
        out.push(kept);
        i += 1;
    }
    match open {
        Some((open_index, _)) => Err(ResolveError::UnclosedFence { open_line: open_index + 1 }),
        None => Ok(concat_lines(&out)),
    }
}

/// A scan that has failed stays as it is.
pub proof fn lemma_scan_failure_stays(
    lines: Seq<Seq<char>>,
    n: nat,
    m: nat,
    default_language: Option<Seq<char>>,
)
    requires
        n <= m <= lines.len(),
        scan_lines(lines, n, default_language).failure is Some,
    ensures
        scan_lines(lines, m, default_language) == scan_lines(lines, n, default_language),
    decreases m - n,
{
    if n < m {
        lemma_scan_failure_stays(lines, n, (m - 1) as nat, default_language);
    }
}

/// The indentation of the fence that is open after the first `n` of `lines`,
/// if one is. A fence line opens a fence where none is open, closes the open
/// one where its indentation is the same, and counts for nothing otherwise.
pub open spec fn open_fence_after(lines: Seq<Seq<char>>, n: nat) -> Option<usize>
    decreases n,
{
    if n == 0 || n > lines.len() {
        None
    } else {
        let open = open_fence_after(lines, (n - 1) as nat);
        match (fence_mark(lines[n - 1]), open) {
            (None, _) => open,
            (Some(mark), None) => Some(mark.indent),
            (Some(mark), Some(indent)) => if mark.indent == indent {
                None
            } else {
                open
            },
        }
    }
}

/// Whether the character at index `at` of `content` stands in a fenced code
/// block, going by the lines that begin before it.
pub open spec fn in_fence(content: Seq<char>, at: int) -> bool {
    let lines = lines_of(content.take(at));
    open_fence_after(lines, lines.len()) is Some
}

/// The backticks in `s` that stand alone or in pairs: those in runs of three
/// or more are left out.
pub open spec fn inline_ticks(s: Seq<char>) -> nat
    decreases s.len(),
{
    if s.len() == 0 {
        0
    } else if s[0] == '`' {
        let run = leading_count(s, CharClass::Backtick);
        if run == 0 || run > s.len() {
            0
        } else {
            (if run < 3 {
                run
            } else {
                0
            }) + inline_ticks(s.skip(run as int))
        }
    } else {
        inline_ticks(s.drop_first())
    }
}

/// What stands on the line of the character at index `at` before that
/// character.
pub open spec fn line_before(content: Seq<char>, at: int) -> Seq<char> {
    let head = content.take(at);
    head.skip(head.len() - trailing_count(head, CharClass::NotNewline))
}

/// Whether the character at index `at` of `content` stands in inline code: an
/// odd number of backticks, not counting runs of three or more, stands
/// before it on its line.
pub open spec fn in_inline_code(content: Seq<char>, at: int) -> bool {
    inline_ticks(line_before(content, at)) % 2 == 1
}

/// Whether the character at index `at` of `content` stands in a fenced code
/// block or in inline code.
pub open spec fn excluded(content: Seq<char>, at: int) -> bool {
    in_fence(content, at) || in_inline_code(content, at)
}

/// Whether the character at index `at` of `text` stands in inline code.
pub fn inline_code_at(text: &Vec<char>, at: usize) -> (r: bool)
    requires
        at <= text.len(),
    ensures
        r == in_inline_code(text@, at as int),
{
    let back = count_trailing(text, 0, at, CharClass::NotNewline);
    let start = at - back;
    let ghost segment = text@.subrange(start as int, at as int);
    proof {
        assert(text@.subrange(0, at as int) =~= text@.take(at as int));
        assert(line_before(text@, at as int) =~= segment);
    }
    let mut odd = false;
    let mut i: usize = start;
    while i < at
        invariant
            start <= i <= at <= text.len(),
            segment == text@.subrange(start as int, at as int),
            (inline_ticks(segment) % 2 == 1) == (odd != (inline_ticks(
                text@.subrange(i as int, at as int),
            ) % 2 == 1)),
        decreases at - i,
    {
        let ghost rest = text@.subrange(i as int, at as int);
        if text[i] == '`' {
            let run = count_leading(text, i, at, CharClass::Backtick);
            proof {
                assert(rest[0] == '`');
                assert(rest.drop_first() =~= text@.subrange(i + 1, at as int));
                assert(run >= 1);
                assert(rest.skip(run as int) =~= text@.subrange(i + run, at as int));
            }
            if run < 3 && run % 2 == 1 {
                odd = !odd;
            }
            i += run;
        } else {
            proof {
                assert(rest.drop_first() =~= text@.subrange(i + 1, at as int));
            }
            i += 1;
        }
    }
    odd
}

/// Whether the character at index `at` of `text` stands in a fenced code
/// block.
pub fn fence_at(text: &Vec<char>, at: usize) -> (r: bool)
    requires
        at <= text.len(),
    ensures
        r == in_fence(text@, at as int),
{
    let head = slice_chars(text, 0, at);
    proof {
        assert(text@.subrange(0, at as int) =~= text@.take(at as int));
    }
    let lines = split_lines(&head);
    let ghost all = lines_of(head@);
    let mut open: Option<usize> = None;
    let mut i: usize = 0;
    proof {
        assert(views(lines@).len() == lines.len());
    }
    while i < lines.len()
        invariant
            i <= lines.len(),
            views(lines@) == all,
            open == open_fence_after(all, i as nat),
        decreases lines.len() - i,
    {
        proof {
            assert(all[i as int] == lines@[i as int]@);
        }
        match (read_fence_mark(&lines[i]), open) {
            (None, _) => {},
            (Some(mark), None) => {
                open = Some(mark.indent);
            },
            (Some(mark), Some(indent)) => {
                if mark.indent == indent {
                    open = None;
                }
            },
        }
        i += 1;
    }
    open.is_some()
}

/// Whether the character at index `at` of `text` stands in a fenced code
/// block or in inline code.
pub fn excluded_at(text: &Vec<char>, at: usize) -> (r: bool)
    requires
        at <= text.len(),
    ensures
        r == excluded(text@, at as int),
{
    let fenced = fence_at(text, at);
    let inline = inline_code_at(text, at);
    fenced || inline
}

/// Whether the byte at `position` of `content` stands in inline code: an odd
/// number of backticks, not counting runs of three or more, stands before it
/// on its line. A position inside a character counts as that of the next
/// character, and one behind the end as the end.
pub fn is_inside_inline_code(content: &str, position: usize) -> (r: bool)
    ensures
        r == in_inline_code(content@, char_index(content@, position as nat) as int),
{
    let text = chars_of(content);
    let at = char_index_at(&text, position);
    inline_code_at(&text, at)
}

/// Whether the byte at `position` of `content` stands in a fenced code block
/// or in inline code. The fences are those of the lines that begin before the
/// position: a fence line opens a block where none is open and closes the
/// open one where it has the same indentation. A position inside a character
/// counts as that of the next character, and one behind the end as the end.
pub fn is_inside_code_fence(content: &str, position: usize) -> (r: bool)
    ensures
        r == excluded(content@, char_index(content@, position as nat) as int),
{
    let text = chars_of(content);
    let at = char_index_at(&text, position);
    excluded_at(&text, at)
}

} // verus!
