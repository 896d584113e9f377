//! What the command line decides about the output path before a run.

use vstd::prelude::*;
use crate::paths::extension_of;
use crate::paths::path_extension;
use crate::text::chars_of;
use crate::text::same_chars;
use crate::text::slice_chars;
use crate::text::strip_both;
use crate::text::strip_chars;
use crate::text::CharClass;

verus! {

/// Whether `s` ends with `suffix`.
pub open spec fn has_suffix(s: Seq<char>, suffix: Seq<char>) -> bool {
    suffix.len() <= s.len() && s.skip(s.len() - suffix.len()) == suffix
}

/// Whether `v` ends with the characters of `suffix`.
pub fn ends_with(v: &Vec<char>, suffix: &str) -> (r: bool)
    ensures
        r == has_suffix(v@, suffix@),
{
    let s = chars_of(suffix);
    if s.len() > v.len() {
        return false;
    }
    let tail = slice_chars(v, v.len() - s.len(), v.len());
    proof {
        assert(v@.skip(v.len() - s.len()) =~= v@.subrange(v.len() - s.len(), v.len() as int));
    }
    same_chars(&tail, &s)
}

/// Whether the output path is that of a directory: it is one already, or
/// the path ends with a separator.
pub open spec fn is_directory_path(path: Seq<char>, is_directory: bool) -> bool {
    is_directory || has_suffix(path, "/"@) || has_suffix(path, "\\"@)
}

/// Whether the output path is that of a directory. `is_directory` tells
/// whether a directory is found at the path.
pub fn looks_like_directory(path: &str, is_directory: bool) -> (r: bool)
    ensures
        r == is_directory_path(path@, is_directory),
{
    let chars = chars_of(path);
    is_directory || ends_with(&chars, "/") || ends_with(&chars, "\\")
}

/// Whether the output path is that of a file: it ends like a document, or
/// its name has an extension.
pub open spec fn is_file_path(path: Seq<char>) -> bool {
    has_suffix(path, ".md"@) || has_suffix(path, ".txt"@) || has_suffix(path, ".html"@)
        || has_suffix(path, ".pdf"@) || (extension_of(path) is Some && path.contains('.'))
}

/// Whether `c` occurs in `v`.
pub fn contains_char(v: &Vec<char>, c: char) -> (r: bool)
    ensures
        r == v@.contains(c),
{
    let mut i: usize = 0;
    while i < v.len()
        invariant
            i <= v.len(),
            forall|k: int| 0 <= k < i ==> v@[k] != c,
        decreases v.len() - i,
    {
        if v[i] == c {
            return true;
        }
        i += 1;
    }
    false
}

/// Whether the output path is that of a file.
pub fn looks_like_file(path: &str) -> (r: bool)
    ensures
        r == is_file_path(path@),
{
    let chars = chars_of(path);
    ends_with(&chars, ".md") || ends_with(&chars, ".txt") || ends_with(&chars, ".html")
        || ends_with(&chars, ".pdf") || (path_extension(path).is_some() && contains_char(
        &chars,
        '.',
    ))
}

/// What to do about something that stands in the way of the output.
#[derive(Debug, Clone, Copy, PartialEq, Eq, Structural)]
pub enum Decision {
    /// Go on: make the directory, or write over the file.
    Proceed,
    /// Give up.
    Refuse,
    /// Ask the user.
    Ask,
}

/// What to do where a directory is missing or a file is in the way: go on
/// where force is asked for, else give up where nobody can be asked, else
/// ask.
pub fn decide(force: bool, ci_mode: bool) -> (d: Decision)
    ensures
        d == if force {
            Decision::Proceed
        } else if ci_mode {
            Decision::Refuse
        } else {
            Decision::Ask
        },
{
    if force {
        Decision::Proceed
    } else if ci_mode {
        Decision::Refuse
    } else {
        Decision::Ask
    }
}

/// Whether `answer` is a yes: `y` or `yes`, in capitals or not, with white
/// space around it or not.
pub open spec fn is_yes(answer: Seq<char>) -> bool {
    let word = strip_both(answer, CharClass::Whitespace);
    ||| (word.len() == 1 && (word[0] == 'y' || word[0] == 'Y'))
    ||| (word.len() == 3 && (word[0] == 'y' || word[0] == 'Y') && (word[1] == 'e' || word[1]
        == 'E') && (word[2] == 's' || word[2] == 'S'))
}

/// Whether the user's answer is a yes.
pub fn confirms(answer: &str) -> (r: bool)
    ensures
        r == is_yes(answer@),
{
    let word = strip_chars(&chars_of(answer), CharClass::Whitespace);
    if word.len() == 1 {
        word[0] == 'y' || word[0] == 'Y'
    } else if word.len() == 3 {
        (word[0] == 'y' || word[0] == 'Y') && (word[1] == 'e' || word[1] == 'E') && (word[2]
            == 's' || word[2] == 'S')
    } else {
        false
    }
}

} // verus!
