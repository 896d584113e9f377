//! Paths, as texts. What the parts of a path are is for `std::path` to say,
//! by the rules of the platform that the library is built for; what a
//! directive's path stands for is decided here.

use vstd::prelude::*;
use crate::error::Failure;
use crate::error::ResolveError;
use crate::text::chars_of;
use crate::text::has_prefix;
use crate::text::option_text;
use crate::text::starts_with;
use crate::text::string_of;
use crate::text::strip_both;
use crate::text::strip_chars;
use crate::text::CharClass;

verus! {

/// The path of the directory that holds `path`, as `Path::parent` gives it;
/// nothing where `path` is a root or empty.
pub uninterp spec fn parent_of(path: Seq<char>) -> Option<Seq<char>>;

/// The path `relative` as seen from the directory `base`, as `Path::join`
/// gives it.
pub uninterp spec fn joined(base: Seq<char>, relative: Seq<char>) -> Seq<char>;

/// Whether `path` is absolute, as `Path::is_absolute` has it.
pub uninterp spec fn is_absolute(path: Seq<char>) -> bool;

/// The path that leads from `base` to `path`, as `Path::strip_prefix` gives
/// it; nothing where `path` does not lie under `base`.
pub uninterp spec fn relative_to(path: Seq<char>, base: Seq<char>) -> Option<Seq<char>>;

/// The extension of the file name of `path`, as `Path::extension` gives it.
pub uninterp spec fn extension_of(path: Seq<char>) -> Option<Seq<char>>;

/// `Path::parent` of std, on a path given as text: the path without its last
/// component, or nothing where there is none to take away. The contract only
/// gives what comes back its name.
#[verifier::external_body]
pub(crate) fn path_parent(path: &str) -> (r: Option<String>)
    ensures
        option_text(r) == parent_of(path@),
{
    std::path::Path::new(path).parent().map(|p| p.to_string_lossy().into_owned())
}

/// `Path::join` of std, on paths given as text. The contract only gives what
/// comes back its name.
#[verifier::external_body]
pub(crate) fn path_join(base: &str, relative: &str) -> (r: String)
    ensures
        r@ == joined(base@, relative@),
{
    std::path::Path::new(base).join(relative).to_string_lossy().into_owned()
}

/// `Path::is_absolute` of std, on a path given as text. The contract only
/// gives what comes back its name.
#[verifier::external_body]
pub(crate) fn path_is_absolute(path: &str) -> (r: bool)
    ensures
        r == is_absolute(path@),
{
    std::path::Path::new(path).is_absolute()
}

/// `Path::strip_prefix` of std, on paths given as text: what is left of
/// `path` behind `base`, or nothing where `path` does not begin with `base`.
/// The contract only gives what comes back its name.
#[verifier::external_body]
pub(crate) fn path_strip_prefix(path: &str, base: &str) -> (r: Option<String>)
    ensures
        option_text(r) == relative_to(path@, base@),
{
    std::path::Path::new(path).strip_prefix(base).ok().map(|p| p.to_string_lossy().into_owned())
}

/// `Path::extension` of std, on a path given as text. The contract only gives
/// what comes back its name.
#[verifier::external_body]
pub(crate) fn path_extension(path: &str) -> (r: Option<String>)
    ensures
        option_text(r) == extension_of(path@),
{
    std::path::Path::new(path).extension().map(|e| e.to_string_lossy().into_owned())
}

/// The file that the path of an include directive stands for. Quote
/// characters and spaces at the ends of the path do not count. A path that
/// begins with `../` is seen from the directory of the current file, one
/// that begins with `/` stands for itself, and any other is seen from the
/// directory of the partials.
pub open spec fn include_target(
    include_path: Seq<char>,
    current_file: Seq<char>,
    partials_path: Seq<char>,
) -> Result<Seq<char>, Failure> {
    let path = strip_both(include_path, CharClass::QuoteOrSpace);
    if has_prefix(path, "../"@) {
        match parent_of(current_file) {
            Some(directory) => Ok(joined(directory, path)),
            None => Err(Failure::NoParentDirectory),
        }
    } else if has_prefix(path, "/"@) {
        Ok(path)
    } else {
        Ok(joined(partials_path, path))
    }
}

/// The file that the path of an include directive stands for: see
/// `include_target`. It fails, with `NoParentDirectory`, only for a path that
/// begins with `../` where the current file has no parent directory.
pub fn resolve_include_path(include_path_str: &str, current_file: &str, partials_path: &str) -> (r:
    Result<String, ResolveError>)
    ensures
        match include_target(include_path_str@, current_file@, partials_path@) {
            Ok(target) => r is Ok && r->Ok_0@ == target,
            Err(failure) => r is Err && r->Err_0@ == failure,
        },
{
    let path = strip_chars(&chars_of(include_path_str), CharClass::QuoteOrSpace);
    let text = string_of(&path);
    if starts_with(&path, "../") {
        match path_parent(current_file) {
            Some(directory) => Ok(path_join(directory.as_str(), text.as_str())),
            None => Err(ResolveError::NoParentDirectory),
        }
    } else if starts_with(&path, "/") {
        Ok(text)
    } else {
        Ok(path_join(partials_path, text.as_str()))
    }
}

/// Where the output of the file `file_path` goes: as far under `output_root`
/// as the file lies under `source_root`. Nowhere, where it does not lie under
/// `source_root`.
pub open spec fn output_target(
    file_path: Seq<char>,
    source_root: Seq<char>,
    output_root: Seq<char>,
) -> Option<Seq<char>> {
    match relative_to(file_path, source_root) {
        Some(relative) => Some(joined(output_root, relative)),
        None => None,
    }
}

/// Where the output of the file `file_path` goes: see `output_target`.
pub fn calculate_output_path(file_path: &str, source_root: &str, output_root: &str) -> (r: Option<
    String,
>)
    ensures
        option_text(r) == output_target(file_path@, source_root@, output_root@),
{
    match path_strip_prefix(file_path, source_root) {
        Some(relative) => Some(path_join(output_root, relative.as_str())),
        None => None,
    }
}

} // verus!
