//! Which of the files that were found are documents.

use vstd::prelude::*;
use crate::paths::extension_of;
use crate::paths::path_extension;

verus! {

/// Whether the file at `path` is a Markdown document: its name ends in
/// `.md`.
pub open spec fn is_markdown(path: Seq<char>) -> bool {
    extension_of(path) == Some("md"@)
}

/// The Markdown documents among the first `n` of `paths`, in their order.
pub open spec fn markdown_among(paths: Seq<Seq<char>>, n: nat) -> Seq<Seq<char>>
    decreases n,
{
    if n == 0 || n > paths.len() {
        Seq::empty()
    } else if is_markdown(paths[n - 1]) {
        markdown_among(paths, (n - 1) as nat).push(paths[n - 1])
    } else {
        markdown_among(paths, (n - 1) as nat)
    }
}

/// The views of a vector of strings.
pub open spec fn texts(strings: Seq<String>) -> Seq<Seq<char>> {
    strings.map_values(|s: String| s@)
}

/// Whether the file at `path` is a Markdown document.
pub fn has_markdown_extension(path: &str) -> (r: bool)
    ensures
        r == is_markdown(path@),
{
    match path_extension(path) {
        Some(extension) => extension == String::from_str("md"),
        None => false,
    }
}

/// The Markdown documents among `candidates`, the files that were found
/// under the source path, in their order.
pub fn collect_markdown_files(candidates: &Vec<String>) -> (files: Vec<String>)
    ensures
        texts(files@) == markdown_among(texts(candidates@), candidates@.len()),
{
    let mut files: Vec<String> = Vec::new();
    let mut i: usize = 0;
    while i < candidates.len()
        invariant
            i <= candidates.len(),
            texts(files@) =~= markdown_among(texts(candidates@), i as nat),
        decreases candidates.len() - i,
    {
        proof {
            assert(texts(candidates@)[i as int] == candidates@[i as int]@);
        }
        if has_markdown_extension(candidates[i].as_str()) {
            let path = candidates[i].clone();
            proof {
                assert(texts(files@.push(path)) =~= texts(files@).push(path@));
            }
            files.push(path);
        }
        i += 1;
    }
    files
}

} // verus!
