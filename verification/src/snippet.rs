//! Code snippets: lines of a file, set in a fenced code block.

use vstd::prelude::*;
use crate::error::Failure;
use crate::error::ResolveError;
use crate::lines::join;
use crate::lines::join_lines;
use crate::lines::lines_of;
use crate::lines::split_lines;
use crate::lines::views;
use crate::paths::is_absolute;
use crate::paths::joined;
use crate::paths::parent_of;
use crate::paths::path_is_absolute;
use crate::paths::path_join;
use crate::paths::path_parent;
use crate::sources::Sources;
use crate::text::append_chars;
use crate::text::append_str;
use crate::text::chars_of;
use crate::text::copy_chars;
use crate::text::string_of;
use crate::types::CodeSnippetParameters;
use crate::types::SnippetSettings;

verus! {

/// The file that the path of a code-snippet directive stands for: the path
/// itself where it is absolute, else the path as seen from the directory of
/// the current file.
pub open spec fn snippet_target(file_path: Seq<char>, current_file: Seq<char>) -> Result<
    Seq<char>,
    Failure,
> {
    if is_absolute(file_path) {
        Ok(file_path)
    } else {
        match parent_of(current_file) {
            Some(directory) => Ok(joined(directory, file_path)),
            None => Err(Failure::NoParentDirectory),
        }
    }
}

/// The index of the first line of a snippet, counted from zero.
pub open spec fn first_line(settings: SnippetSettings) -> nat {
    match settings.start {
        Some(start) => if start > 0 {
            (start - 1) as nat
        } else {
            0
        },
        None => 0,
    }
}

/// The index behind the last line of a snippet of a file of `length` lines.
pub open spec fn end_line(settings: SnippetSettings, length: nat) -> nat {
    match settings.end {
        Some(end) => if end <= length {
            end as nat
        } else {
            length
        },
        None => length,
    }
}

/// A fenced code block with `code` in it, for the language `lang`.
pub open spec fn code_block(lang: Option<Seq<char>>, code: Seq<char>) -> Seq<char> {
    "```"@ + (match lang {
        Some(l) => l,
        None => Seq::empty(),
    }) + seq!['\n'] + code + "\n```"@
}

/// The snippet that the parameters cut out of `content`: the lines from
/// `start` to `end`, both counted from one and both included, in a fenced
/// code block. Without `start` it begins at the first line, without `end` it
/// ends at the last. A text without lines gives an empty snippet, without a
/// block.
pub open spec fn snippet_of(content: Seq<char>, settings: SnippetSettings) -> Result<
    Seq<char>,
    Failure,
> {
    let lines = lines_of(content);
    let first = first_line(settings);
    let end = end_line(settings, lines.len());
    if lines.len() == 0 {
        Ok(Seq::empty())
    } else if first >= lines.len() {
        Err(Failure::StartBeyondEnd { start: first + 1, length: lines.len() })
    } else if settings.end is Some && end <= first {
        Err(Failure::InvalidRange)
    } else {
        Ok(code_block(settings.lang, join_lines(lines.subrange(first as int, end as int))))
    }
}

/// Cuts the snippet that `params` ask for out of `content`.
pub fn extract_snippet(content: &Vec<char>, params: &CodeSnippetParameters) -> (r: Result<
    Vec<char>,
    ResolveError,
>)
    ensures
        match snippet_of(content@, params@) {
            Ok(block) => r is Ok && r->Ok_0@ == block,
            Err(failure) => r is Err && r->Err_0@ == failure,
        },
{
    let lines = split_lines(content);
    let length = lines.len();
    proof {
        assert(views(lines@).len() == lines.len());
    }
    if length == 0 {
        return Ok(Vec::new());
    }
    let first: usize = match params.start {
        Some(start) => if start > 0 {
            start - 1
        } else {
            0
        },
        None => 0,
    };
    let end: usize = match params.end {
        Some(e) => if e <= length {
            e
        } else {
            length
        },
        None => length,
    };
    if first >= length {
        return Err(ResolveError::StartBeyondEnd { start: first + 1, length });
    }
    if params.end.is_some() && end <= first {
        return Err(ResolveError::InvalidRange);
    }
    let mut selected: Vec<Vec<char>> = Vec::new();
    let mut i: usize = first;
    while i < end
        invariant
            first <= i <= end <= lines.len(),
            views(selected@) =~= views(lines@).subrange(first as int, i as int),
        decreases end - i,
    {
        let line = copy_chars(&lines[i]);
        proof {
            assert(views(selected@.push(line)) =~= views(selected@).push(line@));
        }
        selected.push(line);
        i += 1;
    }
    let code = join(&selected);
    let mut out: Vec<char> = Vec::new();
    append_str(&mut out, "```");
    match &params.lang {
        Some(lang) => {
            append_str(&mut out, lang.as_str());
        },
        None => {},
    }
    out.push('\n');
    append_chars(&mut out, &code);
    append_str(&mut out, "\n```");
    proof {
        assert(out@ =~= code_block(params@.lang, code@));
    }
    Ok(out)
}

/// What a code-snippet directive gives: the snippet of the file that its path
/// stands for. A file that was not looked at is the failure `SourceNotLoaded`,
/// one that could not be read `IncludeReadFailed`.
pub open spec fn code_snippet(
    file_path: Seq<char>,
    current_file: Seq<char>,
    settings: SnippetSettings,
    sources: Map<Seq<char>, Result<Seq<char>, Seq<char>>>,
) -> Result<Seq<char>, Failure> {
    match snippet_target(file_path, current_file) {
        Ok(target) => if sources.contains_key(target) {
            match sources[target] {
                Ok(content) => snippet_of(content, settings),
                Err(message) => Err(Failure::IncludeReadFailed { path: target, message }),
            }
        } else {
            Err(Failure::SourceNotLoaded { path: target })
        },
        Err(failure) => Err(failure),
    }
}

/// The file that the path of a code-snippet directive stands for.
pub fn resolve_snippet_path(file_path: &str, current_file: &str) -> (r: Result<
    String,
    ResolveError,
>)
    ensures
        match snippet_target(file_path@, current_file@) {
            Ok(target) => r is Ok && r->Ok_0@ == target,
            Err(failure) => r is Err && r->Err_0@ == failure,
        },
{
    if path_is_absolute(file_path) {
        Ok(String::from_str(file_path))
    } else {
        match path_parent(current_file) {
            Some(directory) => Ok(path_join(directory.as_str(), file_path)),
            None => Err(ResolveError::NoParentDirectory),
        }
    }
}

/// `process_code_snippet` with the block as characters.
pub fn code_snippet_chars(
    file_path: &str,
    current_file: &str,
    params: &CodeSnippetParameters,
    sources: &Sources,
) -> (r: Result<Vec<char>, ResolveError>)
    ensures
        match code_snippet(file_path@, current_file@, params@, sources@) {
            Ok(block) => r is Ok && r->Ok_0@ == block,
            Err(failure) => r is Err && r->Err_0@ == failure,
        },
{
    let target = match resolve_snippet_path(file_path, current_file) {
        Ok(t) => t,
        Err(e) => {
            return Err(e);
        },
    };
    match sources.get(target.as_str()) {
        Some(Ok(content)) => extract_snippet(&chars_of(content.as_str()), params),
        Some(Err(message)) => Err(
            ResolveError::IncludeReadFailed { path: target, message: message.clone() },
        ),
        None => Err(ResolveError::SourceNotLoaded { path: target }),
    }
}

/// The code block that a code-snippet directive stands for: the lines
/// `start` to `end` of the file at `file_path`, seen from the directory of
/// `current_file` unless it is absolute, in a fence that names `lang`.
pub fn process_code_snippet(
    file_path: &str,
    current_file: &str,
    params: &CodeSnippetParameters,
    sources: &Sources,
) -> (r: Result<String, ResolveError>)
    ensures
        match code_snippet(file_path@, current_file@, params@, sources@) {
            Ok(block) => r is Ok && r->Ok_0@ == block,
            Err(failure) => r is Err && r->Err_0@ == failure,
        },
{
    match code_snippet_chars(file_path, current_file, params, sources) {
        Ok(block) => Ok(string_of(&block)),
        Err(e) => Err(e),
    }
}

} // verus!
