//! The resolution of the directives of a document.
//!
//! A document is rewritten in passes. A pass looks for the directives of the
//! text, leaves those in code alone, and puts in the place of each of the
//! others what it stands for: the text of the included file, itself
//! resolved, or the code block, or a comment that tells why there is neither.
//! Each directive that a pass works on leaves a record in the trace. Passes
//! follow one another until one finds nothing to work on.
//!
//! Files are not read here. The resolution goes by `Sources`, which hold
//! what was found at each path that was looked at; where it needs a path
//! that was not, it ends with `SourceNotLoaded`, and can be run again once
//! the path has been looked at.

use vstd::prelude::*;
pub use crate::directive::parse_codesnippet_parameters;
pub use crate::directive::parse_include_parameters;
pub use crate::fence::validate_and_fix_code_fences;
pub use crate::paths::resolve_include_path;
pub use crate::snippet::process_code_snippet;
pub use crate::variables::process_variables;
use crate::directive::append_defused;
use crate::directive::defused;
use crate::directive::parse_codesnippet_chars;
use crate::directive::parse_include_chars;
use crate::directive::parsed_codesnippet;
use crate::directive::parsed_include;
use crate::directive::text_or_empty;
use crate::error::Failure;
use crate::error::ResolveError;
use crate::fence::excluded;
use crate::fence::excluded_at;
use crate::fence::text_of;
use crate::fence::validate_chars;
use crate::fence::validated;
use crate::paths::include_target;
use crate::pattern::find_all;
use crate::pattern::group_chars;
use crate::pattern::group_text;
use crate::pattern::group_views;
use crate::pattern::match_end;
use crate::pattern::match_start;
use crate::pattern::matches_in;
use crate::pattern::Groups;
use crate::snippet::code_snippet;
use crate::snippet::code_snippet_chars;
use crate::sources::Sources;
use crate::text::append_chars;
use crate::text::append_str;
use crate::text::chars_of;
use crate::text::copy_chars;
use crate::text::repeated;
use crate::text::same_chars;
use crate::text::string_of;
use crate::text::strip_chars_end;
use crate::text::trim_end;
use crate::text::CharClass;
use crate::types::records;
use crate::types::IncludeParameters;
use crate::types::IncludeRecord;
use crate::types::IncludeResult;
use crate::types::IncludeSettings;
use crate::variables::append_span;
use crate::variables::match_bounds;
use crate::variables::span;
use crate::variables::substitute_chars;
use crate::variables::substituted;
use crate::variables::MAX_SUBSTITUTION_PASSES;

verus! {

/// A directive with the line feeds around it: those before it, the directive
/// from `!` to its closing parenthesis, its kind, and the line feeds after
/// it.
pub const DIRECTIVE_PATTERN: &'static str =
    r"(?s)(\n*?)(!(include|codesnippet)\s*\((?:[^()]*|\([^()]*\))*\))(\n*)";

/// How deep includes may be nested.
pub const MAX_DEPTH: usize = 5;

/// The number of passes after which directives must be gone.
pub const MAX_PASSES: usize = 50;

/// `content` under a heading of the given level: as many `#` as the level,
/// a space, the title, an empty line, then the content.
pub open spec fn titled(content: Seq<char>, title: Seq<char>, level: u8) -> Seq<char> {
    repeated('#', level as nat) + seq![' '] + title + seq!['\n', '\n'] + content
}

/// `content` under a heading made of `title`, of the given level.
pub fn add_title_chars(content: &Vec<char>, title: &str, level: u8) -> (out: Vec<char>)
    ensures
        out@ == titled(content@, title@, level),
{
    let mut out: Vec<char> = Vec::new();
    let mut i: u8 = 0;
    while i < level
        invariant
            i <= level,
            out@ =~= repeated('#', i as nat),
        decreases level - i,
    {
        out.push('#');
        i += 1;
    }
    out.push(' ');
    append_str(&mut out, title);
    out.push('\n');
    out.push('\n');
    append_chars(&mut out, content);
    proof {
        assert(out@ =~= titled(content@, title@, level));
    }
    out
}

/// `content` under a heading made of `title`, of the given level.
pub fn add_title_to_content(content: &str, title: &str, level: u8) -> (out: String)
    ensures
        out@ == titled(content@, title@, level),
{
    let chars = chars_of(content);
    string_of(&add_title_chars(&chars, title, level))
}

/// The record of a directive that was resolved.
pub open spec fn succeeded(path: Seq<char>) -> IncludeRecord {
    IncludeRecord { path, success: true, error_message: None }
}

/// The record of a directive that was not resolved.
pub open spec fn failed(path: Seq<char>, message: Seq<char>) -> IncludeRecord {
    IncludeRecord { path, success: false, error_message: Some(message) }
}

/// The comment that stands in the place of a directive that was not
/// resolved: `lead`, which opens the comment and tells what failed, then the
/// subject, then the message. The subject and the message stand there as
/// they are given, but that an exclamation mark with the word of a directive
/// directly behind it is parted from the word by a space: so no later pass
/// finds a directive that begins in the comment.
pub open spec fn failure_comment(lead: Seq<char>, subject: Seq<char>, message: Seq<char>) -> Seq<
    char,
> {
    lead + defused(subject) + " (Error: "@ + defused(message) + ") -->"@
}

/// What comes of one directive.
pub struct Replacement {
    /// What stands in the place of the directive and the line feeds around
    /// it.
    pub text: Seq<char>,
    /// The records that the directive leaves.
    pub trace: Seq<IncludeRecord>,
    /// What ends the whole resolution.
    pub failure: Option<Failure>,
}

/// A pass over the directives of a text, as far as it has come.
pub struct Sweep {
    /// The new text so far.
    pub out: Seq<char>,
    /// Where the last directive, with its line feeds, ended.
    pub last_end: int,
    /// Whether the pass has worked on a directive.
    pub found: bool,
    /// The records so far.
    pub trace: Seq<IncludeRecord>,
    /// What ended the pass, and the resolution with it.
    pub failure: Option<Failure>,
}

/// What comes of the resolution of a text.
pub struct Resolution {
    /// The records of the directives that were worked on, in the order of
    /// the work.
    pub trace: Seq<IncludeRecord>,
    /// The text without directives, or what ended the resolution.
    pub outcome: Result<Seq<char>, Failure>,
}

/// How far from the bound a depth is.
pub open spec fn depth_left(depth: nat) -> nat {
    if depth <= MAX_DEPTH {
        (MAX_DEPTH + 1 - depth) as nat
    } else {
        0
    }
}

/// What comes of a directive that stands for `text`: the text between the
/// line feeds that stood around the directive, and a record of success.
pub open spec fn done(before: Seq<char>, text: Seq<char>, after: Seq<char>, path: Seq<char>)
    -> Replacement {
    Replacement { text: before + text + after, trace: seq![succeeded(path)], failure: None }
}

/// What comes of a directive that is given up: a comment that tells of it,
/// between the line feeds that stood around the directive, and a failed
/// record. The comment names `subject`, the record `path`.
pub open spec fn given_up(
    before: Seq<char>,
    after: Seq<char>,
    lead: Seq<char>,
    subject: Seq<char>,
    message: Seq<char>,
    path: Seq<char>,
    told: Seq<char>,
) -> Replacement {
    Replacement {
        text: before + failure_comment(lead, subject, message) + after,
        trace: seq![failed(path, told)],
        failure: None,
    }
}

/// What comes of a directive that ends the resolution.
pub open spec fn ended(failure: Failure) -> Replacement {
    Replacement { text: Seq::empty(), trace: Seq::empty(), failure: Some(failure) }
}

/// `replacement` with `record` before its own records.
pub open spec fn after_record(record: IncludeRecord, replacement: Replacement) -> Replacement {
    Replacement { trace: seq![record] + replacement.trace, ..replacement }
}

/// What comes of a code-snippet directive. A directive that cannot be read,
/// or whose snippet cannot be had, leaves a failed record and a comment in
/// its place. Only a file that was not looked at ends the resolution.
pub open spec fn snippet_replacement(
    directive: Seq<char>,
    before: Seq<char>,
    after: Seq<char>,
    current_file: Seq<char>,
    sources: Map<Seq<char>, Result<Seq<char>, Seq<char>>>,
) -> Replacement {
    match parsed_codesnippet(directive) {
        Ok((path, settings)) => match code_snippet(path, current_file, settings, sources) {
            Ok(block) => done(before, block, after, path),
            Err(Failure::SourceNotLoaded { path: target }) => ended(
                Failure::SourceNotLoaded { path: target },
            ),
            Err(failure) => given_up(
                before,
                after,
                "<!-- Failed to process codesnippet: "@,
                path,
                failure.message(),
                path,
                failure.message(),
            ),
        },
        Err(failure) => given_up(
            before,
            after,
            "<!-- Failed to parse codesnippet directive: "@,
            directive,
            failure.message(),
            directive,
            "Failed to parse codesnippet directive: "@ + failure.message(),
        ),
    }
}

/// The text of an included file before its own directives are resolved: with
/// the values of the directive in the place of its placeholders, where the
/// directive gives values, and under the title, where it gives one.
pub open spec fn prepared(text: Seq<char>, settings: IncludeSettings) -> Result<
    Seq<char>,
    Failure,
> {
    let filled = if settings.values == Map::<Seq<char>, Seq<char>>::empty() {
        Ok(text)
    } else {
        substituted(text, settings.values, MAX_SUBSTITUTION_PASSES as nat)
    };
    match filled {
        Ok(body) => Ok(
            match settings.title {
                Some(title) => titled(
                    body,
                    title,
                    match settings.title_level {
                        Some(level) => level,
                        None => 1u8,
                    },
                ),
                None => body,
            },
        ),
        Err(failure) => Err(failure),
    }
}

/// What comes of the prepared text `body` of the file `target`, included at
/// the given depth: the text, resolved one level deeper and without the
/// white space at its end, between the line feeds that stood around the
/// directive, and the records of its directives. What ends the resolution
/// of the text ends the whole.
pub open spec fn nested(
    body: Seq<char>,
    target: Seq<char>,
    before: Seq<char>,
    after: Seq<char>,
    partials_path: Seq<char>,
    sources: Map<Seq<char>, Result<Seq<char>, Seq<char>>>,
    depth: nat,
) -> Replacement
    decreases depth_left(depth), 0nat, 0nat,
{
    if depth > MAX_DEPTH {
        ended(Failure::MaxDepthExceeded)
    } else {
        let inner = resolved(body, target, partials_path, sources, depth + 1, MAX_PASSES as nat);
        match inner.outcome {
            Ok(text) => Replacement {
                text: before + trim_end(text) + after,
                trace: inner.trace,
                failure: None,
            },
            Err(failure) => Replacement {
                text: Seq::empty(),
                trace: inner.trace,
                failure: Some(failure),
            },
        }
    }
}

/// What comes of the include of the file `target`, which the directive
/// names as `path`. A file that could not be read leaves a failed record
/// and a comment. One that was read leaves a record of success; after it
/// come a failed record and a comment where its placeholders cannot be
/// filled, and else what comes of its text. A file that was not looked at
/// ends the resolution.
pub open spec fn included(
    path: Seq<char>,
    settings: IncludeSettings,
    target: Seq<char>,
    before: Seq<char>,
    after: Seq<char>,
    partials_path: Seq<char>,
    sources: Map<Seq<char>, Result<Seq<char>, Seq<char>>>,
    depth: nat,
) -> Replacement
    decreases depth_left(depth), 0nat, 1nat,
{
    if !sources.contains_key(target) {
        ended(Failure::SourceNotLoaded { path: target })
    } else {
        match sources[target] {
            Ok(text) => after_record(
                succeeded(target),
                match prepared(text, settings) {
                    Ok(body) => nested(body, target, before, after, partials_path, sources, depth),
                    Err(failure) => given_up(
                        before,
                        after,
                        "<!-- Failed to process variables in include: "@,
                        path,
                        failure.message(),
                        target,
                        "Variable processing failed: "@ + failure.message(),
                    ),
                },
            ),
            Err(message) => given_up(
                before,
                after,
                "<!-- Failed to include: "@,
                path,
                message,
                target,
                message,
            ),
        }
    }
}

/// What comes of an include directive at the given depth. A directive that
/// cannot be read, and a path that stands for no file, leave a failed
/// record and a comment; for the rest see `included`.
pub open spec fn include_replacement(
    directive: Seq<char>,
    before: Seq<char>,
    after: Seq<char>,
    current_file: Seq<char>,
    partials_path: Seq<char>,
    sources: Map<Seq<char>, Result<Seq<char>, Seq<char>>>,
    depth: nat,
) -> Replacement
    decreases depth_left(depth), 0nat, 2nat,
{
    match parsed_include(directive) {
        Ok((path, settings)) => match include_target(path, current_file, partials_path) {
            Ok(target) => included(
                path,
                settings,
                target,
                before,
                after,
                partials_path,
                sources,
                depth,
            ),
            Err(failure) => given_up(
                before,
                after,
                "<!-- Failed to include: "@,
                path,
                failure.message(),
                path,
                failure.message(),
            ),
        },
        Err(failure) => given_up(
            before,
            after,
            "<!-- Failed to parse include directive: "@,
            directive,
            failure.message(),
            directive,
            "Failed to parse include directive: "@ + failure.message(),
        ),
    }
}

/// What comes of the directive that was found with `groups` in `content`.
pub open spec fn replaced(
    content: Seq<char>,
    groups: Seq<Option<(usize, usize)>>,
    current_file: Seq<char>,
    partials_path: Seq<char>,
    sources: Map<Seq<char>, Result<Seq<char>, Seq<char>>>,
    depth: nat,
) -> Replacement
    decreases depth_left(depth), 0nat, 3nat,
{
    let before = text_or_empty(group_text(content, groups, 1));
    let directive = text_or_empty(group_text(content, groups, 2));
    let kind = text_or_empty(group_text(content, groups, 3));
    let after = text_or_empty(group_text(content, groups, 4));
    if kind == "include"@ {
        include_replacement(
            directive,
            before,
            after,
            current_file,
            partials_path,
            sources,
            depth,
        )
    } else if kind == "codesnippet"@ {
        snippet_replacement(directive, before, after, current_file, sources)
    } else {
        Replacement { text: Seq::empty(), trace: Seq::empty(), failure: None }
    }
}

/// What a pass does at one directive.
pub struct Effect {
    /// What the pass adds to the new text.
    pub kept: Seq<char>,
    /// Whether the directive was worked on.
    pub worked: bool,
    /// The records that the directive leaves.
    pub trace: Seq<IncludeRecord>,
    /// What ends the resolution.
    pub failure: Option<Failure>,
}

/// What a pass over `content` that has come to `last_end` does at the
/// directive found with `groups`. A directive that begins, with the line
/// feeds before it, in a fenced code block or in inline code is kept as it
/// is, with what stands before it, and leaves no record. Any other is worked on: what stands before it is
/// kept, and after that comes what the directive stands for.
pub open spec fn effect(
    content: Seq<char>,
    last_end: int,
    groups: Seq<Option<(usize, usize)>>,
    current_file: Seq<char>,
    partials_path: Seq<char>,
    sources: Map<Seq<char>, Result<Seq<char>, Seq<char>>>,
    depth: nat,
) -> Effect
    decreases depth_left(depth), 0nat, 4nat,
{
    if match_start(groups) <= content.len() && excluded(content, match_start(groups) as int) {
        Effect {
            kept: span(content, last_end, match_end(groups) as int),
            worked: false,
            trace: Seq::empty(),
            failure: None,
        }
    } else {
        let replacement = replaced(content, groups, current_file, partials_path, sources, depth);
        Effect {
            kept: span(content, last_end, match_start(groups) as int) + replacement.text,
            worked: true,
            trace: replacement.trace,
            failure: replacement.failure,
        }
    }
}

/// The pass over `content` after the first `n` of its directives, found at
/// `matches`. What ends the resolution ends the pass.
pub open spec fn swept(
    content: Seq<char>,
    matches: Seq<Seq<Option<(usize, usize)>>>,
    n: nat,
    current_file: Seq<char>,
    partials_path: Seq<char>,
    sources: Map<Seq<char>, Result<Seq<char>, Seq<char>>>,
    depth: nat,
) -> Sweep
    decreases depth_left(depth), 1nat, n,
{
    if n == 0 || n > matches.len() {
        Sweep {
            out: Seq::empty(),
            last_end: 0,
            found: false,
            trace: Seq::empty(),
            failure: None,
        }
    } else {
        let so_far = swept(
            content,
            matches,
            (n - 1) as nat,
            current_file,
            partials_path,
            sources,
            depth,
        );
        let groups = matches[n - 1];
        if so_far.failure is Some {
            so_far
        } else {
            let here = effect(
                content,
                so_far.last_end,
                groups,
                current_file,
                partials_path,
                sources,
                depth,
            );
            match here.failure {
                Some(failure) => Sweep {
                    found: so_far.found || here.worked,
                    trace: so_far.trace + here.trace,
                    failure: Some(failure),
                    ..so_far
                },
                None => Sweep {
                    out: so_far.out + here.kept,
                    last_end: match_end(groups) as int,
                    found: so_far.found || here.worked,
                    trace: so_far.trace + here.trace,
                    failure: None,
                },
            }
        }
    }
}

/// The text that a finished pass leaves.
pub open spec fn swept_text(content: Seq<char>, sweep: Sweep) -> Seq<char> {
    sweep.out + span(content, sweep.last_end, content.len() as int)
}

/// What comes of the resolution of `content`, the text of `current_file`, at
/// the given depth and in at most `passes` passes. Deeper than `MAX_DEPTH`
/// nothing is resolved. A pass that works on no directive ends the
/// resolution with the text as it is; directives that are still worked on
/// in the last pass end it with a failure.
pub open spec fn resolved(
    content: Seq<char>,
    current_file: Seq<char>,
    partials_path: Seq<char>,
    sources: Map<Seq<char>, Result<Seq<char>, Seq<char>>>,
    depth: nat,
    passes: nat,
) -> Resolution
    decreases depth_left(depth), 2 + passes, 0nat,
{
    if depth > MAX_DEPTH {
        Resolution { trace: Seq::empty(), outcome: Err(Failure::MaxDepthExceeded) }
    } else if passes == 0 {
        Resolution { trace: Seq::empty(), outcome: Err(Failure::IterationLimitExceeded) }
    } else {
        let matches = matches_in(DIRECTIVE_PATTERN@, content);
        let sweep = swept(
            content,
            matches,
            matches.len(),
            current_file,
            partials_path,
            sources,
            depth,
        );
        match sweep.failure {
            Some(failure) => Resolution { trace: sweep.trace, outcome: Err(failure) },
            None => if !sweep.found {
                Resolution { trace: sweep.trace, outcome: Ok(content) }
            } else {
                let rest = resolved(
                    swept_text(content, sweep),
                    current_file,
                    partials_path,
                    sources,
                    depth,
                    (passes - 1) as nat,
                );
                Resolution { trace: sweep.trace + rest.trace, outcome: rest.outcome }
            },
        }
    }
}

/// Whether `result` is the text, or the failure where there is one.
pub open spec fn gives(
    result: Result<Vec<char>, ResolveError>,
    text: Seq<char>,
    failure: Option<Failure>,
) -> bool {
    match failure {
        Some(f) => result is Err && result->Err_0@ == f,
        None => result is Ok && result->Ok_0@ == text,
    }
}

/// Whether `result` and the records added to a trace are what `replacement`
/// says.
pub open spec fn carried_out(
    result: Result<Vec<char>, ResolveError>,
    before: Seq<IncludeResult>,
    after: Seq<IncludeResult>,
    replacement: Replacement,
) -> bool {
    &&& records(after) == records(before) + replacement.trace
    &&& gives(result, replacement.text, replacement.failure)
}

/// Gives a directive up: see `given_up`.
fn give_up(
    before: &Vec<char>,
    after: &Vec<char>,
    lead: &str,
    subject: &Vec<char>,
    message: &Vec<char>,
    path: &Vec<char>,
    told: &Vec<char>,
    trace: &mut Vec<IncludeResult>,
) -> (r: Result<Vec<char>, ResolveError>)
    ensures
        carried_out(
            r,
            old(trace)@,
            final(trace)@,
            given_up(before@, after@, lead@, subject@, message@, path@, told@),
        ),
{
    let record = IncludeResult {
        path: string_of(path),
        success: false,
        error_message: Some(string_of(told)),
    };
    proof {
        assert(records(trace@.push(record)) =~= records(trace@) + seq![failed(path@, told@)]);
    }
    trace.push(record);
    let mut out = copy_chars(before);
    append_str(&mut out, lead);
    append_defused(&mut out, subject);
    append_str(&mut out, " (Error: ");
    append_defused(&mut out, message);
    append_str(&mut out, ") -->");
    append_chars(&mut out, after);
    proof {
        assert(out@ =~= before@ + failure_comment(lead@, subject@, message@) + after@);
    }
    Ok(out)
}

/// `middle` between `before` and `after`.
fn wrap(before: &Vec<char>, middle: &Vec<char>, after: &Vec<char>) -> (out: Vec<char>)
    ensures
        out@ == before@ + middle@ + after@,
{
    let mut out = copy_chars(before);
    append_chars(&mut out, middle);
    append_chars(&mut out, after);
    out
}

/// Adds the record of a directive that was resolved.
fn record_success(trace: &mut Vec<IncludeResult>, path: &Vec<char>)
    ensures
        records(final(trace)@) == records(old(trace)@) + seq![succeeded(path@)],
{
    let record = IncludeResult { path: string_of(path), success: true, error_message: None };
    proof {
        assert(records(trace@.push(record)) =~= records(trace@) + seq![succeeded(path@)]);
    }
    trace.push(record);
}

/// `lead` followed by the words of `error`.
fn prefixed_message(lead: &str, error: &ResolveError) -> (out: Vec<char>)
    ensures
        out@ == lead@ + error@.message(),
{
    let mut out = chars_of(lead);
    append_chars(&mut out, &error.message_chars());
    out
}

/// Works on a code-snippet directive: see `snippet_replacement`.
pub fn replace_snippet(
    directive: &Vec<char>,
    before: &Vec<char>,
    after: &Vec<char>,
    current_file: &str,
    sources: &Sources,
    trace: &mut Vec<IncludeResult>,
) -> (r: Result<Vec<char>, ResolveError>)
    ensures
        carried_out(
            r,
            old(trace)@,
            final(trace)@,
            snippet_replacement(directive@, before@, after@, current_file@, sources@),
        ),
{
    match parse_codesnippet_chars(directive) {
        Ok((path, parameters)) => {
            let path_text = string_of(&path);
            match code_snippet_chars(path_text.as_str(), current_file, &parameters, sources) {
                Ok(block) => {
                    record_success(trace, &path);
                    Ok(wrap(before, &block, after))
                },
                Err(ResolveError::SourceNotLoaded { path: target }) => {
                    proof {
                        assert(records(trace@) + Seq::<IncludeRecord>::empty() =~= records(
                            trace@,
                        ));
                    }
                    Err(ResolveError::SourceNotLoaded { path: target })
                },
                Err(e) => {
                    let message = e.message_chars();
                    give_up(
                        before,
                        after,
                        "<!-- Failed to process codesnippet: ",
                        &path,
                        &message,
                        &path,
                        &message,
                        trace,
                    )
                },
            }
        },
        Err(e) => {
            let message = e.message_chars();
            let told = prefixed_message("Failed to parse codesnippet directive: ", &e);
            give_up(
                before,
                after,
                "<!-- Failed to parse codesnippet directive: ",
                directive,
                &message,
                directive,
                &told,
                trace,
            )
        },
    }
}

/// Prepares the text of an included file: see `prepared`.
pub fn prepare(text: &Vec<char>, parameters: &IncludeParameters) -> (r: Result<
    Vec<char>,
    ResolveError,
>)
    ensures
        match prepared(text@, parameters@) {
            Ok(body) => r is Ok && r->Ok_0@ == body,
            Err(failure) => r is Err && r->Err_0@ == failure,
        },
{
    let filled = if parameters.values.is_empty() {
        Ok(copy_chars(text))
    } else {
        substitute_chars(text, &parameters.values)
    };
    match filled {
        Ok(body) => match &parameters.title {
            Some(title) => {
                let level: u8 = match parameters.title_level {
                    Some(l) => l,
                    None => 1,
                };
                Ok(add_title_chars(&body, title.as_str(), level))
            },
            None => Ok(body),
        },
        Err(e) => Err(e),
    }
}

/// Resolves the prepared text of an included file: see `nested`.
pub fn resolve_nested(
    body: &Vec<char>,
    target: &str,
    before: &Vec<char>,
    after: &Vec<char>,
    partials_path: &str,
    sources: &Sources,
    depth: usize,
    trace: &mut Vec<IncludeResult>,
) -> (r: Result<Vec<char>, ResolveError>)
    ensures
        carried_out(
            r,
            old(trace)@,
            final(trace)@,
            nested(body@, target@, before@, after@, partials_path@, sources@, depth as nat),
        ),
    decreases depth_left(depth as nat), 0nat, 0nat,
{
    if depth > MAX_DEPTH {
        proof {
            assert(records(trace@) + Seq::<IncludeRecord>::empty() =~= records(trace@));
        }
        return Err(ResolveError::MaxDepthExceeded);
    }
    match resolve(body, target, partials_path, sources, depth + 1, trace) {
        Ok(inner) => {
            let trimmed = strip_chars_end(&inner, CharClass::Whitespace);
            Ok(wrap(before, &trimmed, after))
        },
        Err(e) => Err(e),
    }
}

/// Includes the file `target`: see `included`.
pub fn include_file(
    path: &Vec<char>,
    parameters: &IncludeParameters,
    target: &str,
    before: &Vec<char>,
    after: &Vec<char>,
    partials_path: &str,
    sources: &Sources,
    depth: usize,
    trace: &mut Vec<IncludeResult>,
) -> (r: Result<Vec<char>, ResolveError>)
    ensures
        carried_out(
            r,
            old(trace)@,
            final(trace)@,
            included(
                path@,
                parameters@,
                target@,
                before@,
                after@,
                partials_path@,
                sources@,
                depth as nat,
            ),
        ),
    decreases depth_left(depth as nat), 0nat, 1nat,
{
    let ghost start = records(trace@);
    let target_chars = chars_of(target);
    match sources.get(target) {
        Some(Ok(text)) => {
            let text = chars_of(text.as_str());
            record_success(trace, &target_chars);
            let ghost what = match prepared(text@, parameters@) {
                Ok(body) => nested(
                    body,
                    target@,
                    before@,
                    after@,
                    partials_path@,
                    sources@,
                    depth as nat,
                ),
                Err(failure) => given_up(
                    before@,
                    after@,
                    "<!-- Failed to process variables in include: "@,
                    path@,
                    failure.message(),
                    target@,
                    "Variable processing failed: "@ + failure.message(),
                ),
            };
            proof {
                assert(start + seq![succeeded(target@)] + what.trace =~= start + (seq![
                    succeeded(target@),
                ] + what.trace));
            }
            match prepare(&text, parameters) {
                Ok(body) => resolve_nested(
                    &body,
                    target,
                    before,
                    after,
                    partials_path,
                    sources,
                    depth,
                    trace,
                ),
                Err(e) => {
                    let message = e.message_chars();
                    let told = prefixed_message("Variable processing failed: ", &e);
                    give_up(
                        before,
                        after,
                        "<!-- Failed to process variables in include: ",
                        path,
                        &message,
                        &target_chars,
                        &told,
                        trace,
                    )
                },
            }
        },
        Some(Err(message)) => {
            let message = chars_of(message.as_str());
            give_up(
                before,
                after,
                "<!-- Failed to include: ",
                path,
                &message,
                &target_chars,
                &message,
                trace,
            )
        },
        None => {
            proof {
                assert(start + Seq::<IncludeRecord>::empty() =~= start);
            }
            Err(ResolveError::SourceNotLoaded { path: String::from_str(target) })
        },
    }
}

/// Works on an include directive: see `include_replacement`.
pub fn replace_include(
    directive: &Vec<char>,
    before: &Vec<char>,
    after: &Vec<char>,
    current_file: &str,
    partials_path: &str,
    sources: &Sources,
    depth: usize,
    trace: &mut Vec<IncludeResult>,
) -> (r: Result<Vec<char>, ResolveError>)
    ensures
        carried_out(
            r,
            old(trace)@,
            final(trace)@,
            include_replacement(
                directive@,
                before@,
                after@,
                current_file@,
                partials_path@,
                sources@,
                depth as nat,
            ),
        ),
    decreases depth_left(depth as nat), 0nat, 2nat,
{
    match parse_include_chars(directive) {
        Ok((path, parameters)) => {
            let path_text = string_of(&path);
            match resolve_include_path(path_text.as_str(), current_file, partials_path) {
                Ok(target) => include_file(
                    &path,
                    &parameters,
                    target.as_str(),
                    before,
                    after,
                    partials_path,
                    sources,
                    depth,
                    trace,
                ),
                Err(e) => {
                    let message = e.message_chars();
                    give_up(
                        before,
                        after,
                        "<!-- Failed to include: ",
                        &path,
                        &message,
                        &path,
                        &message,
                        trace,
                    )
                },
            }
        },
        Err(e) => {
            let message = e.message_chars();
            let told = prefixed_message("Failed to parse include directive: ", &e);
            give_up(
                before,
                after,
                "<!-- Failed to parse include directive: ",
                directive,
                &message,
                directive,
                &told,
                trace,
            )
        },
    }
}

/// Works on the directive that was found with `groups` in `content`: see
/// `replaced`.
pub fn replace_directive(
    content: &Vec<char>,
    groups: &Groups,
    current_file: &str,
    partials_path: &str,
    sources: &Sources,
    depth: usize,
    trace: &mut Vec<IncludeResult>,
) -> (r: Result<Vec<char>, ResolveError>)
    ensures
        carried_out(
            r,
            old(trace)@,
            final(trace)@,
            replaced(
                content@,
                groups@,
                current_file@,
                partials_path@,
                sources@,
                depth as nat,
            ),
        ),
    decreases depth_left(depth as nat), 0nat, 3nat,
{
    let before = group_or_empty(content, groups, 1);
    let directive = group_or_empty(content, groups, 2);
    let kind = group_or_empty(content, groups, 3);
    let after = group_or_empty(content, groups, 4);
    if same_chars(&kind, &chars_of("include")) {
        replace_include(
            &directive,
            &before,
            &after,
            current_file,
            partials_path,
            sources,
            depth,
            trace,
        )
    } else if same_chars(&kind, &chars_of("codesnippet")) {
        replace_snippet(&directive, &before, &after, current_file, sources, trace)
    } else {
        proof {
            assert(records(trace@) + Seq::<IncludeRecord>::empty() =~= records(trace@));
        }
        Ok(Vec::new())
    }
}

/// The text of group `index`, or no text where the group took no part.
fn group_or_empty(content: &Vec<char>, groups: &Groups, index: usize) -> (out: Vec<char>)
    ensures
        out@ == text_or_empty(group_text(content@, groups@, index as int)),
{
    match group_chars(content, groups, index) {
        Some(text) => text,
        None => Vec::new(),
    }
}

/// Does what a pass that has come to `last_end` does at the directive found
/// with `groups`: see `effect`. What comes back is what the pass adds to the
/// new text, and whether the directive was worked on.
pub fn apply_directive(
    content: &Vec<char>,
    last_end: usize,
    groups: &Groups,
    current_file: &str,
    partials_path: &str,
    sources: &Sources,
    depth: usize,
    trace: &mut Vec<IncludeResult>,
) -> (r: Result<(Vec<char>, bool), ResolveError>)
    ensures
        ({
            let here = effect(
                content@,
                last_end as int,
                groups@,
                current_file@,
                partials_path@,
                sources@,
                depth as nat,
            );
            &&& records(final(trace)@) == records(old(trace)@) + here.trace
            &&& match here.failure {
                Some(failure) => r is Err && r->Err_0@ == failure && here.worked,
                None => r is Ok && r->Ok_0.0@ == here.kept && r->Ok_0.1 == here.worked,
            }
        }),
    decreases depth_left(depth as nat), 0nat, 4nat,
{
    let (from, to) = match_bounds(groups);
    if from <= content.len() && excluded_at(content, from) {
        let mut kept: Vec<char> = Vec::new();
        append_span(&mut kept, content, last_end, to);
        proof {
            assert(records(trace@) + Seq::<IncludeRecord>::empty() =~= records(trace@));
            assert(kept@ =~= span(content@, last_end as int, to as int));
        }
        Ok((kept, false))
    } else {
        match replace_directive(
            content,
            groups,
            current_file,
            partials_path,
            sources,
            depth,
            trace,
        ) {
            Ok(text) => {
                let mut kept: Vec<char> = Vec::new();
                append_span(&mut kept, content, last_end, from);
                append_chars(&mut kept, &text);
                proof {
                    assert(kept@ =~= span(content@, last_end as int, from as int) + text@);
                }
                Ok((kept, true))
            },
            Err(e) => Err(e),
        }
    }
}

/// Makes one pass over `content`, given where the search found its
/// directives: see `swept`. What comes back is the new text, or nothing
/// where the pass worked on no directive.
pub fn sweep(
    content: &Vec<char>,
    matches: &Vec<Groups>,
    current_file: &str,
    partials_path: &str,
    sources: &Sources,
    depth: usize,
    trace: &mut Vec<IncludeResult>,
) -> (r: Result<Option<Vec<char>>, ResolveError>)
    ensures
        ({
            let pass = swept(
                content@,
                group_views(matches@),
                matches@.len(),
                current_file@,
                partials_path@,
                sources@,
                depth as nat,
            );
            &&& records(final(trace)@) == records(old(trace)@) + pass.trace
            &&& match pass.failure {
                Some(failure) => r is Err && r->Err_0@ == failure,
                None => r is Ok && if pass.found {
                    r->Ok_0 is Some && r->Ok_0->0@ == swept_text(content@, pass)
                } else {
                    r->Ok_0 is None
                },
            }
        }),
    decreases depth_left(depth as nat), 1nat, matches@.len(),
{
    let ghost found_at = group_views(matches@);
    let ghost start = records(trace@);
    let mut out: Vec<char> = Vec::new();
    let mut last_end: usize = 0;
    let mut found = false;
    let mut i: usize = 0;
    proof {
        assert(start + Seq::<IncludeRecord>::empty() =~= start);
    }
    while i < matches.len()
        invariant
            i <= matches.len(),
            found_at == group_views(matches@),
            found_at.len() == matches@.len(),
            start == records(old(trace)@),
            ({
                let so_far = swept(
                    content@,
                    found_at,
                    i as nat,
                    current_file@,
                    partials_path@,
                    sources@,
                    depth as nat,
                );
                &&& so_far.out == out@
                &&& so_far.last_end == last_end
                &&& so_far.found == found
                &&& so_far.failure is None
                &&& records(trace@) == start + so_far.trace
            }),
        decreases matches.len() - i,
    {
        let groups = &matches[i];
        let ghost so_far = swept(
            content@,
            found_at,
            i as nat,
            current_file@,
            partials_path@,
            sources@,
            depth as nat,
        );
        let ghost here = effect(
            content@,
            last_end as int,
            groups@,
            current_file@,
            partials_path@,
            sources@,
            depth as nat,
        );
        proof {
            assert(found_at[i as int] == groups@);
            assert(start + so_far.trace + here.trace =~= start + (so_far.trace + here.trace));
        }
        let ghost next = swept(
            content@,
            found_at,
            (i + 1) as nat,
            current_file@,
            partials_path@,
            sources@,
            depth as nat,
        );
        proof {
            assert(next.trace == so_far.trace + here.trace);
            assert(next.failure == here.failure);
            assert(next.found == (so_far.found || here.worked));
        }
        let (_, to) = match_bounds(groups);
        match apply_directive(
            content,
            last_end,
            groups,
            current_file,
            partials_path,
            sources,
            depth,
            trace,
        ) {
            Ok((kept, worked)) => {
                append_chars(&mut out, &kept);
                last_end = to;
                found = found || worked;
            },
            Err(e) => {
                proof {
                    lemma_sweep_failure_stays(
                        content@,
                        found_at,
                        (i + 1) as nat,
                        found_at.len(),
                        current_file@,
                        partials_path@,
                        sources@,
                        depth as nat,
                    );
                }
                return Err(e);
            },
        }
        i += 1;
    }
    if found {
        append_span(&mut out, content, last_end, content.len());
        Ok(Some(out))
    } else {
        Ok(None)
    }
}

/// A pass that has failed stays as it is.
pub proof fn lemma_sweep_failure_stays(
    content: Seq<char>,
    matches: Seq<Seq<Option<(usize, usize)>>>,
    n: nat,
    m: nat,
    current_file: Seq<char>,
    partials_path: Seq<char>,
    sources: Map<Seq<char>, Result<Seq<char>, Seq<char>>>,
    depth: nat,
)
    requires
        n <= m <= matches.len(),
        swept(content, matches, n, current_file, partials_path, sources, depth).failure is Some,
    ensures
        swept(content, matches, m, current_file, partials_path, sources, depth) == swept(
            content,
            matches,
            n,
            current_file,
            partials_path,
            sources,
            depth,
        ),
    decreases m - n,
{
    if n < m {
        lemma_sweep_failure_stays(
            content,
            matches,
            n,
            (m - 1) as nat,
            current_file,
            partials_path,
            sources,
            depth,
        );
    }
}

/// Resolves `content`, the text of `current_file`, at the given depth: see
/// `resolved`.
pub fn resolve(
    content: &Vec<char>,
    current_file: &str,
    partials_path: &str,
    sources: &Sources,
    depth: usize,
    trace: &mut Vec<IncludeResult>,
) -> (r: Result<Vec<char>, ResolveError>)
    ensures
        ({
            let resolution = resolved(
                content@,
                current_file@,
                partials_path@,
                sources@,
                depth as nat,
                MAX_PASSES as nat,
            );
            &&& records(final(trace)@) == records(old(trace)@) + resolution.trace
            &&& match resolution.outcome {
                Ok(text) => r is Ok && r->Ok_0@ == text,
                Err(failure) => r is Err && r->Err_0@ == failure,
            }
        }),
    decreases depth_left(depth as nat), 2 + MAX_PASSES, 0nat,
{
    let ghost start = records(trace@);
    let ghost whole = resolved(
        content@,
        current_file@,
        partials_path@,
        sources@,
        depth as nat,
        MAX_PASSES as nat,
    );
    proof {
        assert(start + Seq::<IncludeRecord>::empty() =~= start);
    }
    if depth > MAX_DEPTH {
        return Err(ResolveError::MaxDepthExceeded);
    }
    let mut result = copy_chars(content);
    let mut passes: usize = MAX_PASSES;
    let ghost mut done: Seq<IncludeRecord> = Seq::empty();
    while passes > 0
        invariant
            depth <= MAX_DEPTH,
            passes <= MAX_PASSES,
            start == records(old(trace)@),
            records(trace@) == start + done,
            whole == resolved(
                content@,
                current_file@,
                partials_path@,
                sources@,
                depth as nat,
                MAX_PASSES as nat,
            ),
            ({
                let rest = resolved(
                    result@,
                    current_file@,
                    partials_path@,
                    sources@,
                    depth as nat,
                    passes as nat,
                );
                &&& whole.outcome == rest.outcome
                &&& whole.trace == done + rest.trace
            }),
        decreases passes,
    {
        let ghost rest = resolved(
            result@,
            current_file@,
            partials_path@,
            sources@,
            depth as nat,
            passes as nat,
        );
        let matches = find_all(DIRECTIVE_PATTERN, &result);
        let ghost pass = swept(
            result@,
            group_views(matches@),
            matches@.len(),
            current_file@,
            partials_path@,
            sources@,
            depth as nat,
        );
        proof {
            assert(group_views(matches@).len() == matches@.len());
            assert(group_views(matches@) == matches_in(DIRECTIVE_PATTERN@, result@));
            assert(rest.trace == pass.trace + (match pass.failure {
                Some(_) => Seq::<IncludeRecord>::empty(),
                None => if pass.found {
                    resolved(
                        swept_text(result@, pass),
                        current_file@,
                        partials_path@,
                        sources@,
                        depth as nat,
                        (passes - 1) as nat,
                    ).trace
                } else {
                    Seq::<IncludeRecord>::empty()
                },
            })) by {
                assert(pass.trace + Seq::<IncludeRecord>::empty() =~= pass.trace);
            }
        }
        let swept_now = sweep(
            &result,
            &matches,
            current_file,
            partials_path,
            sources,
            depth,
            trace,
        );
        proof {
            assert(start + done + pass.trace =~= start + (done + pass.trace));
        }
        match swept_now {
            Err(e) => {
                proof {
                    assert(done + (pass.trace + Seq::<IncludeRecord>::empty()) =~= done
                        + pass.trace);
                }
                return Err(e);
            },
            Ok(None) => {
                proof {
                    assert(done + (pass.trace + Seq::<IncludeRecord>::empty()) =~= done
                        + pass.trace);
                }
                return Ok(result);
            },
            Ok(Some(next)) => {
                proof {
                    let after = resolved(
                        next@,
                        current_file@,
                        partials_path@,
                        sources@,
                        depth as nat,
                        (passes - 1) as nat,
                    );
                    assert(done + (pass.trace + after.trace) =~= done + pass.trace + after.trace);
                    done = done + pass.trace;
                }
                result = next;
            },
        }
        passes -= 1;
    }
    Err(ResolveError::IterationLimitExceeded)
}

/// Resolves the directives of `content`, the text of the file
/// `current_file`, and adds the record of each directive that was worked on
/// to `includes_tracker`. What comes back is the text without directives,
/// but for those that stand in code. It fails where includes are nested
/// deeper than five levels, where directives are still found after fifty
/// passes, and where `sources` lack a file that is needed.
pub fn process_includes(
    content: &str,
    current_file: &str,
    partials_path: &str,
    includes_tracker: &mut Vec<IncludeResult>,
    sources: &Sources,
) -> (r: Result<String, ResolveError>)
    ensures
        ({
            let resolution = resolved(
                content@,
                current_file@,
                partials_path@,
                sources@,
                0,
                MAX_PASSES as nat,
            );
            &&& records(final(includes_tracker)@) == records(old(includes_tracker)@)
                + resolution.trace
            &&& match resolution.outcome {
                Ok(text) => r is Ok && r->Ok_0@ == text,
                Err(failure) => r is Err && r->Err_0@ == failure,
            }
        }),
{
    let text = chars_of(content);
    match resolve(&text, current_file, partials_path, sources, 0, includes_tracker) {
        Ok(out) => Ok(string_of(&out)),
        Err(e) => Err(e),
    }
}

/// What comes of the validation of the fences of `content` and, where they
/// are in order, of the resolution of the validated text.
pub open spec fn validated_and_resolved(
    content: Seq<char>,
    current_file: Seq<char>,
    partials_path: Seq<char>,
    sources: Map<Seq<char>, Result<Seq<char>, Seq<char>>>,
    default_language: Option<Seq<char>>,
) -> Resolution {
    match validated(content, default_language) {
        Ok(text) => resolved(text, current_file, partials_path, sources, 0, MAX_PASSES as nat),
        Err(failure) => Resolution { trace: Seq::empty(), outcome: Err(failure) },
    }
}

/// Validates the fences of `content`, repairing them where
/// `fix_code_fences` gives a language, and then resolves the directives of
/// the validated text as `process_includes` does. A fault in the fences
/// fails the whole, and leaves no record.
pub fn process_includes_with_validation(
    content: &str,
    current_file: &str,
    partials_path: &str,
    includes_tracker: &mut Vec<IncludeResult>,
    fix_code_fences: Option<&str>,
    sources: &Sources,
) -> (r: Result<String, ResolveError>)
    ensures
        ({
            let resolution = validated_and_resolved(
                content@,
                current_file@,
                partials_path@,
                sources@,
                text_of(fix_code_fences),
            );
            &&& records(final(includes_tracker)@) == records(old(includes_tracker)@)
                + resolution.trace
            &&& match resolution.outcome {
                Ok(text) => r is Ok && r->Ok_0@ == text,
                Err(failure) => r is Err && r->Err_0@ == failure,
            }
        }),
{
    let text = chars_of(content);
    let valid = match validate_chars(&text, fix_code_fences) {
        Ok(v) => v,
        Err(e) => {
            proof {
                assert(records(includes_tracker@) + Seq::<IncludeRecord>::empty() =~= records(
                    includes_tracker@,
                ));
            }
            return Err(e);
        },
    };
    match resolve(&valid, current_file, partials_path, sources, 0, includes_tracker) {
        Ok(out) => Ok(string_of(&out)),
        Err(e) => Err(e),
    }
}

} // verus!
