//! Placeholders, `{% name %}` and `{% name || "default" %}`, and the values
//! that take their place.

use vstd::prelude::*;
use crate::directive::text_or_empty;
use crate::error::Failure;
use crate::error::ResolveError;
use crate::pattern::find_all;
use crate::pattern::group_chars;
use crate::pattern::group_text;
use crate::pattern::group_views;
use crate::pattern::match_end;
use crate::pattern::match_start;
use crate::pattern::matches_in;
use crate::pattern::Groups;
use crate::text::append_chars;
use crate::text::chars_of;
use crate::text::copy_chars;
use crate::text::slice_chars;
use crate::text::string_of;
use crate::types::VariableMap;

verus! {

/// A placeholder: the name, and the default where one is given.
pub const VARIABLE_PATTERN: &'static str = r#"\{%\s*(\w+)(?:\s*\|\|\s*\"([^\"]+)\")?\s*%\}"#;

/// The number of passes after which placeholders must be gone.
pub const MAX_SUBSTITUTION_PASSES: usize = 100;

/// The characters of `text` from index `from` up to, not including, `to`;
/// none where the two do not lie in this order in the text.
pub open spec fn span(text: Seq<char>, from: int, to: int) -> Seq<char> {
    if 0 <= from <= to <= text.len() {
        text.subrange(from, to)
    } else {
        Seq::empty()
    }
}

/// Appends to `dst` the characters of `text` from `from` up to `to`.
pub fn append_span(dst: &mut Vec<char>, text: &Vec<char>, from: usize, to: usize)
    ensures
        final(dst)@ == old(dst)@ + span(text@, from as int, to as int),
{
    if from <= to && to <= text.len() {
        let piece = slice_chars(text, from, to);
        append_chars(dst, &piece);
    } else {
        assert(dst@ =~= dst@ + Seq::<char>::empty());
    }
}

/// What takes the place of a placeholder: the value of its name where the
/// name has one, else its default where it gives one, else nothing, which is
/// a failure.
pub open spec fn replacement(
    content: Seq<char>,
    groups: Seq<Option<(usize, usize)>>,
    variables: Map<Seq<char>, Seq<char>>,
) -> Result<Seq<char>, Failure> {
    let name = text_or_empty(group_text(content, groups, 1));
    if variables.contains_key(name) {
        Ok(variables[name])
    } else {
        match group_text(content, groups, 2) {
            Some(default) => Ok(default),
            None => Err(Failure::UndefinedVariable { name }),
        }
    }
}

/// Finds what takes the place of the placeholder with the given groups.
pub fn find_replacement(content: &Vec<char>, groups: &Groups, variables: &VariableMap) -> (r:
    Result<Vec<char>, ResolveError>)
    ensures
        match replacement(content@, groups@, variables@) {
            Ok(value) => r is Ok && r->Ok_0@ == value,
            Err(failure) => r is Err && r->Err_0@ == failure,
        },
{
    let name = match group_chars(content, groups, 1) {
        Some(n) => n,
        None => Vec::new(),
    };
    let name = string_of(&name);
    match variables.get(name.as_str()) {
        Some(value) => Ok(chars_of(value.as_str())),
        None => match group_chars(content, groups, 2) {
            Some(default) => Ok(default),
            None => Err(ResolveError::UndefinedVariable { name }),
        },
    }
}

/// A pass over the placeholders of a text, as far as it has come.
pub struct Pass {
    /// The new text so far.
    pub out: Seq<char>,
    /// Where the last placeholder ended.
    pub last_end: int,
    /// What stopped the pass.
    pub failure: Option<Failure>,
}

/// The pass over `content` after the first `n` of its placeholders: what
/// stands between two placeholders is kept, and each placeholder gives way to
/// its replacement. The first placeholder without one stops the pass.
pub open spec fn pass_after(
    content: Seq<char>,
    matches: Seq<Seq<Option<(usize, usize)>>>,
    n: nat,
    variables: Map<Seq<char>, Seq<char>>,
) -> Pass
    decreases n,
{
    if n == 0 || n > matches.len() {
        Pass { out: Seq::empty(), last_end: 0, failure: None }
    } else {
        let before = pass_after(content, matches, (n - 1) as nat, variables);
        let groups = matches[n - 1];
        if before.failure is Some {
            before
        } else {
            match replacement(content, groups, variables) {
                Ok(value) => Pass {
                    out: before.out + span(content, before.last_end, match_start(groups) as int)
                        + value,
                    last_end: match_end(groups) as int,
                    failure: None,
                },
                Err(failure) => Pass { failure: Some(failure), ..before },
            }
        }
    }
}

/// `content` with each of its placeholders, found at `matches`, replaced.
pub open spec fn substituted_once(
    content: Seq<char>,
    matches: Seq<Seq<Option<(usize, usize)>>>,
    variables: Map<Seq<char>, Seq<char>>,
) -> Result<Seq<char>, Failure> {
    let pass = pass_after(content, matches, matches.len(), variables);
    match pass.failure {
        Some(failure) => Err(failure),
        None => Ok(pass.out + span(content, pass.last_end, content.len() as int)),
    }
}

/// Replaces each placeholder of `content`, given where the search found
/// them.
pub fn substitute_once(content: &Vec<char>, matches: &Vec<Groups>, variables: &VariableMap) -> (r:
    Result<Vec<char>, ResolveError>)
    ensures
        match substituted_once(content@, group_views(matches@), variables@) {
            Ok(text) => r is Ok && r->Ok_0@ == text,
            Err(failure) => r is Err && r->Err_0@ == failure,
        },
{
    let ghost found = group_views(matches@);
    let mut out: Vec<char> = Vec::new();
    let mut last_end: usize = 0;
    let mut i: usize = 0;
    while i < matches.len()
        invariant
            i <= matches.len(),
            found == group_views(matches@),
            pass_after(content@, found, i as nat, variables@) == (Pass {
                out: out@,
                last_end: last_end as int,
                failure: None,
            }),
        decreases matches.len() - i,
    {
        let groups = &matches[i];
        proof {
            assert(found[i as int] == groups@);
        }
        let (start, end) = match_bounds(groups);
        match find_replacement(content, groups, variables) {
            Ok(value) => {
                append_span(&mut out, content, last_end, start);
                append_chars(&mut out, &value);
                last_end = end;
            },
            Err(e) => {
                proof {
                    lemma_pass_failure_stays(
                        content@,
                        found,
                        (i + 1) as nat,
                        found.len(),
                        variables@,
                    );
                }
                return Err(e);
            },
        }
        i += 1;
    }
    append_span(&mut out, content, last_end, content.len());
    Ok(out)
}

/// Where the whole match of `groups` begins and ends.
pub fn match_bounds(groups: &Groups) -> (r: (usize, usize))
    ensures
        r.0 == match_start(groups@),
        r.1 == match_end(groups@),
{
    if groups.len() > 0 {
        match groups[0] {
            Some((start, end)) => (start, end),
            None => (0, 0),
        }
    } else {
        (0, 0)
    }
}

/// A pass that has failed stays as it is.
pub proof fn lemma_pass_failure_stays(
    content: Seq<char>,
    matches: Seq<Seq<Option<(usize, usize)>>>,
    n: nat,
    m: nat,
    variables: Map<Seq<char>, Seq<char>>,
)
    requires
        n <= m <= matches.len(),
        pass_after(content, matches, n, variables).failure is Some,
    ensures
        pass_after(content, matches, m, variables) == pass_after(content, matches, n, variables),
    decreases m - n,
{
    if n < m {
        lemma_pass_failure_stays(content, matches, n, (m - 1) as nat, variables);
    }
}

/// `content` after its placeholders, and those that the replacements bring,
/// have been replaced, in at most `passes` passes. A text without
/// placeholders stays as it is. Placeholders that are still there after the
/// last pass are a failure.
pub open spec fn substituted(
    content: Seq<char>,
    variables: Map<Seq<char>, Seq<char>>,
    passes: nat,
) -> Result<Seq<char>, Failure>
    decreases passes,
{
    let matches = matches_in(VARIABLE_PATTERN@, content);
    if passes == 0 {
        Err(Failure::SubstitutionLoopDetected)
    } else if matches.len() == 0 {
        Ok(content)
    } else {
        match substituted_once(content, matches, variables) {
            Ok(next) => substituted(next, variables, (passes - 1) as nat),
            Err(failure) => Err(failure),
        }
    }
}

/// `process_variables` on characters.
pub fn substitute_chars(content: &Vec<char>, variables: &VariableMap) -> (r: Result<
    Vec<char>,
    ResolveError,
>)
    ensures
        match substituted(content@, variables@, MAX_SUBSTITUTION_PASSES as nat) {
            Ok(text) => r is Ok && r->Ok_0@ == text,
            Err(failure) => r is Err && r->Err_0@ == failure,
        },
{
    let mut result = copy_chars(content);
    let mut passes: usize = MAX_SUBSTITUTION_PASSES;
    while passes > 0
        invariant
            substituted(content@, variables@, MAX_SUBSTITUTION_PASSES as nat) == substituted(
                result@,
                variables@,
                passes as nat,
            ),
        decreases passes,
    {
        let matches = find_all(VARIABLE_PATTERN, &result);
        if matches.len() == 0 {
            return Ok(result);
        }
        match substitute_once(&result, &matches, variables) {
            Ok(next) => {
                result = next;
            },
            Err(e) => {
                return Err(e);
            },
        }
        passes -= 1;
    }
    Err(ResolveError::SubstitutionLoopDetected)
}

/// Replaces every placeholder of `content`: `{% name %}` by the value that
/// `variables` has for the name, `{% name || "default" %}` by that value or,
/// where the name has none, by the default. The value of the name goes
/// before the default. A placeholder with neither fails the whole, as
/// `UndefinedVariable`, and so do placeholders that are still there after a
/// hundred passes, as `SubstitutionLoopDetected`.
pub fn process_variables(content: &str, variables: &VariableMap) -> (r: Result<
    String,
    ResolveError,
>)
    ensures
        match substituted(content@, variables@, MAX_SUBSTITUTION_PASSES as nat) {
            Ok(text) => r is Ok && r->Ok_0@ == text,
            Err(failure) => r is Err && r->Err_0@ == failure,
        },
{
    let chars = chars_of(content);
    match substitute_chars(&chars, variables) {
        Ok(text) => Ok(string_of(&text)),
        Err(e) => Err(e),
    }
}

} // verus!
