//! Searching a text with a regular expression.
//!
//! The search itself is the work of the `regex` crate. What it finds comes
//! back as byte offsets into the text; the functions here turn them into
//! indices of characters.

use vstd::prelude::*;
use crate::offsets::char_index;
use crate::offsets::char_index_at;
use crate::offsets::lemma_char_index_monotone;
use crate::text::slice_chars;
use crate::text::string_of;

verus! {

/// The groups of one match: for each group of the pattern, in the order of
/// their opening parentheses, where it begins and ends if it took part in the
/// match. The first group is the whole match.
pub type Groups = Vec<Option<(usize, usize)>>;

/// What the `regex` crate finds first in `haystack` when it searches for
/// `pattern`: the groups of the leftmost match, in byte offsets, or nothing
/// where the pattern matches nowhere or is no regular expression.
pub uninterp spec fn first_match(pattern: Seq<char>, haystack: Seq<char>) -> Option<
    Seq<Option<(usize, usize)>>,
>;

/// All that the `regex` crate finds in `haystack` when it searches for
/// `pattern`: the groups of each match, in byte offsets, from left to right;
/// nothing where the pattern is no regular expression.
pub uninterp spec fn all_matches(pattern: Seq<char>, haystack: Seq<char>) -> Seq<
    Seq<Option<(usize, usize)>>,
>;

/// The views of the matches of a search.
pub open spec fn group_views(matches: Seq<Groups>) -> Seq<Seq<Option<(usize, usize)>>> {
    matches.map_values(|g: Groups| g@)
}

/// The whole match is there, and no group ends before it begins.
pub open spec fn well_formed(groups: Seq<Option<(usize, usize)>>) -> bool {
    &&& groups.len() > 0
    &&& groups[0] is Some
    &&& forall|i: int|
        0 <= i < groups.len() ==> match #[trigger] groups[i] {
            Some((start, end)) => start <= end,
            None => true,
        }
}

/// Where the whole match begins.
pub open spec fn match_start(groups: Seq<Option<(usize, usize)>>) -> usize {
    if groups.len() > 0 {
        match groups[0] {
            Some((start, _)) => start,
            None => 0,
        }
    } else {
        0
    }
}

/// Where the whole match ends.
pub open spec fn match_end(groups: Seq<Option<(usize, usize)>>) -> usize {
    if groups.len() > 0 {
        match groups[0] {
            Some((_, end)) => end,
            None => 0,
        }
    } else {
        0
    }
}

/// Every match is well formed, and none begins before the one before it
/// ends.
pub open spec fn successive(matches: Seq<Seq<Option<(usize, usize)>>>) -> bool {
    &&& forall|i: int| 0 <= i < matches.len() ==> well_formed(#[trigger] matches[i])
    &&& forall|i: int, j: int|
        0 <= i < j < matches.len() ==> match_end(#[trigger] matches[i]) <= match_start(
            #[trigger] matches[j],
        )
}

/// `Regex::new`, `Regex::captures` and `Captures::iter` of the `regex` crate:
/// the groups of the leftmost match of `pattern` in `haystack`, each as the
/// byte offsets of `Match::start` and `Match::end`. The contract gives what
/// comes back its name, and states what the crate's documentation promises of
/// every match: that the group of the whole match is present, and that no
/// group ends before it begins.
#[verifier::external_body]
fn regex_captures(pattern: &str, haystack: &str) -> (r: Option<Groups>)
    ensures
        match r {
            Some(groups) => first_match(pattern@, haystack@) == Some(groups@) && well_formed(
                groups@,
            ),
            None => first_match(pattern@, haystack@) is None,
        },
{
    let re = regex::Regex::new(pattern).ok()?;
    let caps = re.captures(haystack)?;
    Some(caps.iter().map(|g| g.map(|m| (m.start(), m.end()))).collect())
}

/// `Regex::new`, `Regex::captures_iter` and `Captures::iter` of the `regex`
/// crate: the groups of every match of `pattern` in `haystack`, from left to
/// right, each as the byte offsets of `Match::start` and `Match::end`. The
/// contract gives what comes back its name, and states what the crate's
/// documentation promises: that the matches are successive and do not
/// overlap, that the group of the whole match is present in each, and that no
/// group ends before it begins.
#[verifier::external_body]
fn regex_captures_iter(pattern: &str, haystack: &str) -> (r: Vec<Groups>)
    ensures
        group_views(r@) == all_matches(pattern@, haystack@),
        successive(group_views(r@)),
{
    match regex::Regex::new(pattern) {
        Ok(re) => re.captures_iter(haystack).map(
            |caps| caps.iter().map(|g| g.map(|m| (m.start(), m.end()))).collect(),
        ).collect(),
        Err(_) => Vec::new(),
    }
}

/// A group in indices of characters, from one in byte offsets.
pub open spec fn char_span(text: Seq<char>, span: Option<(usize, usize)>) -> Option<
    (usize, usize),
> {
    match span {
        Some((start, end)) => Some(
            (char_index(text, start as nat) as usize, char_index(text, end as nat) as usize),
        ),
        None => None,
    }
}

/// The groups of a match in indices of characters.
pub open spec fn char_groups(text: Seq<char>, groups: Seq<Option<(usize, usize)>>) -> Seq<
    Option<(usize, usize)>,
> {
    groups.map_values(|span: Option<(usize, usize)>| char_span(text, span))
}

/// The leftmost match of `pattern` in `text`, in indices of characters.
pub open spec fn match_in(pattern: Seq<char>, text: Seq<char>) -> Option<
    Seq<Option<(usize, usize)>>,
> {
    match first_match(pattern, text) {
        Some(groups) => Some(char_groups(text, groups)),
        None => None,
    }
}

/// The matches of `pattern` in `text`, in indices of characters.
pub open spec fn matches_in(pattern: Seq<char>, text: Seq<char>) -> Seq<
    Seq<Option<(usize, usize)>>,
> {
    all_matches(pattern, text).map_values(
        |groups: Seq<Option<(usize, usize)>>| char_groups(text, groups),
    )
}

/// Every group lies in a text of `len` characters.
pub open spec fn within(groups: Seq<Option<(usize, usize)>>, len: nat) -> bool {
    forall|i: int|
        0 <= i < groups.len() ==> match #[trigger] groups[i] {
            Some((_, end)) => end <= len,
            None => true,
        }
}

/// Well-formed groups stay so in indices of characters, and lie in the text.
pub proof fn lemma_char_groups(text: Seq<char>, groups: Seq<Option<(usize, usize)>>)
    requires
        well_formed(groups),
        text.len() <= usize::MAX,
    ensures
        well_formed(char_groups(text, groups)),
        within(char_groups(text, groups), text.len()),
        match_start(char_groups(text, groups)) == char_index(text, match_start(groups) as nat),
        match_end(char_groups(text, groups)) == char_index(text, match_end(groups) as nat),
{
    let mapped = char_groups(text, groups);
    assert forall|i: int| 0 <= i < mapped.len() implies (match #[trigger] mapped[i] {
        Some((start, end)) => start <= end && end <= text.len(),
        None => true,
    }) by {
        match groups[i] {
            Some((start, end)) => {
                lemma_char_index_monotone(text, start as nat, end as nat);
            },
            None => {},
        }
    }
    match groups[0] {
        Some((start, end)) => {
            lemma_char_index_monotone(text, start as nat, end as nat);
        },
        None => {},
    }
}

/// The groups of a match in indices of characters.
fn to_char_groups(text: &Vec<char>, groups: &Groups) -> (out: Groups)
    ensures
        out@ == char_groups(text@, groups@),
{
    let mut out: Groups = Vec::new();
    let mut i: usize = 0;
    while i < groups.len()
        invariant
            i <= groups.len(),
            out@ =~= char_groups(text@, groups@.take(i as int)),
        decreases groups.len() - i,
    {
        let span = match groups[i] {
            Some((start, end)) => Some((char_index_at(text, start), char_index_at(text, end))),
            None => None,
        };
        proof {
            assert(groups@.take(i + 1) =~= groups@.take(i as int).push(groups@[i as int]));
        }
        out.push(span);
        i += 1;
    }
    proof {
        assert(groups@.take(groups.len() as int) =~= groups@);
    }
    out
}

/// Searches `text` for the leftmost match of `pattern`.
pub fn find_first(pattern: &str, text: &Vec<char>) -> (r: Option<Groups>)
    ensures
        match r {
            Some(groups) => match_in(pattern@, text@) == Some(groups@) && well_formed(groups@)
                && within(groups@, text@.len()),
            None => match_in(pattern@, text@) is None,
        },
{
    let haystack = string_of(text);
    let len: usize = text.len();
    match regex_captures(pattern, haystack.as_str()) {
        Some(groups) => {
            proof {
                lemma_char_groups(text@, groups@);
            }
            Some(to_char_groups(text, &groups))
        },
        None => None,
    }
}

/// Searches `text` for all matches of `pattern`.
pub fn find_all(pattern: &str, text: &Vec<char>) -> (r: Vec<Groups>)
    ensures
        group_views(r@) == matches_in(pattern@, text@),
        successive(group_views(r@)),
        forall|i: int| 0 <= i < r@.len() ==> within(#[trigger] r@[i]@, text@.len()),
{
    let haystack = string_of(text);
    let len: usize = text.len();
    let found = regex_captures_iter(pattern, haystack.as_str());
    let ghost raw = group_views(found@);
    let mut out: Vec<Groups> = Vec::new();
    let mut i: usize = 0;
    while i < found.len()
        invariant
            i <= found.len(),
            raw == group_views(found@),
            raw == all_matches(pattern@, text@),
            successive(raw),
            out@.len() == i,
            text@.len() == len,
            forall|k: int| 0 <= k < i ==> (#[trigger] out@[k])@ == char_groups(text@, raw[k]),
        decreases found.len() - i,
    {
        let groups = to_char_groups(text, &found[i]);
        out.push(groups);
        i += 1;
    }
    proof {
        assert(group_views(out@) =~= matches_in(pattern@, text@));
        lemma_matches_in(pattern@, text@);
        assert forall|k: int| 0 <= k < out@.len() implies within(
            #[trigger] out@[k]@,
            text@.len(),
        ) by {
            lemma_char_groups(text@, raw[k]);
        }
    }
    out
}

/// The matches of a search are successive in indices of characters too.
pub proof fn lemma_matches_in(pattern: Seq<char>, text: Seq<char>)
    requires
        successive(all_matches(pattern, text)),
        text.len() <= usize::MAX,
    ensures
        successive(matches_in(pattern, text)),
{
    let raw = all_matches(pattern, text);
    let mapped = matches_in(pattern, text);
    assert forall|i: int| 0 <= i < mapped.len() implies well_formed(#[trigger] mapped[i]) by {
        lemma_char_groups(text, raw[i]);
    }
    assert forall|i: int, j: int| 0 <= i < j < mapped.len() implies match_end(
        #[trigger] mapped[i],
    ) <= match_start(#[trigger] mapped[j]) by {
        lemma_char_groups(text, raw[i]);
        lemma_char_groups(text, raw[j]);
        assert(match_end(raw[i]) <= match_start(raw[j]));
        lemma_char_index_monotone(text, match_end(raw[i]) as nat, match_start(raw[j]) as nat);
    }
}

/// The text of group `index`, where the group took part in the match.
pub open spec fn group_text(
    text: Seq<char>,
    groups: Seq<Option<(usize, usize)>>,
    index: int,
) -> Option<Seq<char>> {
    if 0 <= index < groups.len() {
        match groups[index] {
            Some((start, end)) => if start <= end <= text.len() {
                Some(text.subrange(start as int, end as int))
            } else {
                Some(Seq::empty())
            },
            None => None,
        }
    } else {
        None
    }
}

/// The text of group `index`, where the group took part in the match.
pub fn group_chars(text: &Vec<char>, groups: &Groups, index: usize) -> (r: Option<Vec<char>>)
    ensures
        match r {
            Some(chars) => group_text(text@, groups@, index as int) == Some(chars@),
            None => group_text(text@, groups@, index as int) is None,
        },
{
    if index < groups.len() {
        match groups[index] {
            Some((start, end)) => {
                if start <= end && end <= text.len() {
                    Some(slice_chars(text, start, end))
                } else {
                    Some(Vec::new())
                }
            },
            None => None,
        }
    } else {
        None
    }
}

} // verus!
