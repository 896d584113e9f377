//! What holds of every resolution and of every validation.

use vstd::prelude::*;
use crate::error::Failure;
use crate::fence::fence_mark;
use crate::fence::repaired_line;
use crate::fence::scan_line;
use crate::fence::scan_lines;
use crate::fence::validated;
use crate::fence::excluded;
use crate::directive::defused;
use crate::directive::opens_directive;
use crate::directive::parsed_include;
use crate::directive::text_or_empty;
use crate::include_resolver::effect;
use crate::include_resolver::failure_comment;
use crate::include_resolver::include_replacement;
use crate::include_resolver::included;
use crate::include_resolver::replaced;
use crate::paths::include_target;
use crate::pattern::group_text;
use crate::include_resolver::resolved;
use crate::include_resolver::swept;
use crate::include_resolver::swept_text;
use crate::include_resolver::Resolution;
use crate::include_resolver::DIRECTIVE_PATTERN;
use crate::include_resolver::MAX_DEPTH;
use crate::include_resolver::MAX_PASSES;
use crate::fence::marker_end;
use crate::lines::concat;
use crate::lines::ends_with_newline;
use crate::lines::is_whole_line;
use crate::lines::lemma_concat_last;
use crate::lines::lemma_whole_lines_of_concat;
use crate::lines::lemma_whole_lines_shape;
use crate::text::has_prefix;
use crate::text::in_class;
use crate::text::is_whitespace;
use crate::text::leading_count;
use crate::text::lemma_leading_count;
use crate::text::lemma_leading_count_is;
use crate::text::lemma_trailing_count_stops;
use crate::text::CharClass;
use crate::lines::lemma_whole_lines_are_the_text;
use crate::lines::whole_lines;
use crate::pattern::match_start;
use crate::pattern::matches_in;
use crate::types::IncludeRecord;
use crate::variables::replacement;

verus! {

/// A pass that has not failed and has worked on no directive has left no
/// record.
pub proof fn lemma_idle_pass_leaves_no_record(
    content: Seq<char>,
    matches: Seq<Seq<Option<(usize, usize)>>>,
    n: nat,
    current_file: Seq<char>,
    partials_path: Seq<char>,
    sources: Map<Seq<char>, Result<Seq<char>, Seq<char>>>,
    depth: nat,
)
    requires
        n <= matches.len(),
    ensures
        ({
            let pass = swept(content, matches, n, current_file, partials_path, sources, depth);
            pass.failure is None && !pass.found ==> pass.trace == Seq::<IncludeRecord>::empty()
        }),
    decreases n,
{
    if n > 0 {
        lemma_idle_pass_leaves_no_record(
            content,
            matches,
            (n - 1) as nat,
            current_file,
            partials_path,
            sources,
            depth,
        );
        let so_far = swept(
            content,
            matches,
            (n - 1) as nat,
            current_file,
            partials_path,
            sources,
            depth,
        );
        let pass = swept(content, matches, n, current_file, partials_path, sources, depth);
        if pass.failure is None && !pass.found {
            assert(so_far.failure is None);
            let here = effect(
                content,
                so_far.last_end,
                matches[n - 1],
                current_file,
                partials_path,
                sources,
                depth,
            );
            assert(!here.worked);
            assert(here.trace =~= Seq::<IncludeRecord>::empty());
            assert(pass.trace =~= so_far.trace + here.trace);
            assert(pass.trace =~= Seq::<IncludeRecord>::empty());
        }
    }
}

/// At any depth within the bound, a text in which no directive is found
/// resolves to itself, and leaves no record.
pub proof fn lemma_text_without_directives_is_unchanged(
    content: Seq<char>,
    current_file: Seq<char>,
    partials_path: Seq<char>,
    sources: Map<Seq<char>, Result<Seq<char>, Seq<char>>>,
    depth: nat,
    passes: nat,
)
    requires
        depth <= MAX_DEPTH,
        passes > 0,
        matches_in(DIRECTIVE_PATTERN@, content).len() == 0,
    ensures
        resolved(content, current_file, partials_path, sources, depth, passes) == (Resolution {
            trace: Seq::empty(),
            outcome: Ok(content),
        }),
{
    let matches = matches_in(DIRECTIVE_PATTERN@, content);
    let pass = swept(content, matches, 0, current_file, partials_path, sources, depth);
    assert(pass.failure is None && !pass.found);
    assert(pass.trace =~= Seq::<IncludeRecord>::empty());
}

/// A pass over directives that all begin in code works on none of them.
pub proof fn lemma_pass_over_code_is_idle(
    content: Seq<char>,
    matches: Seq<Seq<Option<(usize, usize)>>>,
    n: nat,
    current_file: Seq<char>,
    partials_path: Seq<char>,
    sources: Map<Seq<char>, Result<Seq<char>, Seq<char>>>,
    depth: nat,
)
    requires
        n <= matches.len(),
        forall|i: int|
            0 <= i < matches.len() ==> match_start(#[trigger] matches[i]) <= content.len()
                && excluded(content, match_start(matches[i]) as int),
    ensures
        ({
            let pass = swept(content, matches, n, current_file, partials_path, sources, depth);
            pass.failure is None && !pass.found
        }),
    decreases n,
{
    if n > 0 {
        lemma_pass_over_code_is_idle(
            content,
            matches,
            (n - 1) as nat,
            current_file,
            partials_path,
            sources,
            depth,
        );
        assert(match_start(matches[n - 1]) <= content.len() && excluded(
            content,
            match_start(matches[n - 1]) as int,
        ));
        let so_far = swept(
            content,
            matches,
            (n - 1) as nat,
            current_file,
            partials_path,
            sources,
            depth,
        );
        let here = effect(
            content,
            so_far.last_end,
            matches[n - 1],
            current_file,
            partials_path,
            sources,
            depth,
        );
        assert(!here.worked && here.failure is None);
    }
}

/// At any depth within the bound, a text whose directives all begin in
/// code resolves to itself, and leaves no record.
pub proof fn lemma_directives_in_code_are_inert(
    content: Seq<char>,
    current_file: Seq<char>,
    partials_path: Seq<char>,
    sources: Map<Seq<char>, Result<Seq<char>, Seq<char>>>,
    depth: nat,
    passes: nat,
)
    requires
        depth <= MAX_DEPTH,
        passes > 0,
        ({
            let matches = matches_in(DIRECTIVE_PATTERN@, content);
            forall|i: int|
                0 <= i < matches.len() ==> match_start(#[trigger] matches[i]) <= content.len()
                    && excluded(content, match_start(matches[i]) as int)
        }),
    ensures
        resolved(content, current_file, partials_path, sources, depth, passes) == (Resolution {
            trace: Seq::empty(),
            outcome: Ok(content),
        }),
{
    let matches = matches_in(DIRECTIVE_PATTERN@, content);
    lemma_pass_over_code_is_idle(
        content,
        matches,
        matches.len(),
        current_file,
        partials_path,
        sources,
        depth,
    );
    lemma_idle_pass_leaves_no_record(
        content,
        matches,
        matches.len(),
        current_file,
        partials_path,
        sources,
        depth,
    );
}

/// At any depth, the text that a resolution gives resolves to itself, and
/// leaves no record.
pub proof fn lemma_resolved_text_resolves_to_itself(
    content: Seq<char>,
    current_file: Seq<char>,
    partials_path: Seq<char>,
    sources: Map<Seq<char>, Result<Seq<char>, Seq<char>>>,
    depth: nat,
    passes: nat,
    again: nat,
)
    requires
        again > 0,
        resolved(content, current_file, partials_path, sources, depth, passes).outcome is Ok,
    ensures
        ({
            let text = resolved(
                content,
                current_file,
                partials_path,
                sources,
                depth,
                passes,
            ).outcome->Ok_0;
            resolved(text, current_file, partials_path, sources, depth, again) == (Resolution {
                trace: Seq::empty(),
                outcome: Ok(text),
            })
        }),
    decreases passes,
{
    let matches = matches_in(DIRECTIVE_PATTERN@, content);
    let pass = swept(
        content,
        matches,
        matches.len(),
        current_file,
        partials_path,
        sources,
        depth,
    );
    assert(depth <= MAX_DEPTH && passes > 0);
    assert(pass.failure is None);
    if !pass.found {
        lemma_idle_pass_leaves_no_record(
            content,
            matches,
            matches.len(),
            current_file,
            partials_path,
            sources,
            depth,
        );
    } else {
        lemma_resolved_text_resolves_to_itself(
            swept_text(content, pass),
            current_file,
            partials_path,
            sources,
            depth,
            (passes - 1) as nat,
            again,
        );
    }
}

/// A document without directives resolves to itself, and leaves no record.
pub proof fn law_document_without_directives_is_unchanged(
    content: Seq<char>,
    current_file: Seq<char>,
    partials_path: Seq<char>,
    sources: Map<Seq<char>, Result<Seq<char>, Seq<char>>>,
)
    requires
        matches_in(DIRECTIVE_PATTERN@, content).len() == 0,
    ensures
        resolved(content, current_file, partials_path, sources, 0, MAX_PASSES as nat) == (
        Resolution { trace: Seq::empty(), outcome: Ok(content) }),
{
    lemma_text_without_directives_is_unchanged(
        content,
        current_file,
        partials_path,
        sources,
        0,
        MAX_PASSES as nat,
    );
}

/// Directives in code are inert: a document whose directives all begin in a
/// fenced code block or in inline code resolves to itself, and leaves no
/// record.
pub proof fn law_directives_in_code_are_inert(
    content: Seq<char>,
    current_file: Seq<char>,
    partials_path: Seq<char>,
    sources: Map<Seq<char>, Result<Seq<char>, Seq<char>>>,
)
    requires
        ({
            let matches = matches_in(DIRECTIVE_PATTERN@, content);
            forall|i: int|
                0 <= i < matches.len() ==> match_start(#[trigger] matches[i]) <= content.len()
                    && excluded(content, match_start(matches[i]) as int)
        }),
    ensures
        resolved(content, current_file, partials_path, sources, 0, MAX_PASSES as nat) == (
        Resolution { trace: Seq::empty(), outcome: Ok(content) }),
{
    lemma_directives_in_code_are_inert(
        content,
        current_file,
        partials_path,
        sources,
        0,
        MAX_PASSES as nat,
    );
}

/// Resolution is idempotent: the text that the resolution of a document
/// gives resolves to itself, and leaves no record.
pub proof fn law_resolution_is_idempotent(
    content: Seq<char>,
    current_file: Seq<char>,
    partials_path: Seq<char>,
    sources: Map<Seq<char>, Result<Seq<char>, Seq<char>>>,
)
    requires
        resolved(content, current_file, partials_path, sources, 0, MAX_PASSES as nat).outcome
            is Ok,
    ensures
        ({
            let text = resolved(
                content,
                current_file,
                partials_path,
                sources,
                0,
                MAX_PASSES as nat,
            ).outcome->Ok_0;
            resolved(text, current_file, partials_path, sources, 0, MAX_PASSES as nat) == (
            Resolution { trace: Seq::empty(), outcome: Ok(text) })
        }),
{
    lemma_resolved_text_resolves_to_itself(
        content,
        current_file,
        partials_path,
        sources,
        0,
        MAX_PASSES as nat,
        MAX_PASSES as nat,
    );
}

/// The value of a name goes before the default of its placeholder: where
/// the name has a value, that value takes the place of the placeholder;
/// where it has none, the default does; and where there is neither, the
/// placeholder is a failure that names the variable.
pub proof fn law_value_goes_before_default(
    content: Seq<char>,
    groups: Seq<Option<(usize, usize)>>,
    variables: Map<Seq<char>, Seq<char>>,
)
    ensures
        ({
            let name = text_or_empty(group_text(content, groups, 1));
            let default = group_text(content, groups, 2);
            replacement(content, groups, variables) == if variables.contains_key(name) {
                Ok::<Seq<char>, Failure>(variables[name])
            } else if default is Some {
                Ok::<Seq<char>, Failure>(default->0)
            } else {
                Err::<Seq<char>, Failure>(Failure::UndefinedVariable { name })
            }
        }),
{
}

/// A directive that is worked on leaves a record, unless it ends the
/// resolution: the first of its records is its own, and those of the
/// directives of an included text follow.
pub proof fn law_worked_directive_leaves_a_record(
    content: Seq<char>,
    groups: Seq<Option<(usize, usize)>>,
    current_file: Seq<char>,
    partials_path: Seq<char>,
    sources: Map<Seq<char>, Result<Seq<char>, Seq<char>>>,
    depth: nat,
)
    requires
        ({
            let kind = text_or_empty(group_text(content, groups, 3));
            kind == "include"@ || kind == "codesnippet"@
        }),
        replaced(content, groups, current_file, partials_path, sources, depth).failure is None,
    ensures
        replaced(content, groups, current_file, partials_path, sources, depth).trace.len() >= 1,
{
    let before = text_or_empty(group_text(content, groups, 1));
    let directive = text_or_empty(group_text(content, groups, 2));
    let kind = text_or_empty(group_text(content, groups, 3));
    let after = text_or_empty(group_text(content, groups, 4));
    if kind == "include"@ {
        let replacement = include_replacement(
            directive,
            before,
            after,
            current_file,
            partials_path,
            sources,
            depth,
        );
        match parsed_include(directive) {
            Ok((path, settings)) => match include_target(path, current_file, partials_path) {
                Ok(target) => {
                    let inner = included(
                        path,
                        settings,
                        target,
                        before,
                        after,
                        partials_path,
                        sources,
                        depth,
                    );
                    assert(replacement == inner);
                    assert(inner.trace.len() >= 1);
                },
                Err(_) => {},
            },
            Err(_) => {},
        }
    }
}

/// Up to its first exclamation mark, a text is not changed by `defused`.
pub proof fn lemma_defused_keeps_the_start(s: Seq<char>, k: nat)
    requires
        k <= s.len(),
        forall|j: int| 0 <= j < k ==> #[trigger] s[j] != '!',
    ensures
        k <= defused(s).len(),
        defused(s).take(k as int) == s.take(k as int),
    decreases k,
{
    if k > 0 {
        let rest = s.drop_first();
        assert(s[0] != '!');
        assert forall|j: int| 0 <= j < k - 1 implies #[trigger] rest[j] != '!' by {
            assert(rest[j] == s[j + 1]);
        }
        lemma_defused_keeps_the_start(rest, (k - 1) as nat);
        assert(defused(s) =~= seq![s[0]] + defused(rest));
        assert(defused(s).take(k as int) =~= seq![s[0]] + defused(rest).take(k - 1));
        assert(s.take(k as int) =~= seq![s[0]] + rest.take(k - 1));
    } else {
        assert(defused(s).take(0) =~= s.take(0));
    }
}

/// What `defused` gives up to its first exclamation mark is how the text
/// began.
pub proof fn lemma_defused_start_was_there(s: Seq<char>, k: nat)
    requires
        k <= defused(s).len(),
        forall|j: int| 0 <= j < k ==> #[trigger] defused(s)[j] != '!',
    ensures
        k <= s.len(),
        s.take(k as int) == defused(s).take(k as int),
    decreases k,
{
    if k > 0 {
        let rest = s.drop_first();
        assert(s.len() > 0);
        assert(defused(s)[0] == s[0]);
        assert(defused(s) =~= seq![s[0]] + defused(rest));
        assert forall|j: int| 0 <= j < k - 1 implies #[trigger] defused(rest)[j] != '!' by {
            assert(defused(rest)[j] == defused(s)[j + 1]);
        }
        lemma_defused_start_was_there(rest, (k - 1) as nat);
        assert(defused(s).take(k as int) =~= seq![s[0]] + defused(rest).take(k - 1));
        assert(s.take(k as int) =~= seq![s[0]] + rest.take(k - 1));
    } else {
        assert(defused(s).take(0) =~= s.take(0));
    }
}

/// `defused` neither makes nor unmakes the word of a directive at the start
/// of a text.
pub proof fn lemma_defused_opens_alike(s: Seq<char>)
    ensures
        opens_directive(defused(s)) == opens_directive(s),
{
    reveal_strlit("include");
    reveal_strlit("codesnippet");
    let first_word = "include"@;
    let second_word = "codesnippet"@;
    if has_prefix(s, first_word) {
        assert forall|j: int| 0 <= j < first_word.len() implies #[trigger] s[j] != '!' by {
            assert(s[j] == s.take(first_word.len() as int)[j]);
        }
        lemma_defused_keeps_the_start(s, first_word.len());
    }
    if has_prefix(s, second_word) {
        assert forall|j: int| 0 <= j < second_word.len() implies #[trigger] s[j] != '!' by {
            assert(s[j] == s.take(second_word.len() as int)[j]);
        }
        lemma_defused_keeps_the_start(s, second_word.len());
    }
    if has_prefix(defused(s), first_word) {
        assert forall|j: int| 0 <= j < first_word.len() implies #[trigger] defused(s)[j]
            != '!' by {
            assert(defused(s)[j] == defused(s).take(first_word.len() as int)[j]);
        }
        lemma_defused_start_was_there(s, first_word.len());
    }
    if has_prefix(defused(s), second_word) {
        assert forall|j: int| 0 <= j < second_word.len() implies #[trigger] defused(s)[j]
            != '!' by {
            assert(defused(s)[j] == defused(s).take(second_word.len() as int)[j]);
        }
        lemma_defused_start_was_there(s, second_word.len());
    }
}

/// No directive begins in what `defused` gives: behind none of its
/// exclamation marks the word of a directive follows directly.
pub proof fn law_defused_text_opens_no_directive(s: Seq<char>)
    ensures
        forall|i: int|
            0 <= i < defused(s).len() && #[trigger] defused(s)[i] == '!' ==> !opens_directive(
                defused(s).skip(i + 1),
            ),
    decreases s.len(),
{
    if s.len() > 0 {
        let rest = s.drop_first();
        let whole = defused(s);
        law_defused_text_opens_no_directive(rest);
        lemma_defused_opens_alike(rest);
        reveal_strlit("include");
        reveal_strlit("codesnippet");
        if s[0] == '!' && opens_directive(rest) {
            assert(whole =~= seq!['!', ' '] + defused(rest));
            assert forall|i: int| 0 <= i < whole.len() && #[trigger] whole[i]
                == '!' implies !opens_directive(whole.skip(i + 1)) by {
                if i == 0 {
                    assert(whole.skip(1)[0] == ' ');
                    if has_prefix(whole.skip(1), "include"@) {
                        assert(whole.skip(1).take(7)[0] == 'i');
                    }
                    if has_prefix(whole.skip(1), "codesnippet"@) {
                        assert(whole.skip(1).take(11)[0] == 'c');
                    }
                } else {
                    assert(whole[1] == ' ');
                    assert(whole[i] == defused(rest)[i - 2]);
                    assert(whole.skip(i + 1) =~= defused(rest).skip(i - 2 + 1));
                }
            }
        } else {
            assert(whole =~= seq![s[0]] + defused(rest));
            assert forall|i: int| 0 <= i < whole.len() && #[trigger] whole[i]
                == '!' implies !opens_directive(whole.skip(i + 1)) by {
                if i == 0 {
                    assert(whole.skip(1) =~= defused(rest));
                } else {
                    assert(whole[i] == defused(rest)[i - 1]);
                    assert(whole.skip(i + 1) =~= defused(rest).skip(i - 1 + 1));
                }
            }
        }
    }
}

/// What does not begin with the word of a directive does not begin with it
/// either when a space or a closing parenthesis follows.
pub proof fn lemma_no_directive_across(start: Seq<char>, rest: Seq<char>)
    requires
        !opens_directive(start),
        rest.len() > 0,
        rest[0] == ' ' || rest[0] == ')',
    ensures
        !opens_directive(start + rest),
{
    reveal_strlit("include");
    reveal_strlit("codesnippet");
    let first_word = "include"@;
    let second_word = "codesnippet"@;
    let all = start + rest;
    let p = start.len() as int;
    if has_prefix(all, first_word) {
        if p >= 7 {
            assert(all.take(7) =~= start.take(7));
        } else {
            assert(all.take(7)[p] == rest[0]);
            if p == 0 {
            } else if p == 1 {
            } else if p == 2 {
            } else if p == 3 {
            } else if p == 4 {
            } else if p == 5 {
            } else {
            }
        }
    }
    if has_prefix(all, second_word) {
        if p >= 11 {
            assert(all.take(11) =~= start.take(11));
        } else {
            assert(all.take(11)[p] == rest[0]);
            if p == 0 {
            } else if p == 1 {
            } else if p == 2 {
            } else if p == 3 {
            } else if p == 4 {
            } else if p == 5 {
            } else if p == 6 {
            } else if p == 7 {
            } else if p == 8 {
            } else if p == 9 {
            } else {
            }
        }
    }
}

/// No directive begins in the comment that stands in the place of a
/// directive, whatever follows the comment: behind its lead, the word of a
/// directive follows none of its exclamation marks directly.
pub proof fn law_comment_opens_no_directive(
    lead: Seq<char>,
    subject: Seq<char>,
    message: Seq<char>,
    following: Seq<char>,
)
    ensures
        ({
            let comment = failure_comment(lead, subject, message);
            let text = comment + following;
            forall|i: int|
                lead.len() <= i < comment.len() && #[trigger] text[i] == '!' ==> !opens_directive(
                    text.skip(i + 1),
                )
        }),
{
    reveal_strlit(" (Error: ");
    reveal_strlit(") -->");
    let middle = " (Error: "@;
    let end = ") -->"@;
    let first = defused(subject);
    let second = defused(message);
    let comment = failure_comment(lead, subject, message);
    let text = comment + following;
    let a = lead.len() as int;
    let b = a + first.len();
    let c = b + middle.len();
    let d = c + second.len();
    law_defused_text_opens_no_directive(subject);
    law_defused_text_opens_no_directive(message);
    assert forall|i: int| lead.len() <= i < comment.len() && #[trigger] text[i]
        == '!' implies !opens_directive(text.skip(i + 1)) by {
        if i < b {
            assert(text[i] == first[i - a]);
            let rest = middle + second + end + following;
            assert(text.skip(i + 1) =~= first.skip(i - a + 1) + rest);
            assert(rest[0] == ' ');
            lemma_no_directive_across(first.skip(i - a + 1), rest);
        } else if i < c {
            assert(text[i] == middle[i - b]);
        } else if i < d {
            assert(text[i] == second[i - c]);
            let rest = end + following;
            assert(text.skip(i + 1) =~= second.skip(i - c + 1) + rest);
            assert(rest[0] == ')');
            lemma_no_directive_across(second.skip(i - c + 1), rest);
        } else {
            assert(text[i] == end[i - d]);
        }
    }
}

/// Deeper than the bound nothing is resolved.
pub proof fn law_depth_is_bounded(
    content: Seq<char>,
    current_file: Seq<char>,
    partials_path: Seq<char>,
    sources: Map<Seq<char>, Result<Seq<char>, Seq<char>>>,
    depth: nat,
    passes: nat,
)
    requires
        depth > MAX_DEPTH,
    ensures
        resolved(content, current_file, partials_path, sources, depth, passes) == (Resolution {
            trace: Seq::empty(),
            outcome: Err(Failure::MaxDepthExceeded),
        }),
{
}

/// Whether `fixed` is what validation makes of `line`: the line itself, or,
/// for a fence line that names no language, the line with `default_language`
/// put behind its backticks.
pub open spec fn kept_or_repaired(
    line: Seq<char>,
    fixed: Seq<char>,
    default_language: Option<Seq<char>>,
) -> bool {
    fixed == line || match (fence_mark(line), default_language) {
        (Some(mark), Some(language)) => !mark.has_language && fixed == repaired_line(
            line,
            language,
        ),
        _ => false,
    }
}

/// A scan that has not failed has passed every line so far, and each line
/// is kept or repaired. Without a default language every line is kept.
pub proof fn lemma_scan_keeps_or_repairs(
    lines: Seq<Seq<char>>,
    n: nat,
    default_language: Option<Seq<char>>,
)
    requires
        n <= lines.len(),
        scan_lines(lines, n, default_language).failure is None,
    ensures
        scan_lines(lines, n, default_language).lines.len() == n,
        forall|i: int|
            0 <= i < n ==> kept_or_repaired(
                lines[i],
                #[trigger] scan_lines(lines, n, default_language).lines[i],
                default_language,
            ),
        default_language is None ==> scan_lines(lines, n, default_language).lines == lines.take(
            n as int,
        ),
    decreases n,
{
    if n > 0 {
        let before = scan_lines(lines, (n - 1) as nat, default_language);
        let now = scan_lines(lines, n, default_language);
        assert(before.failure is None);
        lemma_scan_keeps_or_repairs(lines, (n - 1) as nat, default_language);
        assert(now.lines.len() == n);
        assert(now.lines.drop_last() =~= before.lines);
        assert forall|i: int| 0 <= i < n implies kept_or_repaired(
            lines[i],
            #[trigger] now.lines[i],
            default_language,
        ) by {
            if i < n - 1 {
                assert(now.lines[i] == before.lines[i]);
            }
        }
        if default_language is None {
            assert(now.lines =~= lines.take(n as int));
        }
    } else {
        assert(scan_lines(lines, n, default_language).lines =~= lines.take(0));
    }
}

/// The repair of fences touches nothing else. The text that validation
/// gives is made of as many lines as the document, each with its ending,
/// and each of them is the line of the document, but for the fence lines
/// without a language, which have the default language behind their
/// backticks.
pub proof fn law_fence_repair_keeps_the_other_lines(
    content: Seq<char>,
    default_language: Option<Seq<char>>,
)
    requires
        validated(content, default_language) is Ok,
    ensures
        ({
            let lines = whole_lines(content);
            let fixed = scan_lines(lines, lines.len(), default_language).lines;
            &&& concat(lines) == content
            &&& validated(content, default_language)->Ok_0 == concat(fixed)
            &&& fixed.len() == lines.len()
            &&& forall|i: int|
                0 <= i < lines.len() ==> kept_or_repaired(
                    lines[i],
                    #[trigger] fixed[i],
                    default_language,
                )
        }),
{
    let lines = whole_lines(content);
    lemma_whole_lines_are_the_text(content);
    lemma_scan_keeps_or_repairs(lines, lines.len(), default_language);
}

/// Validation without a default language changes nothing: where it
/// succeeds, it gives the document back as it is, character for character.
pub proof fn law_valid_document_is_unchanged(content: Seq<char>)
    requires
        validated(content, None) is Ok,
    ensures
        validated(content, None) == Ok::<Seq<char>, Failure>(content),
{
    let lines = whole_lines(content);
    lemma_whole_lines_are_the_text(content);
    lemma_scan_keeps_or_repairs(lines, lines.len(), None);
    assert(lines.take(lines.len() as int) =~= lines);
}

/// A scan over lines of which none is a fence line passes them all, and
/// stands in no fence.
pub proof fn lemma_scan_without_fences(
    lines: Seq<Seq<char>>,
    n: nat,
    default_language: Option<Seq<char>>,
)
    requires
        n <= lines.len(),
        forall|i: int| 0 <= i < lines.len() ==> fence_mark(#[trigger] lines[i]) is None,
    ensures
        scan_lines(lines, n, default_language).failure is None,
        scan_lines(lines, n, default_language).open is None,
        scan_lines(lines, n, default_language).lines == lines.take(n as int),
    decreases n,
{
    if n > 0 {
        lemma_scan_without_fences(lines, (n - 1) as nat, default_language);
        assert(fence_mark(lines[n - 1]) is None);
        assert(scan_lines(lines, n, default_language).lines =~= lines.take(n as int));
    } else {
        assert(scan_lines(lines, n, default_language).lines =~= lines.take(0));
    }
}

/// A document without fence lines is valid, and validation gives it back as
/// it is, with a default language or without.
pub proof fn law_document_without_fences_is_unchanged(
    content: Seq<char>,
    default_language: Option<Seq<char>>,
)
    requires
        forall|i: int|
            0 <= i < whole_lines(content).len() ==> fence_mark(
                #[trigger] whole_lines(content)[i],
            ) is None,
    ensures
        validated(content, default_language) == Ok::<Seq<char>, Failure>(content),
{
    let lines = whole_lines(content);
    lemma_whole_lines_are_the_text(content);
    lemma_scan_without_fences(lines, lines.len(), default_language);
    assert(lines.take(lines.len() as int) =~= lines);
}

/// The text that validation gives ends with a line feed where the document
/// does, and only there.
pub proof fn law_validation_keeps_the_final_newline(
    content: Seq<char>,
    default_language: Option<Seq<char>>,
)
    requires
        validated(content, default_language) is Ok,
    ensures
        ends_with_newline(validated(content, default_language)->Ok_0) == ends_with_newline(
            content,
        ),
{
    let lines = whole_lines(content);
    let scan = scan_lines(lines, lines.len(), default_language);
    lemma_whole_lines_are_the_text(content);
    lemma_whole_lines_shape(content);
    lemma_scan_keeps_or_repairs(lines, lines.len(), default_language);
    if lines.len() > 0 {
        let n = lines.len();
        let before = scan_lines(lines, (n - 1) as nat, default_language);
        assert(before.failure is None);
        assert(scan.open is None);
        assert(scan.lines.last() == lines.last());
        assert(is_whole_line(lines[n - 1]));
        lemma_concat_last(lines);
        lemma_concat_last(scan.lines);
    } else {
        assert(scan.lines =~= Seq::<Seq<char>>::empty());
    }
}

/// Whether `word` can stand behind the backticks of a fence as its
/// language: it is not empty, and holds neither white space nor a backtick.
pub open spec fn is_language(word: Seq<char>) -> bool {
    word.len() > 0 && forall|j: int|
        0 <= j < word.len() ==> !is_whitespace(#[trigger] word[j]) && word[j] != '`'
}

/// A repaired fence line is a fence line of the same indentation that names
/// a language.
pub proof fn lemma_repaired_line_is_a_fence_line(line: Seq<char>, language: Seq<char>)
    requires
        fence_mark(line) is Some,
        is_language(language),
    ensures
        fence_mark(repaired_line(line, language)) is Some,
        fence_mark(repaired_line(line, language))->0.has_language,
        fence_mark(repaired_line(line, language))->0.indent == fence_mark(line)->0.indent,
        marker_end(line) <= line.len(),
        marker_end(line) > 0 && line[marker_end(line) - 1] == '`',
{
    let ws = leading_count(line, CharClass::Whitespace);
    let body = line.skip(ws as int);
    let ticks = leading_count(body, CharClass::Backtick);
    let k = marker_end(line);
    lemma_leading_count(line, CharClass::Whitespace);
    lemma_leading_count(body, CharClass::Backtick);
    assert(k == ws + ticks && ticks >= 3 && k <= line.len());
    let fixed = repaired_line(line, language);
    assert(body[ticks - 1] == '`');
    assert(line[k - 1] == body[ticks - 1]);
    assert(body[0] == '`');
    assert(fixed[ws as int] == line[ws as int]);
    assert(line[ws as int] == body[0]);
    assert forall|j: int| 0 <= j < ws implies in_class(
        CharClass::Whitespace,
        #[trigger] fixed[j],
    ) by {
        assert(fixed[j] == line[j]);
    }
    lemma_leading_count_is(fixed, CharClass::Whitespace, ws);
    let fixed_body = fixed.skip(ws as int);
    assert forall|j: int| 0 <= j < ticks implies in_class(
        CharClass::Backtick,
        #[trigger] fixed_body[j],
    ) by {
        assert(fixed_body[j] == line[ws + j]);
        assert(line[ws + j] == body[j]);
    }
    assert(fixed_body[ticks as int] == language[0]);
    lemma_leading_count_is(fixed_body, CharClass::Backtick, ticks);
    assert(fixed.take(ws as int) =~= line.take(ws as int));
    let tail = fixed_body.skip(ticks as int);
    assert(tail[0] == language[0]);
    lemma_leading_count_is(tail, CharClass::Whitespace, 0);
    assert(tail.skip(0) =~= tail);
    lemma_trailing_count_stops(tail, CharClass::Whitespace);
}

/// A repaired line is one line, and has its ending where the line had it.
pub proof fn lemma_repaired_line_is_whole(line: Seq<char>, language: Seq<char>)
    requires
        fence_mark(line) is Some,
        is_language(language),
        is_whole_line(line),
    ensures
        is_whole_line(repaired_line(line, language)),
        ends_with_newline(line) ==> ends_with_newline(repaired_line(line, language)),
{
    lemma_repaired_line_is_a_fence_line(line, language);
    let k = marker_end(line) as int;
    let fixed = repaired_line(line, language);
    let m = language.len() as int;
    assert forall|j: int| 0 <= j < fixed.len() - 1 implies #[trigger] fixed[j] != '\n' by {
        if j < k {
            assert(fixed[j] == line[j]);
            if j == line.len() - 1 {
                assert(line[k - 1] == '`');
            }
        } else if j < k + m {
            assert(fixed[j] == language[j - k]);
            assert(!is_whitespace(language[j - k]));
        } else {
            assert(fixed[j] == line[j - m]);
        }
    }
    if ends_with_newline(line) {
        if k == line.len() {
            assert(line.last() == line[k - 1]);
        }
        assert(fixed.last() == line[line.len() - 1]);
    }
}

/// A scan that has not failed had not failed before, and has kept the lines
/// that it had passed before.
pub proof fn lemma_scan_grows(
    lines: Seq<Seq<char>>,
    k: nat,
    n: nat,
    default_language: Option<Seq<char>>,
)
    requires
        k <= n <= lines.len(),
        scan_lines(lines, n, default_language).failure is None,
    ensures
        scan_lines(lines, k, default_language).failure is None,
        scan_lines(lines, k, default_language).lines == scan_lines(
            lines,
            n,
            default_language,
        ).lines.take(k as int),
    decreases n - k,
{
    lemma_scan_keeps_or_repairs(lines, n, default_language);
    if k < n {
        let before = scan_lines(lines, (n - 1) as nat, default_language);
        let now = scan_lines(lines, n, default_language);
        assert(before.failure is None);
        lemma_scan_keeps_or_repairs(lines, (n - 1) as nat, default_language);
        lemma_scan_grows(lines, k, (n - 1) as nat, default_language);
        assert(now.lines.drop_last() =~= before.lines);
        assert(before.lines.take(k as int) =~= now.lines.take(k as int));
    } else {
        assert(scan_lines(lines, n, default_language).lines.take(n as int) =~= scan_lines(
            lines,
            n,
            default_language,
        ).lines);
    }
}

/// The scan of the repaired lines, without a default language, goes as the
/// scan of the lines went: it does not fail, it stands in the same fence,
/// and it keeps every line.
pub proof fn lemma_scan_of_repaired_lines(lines: Seq<Seq<char>>, k: nat, language: Seq<char>)
    requires
        k <= lines.len(),
        is_language(language),
        scan_lines(lines, lines.len(), Some(language)).failure is None,
    ensures
        ({
            let fixed = scan_lines(lines, lines.len(), Some(language)).lines;
            let first = scan_lines(lines, k, Some(language));
            let second = scan_lines(fixed, k, None);
            &&& fixed.len() == lines.len()
            &&& second.failure is None
            &&& second.open == first.open
            &&& second.lines == fixed.take(k as int)
        }),
    decreases k,
{
    let n = lines.len();
    let fixed = scan_lines(lines, n, Some(language)).lines;
    lemma_scan_keeps_or_repairs(lines, n, Some(language));
    if k == 0 {
        assert(scan_lines(fixed, 0, None).lines =~= fixed.take(0));
    } else {
        lemma_scan_of_repaired_lines(lines, (k - 1) as nat, language);
        lemma_scan_grows(lines, k, n, Some(language));
        lemma_scan_grows(lines, (k - 1) as nat, n, Some(language));
        let before = scan_lines(lines, (k - 1) as nat, Some(language));
        let first = scan_lines(lines, k, Some(language));
        let second_before = scan_lines(fixed, (k - 1) as nat, None);
        let second = scan_lines(fixed, k, None);
        let line = lines[k - 1];
        let new_line = fixed[k - 1];
        assert(first.lines == fixed.take(k as int));
        assert(before.lines == fixed.take(k - 1));
        assert(first.lines.len() == k);
        assert(first.lines.last() == new_line);
        assert(first == scan_line(before, (k - 1) as nat, line, Some(language)));
        assert(second == scan_line(second_before, (k - 1) as nat, new_line, None));
        match (fence_mark(line), before.open) {
            (Some(mark), None) => {
                if !mark.has_language {
                    assert(new_line == repaired_line(line, language));
                    lemma_repaired_line_is_a_fence_line(line, language);
                } else {
                    assert(new_line == line);
                }
            },
            (Some(mark), Some(_)) => {
                assert(new_line == line);
            },
            (None, _) => {
                assert(new_line == line);
            },
        }
        assert(second.lines =~= fixed.take(k as int)) by {
            assert(fixed.take(k as int) =~= fixed.take(k - 1).push(new_line));
        }
    }
}

/// A repaired document is valid as it is: the text that validation with a
/// default language gives passes validation without one, and comes back
/// unchanged.
pub proof fn law_repaired_document_is_valid(content: Seq<char>, language: Seq<char>)
    requires
        is_language(language),
        validated(content, Some(language)) is Ok,
    ensures
        validated(validated(content, Some(language))->Ok_0, None) == Ok::<Seq<char>, Failure>(
            validated(content, Some(language))->Ok_0,
        ),
{
    let lines = whole_lines(content);
    let n = lines.len();
    let scan = scan_lines(lines, n, Some(language));
    let fixed = scan.lines;
    let text = concat(fixed);
    lemma_whole_lines_shape(content);
    lemma_scan_keeps_or_repairs(lines, n, Some(language));
    assert forall|i: int| 0 <= i < fixed.len() implies is_whole_line(#[trigger] fixed[i]) && (i
        < fixed.len() - 1 ==> ends_with_newline(fixed[i])) by {
        assert(kept_or_repaired(lines[i], fixed[i], Some(language)));
        assert(is_whole_line(lines[i]));
        if fixed[i] != lines[i] {
            lemma_repaired_line_is_whole(lines[i], language);
        }
    }
    lemma_whole_lines_of_concat(fixed);
    lemma_scan_of_repaired_lines(lines, n, language);
    assert(fixed.take(n as int) =~= fixed);
}

} // verus!
