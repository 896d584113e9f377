//! The two directives, `!include(...)` and `!codesnippet(...)`: their path
//! and their parameters.

use vstd::prelude::*;
use crate::decimal::parse_decimal;
use crate::decimal::read_decimal;
use crate::error::DirectiveKind;
use crate::error::Failure;
use crate::error::Parameter;
use crate::error::ResolveError;
use crate::pattern::find_all;
use crate::pattern::find_first;
use crate::pattern::group_chars;
use crate::pattern::group_text;
use crate::pattern::group_views;
use crate::pattern::match_in;
use crate::pattern::matches_in;
use crate::pattern::Groups;
use crate::text::chars_of;
use crate::text::has_prefix;
use crate::text::has_word_at;
use crate::text::string_of;
use crate::text::strip_both;
use crate::text::strip_chars;
use crate::text::trim;
use crate::text::CharClass;
use crate::types::CodeSnippetParameters;
use crate::types::IncludeParameters;
use crate::types::IncludeSettings;
use crate::types::SnippetSettings;
use crate::types::VariableMap;

verus! {

/// An include directive: the path, and what follows its first comma.
pub const INCLUDE_PATTERN: &'static str = r"!include\s*\(\s*([^,\s]+)(?:,\s*(.+))?\s*\)";

/// A code-snippet directive: the path, and what follows its first comma.
pub const CODESNIPPET_PATTERN: &'static str = r"!codesnippet\s*\(\s*([^,)]+)(?:,\s*(.+))?\s*\)";

/// The parameter `title="..."`.
pub const TITLE_PATTERN: &'static str = r#"title\s*=\s*"([^"]+)""#;

/// The parameter `title-level=N`.
pub const TITLE_LEVEL_PATTERN: &'static str = r"title-level\s*=\s*(\d+)";

/// The parameter `values=[...]`.
pub const VALUES_PATTERN: &'static str = r"values\s*=\s*\[([^\]]+)\]";

/// One `name="value"` of the values.
pub const PAIR_PATTERN: &'static str = r#"(\w+)\s*=\s*"([^"]+)""#;

/// The parameter `lang="..."`.
pub const LANG_PATTERN: &'static str = r#"lang\s*=\s*"([^"]+)""#;

/// The parameter `start=N`.
pub const START_PATTERN: &'static str = r"start\s*=\s*(\d+)";

/// The parameter `end=N`.
pub const END_PATTERN: &'static str = r"end\s*=\s*(\d+)";

/// Whether `s` begins with the word of a directive.
pub open spec fn opens_directive(s: Seq<char>) -> bool {
    has_prefix(s, "include"@) || has_prefix(s, "codesnippet"@)
}

/// `s` with a space behind every exclamation mark that the word of a
/// directive follows directly. Nothing else of `s` is changed, and no
/// directive begins in what comes of it.
pub open spec fn defused(s: Seq<char>) -> Seq<char>
    decreases s.len(),
{
    if s.len() == 0 {
        Seq::empty()
    } else if s[0] == '!' && opens_directive(s.drop_first()) {
        seq!['!', ' '] + defused(s.drop_first())
    } else {
        seq![s[0]] + defused(s.drop_first())
    }
}

/// Appends `src` to `dst`, with a space behind every exclamation mark that
/// the word of a directive follows directly.
pub fn append_defused(dst: &mut Vec<char>, src: &Vec<char>)
    ensures
        final(dst)@ == old(dst)@ + defused(src@),
{
    let mut i: usize = 0;
    proof {
        assert(src@.skip(0) =~= src@);
    }
    while i < src.len()
        invariant
            i <= src.len(),
            dst@ + defused(src@.skip(i as int)) =~= old(dst)@ + defused(src@),
        decreases src.len() - i,
    {
        let ghost rest = src@.skip(i as int);
        let ghost before = dst@;
        proof {
            assert(rest.drop_first() =~= src@.skip(i + 1));
            assert(rest[0] == src@[i as int]);
        }
        let c = src[i];
        dst.push(c);
        if c == '!' && (has_word_at(src, i + 1, "include") || has_word_at(
            src,
            i + 1,
            "codesnippet",
        )) {
            dst.push(' ');
            proof {
                assert(dst@ =~= before + seq!['!', ' ']);
                assert(before + (seq!['!', ' '] + defused(rest.drop_first())) =~= before + seq![
                    '!',
                    ' ',
                ] + defused(rest.drop_first()));
            }
        } else {
            proof {
                assert(dst@ =~= before + seq![c]);
                assert(before + (seq![c] + defused(rest.drop_first())) =~= before + seq![c]
                    + defused(rest.drop_first()));
            }
        }
        i += 1;
    }
    proof {
        assert(src@.skip(src.len() as int) =~= Seq::<char>::empty());
        assert(dst@ + Seq::<char>::empty() =~= dst@);
    }
}

/// A text, or the empty one.
pub open spec fn text_or_empty(text: Option<Seq<char>>) -> Seq<char> {
    match text {
        Some(t) => t,
        None => Seq::empty(),
    }
}

/// The path of a directive, from the text that stands for it: without white
/// space and quote characters at its ends.
pub open spec fn path_of(token: Seq<char>) -> Seq<char> {
    strip_both(trim(token), CharClass::Quote)
}

/// The path and the parameter text of `directive`, from what the search for
/// the directive's pattern found in it. Without a match, or with an empty
/// path, the directive is malformed.
pub open spec fn directive_parts(
    kind: DirectiveKind,
    directive: Seq<char>,
    found: Option<Seq<Option<(usize, usize)>>>,
) -> Result<(Seq<char>, Option<Seq<char>>), Failure> {
    match found {
        Some(groups) => {
            let path = path_of(text_or_empty(group_text(directive, groups, 1)));
            if path.len() > 0 {
                Ok((path, group_text(directive, groups, 2)))
            } else {
                Err(Failure::MalformedDirective { kind, directive })
            }
        },
        None => Err(Failure::MalformedDirective { kind, directive }),
    }
}

/// The views of the two parts of a directive.
pub open spec fn parts_view(parts: (Vec<char>, Option<Vec<char>>)) -> (
    Seq<char>,
    Option<Seq<char>>,
) {
    (
        parts.0@,
        match parts.1 {
            Some(rest) => Some(rest@),
            None => None,
        },
    )
}

/// The view of what a search for one match found.
pub open spec fn found_view(found: Option<Groups>) -> Option<Seq<Option<(usize, usize)>>> {
    match found {
        Some(groups) => Some(groups@),
        None => None,
    }
}

/// Takes the path and the parameter text out of `directive`, given what the
/// search for the directive's pattern found in it.
pub fn split_directive(kind: DirectiveKind, directive: &Vec<char>, found: &Option<Groups>) -> (r:
    Result<(Vec<char>, Option<Vec<char>>), ResolveError>)
    ensures
        match directive_parts(kind, directive@, found_view(*found)) {
            Ok(parts) => r is Ok && parts_view(r->Ok_0) == parts,
            Err(failure) => r is Err && r->Err_0@ == failure,
        },
{
    match found {
        Some(groups) => {
            let token = match group_chars(directive, groups, 1) {
                Some(t) => t,
                None => Vec::new(),
            };
            let path = strip_chars(&strip_chars(&token, CharClass::Whitespace), CharClass::Quote);
            if path.len() > 0 {
                Ok((path, group_chars(directive, groups, 2)))
            } else {
                Err(ResolveError::MalformedDirective { kind, directive: string_of(directive) })
            }
        },
        None => Err(ResolveError::MalformedDirective { kind, directive: string_of(directive) }),
    }
}

/// The text of the first group of a match, if there is a match and the group
/// took part in it.
pub open spec fn captured(text: Seq<char>, found: Option<Seq<Option<(usize, usize)>>>) -> Option<
    Seq<char>,
> {
    match found {
        Some(groups) => group_text(text, groups, 1),
        None => None,
    }
}

/// The text of the first group of what a search found in `text`.
pub fn captured_string(text: &Vec<char>, found: &Option<Groups>) -> (r: Option<String>)
    ensures
        crate::text::option_text(r) == captured(text@, found_view(*found)),
{
    match found {
        Some(groups) => match group_chars(text, groups, 1) {
            Some(chars) => Some(string_of(&chars)),
            None => None,
        },
        None => None,
    }
}

/// The level of the title, from what the search for `title-level=N` found in
/// the parameter text: one where the parameter is absent, the number where
/// it lies between one and six, a failure otherwise.
pub open spec fn title_level(params: Seq<char>, found: Option<Seq<Option<(usize, usize)>>>)
    -> Result<Option<u8>, Failure> {
    match found {
        Some(groups) => match parse_decimal(text_or_empty(group_text(params, groups, 1))) {
            Some(n) => if 1 <= n <= 6 {
                Ok(Some(n as u8))
            } else {
                Err(Failure::InvalidParameter { parameter: Parameter::TitleLevel })
            },
            None => Err(Failure::InvalidParameter { parameter: Parameter::TitleLevel }),
        },
        None => Ok(Some(1u8)),
    }
}

/// Reads the level of the title from what the search for `title-level=N`
/// found in the parameter text.
pub fn read_title_level(params: &Vec<char>, found: &Option<Groups>) -> (r: Result<
    Option<u8>,
    ResolveError,
>)
    ensures
        match title_level(params@, found_view(*found)) {
            Ok(level) => r == Ok::<Option<u8>, ResolveError>(level),
            Err(failure) => r is Err && r->Err_0@ == failure,
        },
{
    match found {
        Some(groups) => {
            let digits = match group_chars(params, groups, 1) {
                Some(d) => d,
                None => Vec::new(),
            };
            match read_decimal(&digits) {
                Some(n) => {
                    if 1 <= n && n <= 6 {
                        Ok(Some(n as u8))
                    } else {
                        Err(ResolveError::InvalidParameter { parameter: Parameter::TitleLevel })
                    }
                },
                None => Err(ResolveError::InvalidParameter { parameter: Parameter::TitleLevel }),
            }
        },
        None => Ok(Some(1)),
    }
}

/// A line number, from what the search for `start=N` or `end=N` found in the
/// parameter text: none where the parameter is absent, the number where it
/// is positive, a failure otherwise.
pub open spec fn line_number(
    parameter: Parameter,
    params: Seq<char>,
    found: Option<Seq<Option<(usize, usize)>>>,
) -> Result<Option<usize>, Failure> {
    match found {
        Some(groups) => match parse_decimal(text_or_empty(group_text(params, groups, 1))) {
            Some(n) => if n > 0 {
                Ok(Some(n))
            } else {
                Err(Failure::InvalidParameter { parameter })
            },
            None => Err(Failure::InvalidParameter { parameter }),
        },
        None => Ok(None),
    }
}

/// Reads a line number from what the search for `start=N` or `end=N` found in
/// the parameter text.
pub fn read_line_number(parameter: Parameter, params: &Vec<char>, found: &Option<Groups>) -> (r:
    Result<Option<usize>, ResolveError>)
    ensures
        match line_number(parameter, params@, found_view(*found)) {
            Ok(number) => r == Ok::<Option<usize>, ResolveError>(number),
            Err(failure) => r is Err && r->Err_0@ == failure,
        },
{
    match found {
        Some(groups) => {
            let digits = match group_chars(params, groups, 1) {
                Some(d) => d,
                None => Vec::new(),
            };
            match read_decimal(&digits) {
                Some(n) => {
                    if n > 0 {
                        Ok(Some(n))
                    } else {
                        Err(ResolveError::InvalidParameter { parameter })
                    }
                },
                None => Err(ResolveError::InvalidParameter { parameter }),
            }
        },
        None => Ok(None),
    }
}

/// The values that the first `n` pairs give: each pair gives the name of its
/// first group the value of its second, a later pair replacing an earlier one
/// of the same name.
pub open spec fn values_of(
    inner: Seq<char>,
    pairs: Seq<Seq<Option<(usize, usize)>>>,
    n: nat,
) -> Map<Seq<char>, Seq<char>>
    decreases n,
{
    if n == 0 || n > pairs.len() {
        Map::empty()
    } else {
        values_of(inner, pairs, (n - 1) as nat).insert(
            text_or_empty(group_text(inner, pairs[n - 1], 1)),
            text_or_empty(group_text(inner, pairs[n - 1], 2)),
        )
    }
}

/// Reads the values from the pairs that the search found in `inner`, the
/// text between the brackets of `values=[...]`.
pub fn read_values(inner: &Vec<char>, pairs: &Vec<Groups>) -> (values: VariableMap)
    ensures
        values@ == values_of(inner@, group_views(pairs@), pairs@.len()),
{
    let mut values = VariableMap::new();
    let mut i: usize = 0;
    while i < pairs.len()
        invariant
            i <= pairs.len(),
            values@ == values_of(inner@, group_views(pairs@), i as nat),
        decreases pairs.len() - i,
    {
        let key = match group_chars(inner, &pairs[i], 1) {
            Some(k) => k,
            None => Vec::new(),
        };
        let value = match group_chars(inner, &pairs[i], 2) {
            Some(v) => v,
            None => Vec::new(),
        };
        proof {
            assert(group_views(pairs@)[i as int] == pairs@[i as int]@);
        }
        values.insert(string_of(&key), string_of(&value));
        i += 1;
    }
    values
}

/// The values of the parameter text `params`: those of `values=[...]`, or
/// none where the parameter is absent.
pub open spec fn values_in(params: Seq<char>) -> Map<Seq<char>, Seq<char>> {
    match captured(params, match_in(VALUES_PATTERN@, params)) {
        Some(inner) => {
            let pairs = matches_in(PAIR_PATTERN@, inner);
            values_of(inner, pairs, pairs.len())
        },
        None => Map::empty(),
    }
}

/// The parameters that the parameter text `params` of an include directive
/// gives.
pub open spec fn include_settings(params: Seq<char>) -> Result<IncludeSettings, Failure> {
    match title_level(params, match_in(TITLE_LEVEL_PATTERN@, params)) {
        Ok(level) => Ok(
            IncludeSettings {
                title: captured(params, match_in(TITLE_PATTERN@, params)),
                title_level: level,
                values: values_in(params),
            },
        ),
        Err(failure) => Err(failure),
    }
}

/// What an include directive says: its path and its parameters.
pub open spec fn parsed_include(directive: Seq<char>) -> Result<
    (Seq<char>, IncludeSettings),
    Failure,
> {
    match directive_parts(
        DirectiveKind::Include,
        directive,
        match_in(INCLUDE_PATTERN@, directive),
    ) {
        Ok((path, Some(params))) => match include_settings(params) {
            Ok(settings) => Ok((path, settings)),
            Err(failure) => Err(failure),
        },
        Ok((path, None)) => Ok(
            (path, IncludeSettings { title: None, title_level: Some(1u8), values: Map::empty() }),
        ),
        Err(failure) => Err(failure),
    }
}

/// Reads an include directive from its characters.
pub fn parse_include_chars(directive: &Vec<char>) -> (r: Result<
    (Vec<char>, IncludeParameters),
    ResolveError,
>)
    ensures
        match parsed_include(directive@) {
            Ok((path, settings)) => r is Ok && r->Ok_0.0@ == path && r->Ok_0.1@ == settings,
            Err(failure) => r is Err && r->Err_0@ == failure,
        },
{
    let found = find_first(INCLUDE_PATTERN, directive);
    let (path, rest) = match split_directive(DirectiveKind::Include, directive, &found) {
        Ok(parts) => parts,
        Err(e) => {
            return Err(e);
        },
    };
    let mut parameters = IncludeParameters::default();
    match rest {
        Some(params) => {
            let title_found = find_first(TITLE_PATTERN, &params);
            parameters.title = captured_string(&params, &title_found);
            let level_found = find_first(TITLE_LEVEL_PATTERN, &params);
            parameters.title_level = match read_title_level(&params, &level_found) {
                Ok(level) => level,
                Err(e) => {
                    return Err(e);
                },
            };
            let values_found = find_first(VALUES_PATTERN, &params);
            match &values_found {
                Some(groups) => match group_chars(&params, groups, 1) {
                    Some(inner) => {
                        let pairs = find_all(PAIR_PATTERN, &inner);
                        parameters.values = read_values(&inner, &pairs);
                    },
                    None => {},
                },
                None => {},
            }
            Ok((path, parameters))
        },
        None => Ok((path, parameters)),
    }
}

/// Reads an include directive: the path, which is the first thing in the
/// parentheses, up to a comma or white space, without quote characters at
/// its ends; and after the first comma, in any order, `title="..."`,
/// `title-level=N` with `N` from one to six, and `values=[name="value", ...]`.
/// Anything else there is passed over.
pub fn parse_include_parameters(include_directive: &str) -> (r: Result<
    (String, IncludeParameters),
    ResolveError,
>)
    ensures
        match parsed_include(include_directive@) {
            Ok((path, settings)) => r is Ok && r->Ok_0.0@ == path && r->Ok_0.1@ == settings,
            Err(failure) => r is Err && r->Err_0@ == failure,
        },
{
    let directive = chars_of(include_directive);
    match parse_include_chars(&directive) {
        Ok((path, parameters)) => Ok((string_of(&path), parameters)),
        Err(e) => Err(e),
    }
}

/// The parameters that the parameter text `params` of a code-snippet
/// directive gives.
pub open spec fn snippet_settings(params: Seq<char>) -> Result<SnippetSettings, Failure> {
    match line_number(Parameter::Start, params, match_in(START_PATTERN@, params)) {
        Ok(start) => match line_number(Parameter::End, params, match_in(END_PATTERN@, params)) {
            Ok(end) => Ok(
                SnippetSettings {
                    lang: captured(params, match_in(LANG_PATTERN@, params)),
                    start,
                    end,
                },
            ),
            Err(failure) => Err(failure),
        },
        Err(failure) => Err(failure),
    }
}

/// What a code-snippet directive says: its path and its parameters.
pub open spec fn parsed_codesnippet(directive: Seq<char>) -> Result<
    (Seq<char>, SnippetSettings),
    Failure,
> {
    match directive_parts(
        DirectiveKind::CodeSnippet,
        directive,
        match_in(CODESNIPPET_PATTERN@, directive),
    ) {
        Ok((path, Some(params))) => match snippet_settings(params) {
            Ok(settings) => Ok((path, settings)),
            Err(failure) => Err(failure),
        },
        Ok((path, None)) => Ok((path, SnippetSettings { lang: None, start: None, end: None })),
        Err(failure) => Err(failure),
    }
}

/// Reads a code-snippet directive from its characters.
pub fn parse_codesnippet_chars(directive: &Vec<char>) -> (r: Result<
    (Vec<char>, CodeSnippetParameters),
    ResolveError,
>)
    ensures
        match parsed_codesnippet(directive@) {
            Ok((path, settings)) => r is Ok && r->Ok_0.0@ == path && r->Ok_0.1@ == settings,
            Err(failure) => r is Err && r->Err_0@ == failure,
        },
{
    let found = find_first(CODESNIPPET_PATTERN, directive);
    let (path, rest) = match split_directive(DirectiveKind::CodeSnippet, directive, &found) {
        Ok(parts) => parts,
        Err(e) => {
            return Err(e);
        },
    };
    let mut parameters = CodeSnippetParameters::default();
    match rest {
        Some(params) => {
            let lang_found = find_first(LANG_PATTERN, &params);
            parameters.lang = captured_string(&params, &lang_found);
            let start_found = find_first(START_PATTERN, &params);
            parameters.start = match read_line_number(Parameter::Start, &params, &start_found) {
                Ok(number) => number,
                Err(e) => {
                    return Err(e);
                },
            };
            let end_found = find_first(END_PATTERN, &params);
            parameters.end = match read_line_number(Parameter::End, &params, &end_found) {
                Ok(number) => number,
                Err(e) => {
                    return Err(e);
                },
            };
            Ok((path, parameters))
        },
        None => Ok((path, parameters)),
    }
}

/// Reads a code-snippet directive: the path, which is the first thing in the
/// parentheses, up to a comma, without white space and quote characters at
/// its ends; and after the first comma, in any order, `lang="..."`, and
/// `start=N` and `end=N` with positive `N`. Anything else there is passed
/// over.
pub fn parse_codesnippet_parameters(codesnippet_directive: &str) -> (r: Result<
    (String, CodeSnippetParameters),
    ResolveError,
>)
    ensures
        match parsed_codesnippet(codesnippet_directive@) {
            Ok((path, settings)) => r is Ok && r->Ok_0.0@ == path && r->Ok_0.1@ == settings,
            Err(failure) => r is Err && r->Err_0@ == failure,
        },
{
    let directive = chars_of(codesnippet_directive);
    match parse_codesnippet_chars(&directive) {
        Ok((path, parameters)) => Ok((string_of(&path), parameters)),
        Err(e) => Err(e),
    }
}

} // verus!
