//! What can go wrong while a document is resolved, and the words for it.

use vstd::prelude::*;
use crate::decimal::decimal;
use crate::decimal::decimal_chars;
use crate::text::append_chars;
use crate::text::append_str;
use crate::text::string_of;

verus! {

/// The two directives.
#[derive(Clone, Copy, Debug, PartialEq, Eq, Structural)]
pub enum DirectiveKind {
    Include,
    CodeSnippet,
}

/// The numeric parameters of the directives.
#[derive(Clone, Copy, Debug, PartialEq, Eq, Structural)]
pub enum Parameter {
    TitleLevel,
    Start,
    End,
}

/// A failure of the resolution of a document or of one of its parts.
#[derive(Clone, Debug, PartialEq, Eq)]
pub enum ResolveError {
    /// The text is no directive of the kind: it has no argument list in
    /// parentheses, or no path in it.
    MalformedDirective { kind: DirectiveKind, directive: String },
    /// A numeric parameter is no number or out of its range.
    InvalidParameter { parameter: Parameter },
    /// A placeholder names a variable that has no value and gives no default.
    UndefinedVariable { name: String },
    /// Substitution went on finding placeholders after its last pass.
    SubstitutionLoopDetected,
    /// Includes are nested deeper than the bound.
    MaxDepthExceeded,
    /// Rewriting went on finding directives after its last pass.
    IterationLimitExceeded,
    /// The fence opened at this line names no language.
    MissingFenceLanguage { line: usize },
    /// A fence line inside an open fence is indented otherwise than the
    /// opening line.
    FenceIndentMismatch { open_line: usize, close_line: usize, open_indent: usize, close_indent: usize },
    /// A fence line that names a language stands inside an open fence.
    UnexpectedNestedFenceOpen { open_line: usize, new_line: usize },
    /// The fence opened at this line is not closed.
    UnclosedFence { open_line: usize },
    /// A file could not be read.
    IncludeReadFailed { path: String, message: String },
    /// The first line asked for lies behind the last line of the file.
    StartBeyondEnd { start: usize, length: usize },
    /// The last line asked for does not lie behind the first.
    InvalidRange,
    /// The file that a path is relative to has no parent directory.
    NoParentDirectory,
    /// The sources at hand hold nothing for this path: neither its text nor
    /// the failure to read it.
    SourceNotLoaded { path: String },
}

/// A `ResolveError` with its texts as sequences of characters.
pub enum Failure {
    MalformedDirective { kind: DirectiveKind, directive: Seq<char> },
    InvalidParameter { parameter: Parameter },
    UndefinedVariable { name: Seq<char> },
    SubstitutionLoopDetected,
    MaxDepthExceeded,
    IterationLimitExceeded,
    MissingFenceLanguage { line: nat },
    FenceIndentMismatch { open_line: nat, close_line: nat, open_indent: nat, close_indent: nat },
    UnexpectedNestedFenceOpen { open_line: nat, new_line: nat },
    UnclosedFence { open_line: nat },
    IncludeReadFailed { path: Seq<char>, message: Seq<char> },
    StartBeyondEnd { start: nat, length: nat },
    InvalidRange,
    NoParentDirectory,
    SourceNotLoaded { path: Seq<char> },
}

impl View for ResolveError {
    type V = Failure;

    open spec fn view(&self) -> Failure {
        match *self {
            ResolveError::MalformedDirective { kind, directive } => Failure::MalformedDirective {
                kind,
                directive: directive@,
            },
            ResolveError::InvalidParameter { parameter } => Failure::InvalidParameter {
                parameter,
            },
            ResolveError::UndefinedVariable { name } => Failure::UndefinedVariable {
                name: name@,
            },
            ResolveError::SubstitutionLoopDetected => Failure::SubstitutionLoopDetected,
            ResolveError::MaxDepthExceeded => Failure::MaxDepthExceeded,
            ResolveError::IterationLimitExceeded => Failure::IterationLimitExceeded,
            ResolveError::MissingFenceLanguage { line } => Failure::MissingFenceLanguage {
                line: line as nat,
            },
            ResolveError::FenceIndentMismatch {
                open_line,
                close_line,
                open_indent,
                close_indent,
            } => Failure::FenceIndentMismatch {
                open_line: open_line as nat,
                close_line: close_line as nat,
                open_indent: open_indent as nat,
                close_indent: close_indent as nat,
            },
            ResolveError::UnexpectedNestedFenceOpen {
                open_line,
                new_line,
            } => Failure::UnexpectedNestedFenceOpen {
                open_line: open_line as nat,
                new_line: new_line as nat,
            },
            ResolveError::UnclosedFence { open_line } => Failure::UnclosedFence {
                open_line: open_line as nat,
            },
            ResolveError::IncludeReadFailed { path, message } => Failure::IncludeReadFailed {
                path: path@,
                message: message@,
            },
            ResolveError::StartBeyondEnd { start, length } => Failure::StartBeyondEnd {
                start: start as nat,
                length: length as nat,
            },
            ResolveError::InvalidRange => Failure::InvalidRange,
            ResolveError::NoParentDirectory => Failure::NoParentDirectory,
            ResolveError::SourceNotLoaded { path } => Failure::SourceNotLoaded { path: path@ },
        }
    }
}

impl Failure {
    /// The sentence that tells of the failure.
    pub open spec fn message(self) -> Seq<char> {
        match self {
            Failure::MalformedDirective { kind: DirectiveKind::Include, directive } => {
                "Invalid include directive format '"@ + directive + "'"@
            },
            Failure::MalformedDirective { kind: DirectiveKind::CodeSnippet, directive } => {
                "Invalid codesnippet directive format"@
            },
            Failure::InvalidParameter { parameter: Parameter::TitleLevel } => {
                "title-level must be between 1 and 6"@
            },
            Failure::InvalidParameter { parameter: Parameter::Start } => {
                "start line must be greater than 0"@
            },
            Failure::InvalidParameter { parameter: Parameter::End } => {
                "end line must be greater than 0"@
            },
            Failure::UndefinedVariable { name } => {
                "Variable '"@ + name + "' not found and no default value provided"@
            },
            Failure::SubstitutionLoopDetected => {
                "Maximum variable processing iterations exceeded. Possible circular variable references."@
            },
            Failure::MaxDepthExceeded => {
                "Maximum include depth (5) exceeded. Possible circular includes."@
            },
            Failure::IterationLimitExceeded => {
                "Maximum include processing iterations exceeded. Possible circular includes or malformed directives."@
            },
            Failure::MissingFenceLanguage { line } => {
                "Code fence at line "@ + decimal(line)
                    + " does not specify a language. Use --fix-code-fences to automatically fix this."@
            },
            Failure::FenceIndentMismatch { open_line, close_line, open_indent, close_indent } => {
                "Code fence closing at line "@ + decimal(close_line)
                    + " has different indentation than opening fence at line "@ + decimal(
                    open_line,
                ) + ". Opening: "@ + decimal(open_indent) + " spaces, Closing: "@ + decimal(
                    close_indent,
                ) + " spaces."@
            },
            Failure::UnexpectedNestedFenceOpen { open_line, new_line } => {
                "Found new code fence opening at line "@ + decimal(new_line)
                    + " while previous fence from line "@ + decimal(open_line)
                    + " is still open."@
            },
            Failure::UnclosedFence { open_line } => {
                "Code fence opened at line "@ + decimal(open_line) + " was never closed."@
            },
            Failure::IncludeReadFailed { path, message } => {
                "Failed to read code file '"@ + path + "': "@ + message
            },
            Failure::StartBeyondEnd { start, length } => {
                "Start line "@ + decimal(start) + " is beyond the file length ("@ + decimal(
                    length,
                ) + ")"@
            },
            Failure::InvalidRange => "End line must be greater than start line"@,
            Failure::NoParentDirectory => "Cannot determine parent directory of current file"@,
            Failure::SourceNotLoaded { path } => "Source not loaded: "@ + path,
        }
    }
}

impl ResolveError {
    /// The sentence that tells of the failure, as characters.
    pub fn message_chars(&self) -> (out: Vec<char>)
        ensures
            out@ == self@.message(),
    {
        let mut out: Vec<char> = Vec::new();
        match self {
            ResolveError::MalformedDirective { kind: DirectiveKind::Include, directive } => {
                append_str(&mut out, "Invalid include directive format '");
                append_str(&mut out, directive.as_str());
                append_str(&mut out, "'");
            },
            ResolveError::MalformedDirective { kind: DirectiveKind::CodeSnippet, directive } => {
                append_str(&mut out, "Invalid codesnippet directive format");
            },
            ResolveError::InvalidParameter { parameter: Parameter::TitleLevel } => {
                append_str(&mut out, "title-level must be between 1 and 6");
            },
            ResolveError::InvalidParameter { parameter: Parameter::Start } => {
                append_str(&mut out, "start line must be greater than 0");
            },
            ResolveError::InvalidParameter { parameter: Parameter::End } => {
                append_str(&mut out, "end line must be greater than 0");
            },
            ResolveError::UndefinedVariable { name } => {
                append_str(&mut out, "Variable '");
                append_str(&mut out, name.as_str());
                append_str(&mut out, "' not found and no default value provided");
            },
            ResolveError::SubstitutionLoopDetected => {
                append_str(
                    &mut out,
                    "Maximum variable processing iterations exceeded. Possible circular variable references.",
                );
            },
            ResolveError::MaxDepthExceeded => {
                append_str(
                    &mut out,
                    "Maximum include depth (5) exceeded. Possible circular includes.",
                );
            },
            ResolveError::IterationLimitExceeded => {
                append_str(
                    &mut out,
                    "Maximum include processing iterations exceeded. Possible circular includes or malformed directives.",
                );
            },
            ResolveError::MissingFenceLanguage { line } => {
                append_str(&mut out, "Code fence at line ");
                append_chars(&mut out, &decimal_chars(*line));
                append_str(
                    &mut out,
                    " does not specify a language. Use --fix-code-fences to automatically fix this.",
                );
            },
            ResolveError::FenceIndentMismatch {
                open_line,
                close_line,
                open_indent,
                close_indent,
            } => {
                append_str(&mut out, "Code fence closing at line ");
                append_chars(&mut out, &decimal_chars(*close_line));
                append_str(&mut out, " has different indentation than opening fence at line ");
                append_chars(&mut out, &decimal_chars(*open_line));
                append_str(&mut out, ". Opening: ");
                append_chars(&mut out, &decimal_chars(*open_indent));
                append_str(&mut out, " spaces, Closing: ");
                append_chars(&mut out, &decimal_chars(*close_indent));
                append_str(&mut out, " spaces.");
            },
            ResolveError::UnexpectedNestedFenceOpen { open_line, new_line } => {
                append_str(&mut out, "Found new code fence opening at line ");
                append_chars(&mut out, &decimal_chars(*new_line));
                append_str(&mut out, " while previous fence from line ");
                append_chars(&mut out, &decimal_chars(*open_line));
                append_str(&mut out, " is still open.");
            },
            ResolveError::UnclosedFence { open_line } => {
                append_str(&mut out, "Code fence opened at line ");
                append_chars(&mut out, &decimal_chars(*open_line));
                append_str(&mut out, " was never closed.");
            },
            ResolveError::IncludeReadFailed { path, message } => {
                append_str(&mut out, "Failed to read code file '");
                append_str(&mut out, path.as_str());
                append_str(&mut out, "': ");
                append_str(&mut out, message.as_str());
            },
            ResolveError::StartBeyondEnd { start, length } => {
                append_str(&mut out, "Start line ");
                append_chars(&mut out, &decimal_chars(*start));
                append_str(&mut out, " is beyond the file length (");
                append_chars(&mut out, &decimal_chars(*length));
                append_str(&mut out, ")");
            },
            ResolveError::InvalidRange => {
                append_str(&mut out, "End line must be greater than start line");
            },
            ResolveError::NoParentDirectory => {
                append_str(&mut out, "Cannot determine parent directory of current file");
            },
            ResolveError::SourceNotLoaded { path } => {
                append_str(&mut out, "Source not loaded: ");
                append_str(&mut out, path.as_str());
            },
        }
        proof {
            assert(out@ =~= self@.message());
        }
        out
    }

    /// The sentence that tells of the failure.
    pub fn to_string(&self) -> (out: String)
        ensures
            out@ == self@.message(),
    {
        string_of(&self.message_chars())
    }
}

} // verus!
