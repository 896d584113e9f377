//! The outcome of a document, and of all documents of a run.
//!
//! The documents are handed in with their texts, and what is to be written
//! is handed back: reading and writing are the caller's.

use vstd::prelude::*;
use crate::error::Failure;
use crate::error::ResolveError;
use crate::fence::text_of;
use crate::include_resolver::process_includes_with_validation;
use crate::include_resolver::validated_and_resolved;
pub use crate::paths::calculate_output_path;
use crate::paths::output_target;
use crate::text::append_chars;
use crate::text::append_str;
use crate::text::chars_of;
use crate::text::string_of;
use crate::sources::Sources;
use crate::text::option_text;
use crate::types::records;
use crate::types::FileProcessResult;
use crate::types::IncludeRecord;
use crate::types::IncludeResult;
use crate::types::ProcessingConfig;
use crate::types::ProcessingSummary;

verus! {

/// A `FileProcessResult` with its texts as sequences of characters.
pub struct FileRecord {
    pub file_path: Seq<char>,
    pub success: bool,
    pub includes: Seq<IncludeRecord>,
    pub error_message: Option<Seq<char>>,
}

impl View for FileProcessResult {
    type V = FileRecord;

    open spec fn view(&self) -> FileRecord {
        FileRecord {
            file_path: self.file_path@,
            success: self.success,
            includes: records(self.includes@),
            error_message: option_text(self.error_message),
        }
    }
}

/// The line that tells of a failed record: its path and, where it has one,
/// its message.
pub open spec fn failed_line(record: IncludeRecord) -> Seq<char> {
    match record.error_message {
        Some(message) => "  • "@ + record.path + " ("@ + message + ")"@,
        None => "  • "@ + record.path,
    }
}

/// The lines that tell of the failed records among the first `n` of `trace`,
/// one under the other.
pub open spec fn failed_lines(trace: Seq<IncludeRecord>, n: nat) -> Seq<char>
    decreases n,
{
    if n == 0 || n > trace.len() {
        Seq::empty()
    } else {
        let before = failed_lines(trace, (n - 1) as nat);
        if trace[n - 1].success {
            before
        } else if any_failed(trace, (n - 1) as nat) {
            before + seq!['\n'] + failed_line(trace[n - 1])
        } else {
            failed_line(trace[n - 1])
        }
    }
}

/// Whether one of the first `n` records of `trace` tells of a failure.
pub open spec fn any_failed(trace: Seq<IncludeRecord>, n: nat) -> bool
    decreases n,
{
    if n == 0 || n > trace.len() {
        false
    } else {
        any_failed(trace, (n - 1) as nat) || !trace[n - 1].success
    }
}

/// What comes of one document.
pub enum FileStep {
    /// The document is done: its outcome, and the text to write where there
    /// is one.
    Finished { result: FileProcessResult, output: Option<String> },
    /// The sources lack the file at this path.
    Missing { path: String },
}

/// A `FileStep` with its texts as sequences of characters.
pub enum FileStage {
    Finished { result: FileRecord, output: Option<Seq<char>> },
    Missing { path: Seq<char> },
}

impl View for FileStep {
    type V = FileStage;

    open spec fn view(&self) -> FileStage {
        match *self {
            FileStep::Finished { result, output } => FileStage::Finished {
                result: result@,
                output: option_text(output),
            },
            FileStep::Missing { path } => FileStage::Missing { path: path@ },
        }
    }
}

/// What comes of the document `source_file` with the text `content`. Where
/// the text is validated and resolved, the document is written, and it
/// succeeds unless one of its directives failed: then its message lists
/// them. Where validation or resolution fails, nothing is written, and the
/// message tells why. Where a file is missing from the sources, nothing is
/// decided.
pub open spec fn file_outcome(
    source_file: Seq<char>,
    content: Seq<char>,
    partials_path: Seq<char>,
    default_language: Option<Seq<char>>,
    sources: Map<Seq<char>, Result<Seq<char>, Seq<char>>>,
) -> FileStage {
    let resolution = validated_and_resolved(
        content,
        source_file,
        partials_path,
        sources,
        default_language,
    );
    match resolution.outcome {
        Ok(text) => FileStage::Finished {
            result: FileRecord {
                file_path: source_file,
                success: !any_failed(resolution.trace, resolution.trace.len()),
                includes: resolution.trace,
                error_message: if any_failed(resolution.trace, resolution.trace.len()) {
                    Some(
                        "File contains failed includes:\n"@ + failed_lines(
                            resolution.trace,
                            resolution.trace.len(),
                        ),
                    )
                } else {
                    None
                },
            },
            output: Some(text),
        },
        Err(Failure::SourceNotLoaded { path }) => FileStage::Missing { path },
        Err(failure) => FileStage::Finished {
            result: FileRecord {
                file_path: source_file,
                success: false,
                includes: resolution.trace,
                error_message: Some("Failed to process includes: "@ + failure.message()),
            },
            output: None,
        },
    }
}

/// The lines that tell of the failed records of `trace`, if there are any.
pub fn list_failed(trace: &Vec<IncludeResult>) -> (r: Option<Vec<char>>)
    ensures
        match r {
            Some(lines) => any_failed(records(trace@), trace@.len()) && lines@ == failed_lines(
                records(trace@),
                trace@.len(),
            ),
            None => !any_failed(records(trace@), trace@.len()),
        },
{
    let mut lines: Vec<char> = Vec::new();
    let mut any = false;
    let mut i: usize = 0;
    while i < trace.len()
        invariant
            i <= trace.len(),
            any == any_failed(records(trace@), i as nat),
            lines@ == failed_lines(records(trace@), i as nat),
            !any ==> lines@.len() == 0,
        decreases trace.len() - i,
    {
        let record = &trace[i];
        proof {
            assert(records(trace@)[i as int] == record@);
        }
        if !record.success {
            let ghost before = lines@;
            if any {
                lines.push('\n');
            }
            append_str(&mut lines, "  • ");
            append_str(&mut lines, record.path.as_str());
            match &record.error_message {
                Some(message) => {
                    append_str(&mut lines, " (");
                    append_str(&mut lines, message.as_str());
                    append_str(&mut lines, ")");
                },
                None => {},
            }
            proof {
                if any {
                    assert(lines@ =~= before + seq!['\n'] + failed_line(record@));
                } else {
                    assert(lines@ =~= failed_line(record@));
                }
            }
            any = true;
        }
        i += 1;
    }
    if any {
        Some(lines)
    } else {
        None
    }
}

/// Validates and resolves the document `source_file`, whose text is
/// `content`: see `file_outcome`.
pub fn process_single_file(
    source_file: &str,
    content: &str,
    partials_path: &str,
    fix_code_fences: Option<&str>,
    sources: &Sources,
) -> (step: FileStep)
    ensures
        step@ == file_outcome(
            source_file@,
            content@,
            partials_path@,
            text_of(fix_code_fences),
            sources@,
        ),
{
    let mut includes: Vec<IncludeResult> = Vec::new();
    proof {
        assert(records(includes@) =~= Seq::<IncludeRecord>::empty());
    }
    let ghost resolution = validated_and_resolved(
        content@,
        source_file@,
        partials_path@,
        sources@,
        text_of(fix_code_fences),
    );
    let processed = process_includes_with_validation(
        content,
        source_file,
        partials_path,
        &mut includes,
        fix_code_fences,
        sources,
    );
    proof {
        assert(records(includes@) =~= resolution.trace);
        assert(records(includes@).len() == includes@.len());
    }
    match processed {
        Ok(text) => {
            let failed = list_failed(&includes);
            let (success, error_message) = match failed {
                Some(lines) => {
                    let mut message = chars_of("File contains failed includes:\n");
                    append_chars(&mut message, &lines);
                    (false, Some(string_of(&message)))
                },
                None => (true, None),
            };
            FileStep::Finished {
                result: FileProcessResult {
                    file_path: String::from_str(source_file),
                    success,
                    includes,
                    error_message,
                },
                output: Some(text),
            }
        },
        Err(ResolveError::SourceNotLoaded { path }) => FileStep::Missing { path },
        Err(e) => {
            let mut message = chars_of("Failed to process includes: ");
            append_chars(&mut message, &e.message_chars());
            FileStep::Finished {
                result: FileProcessResult {
                    file_path: String::from_str(source_file),
                    success: false,
                    includes,
                    error_message: Some(string_of(&message)),
                },
                output: None,
            }
        },
    }
}

/// A document: its path and its text.
#[derive(Debug, Clone)]
pub struct Document {
    pub path: String,
    pub content: String,
}

/// A text to write, and the path to write it to.
#[derive(Debug, Clone)]
pub struct Output {
    pub path: String,
    pub text: String,
}

/// The paths and texts of the documents.
pub open spec fn document_views(documents: Seq<Document>) -> Seq<(Seq<char>, Seq<char>)> {
    documents.map_values(|d: Document| (d.path@, d.content@))
}

/// The paths and texts of the outputs.
pub open spec fn output_views(outputs: Seq<Output>) -> Seq<(Seq<char>, Seq<char>)> {
    outputs.map_values(|o: Output| (o.path@, o.text@))
}

/// The views of the outcomes of files.
pub open spec fn file_records(results: Seq<FileProcessResult>) -> Seq<FileRecord> {
    results.map_values(|r: FileProcessResult| r@)
}

/// What a run is asked to do, with its paths as sequences of characters.
pub struct Settings {
    pub source_path: Seq<char>,
    pub partials_path: Seq<char>,
    pub output_path: Seq<char>,
    pub batch: bool,
    pub verbose: bool,
}

impl View for ProcessingConfig {
    type V = Settings;

    open spec fn view(&self) -> Settings {
        Settings {
            source_path: self.source_path@,
            partials_path: self.partials_path@,
            output_path: self.output_path@,
            batch: self.batch,
            verbose: self.verbose,
        }
    }
}

/// Where the output of the document at `path` goes: in a batch, as far
/// under the output path as the document lies under the source path; else
/// to the output path itself.
pub open spec fn output_place(settings: Settings, path: Seq<char>) -> Option<Seq<char>> {
    if settings.batch {
        output_target(path, settings.source_path, settings.output_path)
    } else {
        Some(settings.output_path)
    }
}

/// The outcome of a document that has no place for its output.
pub open spec fn unplaced(path: Seq<char>) -> FileRecord {
    FileRecord {
        file_path: path,
        success: false,
        includes: Seq::empty(),
        error_message: Some("Failed to calculate output path for file"@),
    }
}

/// A run over documents, as far as it has come.
pub struct Run {
    /// The outcomes of the documents so far.
    pub results: Seq<FileRecord>,
    /// What is to be written so far: paths and texts.
    pub outputs: Seq<(Seq<char>, Seq<char>)>,
    /// The path of the file that the sources lack, which stopped the run.
    pub missing: Option<Seq<char>>,
}

/// The run after the first `n` of `documents`. A document that has no place
/// for its output fails, and is not looked into. For any other see
/// `file_outcome`; its text, where it has one, is to be written to its
/// place. A file that the sources lack stops the run.
pub open spec fn run_after(
    settings: Settings,
    documents: Seq<(Seq<char>, Seq<char>)>,
    n: nat,
    default_language: Option<Seq<char>>,
    sources: Map<Seq<char>, Result<Seq<char>, Seq<char>>>,
) -> Run
    decreases n,
{
    if n == 0 || n > documents.len() {
        Run { results: Seq::empty(), outputs: Seq::empty(), missing: None }
    } else {
        let so_far = run_after(settings, documents, (n - 1) as nat, default_language, sources);
        let (path, content) = documents[n - 1];
        if so_far.missing is Some {
            so_far
        } else {
            match output_place(settings, path) {
                Some(place) => match file_outcome(
                    path,
                    content,
                    settings.partials_path,
                    default_language,
                    sources,
                ) {
                    FileStage::Finished { result, output } => Run {
                        results: so_far.results.push(result),
                        outputs: match output {
                            Some(text) => so_far.outputs.push((place, text)),
                            None => so_far.outputs,
                        },
                        missing: None,
                    },
                    FileStage::Missing { path: needed } => Run { missing: Some(needed), ..so_far },
                },
                None => Run { results: so_far.results.push(unplaced(path)), ..so_far },
            }
        }
    }
}

/// A run that has stopped stays as it is.
pub proof fn lemma_run_stays(
    settings: Settings,
    documents: Seq<(Seq<char>, Seq<char>)>,
    n: nat,
    m: nat,
    default_language: Option<Seq<char>>,
    sources: Map<Seq<char>, Result<Seq<char>, Seq<char>>>,
)
    requires
        n <= m <= documents.len(),
        run_after(settings, documents, n, default_language, sources).missing is Some,
    ensures
        run_after(settings, documents, m, default_language, sources) == run_after(
            settings,
            documents,
            n,
            default_language,
            sources,
        ),
    decreases m - n,
{
    if n < m {
        lemma_run_stays(settings, documents, n, (m - 1) as nat, default_language, sources);
    }
}

/// The outcome of a document that has no place for its output: a failure,
/// without records.
pub fn unplaced_result(path: &str) -> (result: FileProcessResult)
    ensures
        result@ == unplaced(path@),
{
    let result = FileProcessResult {
        file_path: String::from_str(path),
        success: false,
        includes: Vec::new(),
        error_message: Some(String::from_str("Failed to calculate output path for file")),
    };
    proof {
        assert(records(result.includes@) =~= Seq::<IncludeRecord>::empty());
    }
    result
}

/// Where the output of the document at `path` goes: see `output_place`.
pub fn place_output(config: &ProcessingConfig, path: &str) -> (r: Option<String>)
    ensures
        option_text(r) == output_place(config@, path@),
{
    if config.batch {
        calculate_output_path(path, config.source_path.as_str(), config.output_path.as_str())
    } else {
        Some(config.output_path.clone())
    }
}

/// Processes `documents`, one after the other, and takes their outcomes
/// into `summary`: see `run_after`. What comes back is what is to be
/// written. Where the sources lack a file, nothing is taken into the
/// summary, and the failure names the file.
pub fn process_files(
    config: &ProcessingConfig,
    documents: &Vec<Document>,
    summary: &mut ProcessingSummary,
    fix_code_fences: Option<&str>,
    sources: &Sources,
) -> (r: Result<Vec<Output>, ResolveError>)
    requires
        old(summary).processed_files + documents@.len() <= usize::MAX,
    ensures
        ({
            let run = run_after(
                config@,
                document_views(documents@),
                documents@.len(),
                text_of(fix_code_fences),
                sources@,
            );
            match run.missing {
                Some(path) => {
                    &&& r is Err
                    &&& r->Err_0@ == (Failure::SourceNotLoaded { path })
                    &&& *final(summary) == *old(summary)
                },
                None => {
                    &&& r is Ok
                    &&& output_views(r->Ok_0@) == run.outputs
                    &&& file_records(final(summary).results@) == file_records(
                        old(summary).results@,
                    ) + run.results
                    &&& final(summary).total_files == documents@.len()
                    &&& final(summary).processed_files == old(summary).processed_files
                        + run.results.len()
                    &&& run.results.len() == documents@.len()
                    &&& option_text(final(summary).current_file) == if documents@.len() > 0 {
                        Some(documents@.last().path@)
                    } else {
                        option_text(old(summary).current_file)
                    }
                },
            }
        }),
{
    let ghost all = document_views(documents@);
    let ghost language = text_of(fix_code_fences);
    let mut results: Vec<FileProcessResult> = Vec::new();
    let mut outputs: Vec<Output> = Vec::new();
    let mut i: usize = 0;
    proof {
        assert(all.len() == documents@.len());
    }
    while i < documents.len()
        invariant
            i <= documents.len(),
            all == document_views(documents@),
            all.len() == documents@.len(),
            language == text_of(fix_code_fences),
            *summary == *old(summary),
            results@.len() == i,
            ({
                let so_far = run_after(config@, all, i as nat, language, sources@);
                &&& so_far.missing is None
                &&& so_far.results =~= file_records(results@)
                &&& so_far.outputs =~= output_views(outputs@)
            }),
        decreases documents.len() - i,
    {
        let document = &documents[i];
        proof {
            assert(all[i as int] == (document.path@, document.content@));
        }
        match place_output(config, document.path.as_str()) {
            Some(place) => match process_single_file(
                document.path.as_str(),
                document.content.as_str(),
                config.partials_path.as_str(),
                fix_code_fences,
                sources,
            ) {
                FileStep::Finished { result, output } => {
                    proof {
                        assert(file_records(results@.push(result)) =~= file_records(
                            results@,
                        ).push(result@));
                    }
                    results.push(result);
                    match output {
                        Some(text) => {
                            let written = Output { path: place, text };
                            proof {
                                assert(output_views(outputs@.push(written)) =~= output_views(
                                    outputs@,
                                ).push((written.path@, written.text@)));
                            }
                            outputs.push(written);
                        },
                        None => {},
                    }
                },
                FileStep::Missing { path } => {
                    proof {
                        lemma_run_stays(
                            config@,
                            all,
                            (i + 1) as nat,
                            all.len(),
                            language,
                            sources@,
                        );
                    }
                    return Err(ResolveError::SourceNotLoaded { path });
                },
            },
            None => {
                let result = unplaced_result(document.path.as_str());
                proof {
                    assert(file_records(results@.push(result)) =~= file_records(results@).push(
                        result@,
                    ));
                }
                results.push(result);
            },
        }
        i += 1;
    }
    let count = documents.len();
    summary.set_total_files(count);
    if count > 0 {
        summary.set_current_file(documents[count - 1].path.clone());
    }
    take_in(summary, results);
    Ok(outputs)
}

/// Takes the outcomes `results` into `summary`, in their order.
pub fn take_in(summary: &mut ProcessingSummary, results: Vec<FileProcessResult>)
    requires
        old(summary).processed_files + results@.len() <= usize::MAX,
    ensures
        final(summary).results@ == old(summary).results@ + results@,
        file_records(final(summary).results@) == file_records(old(summary).results@)
            + file_records(results@),
        final(summary).processed_files == old(summary).processed_files + results@.len(),
        final(summary).total_files == old(summary).total_files,
        final(summary).current_file == old(summary).current_file,
{
    let mut taken = results;
    summary.processed_files += taken.len();
    summary.results.append(&mut taken);
    proof {
        assert(file_records(old(summary).results@ + results@) =~= file_records(
            old(summary).results@,
        ) + file_records(results@));
    }
}

} // verus!
