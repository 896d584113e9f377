//! The records of a run: the outcome of each directive and of each file, the
//! parameters of the directives, and the summary of all files.

use vstd::prelude::*;
use crate::text::option_text;

verus! {

/// The outcome of one attempt to resolve a directive.
#[derive(Debug, Clone)]
pub struct IncludeResult {
    pub path: String,
    pub success: bool,
    pub error_message: Option<String>,
}

/// An `IncludeResult` with its texts as sequences of characters.
pub struct IncludeRecord {
    pub path: Seq<char>,
    pub success: bool,
    pub error_message: Option<Seq<char>>,
}

impl View for IncludeResult {
    type V = IncludeRecord;

    open spec fn view(&self) -> IncludeRecord {
        IncludeRecord {
            path: self.path@,
            success: self.success,
            error_message: option_text(self.error_message),
        }
    }
}

/// The records of a trace.
pub open spec fn records(trace: Seq<IncludeResult>) -> Seq<IncludeRecord> {
    trace.map_values(|r: IncludeResult| r@)
}

/// Names with their values. A name has at most one value: the one that was
/// given last.
#[derive(Debug, Clone)]
pub struct VariableMap {
    entries: Vec<(String, String)>,
}

/// The map that a list of pairs makes, a later pair replacing an earlier one
/// of the same name.
pub open spec fn map_of(entries: Seq<(String, String)>) -> Map<Seq<char>, Seq<char>>
    decreases entries.len(),
{
    if entries.len() == 0 {
        Map::empty()
    } else {
        map_of(entries.drop_last()).insert(entries.last().0@, entries.last().1@)
    }
}

impl View for VariableMap {
    type V = Map<Seq<char>, Seq<char>>;

    closed spec fn view(&self) -> Map<Seq<char>, Seq<char>> {
        map_of(self.entries@)
    }
}

impl VariableMap {
    /// The map without any name.
    pub fn new() -> (m: VariableMap)
        ensures
            m@ == Map::<Seq<char>, Seq<char>>::empty(),
    {
        VariableMap { entries: Vec::new() }
    }

    /// Gives `key` the value `value`, in place of the one it had.
    pub fn insert(&mut self, key: String, value: String)
        ensures
            final(self)@ == old(self)@.insert(key@, value@),
    {
        let ghost before = self.entries@;
        self.entries.push((key, value));
        proof {
            assert(self.entries@.drop_last() =~= before);
        }
    }

    /// The value of `key`, if it has one.
    pub fn get(&self, key: &str) -> (r: Option<&String>)
        ensures
            match r {
                Some(value) => self@.contains_key(key@) && self@[key@] == value@,
                None => !self@.contains_key(key@),
            },
    {
        let wanted = String::from_str(key);
        let mut i: usize = self.entries.len();
        proof {
            assert(self.entries@.take(i as int) =~= self.entries@);
        }
        while i > 0
            invariant
                i <= self.entries.len(),
                wanted@ == key@,
                map_of(self.entries@).contains_key(key@) == map_of(
                    self.entries@.take(i as int),
                ).contains_key(key@),
                map_of(self.entries@).contains_key(key@) ==> map_of(self.entries@)[key@] == map_of(
                    self.entries@.take(i as int),
                )[key@],
            decreases i,
        {
            proof {
                assert(self.entries@.take(i as int).drop_last() =~= self.entries@.take(i - 1));
            }
            if self.entries[i - 1].0 == wanted {
                return Some(&self.entries[i - 1].1);
            }
            i -= 1;
        }
        proof {
            assert(self.entries@.take(0) =~= Seq::<(String, String)>::empty());
        }
        None
    }

    /// Whether no name has a value.
    pub fn is_empty(&self) -> (r: bool)
        ensures
            r == (self@ == Map::<Seq<char>, Seq<char>>::empty()),
    {
        proof {
            if self.entries@.len() > 0 {
                assert(self@.contains_key(self.entries@.last().0@));
            }
        }
        self.entries.len() == 0
    }
}

/// The parameters of an include directive.
#[derive(Debug, Clone)]
pub struct IncludeParameters {
    pub title: Option<String>,
    pub title_level: Option<u8>,
    pub values: VariableMap,
}

/// `IncludeParameters` with their texts as sequences of characters.
pub struct IncludeSettings {
    pub title: Option<Seq<char>>,
    pub title_level: Option<u8>,
    pub values: Map<Seq<char>, Seq<char>>,
}

impl View for IncludeParameters {
    type V = IncludeSettings;

    open spec fn view(&self) -> IncludeSettings {
        IncludeSettings {
            title: option_text(self.title),
            title_level: self.title_level,
            values: self.values@,
        }
    }
}

impl Default for IncludeParameters {
    /// No title, level one, no values.
    fn default() -> (p: IncludeParameters)
        ensures
            p.title is None,
            p.title_level == Some(1u8),
            p.values@ == Map::<Seq<char>, Seq<char>>::empty(),
    {
        IncludeParameters { title: None, title_level: Some(1), values: VariableMap::new() }
    }
}

/// The parameters of a code-snippet directive. Lines are counted from one.
#[derive(Debug, Clone)]
pub struct CodeSnippetParameters {
    pub lang: Option<String>,
    pub start: Option<usize>,
    pub end: Option<usize>,
}

/// `CodeSnippetParameters` with their texts as sequences of characters.
pub struct SnippetSettings {
    pub lang: Option<Seq<char>>,
    pub start: Option<usize>,
    pub end: Option<usize>,
}

impl View for CodeSnippetParameters {
    type V = SnippetSettings;

    open spec fn view(&self) -> SnippetSettings {
        SnippetSettings { lang: option_text(self.lang), start: self.start, end: self.end }
    }
}

impl Default for CodeSnippetParameters {
    /// No language, and the whole file.
    fn default() -> (p: CodeSnippetParameters)
        ensures
            p.lang is None,
            p.start is None,
            p.end is None,
    {
        CodeSnippetParameters { lang: None, start: None, end: None }
    }
}

/// The outcome of one file.
#[derive(Debug)]
pub struct FileProcessResult {
    pub file_path: String,
    pub success: bool,
    pub includes: Vec<IncludeResult>,
    pub error_message: Option<String>,
}

/// What a run is asked to do.
#[derive(Debug, Clone)]
pub struct ProcessingConfig {
    pub source_path: String,
    pub partials_path: String,
    pub output_path: String,
    pub batch: bool,
    pub verbose: bool,
}

/// The outcomes of the files of a run, and how far the run is.
#[derive(Debug)]
pub struct ProcessingSummary {
    pub results: Vec<FileProcessResult>,
    pub total_files: usize,
    pub processed_files: usize,
    pub current_file: Option<String>,
}

/// How many of the first `n` files succeeded.
pub open spec fn successes(results: Seq<FileProcessResult>, n: nat) -> nat
    decreases n,
{
    if n == 0 || n > results.len() {
        0
    } else {
        successes(results, (n - 1) as nat) + if results[n - 1].success {
            1nat
        } else {
            0nat
        }
    }
}

/// How many of the first `n` records of a trace tell of a success.
pub open spec fn successful_records(trace: Seq<IncludeResult>, n: nat) -> nat
    decreases n,
{
    if n == 0 || n > trace.len() {
        0
    } else {
        successful_records(trace, (n - 1) as nat) + if trace[n - 1].success {
            1nat
        } else {
            0nat
        }
    }
}

/// How many trace records the first `n` files hold.
pub open spec fn include_total(results: Seq<FileProcessResult>, n: nat) -> nat
    decreases n,
{
    if n == 0 || n > results.len() {
        0
    } else {
        include_total(results, (n - 1) as nat) + results[n - 1].includes@.len()
    }
}

/// How many trace records of the first `n` files tell of a success.
pub open spec fn include_successes(results: Seq<FileProcessResult>, n: nat) -> nat
    decreases n,
{
    if n == 0 || n > results.len() {
        0
    } else {
        include_successes(results, (n - 1) as nat) + successful_records(
            results[n - 1].includes@,
            results[n - 1].includes@.len(),
        )
    }
}

/// No more files succeeded than there are files.
pub proof fn lemma_successes_bound(results: Seq<FileProcessResult>, n: nat)
    ensures
        successes(results, n) <= n,
    decreases n,
{
    if !(n == 0 || n > results.len()) {
        lemma_successes_bound(results, (n - 1) as nat);
    }
}

/// No more records tell of a success than there are records.
pub proof fn lemma_successful_records_bound(trace: Seq<IncludeResult>, n: nat)
    ensures
        successful_records(trace, n) <= n,
    decreases n,
{
    if !(n == 0 || n > trace.len()) {
        lemma_successful_records_bound(trace, (n - 1) as nat);
    }
}

/// No more records tell of a success than there are records.
pub proof fn lemma_include_successes_bound(results: Seq<FileProcessResult>, n: nat)
    ensures
        include_successes(results, n) <= include_total(results, n),
    decreases n,
{
    if !(n == 0 || n > results.len()) {
        lemma_include_successes_bound(results, (n - 1) as nat);
        lemma_successful_records_bound(
            results[n - 1].includes@,
            results[n - 1].includes@.len(),
        );
    }
}

/// More files hold no fewer records.
pub proof fn lemma_include_total_monotone(results: Seq<FileProcessResult>, n: nat, m: nat)
    requires
        n <= m <= results.len(),
    ensures
        include_total(results, n) <= include_total(results, m),
    decreases m - n,
{
    if n < m {
        lemma_include_total_monotone(results, n, (m - 1) as nat);
    }
}

impl ProcessingSummary {
    /// The number of trace records in all files.
    pub open spec fn all_includes(&self) -> nat {
        include_total(self.results@, self.results@.len())
    }

    /// The summary of a run that has not begun.
    pub fn new() -> (s: ProcessingSummary)
        ensures
            s.results@.len() == 0,
            s.total_files == 0,
            s.processed_files == 0,
            s.current_file is None,
    {
        ProcessingSummary {
            results: Vec::new(),
            total_files: 0,
            processed_files: 0,
            current_file: None,
        }
    }

    /// Sets the number of files of the run.
    pub fn set_total_files(&mut self, total: usize)
        ensures
            final(self).total_files == total,
            final(self).results == old(self).results,
            final(self).processed_files == old(self).processed_files,
            final(self).current_file == old(self).current_file,
    {
        self.total_files = total;
    }

    /// Sets the file that is being processed.
    pub fn set_current_file(&mut self, file: String)
        ensures
            final(self).current_file == Some(file),
            final(self).results == old(self).results,
            final(self).processed_files == old(self).processed_files,
            final(self).total_files == old(self).total_files,
    {
        self.current_file = Some(file);
    }

    /// Takes in the outcome of one more file.
    pub fn add_result(&mut self, result: FileProcessResult)
        requires
            old(self).processed_files < usize::MAX,
        ensures
            final(self).results@ == old(self).results@.push(result),
            final(self).processed_files == old(self).processed_files + 1,
            final(self).total_files == old(self).total_files,
            final(self).current_file == old(self).current_file,
    {
        self.processed_files += 1;
        self.results.push(result);
    }

    /// The number of files that succeeded.
    pub fn get_success_count(&self) -> (n: usize)
        ensures
            n == successes(self.results@, self.results@.len()),
            n <= self.results@.len(),
    {
        let mut n: usize = 0;
        let mut i: usize = 0;
        while i < self.results.len()
            invariant
                i <= self.results.len(),
                n == successes(self.results@, i as nat),
                n <= i,
            decreases self.results.len() - i,
        {
            if self.results[i].success {
                n += 1;
            }
            i += 1;
        }
        n
    }

    /// The number of files that failed.
    pub fn get_failed_count(&self) -> (n: usize)
        ensures
            n == self.results@.len() - successes(self.results@, self.results@.len()),
    {
        self.results.len() - self.get_success_count()
    }

    /// The number of trace records in all files.
    pub fn get_total_includes(&self) -> (n: usize)
        requires
            self.all_includes() <= usize::MAX,
        ensures
            n == self.all_includes(),
    {
        let mut n: usize = 0;
        let mut i: usize = 0;
        while i < self.results.len()
            invariant
                i <= self.results.len(),
                n == include_total(self.results@, i as nat),
                self.all_includes() <= usize::MAX,
            decreases self.results.len() - i,
        {
            proof {
                lemma_include_total_monotone(
                    self.results@,
                    (i + 1) as nat,
                    self.results@.len(),
                );
            }
            n += self.results[i].includes.len();
            i += 1;
        }
        n
    }

    /// The number of trace records, in all files, that tell of a success.
    pub fn get_successful_includes(&self) -> (n: usize)
        requires
            self.all_includes() <= usize::MAX,
        ensures
            n == include_successes(self.results@, self.results@.len()),
            n <= self.all_includes(),
    {
        let mut n: usize = 0;
        let mut i: usize = 0;
        while i < self.results.len()
            invariant
                i <= self.results.len(),
                n == include_successes(self.results@, i as nat),
                self.all_includes() <= usize::MAX,
            decreases self.results.len() - i,
        {
            proof {
                lemma_include_total_monotone(
                    self.results@,
                    (i + 1) as nat,
                    self.results@.len(),
                );
                lemma_include_successes_bound(self.results@, (i + 1) as nat);
            }
            n += count_successful(&self.results[i].includes);
            i += 1;
        }
        proof {
            lemma_include_successes_bound(self.results@, self.results@.len());
        }
        n
    }

    /// The number of trace records, in all files, that tell of a failure.
    pub fn get_failed_includes(&self) -> (n: usize)
        requires
            self.all_includes() <= usize::MAX,
        ensures
            n == self.all_includes() - include_successes(self.results@, self.results@.len()),
    {
        self.get_total_includes() - self.get_successful_includes()
    }

    /// Whether a file or a directive failed.
    pub open spec fn has_errors(&self) -> bool {
        successes(self.results@, self.results@.len()) < self.results@.len()
            || include_successes(self.results@, self.results@.len()) < self.all_includes()
    }

    /// Whether a file or a directive failed.
    pub fn has_failures(&self) -> (r: bool)
        ensures
            r == self.has_errors(),
    {
        let mut failed = false;
        let mut i: usize = 0;
        while i < self.results.len()
            invariant
                i <= self.results.len(),
                failed == (successes(self.results@, i as nat) < i || include_successes(
                    self.results@,
                    i as nat,
                ) < include_total(self.results@, i as nat)),
            decreases self.results.len() - i,
        {
            proof {
                lemma_successes_bound(self.results@, i as nat);
                lemma_include_successes_bound(self.results@, i as nat);
                lemma_successful_records_bound(
                    self.results@[i as int].includes@,
                    self.results@[i as int].includes@.len(),
                );
            }
            let ok = count_successful(&self.results[i].includes);
            if !self.results[i].success || ok < self.results[i].includes.len() {
                failed = true;
            }
            i += 1;
        }
        failed
    }
}

/// The number of records of `trace` that tell of a success.
pub fn count_successful(trace: &Vec<IncludeResult>) -> (n: usize)
    ensures
        n == successful_records(trace@, trace@.len()),
        n <= trace@.len(),
{
    let mut n: usize = 0;
    let mut i: usize = 0;
    while i < trace.len()
        invariant
            i <= trace.len(),
            n == successful_records(trace@, i as nat),
            n <= i,
        decreases trace.len() - i,
    {
        if trace[i].success {
            n += 1;
        }
        i += 1;
    }
    n
}

} // verus!
