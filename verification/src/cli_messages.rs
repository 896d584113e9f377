//! The words of the console: the summary of a run, and durations.

use vstd::prelude::*;
use crate::decimal::append_right_aligned;
use crate::decimal::decimal;
use crate::decimal::decimal_chars;
use crate::decimal::decimal_chars_of;
use crate::decimal::right_aligned;
use crate::processor::file_records;
use crate::processor::FileRecord;
use crate::text::append_chars;
use crate::text::append_str;
use crate::text::string_of;
use crate::types::include_successes;
use crate::types::include_total;
use crate::types::records;
use crate::types::successes;
use crate::types::FileProcessResult;
use crate::types::IncludeRecord;
use crate::types::IncludeResult;
use crate::types::ProcessingSummary;

verus! {

/// A duration of `seconds` seconds and `millis` milliseconds in words:
/// minutes and seconds where it lasts a minute or more, seconds with three
/// decimals where it lasts a second or more, and milliseconds else.
pub open spec fn duration_text(seconds: u64, millis: u32) -> Seq<char> {
    if seconds / 60 > 0 {
        decimal((seconds / 60) as nat) + "m "@ + decimal((seconds % 60) as nat) + "s"@
    } else if seconds % 60 > 0 {
        decimal((seconds % 60) as nat) + "."@ + right_aligned(decimal(millis as nat), 3, '0')
            + "s"@
    } else {
        decimal(millis as nat) + "ms"@
    }
}

/// A duration of `seconds` seconds and `millis` milliseconds in words.
pub fn format_duration(seconds: u64, millis: u32) -> (out: String)
    ensures
        out@ == duration_text(seconds, millis),
{
    let minutes = seconds / 60;
    let rest = seconds % 60;
    let mut out: Vec<char> = Vec::new();
    if minutes > 0 {
        append_chars(&mut out, &decimal_chars_of(minutes));
        append_str(&mut out, "m ");
        append_chars(&mut out, &decimal_chars_of(rest));
        append_str(&mut out, "s");
    } else if rest > 0 {
        append_chars(&mut out, &decimal_chars_of(rest));
        append_str(&mut out, ".");
        append_right_aligned(&mut out, &decimal_chars_of(millis as u64), 3, '0');
        append_str(&mut out, "s");
    } else {
        append_chars(&mut out, &decimal_chars_of(millis as u64));
        append_str(&mut out, "ms");
    }
    proof {
        assert(out@ =~= duration_text(seconds, millis));
    }
    string_of(&out)
}

/// The mark of a success or of a failure.
pub open spec fn mark(success: bool) -> Seq<char> {
    if success {
        "✓"@
    } else {
        "✗"@
    }
}

/// The lines that tell of one record: its mark and path, and under them its
/// message where it has one.
pub open spec fn record_lines(record: IncludeRecord) -> Seq<char> {
    "    "@ + mark(record.success) + " "@ + (if record.success {
        "OK"@
    } else {
        "Error"@
    }) + ": "@ + record.path + "\n"@ + (match record.error_message {
        Some(message) => "      └─ "@ + message + "\n"@,
        None => Seq::empty(),
    })
}

/// The lines that tell of the first `n` records of `trace`.
pub open spec fn trace_lines(trace: Seq<IncludeRecord>, n: nat) -> Seq<char>
    decreases n,
{
    if n == 0 || n > trace.len() {
        Seq::empty()
    } else {
        trace_lines(trace, (n - 1) as nat) + record_lines(trace[n - 1])
    }
}

/// The lines that tell of one file: its mark and path, then its message
/// where it has one, and else its records and an empty line.
pub open spec fn file_lines(file: FileRecord) -> Seq<char> {
    mark(file.success) + " File: "@ + file.file_path + "\n"@ + (match file.error_message {
        Some(message) => "  Error: "@ + message + "\n"@,
        None => (if file.includes.len() == 0 {
            "  No includes found\n"@
        } else {
            "  Includes ("@ + decimal(file.includes.len()) + "):\n"@ + trace_lines(
                file.includes,
                file.includes.len(),
            )
        }) + "\n"@,
    })
}

/// The lines that tell of the first `n` of `files`.
pub open spec fn files_lines(files: Seq<FileRecord>, n: nat) -> Seq<char>
    decreases n,
{
    if n == 0 || n > files.len() {
        Seq::empty()
    } else {
        files_lines(files, (n - 1) as nat) + file_lines(files[n - 1])
    }
}

/// The upper edge of the table of the counts.
pub const TABLE_TOP: &'static str = "┌─────────────────┬───────┬─────────┬────────┐\n";

/// The head of the table of the counts.
pub const TABLE_HEAD: &'static str = "│ Category        │ Total │ Success │ Failed │\n";

/// The rule under the head of the table of the counts.
pub const TABLE_RULE: &'static str = "├─────────────────┼───────┼─────────┼────────┤\n";

/// The lower edge of the table of the counts.
pub const TABLE_BOTTOM: &'static str = "└─────────────────┴───────┴─────────┴────────┘\n";

/// One line of the table: what is counted, and how many there are in all,
/// how many succeeded and how many failed.
pub open spec fn table_line(category: Seq<char>, total: nat, succeeded: nat, failed: nat) -> Seq<
    char,
> {
    "│ "@ + category + " │ "@ + right_aligned(decimal(total), 5, ' ')
        + " │ "@ + right_aligned(decimal(succeeded), 7, ' ') + " │ "@
        + right_aligned(decimal(failed), 6, ' ') + " │\n"@
}

/// The counts of a summary: files in all and those that succeeded, records
/// in all and those that tell of a success.
pub struct Counts {
    pub files: nat,
    pub files_succeeded: nat,
    pub includes: nat,
    pub includes_succeeded: nat,
}

/// The counts of the outcomes `results`.
pub open spec fn counts_of(results: Seq<FileProcessResult>) -> Counts {
    Counts {
        files: results.len(),
        files_succeeded: successes(results, results.len()),
        includes: include_total(results, results.len()),
        includes_succeeded: include_successes(results, results.len()),
    }
}

/// The table of the counts, with what follows it.
pub open spec fn final_lines(counts: Counts) -> Seq<char> {
    "=== FINAL SUMMARY ===\n"@
        + TABLE_TOP@
        + TABLE_HEAD@
        + TABLE_RULE@
        + table_line(
        "Files          "@,
        counts.files,
        counts.files_succeeded,
        (counts.files - counts.files_succeeded) as nat,
    ) + table_line(
        "Includes       "@,
        counts.includes,
        counts.includes_succeeded,
        (counts.includes - counts.includes_succeeded) as nat,
    )
        + TABLE_BOTTOM@
        + (if counts.files_succeeded < counts.files || counts.includes_succeeded
        < counts.includes {
        "\nSome operations failed. Check the details above.\n"@
    } else {
        "\nAll operations completed successfully! 🎉\n"@
    })
}

/// The summary in full: every file with its records, then the table of the
/// counts.
pub open spec fn full_summary(results: Seq<FileProcessResult>) -> Seq<char> {
    "\n=== PROCESSING SUMMARY ===\n\n"@ + files_lines(file_records(results), results.len())
        + final_lines(counts_of(results))
}

/// The summary in short: the counts of the files, and whether all went
/// well.
pub open spec fn short_summary(results: Seq<FileProcessResult>) -> Seq<char> {
    let counts = counts_of(results);
    "Processed "@ + decimal(counts.files) + " files: "@ + decimal(counts.files_succeeded)
        + " succeeded, "@ + decimal((counts.files - counts.files_succeeded) as nat)
        + " failed.\n"@ + (if counts.files_succeeded < counts.files {
        "Some files failed to process.\n"@
    } else {
        "All files processed successfully!\n"@
    })
}

/// What the console shows at the end of a run, and the code that the run
/// ends with, where the summary decides it.
pub struct ConsoleSummary {
    pub text: String,
    pub exit_code: Option<i32>,
}

/// Appends the mark of a success or of a failure.
fn append_mark(out: &mut Vec<char>, success: bool)
    ensures
        final(out)@ == old(out)@ + mark(success),
{
    if success {
        append_str(out, "✓");
    } else {
        append_str(out, "✗");
    }
}

/// Appends the lines that tell of the records of `trace`.
fn append_trace_lines(out: &mut Vec<char>, trace: &Vec<IncludeResult>)
    ensures
        final(out)@ == old(out)@ + trace_lines(records(trace@), trace@.len()),
{
    let mut i: usize = 0;
    proof {
        assert(out@ =~= old(out)@ + trace_lines(records(trace@), 0));
    }
    while i < trace.len()
        invariant
            i <= trace.len(),
            out@ == old(out)@ + trace_lines(records(trace@), i as nat),
        decreases trace.len() - i,
    {
        let record = &trace[i];
        let ghost before = out@;
        proof {
            assert(records(trace@)[i as int] == record@);
        }
        append_str(out, "    ");
        append_mark(out, record.success);
        append_str(out, " ");
        if record.success {
            append_str(out, "OK");
        } else {
            append_str(out, "Error");
        }
        append_str(out, ": ");
        append_str(out, record.path.as_str());
        append_str(out, "\n");
        match &record.error_message {
            Some(message) => {
                append_str(out, "      └─ ");
                append_str(out, message.as_str());
                append_str(out, "\n");
            },
            None => {},
        }
        proof {
            assert(out@ =~= before + record_lines(record@));
            assert(before + record_lines(record@) =~= old(out)@ + (trace_lines(
                records(trace@),
                i as nat,
            ) + record_lines(record@)));
        }
        i += 1;
    }
}

/// Appends the lines that tell of `file`.
fn append_file_lines(out: &mut Vec<char>, file: &FileProcessResult)
    ensures
        final(out)@ == old(out)@ + file_lines(file@),
{
    let ghost before = out@;
    append_mark(out, file.success);
    append_str(out, " File: ");
    append_str(out, file.file_path.as_str());
    append_str(out, "\n");
    proof {
        assert(records(file.includes@).len() == file.includes@.len());
    }
    match &file.error_message {
        Some(message) => {
            append_str(out, "  Error: ");
            append_str(out, message.as_str());
            append_str(out, "\n");
        },
        None => {
            if file.includes.len() == 0 {
                append_str(out, "  No includes found\n");
            } else {
                append_str(out, "  Includes (");
                append_chars(out, &decimal_chars(file.includes.len()));
                append_str(out, "):\n");
                append_trace_lines(out, &file.includes);
            }
            append_str(out, "\n");
        },
    }
    proof {
        assert(out@ =~= before + file_lines(file@));
    }
}

/// Appends one line of the table.
fn append_table_line(
    out: &mut Vec<char>,
    category: &str,
    total: usize,
    succeeded: usize,
    failed: usize,
)
    ensures
        final(out)@ == old(out)@ + table_line(
            category@,
            total as nat,
            succeeded as nat,
            failed as nat,
        ),
{
    let ghost before = out@;
    append_str(out, "│ ");
    append_str(out, category);
    append_str(out, " │ ");
    append_right_aligned(out, &decimal_chars(total), 5, ' ');
    append_str(out, " │ ");
    append_right_aligned(out, &decimal_chars(succeeded), 7, ' ');
    append_str(out, " │ ");
    append_right_aligned(out, &decimal_chars(failed), 6, ' ');
    append_str(out, " │\n");
    proof {
        assert(out@ =~= before + table_line(
            category@,
            total as nat,
            succeeded as nat,
            failed as nat,
        ));
    }
}

/// What the console shows at the end of a run. In full, every file is told
/// of with its records, and a table of the counts follows; the summary
/// decides no exit code. In short, one line gives the counts of the files
/// and one tells whether all went well; the run ends with code one where a
/// file failed and with code zero else.
pub fn console_summary(summary: &ProcessingSummary, verbose: bool) -> (r: ConsoleSummary)
    requires
        summary.all_includes() <= usize::MAX,
    ensures
        r.text@ == if verbose {
            full_summary(summary.results@)
        } else {
            short_summary(summary.results@)
        },
        r.exit_code == if verbose {
            None
        } else if successes(summary.results@, summary.results@.len()) < summary.results@.len() {
            Some(1i32)
        } else {
            Some(0i32)
        },
{
    let success_count = summary.get_success_count();
    let failed_count = summary.get_failed_count();
    let mut out: Vec<char> = Vec::new();
    if verbose {
        append_str(&mut out, "\n=== PROCESSING SUMMARY ===\n\n");
        let ghost head = out@;
        let mut i: usize = 0;
        proof {
            assert(file_records(summary.results@).len() == summary.results@.len());
            assert(out@ =~= head + files_lines(file_records(summary.results@), 0));
        }
        while i < summary.results.len()
            invariant
                i <= summary.results.len(),
                file_records(summary.results@).len() == summary.results@.len(),
                out@ == head + files_lines(file_records(summary.results@), i as nat),
            decreases summary.results.len() - i,
        {
            let ghost before = out@;
            proof {
                assert(file_records(summary.results@)[i as int] == summary.results@[i as int]@);
            }
            append_file_lines(&mut out, &summary.results[i]);
            proof {
                assert(before + file_lines(summary.results@[i as int]@) =~= head + (files_lines(
                    file_records(summary.results@),
                    i as nat,
                ) + file_lines(summary.results@[i as int]@)));
            }
            i += 1;
        }
        let ghost body = out@;
        let total_includes = summary.get_total_includes();
        let successful_includes = summary.get_successful_includes();
        let failed_includes = summary.get_failed_includes();
        append_str(&mut out, "=== FINAL SUMMARY ===\n");
        append_str(
            &mut out,
            TABLE_TOP,
        );
        append_str(
            &mut out,
            TABLE_HEAD,
        );
        append_str(
            &mut out,
            TABLE_RULE,
        );
        append_table_line(
            &mut out,
            "Files          ",
            summary.results.len(),
            success_count,
            failed_count,
        );
        append_table_line(
            &mut out,
            "Includes       ",
            total_includes,
            successful_includes,
            failed_includes,
        );
        append_str(
            &mut out,
            TABLE_BOTTOM,
        );
        if failed_count > 0 || failed_includes > 0 {
            append_str(&mut out, "\nSome operations failed. Check the details above.\n");
        } else {
            append_str(&mut out, "\nAll operations completed successfully! 🎉\n");
        }
        proof {
            assert(out@ =~= body + final_lines(counts_of(summary.results@)));
            assert(body + final_lines(counts_of(summary.results@)) =~= full_summary(
                summary.results@,
            ));
        }
        ConsoleSummary { text: string_of(&out), exit_code: None }
    } else {
        append_str(&mut out, "Processed ");
        append_chars(&mut out, &decimal_chars(summary.results.len()));
        append_str(&mut out, " files: ");
        append_chars(&mut out, &decimal_chars(success_count));
        append_str(&mut out, " succeeded, ");
        append_chars(&mut out, &decimal_chars(failed_count));
        append_str(&mut out, " failed.\n");
        let code: i32 = if failed_count > 0 {
            append_str(&mut out, "Some files failed to process.\n");
            1
        } else {
            append_str(&mut out, "All files processed successfully!\n");
            0
        };
        proof {
            assert(out@ =~= short_summary(summary.results@));
        }
        ConsoleSummary { text: string_of(&out), exit_code: Some(code) }
    }
}

} // verus!
