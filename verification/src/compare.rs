//! Comparison of two captures of a node's slice hashes: reading the captures
//! back from their printed form, finding where they differ, and putting the
//! differences in the rows of a table.

pub mod diff;
pub mod dump;
pub mod print;

use crate::cli::{CompareArgs, CompareCommands};
use crate::compare::diff::{diff, diff_entries, DiffEntry, DiffEntryView, SliceDiff, SliceDiffView};
use crate::compare::dump::{dump_records, parse_dump};
use crate::encoding::{
    append_decimal, base64_len_fits, base64_standard_encoded, decimal_text, encode_standard,
};
use vstd::prelude::*;

verus! {

/// One row of the table that shows a comparison.
#[derive(Clone, Debug)]
pub struct SliceHashDiffRow {
    /// The coverage range, as its two bounds with `..` between them.
    pub dht_arc: String,
    pub slice_index: u64,
    /// What differs, in words.
    pub diff: String,
}

/// A row as a mathematical value.
pub struct SliceHashDiffRowView {
    pub dht_arc: Seq<char>,
    pub slice_index: int,
    pub diff: Seq<char>,
}

impl View for SliceHashDiffRow {
    type V = SliceHashDiffRowView;

    open spec fn view(&self) -> SliceHashDiffRowView {
        SliceHashDiffRowView {
            dht_arc: self.dht_arc@,
            slice_index: self.slice_index as int,
            diff: self.diff@,
        }
    }
}

impl DeepView for SliceHashDiffRow {
    type V = SliceHashDiffRowView;

    open spec fn deep_view(&self) -> SliceHashDiffRowView {
        self@
    }
}

/// A coverage range as text: both bounds in decimal, with `..` between.
pub open spec fn arc_text(arc_start: int, arc_end: int) -> Seq<char> {
    decimal_text(arc_start as nat) + ".."@ + decimal_text(arc_end as nat)
}

/// A difference in words. Digests are shown in base64.
pub open spec fn diff_text(diff: SliceDiffView) -> Seq<char> {
    match diff {
        SliceDiffView::OnlyInLeft => "Only in our file"@,
        SliceDiffView::OnlyInRight => "Only in their file"@,
        SliceDiffView::HashMismatch { left, right } => "Different hashes: our hash = "@
            + base64_standard_encoded(left) + ", their hash = "@ + base64_standard_encoded(right),
    }
}

/// The row that shows an entry.
pub open spec fn row_of(entry: DiffEntryView) -> SliceHashDiffRowView {
    SliceHashDiffRowView {
        dht_arc: arc_text(entry.arc_start, entry.arc_end),
        slice_index: entry.slice_index,
        diff: diff_text(entry.diff),
    }
}

/// Whether the digests of a difference are short enough for their base64
/// text to have a length that fits in `usize`.
pub open spec fn is_printable(diff: SliceDiffView) -> bool {
    match diff {
        SliceDiffView::HashMismatch { left, right } => base64_len_fits(left.len())
            && base64_len_fits(right.len()),
        _ => true,
    }
}

/// Whether every entry is printable.
pub open spec fn all_printable(entries: Seq<DiffEntryView>) -> bool {
    forall|i: int| 0 <= i < entries.len() ==> is_printable(#[trigger] entries[i].diff)
}

fn encoding_fits(bytes: &Vec<u8>) -> (fits: bool)
    ensures
        fits == base64_len_fits(bytes@.len()),
{
    bytes.len() / 3 <= (usize::MAX - 4) / 4
}

impl SliceDiff {
    /// Whether the difference can be put in words: see `is_printable`.
    pub fn is_printable(&self) -> (printable: bool)
        ensures
            printable == is_printable(self@),
    {
        match self {
            SliceDiff::HashMismatch { left, right } => encoding_fits(left) && encoding_fits(right),
            _ => true,
        }
    }

    /// The difference in words.
    pub fn describe(&self) -> (text: String)
        requires
            is_printable(self@),
        ensures
            text@ == diff_text(self@),
    {
        match self {
            SliceDiff::OnlyInLeft => String::from_str("Only in our file"),
            SliceDiff::OnlyInRight => String::from_str("Only in their file"),
            SliceDiff::HashMismatch { left, right } => {
                let mut text = String::from_str("Different hashes: our hash = ");
                let ours = encode_standard(left.as_slice());
                text.append(ours.as_str());
                text.append(", their hash = ");
                let theirs = encode_standard(right.as_slice());
                text.append(theirs.as_str());
                text
            },
        }
    }
}

impl DiffEntry {
    /// The row that shows this entry.
    pub fn to_row(&self) -> (row: SliceHashDiffRow)
        requires
            is_printable(self@.diff),
        ensures
            row@ == row_of(self@),
    {
        let mut dht_arc = String::new();
        append_decimal(&mut dht_arc, self.arc_start as u64);
        dht_arc.append("..");
        append_decimal(&mut dht_arc, self.arc_end as u64);
        assert(dht_arc@ =~= arc_text(self@.arc_start, self@.arc_end));
        SliceHashDiffRow { dht_arc, slice_index: self.slice_index, diff: self.diff.describe() }
    }
}

/// The rows that show `entries`, in their order.
pub open spec fn rows_of(entries: Seq<DiffEntryView>) -> Seq<SliceHashDiffRowView> {
    entries.map_values(|entry: DiffEntryView| row_of(entry))
}

/// What a comparison shows.
#[derive(Clone, Debug)]
pub enum CompareOutput {
    /// The captures agree: a message says so.
    NoDifferences,
    /// The captures differ: a table shows where.
    Table(Vec<SliceHashDiffRow>),
}

/// The message shown where two captures agree.
pub const NO_DIFFERENCES_MESSAGE: &'static str = "No differences found between the two files.";

/// The error reported where a digest is too long to be printed.
pub const UNPRINTABLE_DIGEST_MESSAGE: &'static str = "digest too long to print";

/// The words that precede the cause of a failed comparison of slice hashes.
pub const COMPARE_FAILED_PREFIX: &'static str = "Failed to compare slice hashes: ";

/// Whether `output` shows exactly `entries`.
pub open spec fn output_shows(output: CompareOutput, entries: Seq<DiffEntryView>) -> bool {
    match output {
        CompareOutput::NoDifferences => entries.len() == 0,
        CompareOutput::Table(rows) => entries.len() > 0 && rows.deep_view() == rows_of(entries),
    }
}

/// Compares two printed captures of slice hashes, ours and theirs, and
/// gives what to show: a table of the differences, or nothing to report. The
/// comparison fails only where a digest is too long to be printed.
pub fn compare_slice_hash_files(our_dump: &[u8], their_dump: &[u8]) -> (outcome: Result<
    CompareOutput,
    String,
>)
    ensures
        match outcome {
            Ok(output) => {
                &&& all_printable(diff_entries(dump_records(our_dump@), dump_records(their_dump@)))
                &&& output_shows(
                    output,
                    diff_entries(dump_records(our_dump@), dump_records(their_dump@)),
                )
            },
            Err(cause) => {
                &&& !all_printable(
                    diff_entries(dump_records(our_dump@), dump_records(their_dump@)),
                )
                &&& cause@ == UNPRINTABLE_DIGEST_MESSAGE@
            },
        },
{
    let ours = parse_dump(our_dump);
    let theirs = parse_dump(their_dump);
    let entries = diff(&ours, &theirs);
    let ghost wanted = diff_entries(dump_records(our_dump@), dump_records(their_dump@));
    if entries.len() == 0 {
        return Ok(CompareOutput::NoDifferences);
    }
    let mut rows: Vec<SliceHashDiffRow> = Vec::new();
    let mut index: usize = 0;
    assert(rows.deep_view() =~= rows_of(wanted.take(0)));
    while index < entries.len()
        invariant
            index <= entries.len(),
            entries.deep_view() == wanted,
            wanted == diff_entries(dump_records(our_dump@), dump_records(their_dump@)),
            rows.deep_view() == rows_of(wanted.take(index as int)),
            forall|i: int| 0 <= i < index ==> is_printable(#[trigger] wanted[i].diff),
        decreases entries.len() - index,
    {
        let entry = &entries[index];
        assert(entry@ == wanted[index as int]);
        if !entry.diff.is_printable() {
            assert(!is_printable(wanted[index as int].diff));
            return Err(String::from_str(UNPRINTABLE_DIGEST_MESSAGE));
        }
        let ghost so_far = rows.deep_view();
        rows.push(entry.to_row());
        assert(rows.deep_view() =~= so_far.push(row_of(wanted[index as int])));
        index = index + 1;
        assert(rows.deep_view() =~= rows_of(wanted.take(index as int)));
    }
    assert(wanted.take(index as int) =~= wanted);
    Ok(CompareOutput::Table(rows))
}

/// Whether `outcome` is what a command is owed, given what its comparison
/// came to: the same output, or the same cause of failure behind the words
/// that name the comparison.
pub open spec fn is_command_outcome(
    outcome: Result<CompareOutput, String>,
    compared: Result<CompareOutput, String>,
) -> bool {
    match compared {
        Ok(output) => outcome == Ok::<CompareOutput, String>(output),
        Err(cause) => outcome is Err && outcome->Err_0@ == COMPARE_FAILED_PREFIX@ + cause@,
    }
}

/// Gives a comparison's outcome as the outcome of the command that asked for
/// it.
pub fn command_outcome(compared: Result<CompareOutput, String>) -> (outcome: Result<
    CompareOutput,
    String,
>)
    ensures
        is_command_outcome(outcome, compared),
{
    match compared {
        Ok(output) => Ok(output),
        Err(cause) => {
            let mut message = String::from_str(COMPARE_FAILED_PREFIX);
            message.append(cause.as_str());
            Err(message)
        },
    }
}

/// Runs a comparison command on the contents of the files that it names:
/// `our_dump` is what the first file holds, `their_dump` what the second
/// holds.
pub fn handle_compare_command(args: &CompareArgs, our_dump: &[u8], their_dump: &[u8]) -> (outcome:
    Result<CompareOutput, String>)
    ensures
        match outcome {
            Ok(output) => {
                &&& all_printable(diff_entries(dump_records(our_dump@), dump_records(their_dump@)))
                &&& output_shows(
                    output,
                    diff_entries(dump_records(our_dump@), dump_records(their_dump@)),
                )
            },
            Err(cause) => {
                &&& !all_printable(
                    diff_entries(dump_records(our_dump@), dump_records(their_dump@)),
                )
                &&& cause@ == COMPARE_FAILED_PREFIX@ + UNPRINTABLE_DIGEST_MESSAGE@
            },
        },
{
    match &args.command {
        CompareCommands::SliceHashes { our_file: _, their_file: _ } => command_outcome(
            compare_slice_hash_files(our_dump, their_dump),
        ),
    }
}

} // verus!
