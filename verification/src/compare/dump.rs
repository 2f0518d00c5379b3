//! Reading a capture of slice hashes back from its printed form: a table
//! with one data line for each record, between borders and headers.

use crate::bits::{signed_32, signed_64, to_signed_32, to_signed_64};
use crate::encoding::{base64_standard_decoded, decode_standard};
use crate::retrieve::model::{SliceHash, SliceHashView};
use vstd::prelude::*;
use vstd::slice::slice_subrange;

verus! {

/// A space or a tab.
pub open spec fn is_blank(byte: u8) -> bool {
    byte == 0x20 || byte == 0x09
}

/// An ASCII decimal digit.
pub open spec fn is_digit(byte: u8) -> bool {
    0x30 <= byte <= 0x39
}

/// Whether the UTF-8 bytes of one of the table borders `├`, `│`, `┤` stand at
/// `pos`.
pub open spec fn is_border_at(line: Seq<u8>, pos: int) -> bool {
    &&& 0 <= pos
    &&& pos + 3 <= line.len()
    &&& line[pos] == 0xE2
    &&& line[pos + 1] == 0x94
    &&& (line[pos + 2] == 0x9C || line[pos + 2] == 0x82 || line[pos + 2] == 0xA4)
}

/// Length of the piece of filler that starts at `pos`: 1 for a blank, 3 for a
/// table border, 0 where neither stands there.
pub open spec fn filler_len_at(line: Seq<u8>, pos: int) -> int {
    if 0 <= pos < line.len() && is_blank(line[pos]) {
        1
    } else if is_border_at(line, pos) {
        3
    } else {
        0
    }
}

/// The position after the longest run of filler that starts at `pos`.
pub open spec fn skip_filler(line: Seq<u8>, pos: int) -> int
    decreases line.len() - pos,
{
    if filler_len_at(line, pos) > 0 {
        skip_filler(line, pos + filler_len_at(line, pos))
    } else {
        pos
    }
}

/// The position after the longest run of digits that starts at `pos`.
pub open spec fn skip_digits(line: Seq<u8>, pos: int) -> int
    decreases line.len() - pos,
{
    if 0 <= pos < line.len() && is_digit(line[pos]) {
        skip_digits(line, pos + 1)
    } else {
        pos
    }
}

/// The position of the first space at or after `pos`, or the length of the
/// line where there is none.
pub open spec fn find_space(line: Seq<u8>, pos: int) -> int
    decreases line.len() - pos,
{
    if 0 <= pos < line.len() && line[pos] != 0x20 {
        find_space(line, pos + 1)
    } else {
        pos
    }
}

/// The number written in decimal by the digits at `from..to`.
pub open spec fn decimal_value(line: Seq<u8>, from: int, to: int) -> nat
    decreases to - from,
{
    if to <= from {
        0
    } else {
        (decimal_value(line, from, to - 1) * 10 + (line[to - 1] - 0x30)) as nat
    }
}

/// Whether the text `Arc(` stands at `pos`.
pub open spec fn is_arc_open_at(line: Seq<u8>, pos: int) -> bool {
    &&& 0 <= pos
    &&& pos + 4 <= line.len()
    &&& line[pos] == 0x41
    &&& line[pos + 1] == 0x72
    &&& line[pos + 2] == 0x63
    &&& line[pos + 3] == 0x28
}

/// Whether a comma followed by a space stands at `pos`.
pub open spec fn is_separator_at(line: Seq<u8>, pos: int) -> bool {
    &&& 0 <= pos
    &&& pos + 2 <= line.len()
    &&& line[pos] == 0x2C
    &&& line[pos + 1] == 0x20
}

/// Whether a closing bracket stands at `pos`.
pub open spec fn is_arc_close_at(line: Seq<u8>, pos: int) -> bool {
    0 <= pos < line.len() && line[pos] == 0x29
}

/// What one data line of a capture holds, before its digest is decoded.
pub struct LineFields {
    pub arc_start: nat,
    pub arc_end: nat,
    pub slice_index: nat,
    pub digest_text: Seq<u8>,
}

/// The positions in a line at which the parts of a data line end.
pub struct LineLayout {
    pub lead: int,
    pub start_digits: int,
    pub end_digits: int,
    pub gap: int,
    pub index_digits: int,
    pub digest_from: int,
    pub digest_to: int,
}

/// Where the parts of `line` end when it is read as a data line: filler,
/// `Arc(`, digits, `, `, digits, `)`, filler, digits, filler, and the digest
/// text up to the next space.
pub open spec fn line_layout(line: Seq<u8>) -> LineLayout {
    let lead = skip_filler(line, 0);
    let start_digits = skip_digits(line, lead + 4);
    let end_digits = skip_digits(line, start_digits + 2);
    let gap = skip_filler(line, end_digits + 1);
    let index_digits = skip_digits(line, gap);
    let digest_from = skip_filler(line, index_digits);
    let digest_to = find_space(line, digest_from);
    LineLayout { lead, start_digits, end_digits, gap, index_digits, digest_from, digest_to }
}

/// Whether `line` has the shape of a data line: every part is present, the
/// two bounds of the range fit in 32 bits and the slice index in 64, and a
/// space ends the digest text.
pub open spec fn is_data_line(line: Seq<u8>) -> bool {
    let at = line_layout(line);
    &&& at.lead > 0
    &&& is_arc_open_at(line, at.lead)
    &&& at.start_digits > at.lead + 4
    &&& decimal_value(line, at.lead + 4, at.start_digits) <= u32::MAX
    &&& is_separator_at(line, at.start_digits)
    &&& at.end_digits > at.start_digits + 2
    &&& decimal_value(line, at.start_digits + 2, at.end_digits) <= u32::MAX
    &&& is_arc_close_at(line, at.end_digits)
    &&& at.gap > at.end_digits + 1
    &&& at.index_digits > at.gap
    &&& decimal_value(line, at.gap, at.index_digits) <= u64::MAX
    &&& at.digest_from > at.index_digits
    &&& at.digest_to < line.len()
}

/// The fields of a data line; `None` for any other line.
pub open spec fn line_fields(line: Seq<u8>) -> Option<LineFields> {
    let at = line_layout(line);
    if is_data_line(line) {
        Some(
            LineFields {
                arc_start: decimal_value(line, at.lead + 4, at.start_digits),
                arc_end: decimal_value(line, at.start_digits + 2, at.end_digits),
                slice_index: decimal_value(line, at.gap, at.index_digits),
                digest_text: line.subrange(at.digest_from, at.digest_to),
            },
        )
    } else {
        None
    }
}

/// The record that the fields of a data line and its decoded digest make;
/// `None` where the digest text did not decode.
pub open spec fn record_of_fields(
    arc_start: nat,
    arc_end: nat,
    slice_index: nat,
    digest: Option<Seq<u8>>,
) -> Option<SliceHashView> {
    match digest {
        Some(hash) => Some(
            SliceHashView {
                arc_start: signed_32(arc_start),
                arc_end: signed_32(arc_end),
                slice_index: signed_64(slice_index),
                hash,
            },
        ),
        None => None,
    }
}

/// The record that a line of a capture stands for; `None` for a line that is
/// not a data line or whose digest is not base64.
pub open spec fn line_record(line: Seq<u8>) -> Option<SliceHashView> {
    match line_fields(line) {
        Some(fields) => record_of_fields(
            fields.arc_start,
            fields.arc_end,
            fields.slice_index,
            base64_standard_decoded(fields.digest_text),
        ),
        None => None,
    }
}

/// The view of an optional record.
pub open spec fn optional_record_view(record: Option<SliceHash>) -> Option<SliceHashView> {
    match record {
        Some(r) => Some(r@),
        None => None,
    }
}

fn filler_len(line: &[u8], pos: usize) -> (len: usize)
    requires
        pos <= line@.len(),
    ensures
        len == filler_len_at(line@, pos as int),
        pos + len <= line@.len(),
{
    let total = line.len();
    if pos < total && (line[pos] == 0x20 || line[pos] == 0x09) {
        1
    } else if total - pos >= 3 && line[pos] == 0xE2 && line[pos + 1] == 0x94 && (line[pos + 2]
        == 0x9C || line[pos + 2] == 0x82 || line[pos + 2] == 0xA4) {
        3
    } else {
        0
    }
}

fn scan_filler(line: &[u8], pos: usize) -> (end: usize)
    requires
        pos <= line@.len(),
    ensures
        end == skip_filler(line@, pos as int),
        pos <= end <= line@.len(),
{
    let total = line.len();
    let mut at = pos;
    let mut step = filler_len(line, at);
    while step > 0
        invariant
            pos <= at,
            total == line@.len(),
            at + step <= line@.len(),
            step == filler_len_at(line@, at as int),
            skip_filler(line@, pos as int) == skip_filler(line@, at as int),
        decreases line@.len() - at,
    {
        at = at + step;
        step = filler_len(line, at);
    }
    at
}

fn scan_digits(line: &[u8], pos: usize) -> (end: usize)
    requires
        pos <= line@.len(),
    ensures
        end == skip_digits(line@, pos as int),
        pos <= end <= line@.len(),
        forall|i: int| pos <= i < end ==> is_digit(#[trigger] line@[i]),
{
    let mut at = pos;
    while at < line.len() && 0x30 <= line[at] && line[at] <= 0x39
        invariant
            pos <= at <= line@.len(),
            skip_digits(line@, pos as int) == skip_digits(line@, at as int),
            forall|i: int| pos <= i < at ==> is_digit(#[trigger] line@[i]),
        decreases line@.len() - at,
    {
        at = at + 1;
    }
    at
}

fn scan_to_space(line: &[u8], pos: usize) -> (end: usize)
    requires
        pos <= line@.len(),
    ensures
        end == find_space(line@, pos as int),
        pos <= end <= line@.len(),
{
    let mut at = pos;
    while at < line.len() && line[at] != 0x20
        invariant
            pos <= at <= line@.len(),
            find_space(line@, pos as int) == find_space(line@, at as int),
        decreases line@.len() - at,
    {
        at = at + 1;
    }
    at
}

/// A run of digits never stands for less than one of its prefixes.
proof fn lemma_decimal_value_grows(line: Seq<u8>, from: int, mid: int, to: int)
    requires
        0 <= from <= mid <= to <= line.len(),
        forall|i: int| from <= i < to ==> is_digit(#[trigger] line[i]),
    ensures
        decimal_value(line, from, mid) <= decimal_value(line, from, to),
    decreases to - mid,
{
    if mid < to {
        lemma_decimal_value_grows(line, from, mid, to - 1);
        assert(is_digit(line[to - 1]));
    }
}

/// Reads the digits at `from..to` as a number of at most `max`.
fn read_decimal(line: &[u8], from: usize, to: usize, max: u64) -> (value: Option<u64>)
    requires
        from <= to <= line@.len(),
        forall|i: int| from <= i < to ==> is_digit(#[trigger] line@[i]),
    ensures
        value == if decimal_value(line@, from as int, to as int) <= max {
            Some(decimal_value(line@, from as int, to as int) as u64)
        } else {
            None::<u64>
        },
{
    let mut total: u64 = 0;
    let mut at = from;
    while at < to
        invariant
            from <= at <= to <= line@.len(),
            forall|i: int| from <= i < to ==> is_digit(#[trigger] line@[i]),
            total == decimal_value(line@, from as int, at as int),
            total <= max,
        decreases to - at,
    {
        assert(is_digit(line@[at as int]));
        let digit: u64 = (line[at] - 0x30) as u64;
        let next: u128 = total as u128 * 10 + digit as u128;
        assert(next == decimal_value(line@, from as int, at + 1));
        if next > max as u128 {
            proof {
                lemma_decimal_value_grows(line@, from as int, at + 1, to as int);
            }
            return None;
        }
        total = next as u64;
        at = at + 1;
    }
    Some(total)
}

/// The numbers on a data line, and where its digest text stands.
struct ScannedLine {
    arc_start: u32,
    arc_end: u32,
    slice_index: u64,
    digest_from: usize,
    digest_to: usize,
}

fn scan_line(line: &[u8]) -> (scanned: Option<ScannedLine>)
    ensures
        scanned is Some <==> is_data_line(line@),
        scanned matches Some(found) ==> {
            &&& found.arc_start == line_fields(line@).unwrap().arc_start
            &&& found.arc_end == line_fields(line@).unwrap().arc_end
            &&& found.slice_index == line_fields(line@).unwrap().slice_index
            &&& found.digest_from == line_layout(line@).digest_from
            &&& found.digest_to == line_layout(line@).digest_to
            &&& found.digest_from <= found.digest_to < line@.len()
        },
{
    let total = line.len();
    let lead = scan_filler(line, 0);
    if lead == 0 {
        return None;
    }
    if total - lead < 4 || line[lead] != 0x41 || line[lead + 1] != 0x72 || line[lead + 2] != 0x63
        || line[lead + 3] != 0x28 {
        return None;
    }
    let start_to = scan_digits(line, lead + 4);
    if start_to == lead + 4 {
        return None;
    }
    let arc_start = match read_decimal(line, lead + 4, start_to, 0xFFFF_FFFF) {
        Some(value) => value as u32,
        None => {
            return None;
        },
    };
    if total - start_to < 2 || line[start_to] != 0x2C || line[start_to + 1] != 0x20 {
        return None;
    }
    let end_to = scan_digits(line, start_to + 2);
    if end_to == start_to + 2 {
        return None;
    }
    let arc_end = match read_decimal(line, start_to + 2, end_to, 0xFFFF_FFFF) {
        Some(value) => value as u32,
        None => {
            return None;
        },
    };
    if end_to >= total || line[end_to] != 0x29 {
        return None;
    }
    let gap = scan_filler(line, end_to + 1);
    if gap == end_to + 1 {
        return None;
    }
    let index_to = scan_digits(line, gap);
    if index_to == gap {
        return None;
    }
    let slice_index = match read_decimal(line, gap, index_to, 0xFFFF_FFFF_FFFF_FFFF) {
        Some(value) => value,
        None => {
            return None;
        },
    };
    let digest_from = scan_filler(line, index_to);
    if digest_from == index_to {
        return None;
    }
    let digest_to = scan_to_space(line, digest_from);
    if digest_to >= total {
        return None;
    }
    Some(ScannedLine { arc_start, arc_end, slice_index, digest_from, digest_to })
}

/// Makes the record of a data line from its numbers and from what decoding
/// its digest text gave. The bounds of the range and the slice index are
/// stored signed, with their bits unchanged.
pub fn slice_hash_from_fields(
    arc_start: u32,
    arc_end: u32,
    slice_index: u64,
    digest: Option<Vec<u8>>,
) -> (record: Option<SliceHash>)
    ensures
        optional_record_view(record) == record_of_fields(
            arc_start as nat,
            arc_end as nat,
            slice_index as nat,
            match digest {
                Some(bytes) => Some(bytes@),
                None => None,
            },
        ),
{
    match digest {
        Some(hash) => {
            let start = to_signed_32(arc_start);
            let end = to_signed_32(arc_end);
            let index = to_signed_64(slice_index);
            Some(SliceHash { arc_start: start, arc_end: end, slice_index: index, hash })
        },
        None => None,
    }
}

/// Reads one line of a capture. A data line is filler (blanks and table
/// borders), `Arc(`, the start of the range, `, `, its end, `)`, filler, the
/// slice index, filler, and the digest in base64 followed by a space. Any
/// other line gives `None`.
pub fn parse_line(line: &[u8]) -> (record: Option<SliceHash>)
    ensures
        optional_record_view(record) == line_record(line@),
{
    match scan_line(line) {
        Some(found) => {
            let text = slice_subrange(line, found.digest_from, found.digest_to);
            slice_hash_from_fields(
                found.arc_start,
                found.arc_end,
                found.slice_index,
                decode_standard(text),
            )
        },
        None => None,
    }
}

/// The record of a line as a sequence of one or no record.
pub open spec fn line_records(line: Seq<u8>) -> Seq<SliceHashView> {
    match line_record(line) {
        Some(record) => seq![record],
        None => Seq::empty(),
    }
}

/// The records of the lines of `text` from `pos` on, where the line that
/// `pos` stands in began at `line_start`.
pub open spec fn dump_records_from(text: Seq<u8>, line_start: int, pos: int) -> Seq<SliceHashView>
    decreases text.len() - pos,
{
    if pos < 0 || pos >= text.len() {
        line_records(text.subrange(line_start, text.len() as int))
    } else if text[pos] == 0x0A {
        line_records(text.subrange(line_start, pos)) + dump_records_from(text, pos + 1, pos + 1)
    } else {
        dump_records_from(text, line_start, pos + 1)
    }
}

/// The records that a capture holds: those of its data lines, in order. Lines
/// end at a line feed; every line that is no data line is passed over.
pub open spec fn dump_records(text: Seq<u8>) -> Seq<SliceHashView> {
    dump_records_from(text, 0, 0)
}

/// Reads a capture of slice hashes back from its printed form. Lines that do
/// not have the shape of a data line, such as table borders and headers, are
/// passed over without an error, so a capture in another format reads as
/// empty.
pub fn parse_dump(text: &[u8]) -> (records: Vec<SliceHash>)
    ensures
        records.deep_view() == dump_records(text@),
{
    let mut records: Vec<SliceHash> = Vec::new();
    let total = text.len();
    let mut line_start: usize = 0;
    let mut pos: usize = 0;
    assert(records.deep_view() =~= Seq::empty());
    while pos < total
        invariant
            total == text@.len(),
            line_start <= pos <= total,
            dump_records(text@) == records.deep_view() + dump_records_from(
                text@,
                line_start as int,
                pos as int,
            ),
        decreases total - pos,
    {
        if text[pos] == 0x0A {
            let ghost before = records.deep_view();
            let line = slice_subrange(text, line_start, pos);
            match parse_line(line) {
                Some(record) => {
                    records.push(record);
                    assert(records.deep_view() =~= before + line_records(line@));
                },
                None => {
                    assert(records.deep_view() =~= before + line_records(line@));
                },
            }
            assert(before + (line_records(line@) + dump_records_from(text@, pos + 1, pos + 1))
                =~= before + line_records(line@) + dump_records_from(text@, pos + 1, pos + 1));
            line_start = pos + 1;
        }
        pos = pos + 1;
    }
    let ghost before = records.deep_view();
    let line = slice_subrange(text, line_start, total);
    match parse_line(line) {
        Some(record) => {
            records.push(record);
            assert(records.deep_view() =~= before + line_records(line@));
        },
        None => {
            assert(records.deep_view() =~= before + line_records(line@));
        },
    }
    records
}

} // verus!
