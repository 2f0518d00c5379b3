//! The rows in which the slice hashes of a store are printed, and why the
//! printed rows read back as the records that they show.

use crate::bits::{signed_32, signed_64, to_unsigned_32, to_unsigned_64, unsigned_32, unsigned_64};
use crate::compare::dump::{
    decimal_value, filler_len_at, find_space, is_arc_close_at, is_arc_open_at, is_data_line,
    is_digit, is_separator_at, line_fields, line_layout, line_record, record_of_fields,
    skip_digits, skip_filler,
};
use crate::encoding::{
    append_decimal, base64_len_fits, base64_standard_decoded, base64_standard_encoded,
    decimal_text, digit_char, encode_standard,
};
use crate::retrieve::model::{SliceHash, SliceHashView};
use vstd::prelude::*;

verus! {

/// One row of the table that shows the slice hashes of a store. A capture
/// is such a table, printed.
#[derive(Clone, Debug)]
pub struct SliceHashTable {
    /// The coverage range: `Arc(`, its two bounds with a comma and a space
    /// between them, and `)`.
    pub dht_arc: String,
    pub slice_index: u64,
    /// The digest in base64.
    pub hash: String,
}

/// A row of slice hashes as a mathematical value.
pub struct SliceHashTableView {
    pub dht_arc: Seq<char>,
    pub slice_index: int,
    pub hash: Seq<char>,
}

impl View for SliceHashTable {
    type V = SliceHashTableView;

    open spec fn view(&self) -> SliceHashTableView {
        SliceHashTableView {
            dht_arc: self.dht_arc@,
            slice_index: self.slice_index as int,
            hash: self.hash@,
        }
    }
}

/// The row that shows a record: its numbers are read as unsigned.
pub open spec fn slice_hash_row(record: SliceHashView) -> SliceHashTableView {
    SliceHashTableView {
        dht_arc: "Arc("@ + decimal_text(unsigned_32(record.arc_start) as nat) + ", "@
            + decimal_text(unsigned_32(record.arc_end) as nat) + ")"@,
        slice_index: unsigned_64(record.slice_index),
        hash: base64_standard_encoded(record.hash),
    }
}

impl SliceHashTable {
    /// The row that shows a record.
    pub fn from(record: &SliceHash) -> (row: SliceHashTable)
        requires
            base64_len_fits(record@.hash.len()),
        ensures
            row@ == slice_hash_row(record@),
    {
        let mut dht_arc = String::from_str("Arc(");
        append_decimal(&mut dht_arc, to_unsigned_32(record.arc_start) as u64);
        dht_arc.append(", ");
        append_decimal(&mut dht_arc, to_unsigned_32(record.arc_end) as u64);
        dht_arc.append(")");
        assert(dht_arc@ =~= slice_hash_row(record@).dht_arc);
        SliceHashTable {
            dht_arc,
            slice_index: to_unsigned_64(record.slice_index),
            hash: encode_standard(record.hash.as_slice()),
        }
    }
}

/// The bytes of a text of ASCII characters.
pub open spec fn ascii_bytes(text: Seq<char>) -> Seq<u8> {
    Seq::new(text.len(), |i: int| text[i] as u8)
}

/// Whether bytes are filler from their first to their last, and not empty.
pub open spec fn is_filler(bytes: Seq<u8>) -> bool {
    bytes.len() > 0 && skip_filler(bytes, 0) == bytes.len()
}

/// Whether bytes are visible ASCII characters, and not empty: among them
/// is no blank and no part of a table border.
pub open spec fn is_visible(bytes: Seq<u8>) -> bool {
    bytes.len() > 0 && forall|i: int| 0 <= i < bytes.len() ==> 0x21 <= #[trigger] bytes[i] <= 0x7E
}

/// How far filler goes depends only on the bytes from where it starts.
proof fn lemma_filler_agrees(a: Seq<u8>, from_a: int, b: Seq<u8>, from_b: int)
    requires
        0 <= from_a <= a.len(),
        0 <= from_b <= b.len(),
        a.skip(from_a) == b.skip(from_b),
    ensures
        skip_filler(a, from_a) - from_a == skip_filler(b, from_b) - from_b,
    decreases a.len() - from_a,
{
    let tail = a.skip(from_a);
    assert(a.len() - from_a == b.len() - from_b) by {
        assert(tail.len() == a.len() - from_a);
        assert(b.skip(from_b).len() == b.len() - from_b);
    }
    if from_a < a.len() {
        assert(a.skip(from_a)[0] == a[from_a]);
        assert(b.skip(from_b)[0] == b[from_b]);
    }
    if from_a + 3 <= a.len() {
        assert(a.skip(from_a)[1] == a[from_a + 1]);
        assert(b.skip(from_b)[1] == b[from_b + 1]);
        assert(a.skip(from_a)[2] == a[from_a + 2]);
        assert(b.skip(from_b)[2] == b[from_b + 2]);
    }
    let step = filler_len_at(a, from_a);
    assert(step == filler_len_at(b, from_b));
    if step > 0 {
        assert(a.skip(from_a + step) =~= tail.skip(step));
        assert(b.skip(from_b + step) =~= tail.skip(step));
        lemma_filler_agrees(a, from_a + step, b, from_b + step);
    }
}

/// How far digits go depends only on the bytes from where they start.
proof fn lemma_digits_agree(a: Seq<u8>, from_a: int, b: Seq<u8>, from_b: int)
    requires
        0 <= from_a <= a.len(),
        0 <= from_b <= b.len(),
        a.skip(from_a) == b.skip(from_b),
    ensures
        skip_digits(a, from_a) - from_a == skip_digits(b, from_b) - from_b,
    decreases a.len() - from_a,
{
    let tail = a.skip(from_a);
    assert(a.len() - from_a == b.len() - from_b) by {
        assert(tail.len() == a.len() - from_a);
        assert(b.skip(from_b).len() == b.len() - from_b);
    }
    if from_a < a.len() {
        assert(a.skip(from_a)[0] == a[from_a]);
        assert(b.skip(from_b)[0] == b[from_b]);
        if is_digit(a[from_a]) {
            assert(a.skip(from_a + 1) =~= tail.skip(1));
            assert(b.skip(from_b + 1) =~= tail.skip(1));
            lemma_digits_agree(a, from_a + 1, b, from_b + 1);
        }
    }
}

/// Where the next space stands depends only on the bytes from where the
/// search starts.
proof fn lemma_space_agrees(a: Seq<u8>, from_a: int, b: Seq<u8>, from_b: int)
    requires
        0 <= from_a <= a.len(),
        0 <= from_b <= b.len(),
        a.skip(from_a) == b.skip(from_b),
    ensures
        find_space(a, from_a) - from_a == find_space(b, from_b) - from_b,
    decreases a.len() - from_a,
{
    let tail = a.skip(from_a);
    assert(a.len() - from_a == b.len() - from_b) by {
        assert(tail.len() == a.len() - from_a);
        assert(b.skip(from_b).len() == b.len() - from_b);
    }
    if from_a < a.len() {
        assert(a.skip(from_a)[0] == a[from_a]);
        assert(b.skip(from_b)[0] == b[from_b]);
        if a[from_a] != 0x20 {
            assert(a.skip(from_a + 1) =~= tail.skip(1));
            assert(b.skip(from_b + 1) =~= tail.skip(1));
            lemma_space_agrees(a, from_a + 1, b, from_b + 1);
        }
    }
}

/// The number that digits stand for depends only on the digits.
proof fn lemma_value_agrees(a: Seq<u8>, from_a: int, b: Seq<u8>, from_b: int, len: int)
    requires
        0 <= len,
        0 <= from_a,
        from_a + len <= a.len(),
        0 <= from_b,
        from_b + len <= b.len(),
        a.subrange(from_a, from_a + len) == b.subrange(from_b, from_b + len),
    ensures
        decimal_value(a, from_a, from_a + len) == decimal_value(b, from_b, from_b + len),
    decreases len,
{
    if len > 0 {
        let part = a.subrange(from_a, from_a + len);
        assert(a.subrange(from_a, from_a + len - 1) =~= part.subrange(0, len - 1));
        assert(b.subrange(from_b, from_b + len - 1) =~= part.subrange(0, len - 1));
        lemma_value_agrees(a, from_a, b, from_b, len - 1);
        assert(part[len - 1] == a[from_a + len - 1]);
        assert(b.subrange(from_b, from_b + len)[len - 1] == b[from_b + len - 1]);
    }
}

/// Filler that is followed by what is no filler ends where that begins.
proof fn lemma_filler_run(fill: Seq<u8>, tail: Seq<u8>, pos: int)
    requires
        0 <= pos <= fill.len(),
        skip_filler(fill, pos) == fill.len(),
        filler_len_at(tail, 0) == 0,
    ensures
        skip_filler(fill + tail, pos) == fill.len(),
    decreases fill.len() - pos,
{
    let line = fill + tail;
    if pos == fill.len() {
        if tail.len() > 0 {
            assert(line[pos] == tail[0]);
        }
        if tail.len() >= 3 {
            assert(line[pos + 1] == tail[1]);
            assert(line[pos + 2] == tail[2]);
        }
        assert(filler_len_at(line, pos) == 0);
    } else {
        let step = filler_len_at(fill, pos);
        assert(step > 0);
        assert(line[pos] == fill[pos]);
        if step == 3 {
            assert(line[pos + 1] == fill[pos + 1]);
            assert(line[pos + 2] == fill[pos + 2]);
        }
        assert(filler_len_at(line, pos) == step);
        lemma_filler_run(fill, tail, pos + step);
    }
}

/// Digits that are followed by what is no digit end where that begins.
proof fn lemma_digit_run(digits: Seq<u8>, tail: Seq<u8>, pos: int)
    requires
        0 <= pos <= digits.len(),
        forall|i: int| 0 <= i < digits.len() ==> is_digit(#[trigger] digits[i]),
        tail.len() == 0 || !is_digit(tail[0]),
    ensures
        skip_digits(digits + tail, pos) == digits.len(),
    decreases digits.len() - pos,
{
    let line = digits + tail;
    if pos == digits.len() {
        if tail.len() > 0 {
            assert(line[pos] == tail[0]);
        }
    } else {
        assert(line[pos] == digits[pos]);
        lemma_digit_run(digits, tail, pos + 1);
    }
}

/// Text without a space that is followed by a space ends at that space.
proof fn lemma_text_run(text: Seq<u8>, tail: Seq<u8>, pos: int)
    requires
        0 <= pos <= text.len(),
        forall|i: int| 0 <= i < text.len() ==> #[trigger] text[i] != 0x20,
        tail.len() > 0 && tail[0] == 0x20,
    ensures
        find_space(text + tail, pos) == text.len(),
    decreases text.len() - pos,
{
    let line = text + tail;
    if pos == text.len() {
        assert(line[pos] == tail[0]);
    } else {
        assert(line[pos] == text[pos]);
        lemma_text_run(text, tail, pos + 1);
    }
}

/// The decimal numeral of a number is made of digits, and reads back as
/// the number.
pub proof fn lemma_decimal_text_reads_back(n: nat)
    ensures
        ascii_bytes(decimal_text(n)).len() > 0,
        forall|i: int|
            0 <= i < ascii_bytes(decimal_text(n)).len() ==> is_digit(
                #[trigger] ascii_bytes(decimal_text(n))[i],
            ),
        decimal_value(
            ascii_bytes(decimal_text(n)),
            0,
            ascii_bytes(decimal_text(n)).len() as int,
        ) == n,
    decreases n,
{
    let digits = ascii_bytes(decimal_text(n));
    assert(digit_char(n % 10) as u8 == 0x30 + n % 10);
    if n < 10 {
        assert(digits.len() == 1);
        assert(digits[0] == 0x30 + n);
        assert(decimal_value(digits, 0, 0) == 0);
    } else {
        lemma_decimal_text_reads_back(n / 10);
        let shorter = ascii_bytes(decimal_text(n / 10));
        assert(digits =~= shorter.push((0x30 + n % 10) as u8));
        assert(digits.subrange(0, shorter.len() as int) =~= shorter.subrange(
            0,
            shorter.len() as int,
        ));
        lemma_value_agrees(digits, 0, shorter, 0, shorter.len() as int);
        assert(digits[digits.len() - 1] == 0x30 + n % 10);
        assert forall|i: int| 0 <= i < digits.len() implies is_digit(#[trigger] digits[i]) by {
            if i < shorter.len() {
                assert(digits[i] == shorter[i]);
            }
        }
    }
}

/// Filler in a line ends where what follows it begins.
proof fn lemma_filler_part(line: Seq<u8>, pos: int, part: Seq<u8>, tail: Seq<u8>)
    requires
        0 <= pos <= line.len(),
        line.skip(pos) == part + tail,
        skip_filler(part, 0) == part.len(),
        filler_len_at(tail, 0) == 0,
    ensures
        skip_filler(line, pos) == pos + part.len(),
{
    lemma_filler_run(part, tail, 0);
    assert((part + tail).skip(0) =~= part + tail);
    lemma_filler_agrees(line, pos, part + tail, 0);
}

/// Digits in a line end where what follows them begins, and stand for the
/// number that they stand for alone.
proof fn lemma_digit_part(line: Seq<u8>, pos: int, part: Seq<u8>, tail: Seq<u8>)
    requires
        0 <= pos <= line.len(),
        line.skip(pos) == part + tail,
        forall|i: int| 0 <= i < part.len() ==> is_digit(#[trigger] part[i]),
        tail.len() == 0 || !is_digit(tail[0]),
    ensures
        skip_digits(line, pos) == pos + part.len(),
        pos + part.len() <= line.len(),
        decimal_value(line, pos, pos + part.len()) == decimal_value(part, 0, part.len() as int),
{
    lemma_digit_run(part, tail, 0);
    assert((part + tail).skip(0) =~= part + tail);
    lemma_digits_agree(line, pos, part + tail, 0);
    assert(line.skip(pos).len() == part.len() + tail.len());
    assert(line.subrange(pos, pos + part.len()) =~= part.subrange(0, part.len() as int)) by {
        assert forall|k: int| 0 <= k < part.len() implies line[pos + k] == part[k] by {
            assert(line.skip(pos)[k] == line[pos + k]);
            assert((part + tail)[k] == part[k]);
        }
    }
    lemma_value_agrees(line, pos, part, 0, part.len() as int);
}

/// Text without a space in a line ends at the space that follows it.
proof fn lemma_text_part(line: Seq<u8>, pos: int, part: Seq<u8>, tail: Seq<u8>)
    requires
        0 <= pos <= line.len(),
        line.skip(pos) == part + tail,
        forall|i: int| 0 <= i < part.len() ==> #[trigger] part[i] != 0x20,
        tail.len() > 0 && tail[0] == 0x20,
    ensures
        find_space(line, pos) == pos + part.len(),
        pos + part.len() < line.len(),
        line.subrange(pos, pos + part.len()) == part,
{
    lemma_text_run(part, tail, 0);
    assert((part + tail).skip(0) =~= part + tail);
    lemma_space_agrees(line, pos, part + tail, 0);
    assert(line.skip(pos).len() == part.len() + tail.len());
    assert(line.subrange(pos, pos + part.len()) =~= part) by {
        assert forall|k: int| 0 <= k < part.len() implies line[pos + k] == part[k] by {
            assert(line.skip(pos)[k] == line[pos + k]);
            assert((part + tail)[k] == part[k]);
        }
    }
}

/// A line of a printed table: a row between filler. `lead` stands before
/// the coverage range, `gap` between the range and the slice index, `space`
/// between the index and the digest; a space and `rest` follow the digest.
pub open spec fn printed_line(
    row: SliceHashTableView,
    lead: Seq<u8>,
    gap: Seq<u8>,
    space: Seq<u8>,
    rest: Seq<u8>,
) -> Seq<u8> {
    lead + ascii_bytes(row.dht_arc) + gap + ascii_bytes(decimal_text(row.slice_index as nat))
        + space + ascii_bytes(row.hash) + seq![0x20u8] + rest
}

/// The bytes of the text of a coverage range.
proof fn lemma_arc_bytes(arc_start: nat, arc_end: nat)
    ensures
        ascii_bytes(
            "Arc("@ + decimal_text(arc_start) + ", "@ + decimal_text(arc_end) + ")"@,
        ) == seq![0x41u8, 0x72u8, 0x63u8, 0x28u8] + ascii_bytes(decimal_text(arc_start))
            + seq![0x2Cu8, 0x20u8] + ascii_bytes(decimal_text(arc_end)) + seq![0x29u8],
{
    reveal_strlit("Arc(");
    reveal_strlit(", ");
    reveal_strlit(")");
    assert(ascii_bytes("Arc("@ + decimal_text(arc_start) + ", "@ + decimal_text(arc_end) + ")"@)
        =~= seq![0x41u8, 0x72u8, 0x63u8, 0x28u8] + ascii_bytes(decimal_text(arc_start))
        + seq![0x2Cu8, 0x20u8] + ascii_bytes(decimal_text(arc_end)) + seq![0x29u8]);
}

/// What follows a part of a line begins where the part ends.
proof fn lemma_after_part(line: Seq<u8>, pos: int, part: Seq<u8>, tail: Seq<u8>)
    requires
        0 <= pos <= line.len(),
        line.skip(pos) == part + tail,
    ensures
        pos + part.len() <= line.len(),
        line.skip(pos + part.len()) == tail,
        forall|k: int| 0 <= k < part.len() ==> line[pos + k] == #[trigger] part[k],
{
    assert(line.skip(pos).len() == part.len() + tail.len());
    assert(line.skip(pos + part.len()) =~= (part + tail).skip(part.len() as int));
    assert((part + tail).skip(part.len() as int) =~= tail);
    assert forall|k: int| 0 <= k < part.len() implies line[pos + k] == #[trigger] part[k] by {
        assert(line.skip(pos)[k] == line[pos + k]);
        assert((part + tail)[k] == part[k]);
    }
}

/// A line made of parts, each put before all that follows it.
pub open spec fn line_of_parts(
    lead: Seq<u8>,
    first: Seq<u8>,
    second: Seq<u8>,
    gap: Seq<u8>,
    index: Seq<u8>,
    space: Seq<u8>,
    digest: Seq<u8>,
    rest: Seq<u8>,
) -> Seq<u8> {
    lead + (seq![0x41u8, 0x72u8, 0x63u8, 0x28u8] + (first + (seq![0x2Cu8, 0x20u8] + (second + (seq![
        0x29u8,
    ] + (gap + (index + (space + (digest + (seq![0x20u8] + rest))))))))))
}

/// The parts of a line that is made of filler, a range, filler, an index,
/// filler, a digest and a space are found where they stand, and the line is
/// a data line with those numbers and that digest text.
#[verifier::rlimit(60)]
#[verifier::spinoff_prover]
proof fn lemma_line_of_parts(
    lead: Seq<u8>,
    first: Seq<u8>,
    second: Seq<u8>,
    gap: Seq<u8>,
    index: Seq<u8>,
    space: Seq<u8>,
    digest: Seq<u8>,
    rest: Seq<u8>,
)
    requires
        is_filler(lead),
        is_filler(gap),
        is_filler(space),
        is_visible(digest),
        first.len() > 0,
        second.len() > 0,
        index.len() > 0,
        forall|i: int| 0 <= i < first.len() ==> is_digit(#[trigger] first[i]),
        forall|i: int| 0 <= i < second.len() ==> is_digit(#[trigger] second[i]),
        forall|i: int| 0 <= i < index.len() ==> is_digit(#[trigger] index[i]),
        decimal_value(first, 0, first.len() as int) <= u32::MAX,
        decimal_value(second, 0, second.len() as int) <= u32::MAX,
        decimal_value(index, 0, index.len() as int) <= u64::MAX,
    ensures
        ({
            let line = line_of_parts(lead, first, second, gap, index, space, digest, rest);
            &&& line_fields(line) is Some
            &&& line_fields(line)->0.arc_start == decimal_value(first, 0, first.len() as int)
            &&& line_fields(line)->0.arc_end == decimal_value(second, 0, second.len() as int)
            &&& line_fields(line)->0.slice_index == decimal_value(index, 0, index.len() as int)
            &&& line_fields(line)->0.digest_text == digest
        }),
{
    let open = seq![0x41u8, 0x72u8, 0x63u8, 0x28u8];
    let comma = seq![0x2Cu8, 0x20u8];
    let close = seq![0x29u8];
    let blank = seq![0x20u8];
    let after_digest = blank + rest;
    let from_digest = digest + after_digest;
    let from_space = space + from_digest;
    let from_index = index + from_space;
    let from_gap = gap + from_index;
    let from_close = close + from_gap;
    let from_second = second + from_close;
    let from_comma = comma + from_second;
    let from_first = first + from_comma;
    let from_open = open + from_first;
    let line = lead + from_open;
    assert(line == line_of_parts(lead, first, second, gap, index, space, digest, rest));
    let at_open = lead.len() as int;
    let at_first = at_open + 4;
    let at_comma = at_first + first.len();
    let at_second = at_comma + 2;
    let at_close = at_second + second.len();
    let at_gap = at_close + 1;
    let at_index = at_gap + gap.len();
    let at_space = at_index + index.len();
    let at_digest = at_space + space.len();
    let at_end = at_digest + digest.len();
    assert(line.skip(0) =~= lead + from_open);
    lemma_after_part(line, 0, lead, from_open);
    lemma_after_part(line, at_open, open, from_first);
    lemma_after_part(line, at_first, first, from_comma);
    lemma_after_part(line, at_comma, comma, from_second);
    lemma_after_part(line, at_second, second, from_close);
    lemma_after_part(line, at_close, close, from_gap);
    lemma_after_part(line, at_gap, gap, from_index);
    lemma_after_part(line, at_index, index, from_space);
    lemma_after_part(line, at_space, space, from_digest);
    lemma_after_part(line, at_digest, digest, after_digest);
    assert(filler_len_at(from_open, 0) == 0) by {
        assert(from_open[0] == 0x41);
    }
    lemma_filler_part(line, 0, lead, from_open);
    assert(!is_digit(from_comma[0])) by {
        assert(from_comma[0] == 0x2C);
    }
    lemma_digit_part(line, at_first, first, from_comma);
    assert(!is_digit(from_close[0])) by {
        assert(from_close[0] == 0x29);
    }
    lemma_digit_part(line, at_second, second, from_close);
    assert(filler_len_at(from_index, 0) == 0) by {
        assert(from_index[0] == index[0]);
        assert(is_digit(index[0]));
    }
    lemma_filler_part(line, at_gap, gap, from_index);
    assert(!is_digit(from_space[0])) by {
        assert(from_space[0] == space[0]);
        assert(filler_len_at(space, 0) > 0);
    }
    lemma_digit_part(line, at_index, index, from_space);
    assert(filler_len_at(from_digest, 0) == 0) by {
        assert(from_digest[0] == digest[0]);
        assert(0x21 <= digest[0] <= 0x7E);
    }
    lemma_filler_part(line, at_space, space, from_digest);
    assert(after_digest[0] == 0x20);
    lemma_text_part(line, at_digest, digest, after_digest);
    let at = line_layout(line);
    assert(at.lead == at_open);
    assert(at.start_digits == at_comma);
    assert(at.end_digits == at_close);
    assert(at.gap == at_index);
    assert(at.index_digits == at_space);
    assert(at.digest_from == at_digest);
    assert(at.digest_to == at_end);
    assert(is_arc_open_at(line, at_open)) by {
        assert(line[at_open + 0] == open[0]);
        assert(line[at_open + 1] == open[1]);
        assert(line[at_open + 2] == open[2]);
        assert(line[at_open + 3] == open[3]);
    }
    assert(is_separator_at(line, at_comma)) by {
        assert(line[at_comma + 0] == comma[0]);
        assert(line[at_comma + 1] == comma[1]);
    }
    assert(is_arc_close_at(line, at_close)) by {
        assert(line[at_close + 0] == close[0]);
    }
    assert(is_data_line(line));
}

/// A printed line is made of the filler around its cells, the digits of
/// its numbers, and its digest.
proof fn lemma_printed_line_parts(
    record: SliceHashView,
    lead: Seq<u8>,
    gap: Seq<u8>,
    space: Seq<u8>,
    rest: Seq<u8>,
)
    ensures
        printed_line(slice_hash_row(record), lead, gap, space, rest) == line_of_parts(
            lead,
            ascii_bytes(decimal_text(unsigned_32(record.arc_start) as nat)),
            ascii_bytes(decimal_text(unsigned_32(record.arc_end) as nat)),
            gap,
            ascii_bytes(decimal_text(unsigned_64(record.slice_index) as nat)),
            space,
            ascii_bytes(base64_standard_encoded(record.hash)),
            rest,
        ),
{
    let first = unsigned_32(record.arc_start) as nat;
    let second = unsigned_32(record.arc_end) as nat;
    lemma_arc_bytes(first, second);
    let arc = ascii_bytes(slice_hash_row(record).dht_arc);
    let printed = printed_line(slice_hash_row(record), lead, gap, space, rest);
    let parts = line_of_parts(
        lead,
        ascii_bytes(decimal_text(first)),
        ascii_bytes(decimal_text(second)),
        gap,
        ascii_bytes(decimal_text(unsigned_64(record.slice_index) as nat)),
        space,
        ascii_bytes(base64_standard_encoded(record.hash)),
        rest,
    );
    assert(arc == seq![0x41u8, 0x72u8, 0x63u8, 0x28u8] + ascii_bytes(decimal_text(first)) + seq![
        0x2Cu8,
        0x20u8,
    ] + ascii_bytes(decimal_text(second)) + seq![0x29u8]);
    assert(printed =~= parts);
}

/// What is printed reads back: a line that holds the row of a record,
/// with filler between its cells and a space behind its digest, is a data
/// line, and the record that it stands for is the record that was printed.
/// This holds where the digest in base64 is not empty, is made of visible
/// characters, and decodes to the digest.
pub proof fn lemma_printed_row_reads_back(
    record: SliceHashView,
    lead: Seq<u8>,
    gap: Seq<u8>,
    space: Seq<u8>,
    rest: Seq<u8>,
)
    requires
        i32::MIN <= record.arc_start <= i32::MAX,
        i32::MIN <= record.arc_end <= i32::MAX,
        i64::MIN <= record.slice_index <= i64::MAX,
        is_filler(lead),
        is_filler(gap),
        is_filler(space),
        is_visible(ascii_bytes(base64_standard_encoded(record.hash))),
        base64_standard_decoded(ascii_bytes(base64_standard_encoded(record.hash))) == Some(
            record.hash,
        ),
    ensures
        line_record(printed_line(slice_hash_row(record), lead, gap, space, rest)) == Some(record),
{
    let first = unsigned_32(record.arc_start) as nat;
    let second = unsigned_32(record.arc_end) as nat;
    let index = unsigned_64(record.slice_index) as nat;
    let digest = ascii_bytes(base64_standard_encoded(record.hash));
    lemma_decimal_text_reads_back(first);
    lemma_decimal_text_reads_back(second);
    lemma_decimal_text_reads_back(index);
    lemma_line_of_parts(
        lead,
        ascii_bytes(decimal_text(first)),
        ascii_bytes(decimal_text(second)),
        gap,
        ascii_bytes(decimal_text(index)),
        space,
        digest,
        rest,
    );
    lemma_printed_line_parts(record, lead, gap, space, rest);
    let line = printed_line(slice_hash_row(record), lead, gap, space, rest);
    let fields = line_fields(line)->0;
    assert(fields.arc_start == first);
    assert(fields.arc_end == second);
    assert(fields.slice_index == index);
    assert(fields.digest_text == digest);
    assert(signed_32(first) == record.arc_start);
    assert(signed_32(second) == record.arc_end);
    assert(signed_64(index) == record.slice_index);
    assert(line_record(line) == record_of_fields(first, second, index, Some(record.hash)));
}

} // verus!
