//! The differences between two captures of slice hashes, key by key.

use crate::bits::{to_unsigned_32, to_unsigned_64, unsigned_32, unsigned_64};
use crate::retrieve::model::{bytes_equal, SliceHash, SliceHashView};
use vstd::prelude::*;
use vstd::slice::slice_to_vec;

verus! {

/// Whether two records describe the same coverage range during the same
/// slice.
pub open spec fn same_key(a: SliceHashView, b: SliceHashView) -> bool {
    a.arc_start == b.arc_start && a.arc_end == b.arc_end && a.slice_index == b.slice_index
}

/// Whether a record with the key of `wanted` is among `records`.
pub open spec fn has_key(records: Seq<SliceHashView>, wanted: SliceHashView) -> bool {
    exists|j: int| 0 <= j < records.len() && same_key(#[trigger] records[j], wanted)
}

/// The index of the last record with the key of `wanted`, or -1 where there
/// is none. Where a capture names a key more than once, its last record for
/// the key is the one that counts.
pub open spec fn last_index_of_key(records: Seq<SliceHashView>, wanted: SliceHashView) -> int
    decreases records.len(),
{
    if records.len() == 0 {
        -1
    } else if same_key(records.last(), wanted) {
        records.len() - 1
    } else {
        last_index_of_key(records.drop_last(), wanted)
    }
}

/// What `last_index_of_key` finds: the greatest index that holds the key.
pub proof fn lemma_last_index_of_key(records: Seq<SliceHashView>, wanted: SliceHashView)
    ensures
        -1 <= last_index_of_key(records, wanted) < records.len(),
        last_index_of_key(records, wanted) >= 0 <==> has_key(records, wanted),
        last_index_of_key(records, wanted) >= 0 ==> same_key(
            records[last_index_of_key(records, wanted)],
            wanted,
        ),
        forall|j: int|
            last_index_of_key(records, wanted) < j < records.len() ==> !same_key(
                #[trigger] records[j],
                wanted,
            ),
    decreases records.len(),
{
    if records.len() > 0 {
        let shorter = records.drop_last();
        lemma_last_index_of_key(shorter, wanted);
        if same_key(records.last(), wanted) {
            assert(same_key(records[records.len() - 1], wanted));
        } else {
            assert forall|j: int|
                last_index_of_key(records, wanted) < j < records.len() implies !same_key(
                #[trigger] records[j],
                wanted,
            ) by {
                if j < shorter.len() {
                    assert(shorter[j] == records[j]);
                }
            }
            if has_key(shorter, wanted) {
                let j = choose|j: int| 0 <= j < shorter.len() && same_key(#[trigger] shorter[j], wanted);
                assert(same_key(records[j], wanted));
            }
            if has_key(records, wanted) {
                let j = choose|j: int| 0 <= j < records.len() && same_key(#[trigger] records[j], wanted);
                assert(same_key(shorter[j], wanted));
            }
        }
    }
}

/// Whether the record at `index` of `mine` is reported as standing on one
/// side only: it is the record that counts for its key, and `other` has no
/// record with that key.
pub open spec fn is_unmatched(mine: Seq<SliceHashView>, other: Seq<SliceHashView>, index: int) -> bool {
    last_index_of_key(mine, mine[index]) == index && !has_key(other, mine[index])
}

/// The records among the first `count` of `mine` that stand on one side
/// only, in the order of `mine`.
pub open spec fn unmatched(mine: Seq<SliceHashView>, other: Seq<SliceHashView>, count: int) -> Seq<
    SliceHashView,
>
    decreases count,
{
    if count <= 0 {
        Seq::empty()
    } else if is_unmatched(mine, other, count - 1) {
        unmatched(mine, other, count - 1).push(mine[count - 1])
    } else {
        unmatched(mine, other, count - 1)
    }
}

/// Whether the record at `index` of `left` is reported as a mismatch: it is
/// the record that counts for its key, `right` has the key too, and the
/// record that counts for it there holds another digest.
pub open spec fn is_mismatch(left: Seq<SliceHashView>, right: Seq<SliceHashView>, index: int) -> bool {
    &&& last_index_of_key(left, left[index]) == index
    &&& has_key(right, left[index])
    &&& right[last_index_of_key(right, left[index])].hash != left[index].hash
}

/// The pairs of records, among the first `count` of `left`, whose key is on
/// both sides with different digests, in the order of `left`.
pub open spec fn mismatched(left: Seq<SliceHashView>, right: Seq<SliceHashView>, count: int) -> Seq<
    (SliceHashView, SliceHashView),
>
    decreases count,
{
    if count <= 0 {
        Seq::empty()
    } else if is_mismatch(left, right, count - 1) {
        mismatched(left, right, count - 1).push(
            (left[count - 1], right[last_index_of_key(right, left[count - 1])]),
        )
    } else {
        mismatched(left, right, count - 1)
    }
}

/// How the two captures differ on one key.
#[derive(Clone, Debug)]
pub enum SliceDiff {
    /// Only the left capture has the key.
    OnlyInLeft,
    /// Only the right capture has the key.
    OnlyInRight,
    /// Both captures have the key, with these two digests.
    HashMismatch { left: Vec<u8>, right: Vec<u8> },
}

/// A difference as a mathematical value.
pub enum SliceDiffView {
    OnlyInLeft,
    OnlyInRight,
    HashMismatch { left: Seq<u8>, right: Seq<u8> },
}

impl View for SliceDiff {
    type V = SliceDiffView;

    open spec fn view(&self) -> SliceDiffView {
        match self {
            SliceDiff::OnlyInLeft => SliceDiffView::OnlyInLeft,
            SliceDiff::OnlyInRight => SliceDiffView::OnlyInRight,
            SliceDiff::HashMismatch { left, right } => SliceDiffView::HashMismatch {
                left: left@,
                right: right@,
            },
        }
    }
}

/// One reported difference: the key, with its numbers read as unsigned, and
/// how the captures differ on it.
#[derive(Clone, Debug)]
pub struct DiffEntry {
    pub arc_start: u32,
    pub arc_end: u32,
    pub slice_index: u64,
    pub diff: SliceDiff,
}

/// A reported difference as a mathematical value.
pub struct DiffEntryView {
    pub arc_start: int,
    pub arc_end: int,
    pub slice_index: int,
    pub diff: SliceDiffView,
}

impl View for DiffEntry {
    type V = DiffEntryView;

    open spec fn view(&self) -> DiffEntryView {
        DiffEntryView {
            arc_start: self.arc_start as int,
            arc_end: self.arc_end as int,
            slice_index: self.slice_index as int,
            diff: self.diff@,
        }
    }
}

impl DeepView for DiffEntry {
    type V = DiffEntryView;

    open spec fn deep_view(&self) -> DiffEntryView {
        self@
    }
}

/// The entry that reports `record` with the given difference.
pub open spec fn entry_for(record: SliceHashView, diff: SliceDiffView) -> DiffEntryView {
    DiffEntryView {
        arc_start: unsigned_32(record.arc_start),
        arc_end: unsigned_32(record.arc_end),
        slice_index: unsigned_64(record.slice_index),
        diff,
    }
}

/// The entries for records that only the left capture has.
pub open spec fn left_only_entries(records: Seq<SliceHashView>) -> Seq<DiffEntryView> {
    records.map_values(|record: SliceHashView| entry_for(record, SliceDiffView::OnlyInLeft))
}

/// The entries for records that only the right capture has.
pub open spec fn right_only_entries(records: Seq<SliceHashView>) -> Seq<DiffEntryView> {
    records.map_values(|record: SliceHashView| entry_for(record, SliceDiffView::OnlyInRight))
}

/// The entries for pairs of records with one key and two digests.
pub open spec fn mismatch_entries(pairs: Seq<(SliceHashView, SliceHashView)>) -> Seq<DiffEntryView> {
    pairs.map_values(
        |pair: (SliceHashView, SliceHashView)|
            entry_for(
                pair.0,
                SliceDiffView::HashMismatch { left: pair.0.hash, right: pair.1.hash },
            ),
    )
}

/// The differences between two captures: first the keys that only the left
/// one has, then those that only the right one has, then the keys that both
/// have with different digests; each group in the order of the capture it is
/// read from. Keys that both captures hold with one digest are not reported.
pub open spec fn diff_entries(left: Seq<SliceHashView>, right: Seq<SliceHashView>) -> Seq<
    DiffEntryView,
> {
    left_only_entries(unmatched(left, right, left.len() as int)) + right_only_entries(
        unmatched(right, left, right.len() as int),
    ) + mismatch_entries(mismatched(left, right, left.len() as int))
}

fn keys_match(a: &SliceHash, b: &SliceHash) -> (same: bool)
    ensures
        same == same_key(a@, b@),
{
    a.arc_start == b.arc_start && a.arc_end == b.arc_end && a.slice_index == b.slice_index
}

/// Finds the record that counts for the key of `wanted`.
fn find_last(records: &Vec<SliceHash>, wanted: &SliceHash) -> (found: Option<usize>)
    ensures
        match found {
            Some(index) => index == last_index_of_key(records.deep_view(), wanted@),
            None => last_index_of_key(records.deep_view(), wanted@) == -1,
        },
{
    let ghost all = records.deep_view();
    let mut remaining = records.len();
    assert(all.take(remaining as int) =~= all);
    while remaining > 0
        invariant
            all == records.deep_view(),
            remaining <= records.len(),
            last_index_of_key(all, wanted@) == last_index_of_key(
                all.take(remaining as int),
                wanted@,
            ),
        decreases remaining,
    {
        assert(all.take(remaining as int).drop_last() =~= all.take(remaining - 1));
        assert(all.take(remaining as int).last() == records[remaining - 1]@);
        remaining = remaining - 1;
        if keys_match(&records[remaining], wanted) {
            return Some(remaining);
        }
    }
    None
}

fn unsigned_key(record: &SliceHash) -> (key: (u32, u32, u64))
    ensures
        key.0 == unsigned_32(record@.arc_start),
        key.1 == unsigned_32(record@.arc_end),
        key.2 == unsigned_64(record@.slice_index),
{
    let start = to_unsigned_32(record.arc_start);
    let end = to_unsigned_32(record.arc_end);
    let index = to_unsigned_64(record.slice_index);
    (start, end, index)
}

/// Appends to `entries` an entry for each record of `mine` whose key `other`
/// lacks.
fn push_unmatched(
    entries: &mut Vec<DiffEntry>,
    mine: &Vec<SliceHash>,
    other: &Vec<SliceHash>,
    left_side: bool,
)
    ensures
        final(entries).deep_view() == old(entries).deep_view() + if left_side {
            left_only_entries(unmatched(mine.deep_view(), other.deep_view(), mine.len() as int))
        } else {
            right_only_entries(unmatched(mine.deep_view(), other.deep_view(), mine.len() as int))
        },
{
    let ghost before = entries.deep_view();
    let ghost mine_view = mine.deep_view();
    let ghost other_view = other.deep_view();
    let mut index: usize = 0;
    assert(entries.deep_view() =~= before + left_only_entries(unmatched(mine_view, other_view, 0)));
    assert(entries.deep_view() =~= before + right_only_entries(unmatched(mine_view, other_view, 0)));
    while index < mine.len()
        invariant
            index <= mine.len(),
            mine_view == mine.deep_view(),
            other_view == other.deep_view(),
            entries.deep_view() == before + if left_side {
                left_only_entries(unmatched(mine_view, other_view, index as int))
            } else {
                right_only_entries(unmatched(mine_view, other_view, index as int))
            },
        decreases mine.len() - index,
    {
        let record = &mine[index];
        let ghost so_far = entries.deep_view();
        proof {
            lemma_last_index_of_key(other_view, record@);
        }
        let counts = match find_last(mine, record) {
            Some(last) => last == index,
            None => false,
        };
        if counts && find_last(other, record).is_none() {
            let key = unsigned_key(record);
            let diff = if left_side {
                SliceDiff::OnlyInLeft
            } else {
                SliceDiff::OnlyInRight
            };
            entries.push(
                DiffEntry { arc_start: key.0, arc_end: key.1, slice_index: key.2, diff },
            );
            assert(is_unmatched(mine_view, other_view, index as int));
            assert(entries.deep_view() =~= so_far.push(
                entry_for(
                    mine_view[index as int],
                    if left_side {
                        SliceDiffView::OnlyInLeft
                    } else {
                        SliceDiffView::OnlyInRight
                    },
                ),
            ));
        } else {
            assert(!is_unmatched(mine_view, other_view, index as int));
        }
        index = index + 1;
        assert(entries.deep_view() =~= before + if left_side {
            left_only_entries(unmatched(mine_view, other_view, index as int))
        } else {
            right_only_entries(unmatched(mine_view, other_view, index as int))
        });
    }
}

/// Appends to `entries` an entry for each key that both captures hold with
/// different digests.
fn push_mismatched(entries: &mut Vec<DiffEntry>, left: &Vec<SliceHash>, right: &Vec<SliceHash>)
    ensures
        final(entries).deep_view() == old(entries).deep_view() + mismatch_entries(
            mismatched(left.deep_view(), right.deep_view(), left.len() as int),
        ),
{
    let ghost before = entries.deep_view();
    let ghost left_view = left.deep_view();
    let ghost right_view = right.deep_view();
    let mut index: usize = 0;
    assert(entries.deep_view() =~= before + mismatch_entries(mismatched(left_view, right_view, 0)));
    while index < left.len()
        invariant
            index <= left.len(),
            left_view == left.deep_view(),
            right_view == right.deep_view(),
            entries.deep_view() == before + mismatch_entries(
                mismatched(left_view, right_view, index as int),
            ),
        decreases left.len() - index,
    {
        let record = &left[index];
        let ghost so_far = entries.deep_view();
        proof {
            lemma_last_index_of_key(right_view, record@);
        }
        let counts = match find_last(left, record) {
            Some(last) => last == index,
            None => false,
        };
        let mut reported = false;
        if counts {
            if let Some(at) = find_last(right, record) {
                let theirs = &right[at];
                if !bytes_equal(&record.hash, &theirs.hash) {
                    let key = unsigned_key(record);
                    entries.push(
                        DiffEntry {
                            arc_start: key.0,
                            arc_end: key.1,
                            slice_index: key.2,
                            diff: SliceDiff::HashMismatch {
                                left: slice_to_vec(record.hash.as_slice()),
                                right: slice_to_vec(theirs.hash.as_slice()),
                            },
                        },
                    );
                    reported = true;
                    assert(is_mismatch(left_view, right_view, index as int));
                    assert(entries.deep_view() =~= so_far.push(
                        entry_for(
                            left_view[index as int],
                            SliceDiffView::HashMismatch {
                                left: left_view[index as int].hash,
                                right: right_view[at as int].hash,
                            },
                        ),
                    ));
                }
            }
        }
        assert(reported == is_mismatch(left_view, right_view, index as int));
        index = index + 1;
        assert(entries.deep_view() =~= before + mismatch_entries(
            mismatched(left_view, right_view, index as int),
        ));
    }
}

/// Compares two captures of slice hashes, record by key: the coverage range
/// and the slice index. An empty result means that the captures agree.
pub fn diff(left: &Vec<SliceHash>, right: &Vec<SliceHash>) -> (entries: Vec<DiffEntry>)
    ensures
        entries.deep_view() == diff_entries(left.deep_view(), right.deep_view()),
{
    let mut entries: Vec<DiffEntry> = Vec::new();
    assert(entries.deep_view() =~= Seq::empty());
    push_unmatched(&mut entries, left, right, true);
    push_unmatched(&mut entries, right, left, false);
    push_mismatched(&mut entries, left, right);
    assert(entries.deep_view() =~= diff_entries(left.deep_view(), right.deep_view()));
    entries
}

/// The entries that report a key of the left capture alone.
pub open spec fn only_left(entries: Seq<DiffEntryView>) -> Seq<DiffEntryView> {
    entries.filter(|entry: DiffEntryView| entry.diff is OnlyInLeft)
}

/// The entries that report a key of the right capture alone.
pub open spec fn only_right(entries: Seq<DiffEntryView>) -> Seq<DiffEntryView> {
    entries.filter(|entry: DiffEntryView| entry.diff is OnlyInRight)
}

/// An entry as it reads with the two captures exchanged.
pub open spec fn mirrored(entry: DiffEntryView) -> DiffEntryView {
    DiffEntryView {
        arc_start: entry.arc_start,
        arc_end: entry.arc_end,
        slice_index: entry.slice_index,
        diff: match entry.diff {
            SliceDiffView::OnlyInLeft => SliceDiffView::OnlyInRight,
            SliceDiffView::OnlyInRight => SliceDiffView::OnlyInLeft,
            SliceDiffView::HashMismatch { left, right } => SliceDiffView::HashMismatch {
                left: right,
                right: left,
            },
        },
    }
}

/// A filter keeps a sequence whole where every element passes, and keeps
/// nothing where none does.
proof fn lemma_filter_all_or_none<A>(items: Seq<A>, keep: spec_fn(A) -> bool)
    ensures
        (forall|i: int| 0 <= i < items.len() ==> keep(#[trigger] items[i])) ==> items.filter(keep)
            == items,
        (forall|i: int| 0 <= i < items.len() ==> !keep(#[trigger] items[i])) ==> items.filter(
            keep,
        ) == Seq::<A>::empty(),
    decreases items.len(),
{
    reveal(Seq::filter);
    if items.len() > 0 {
        let shorter = items.drop_last();
        lemma_filter_all_or_none(shorter, keep);
        assert(forall|i: int| 0 <= i < shorter.len() ==> shorter[i] == items[i]);
        if forall|i: int| 0 <= i < items.len() ==> keep(#[trigger] items[i]) {
            assert(keep(items[items.len() - 1]));
            assert(shorter.push(items.last()) =~= items);
        }
        if forall|i: int| 0 <= i < items.len() ==> !keep(#[trigger] items[i]) {
            assert(!keep(items[items.len() - 1]));
        }
    } else {
        assert(items =~= Seq::<A>::empty());
    }
}

/// The entries of one side alone, within the whole result.
proof fn lemma_sides_of_diff(left: Seq<SliceHashView>, right: Seq<SliceHashView>)
    ensures
        only_left(diff_entries(left, right)) == left_only_entries(
            unmatched(left, right, left.len() as int),
        ),
        only_right(diff_entries(left, right)) == right_only_entries(
            unmatched(right, left, right.len() as int),
        ),
{
    let first = left_only_entries(unmatched(left, right, left.len() as int));
    let second = right_only_entries(unmatched(right, left, right.len() as int));
    let third = mismatch_entries(mismatched(left, right, left.len() as int));
    let is_left = |entry: DiffEntryView| entry.diff is OnlyInLeft;
    let is_right = |entry: DiffEntryView| entry.diff is OnlyInRight;
    lemma_filter_all_or_none(first, is_left);
    lemma_filter_all_or_none(second, is_left);
    lemma_filter_all_or_none(third, is_left);
    lemma_filter_all_or_none(first, is_right);
    lemma_filter_all_or_none(second, is_right);
    lemma_filter_all_or_none(third, is_right);
    Seq::filter_distributes_over_add(first, second, is_left);
    Seq::filter_distributes_over_add(first + second, third, is_left);
    Seq::filter_distributes_over_add(first, second, is_right);
    Seq::filter_distributes_over_add(first + second, third, is_right);
    assert(first.filter(is_left) + second.filter(is_left) + third.filter(is_left) =~= first);
    assert(first.filter(is_right) + second.filter(is_right) + third.filter(is_right) =~= second);
}

/// Entries for one side alone become entries for the other side alone when
/// they are mirrored.
proof fn lemma_mirrored_sides(records: Seq<SliceHashView>)
    ensures
        left_only_entries(records).map_values(|entry: DiffEntryView| mirrored(entry))
            == right_only_entries(records),
        right_only_entries(records).map_values(|entry: DiffEntryView| mirrored(entry))
            == left_only_entries(records),
{
    assert(left_only_entries(records).map_values(|entry: DiffEntryView| mirrored(entry))
        =~= right_only_entries(records));
    assert(right_only_entries(records).map_values(|entry: DiffEntryView| mirrored(entry))
        =~= left_only_entries(records));
}

/// Exchanging the two captures exchanges the sides of the result: what one
/// comparison reports as standing only on the left, the other reports as
/// standing only on the right, with the same keys in the same order.
pub proof fn lemma_diff_sides_are_symmetric(left: Seq<SliceHashView>, right: Seq<SliceHashView>)
    ensures
        only_left(diff_entries(left, right)).map_values(|entry: DiffEntryView| mirrored(entry))
            == only_right(diff_entries(right, left)),
        only_right(diff_entries(left, right)).map_values(|entry: DiffEntryView| mirrored(entry))
            == only_left(diff_entries(right, left)),
{
    lemma_sides_of_diff(left, right);
    lemma_sides_of_diff(right, left);
    lemma_mirrored_sides(unmatched(left, right, left.len() as int));
    lemma_mirrored_sides(unmatched(right, left, right.len() as int));
}

/// No record of a capture stands on one side only when the capture is
/// compared with itself, and none is a mismatch.
proof fn lemma_self_comparison(records: Seq<SliceHashView>, count: int)
    requires
        count <= records.len(),
    ensures
        unmatched(records, records, count) == Seq::<SliceHashView>::empty(),
        mismatched(records, records, count) == Seq::<(SliceHashView, SliceHashView)>::empty(),
    decreases count,
{
    if count > 0 {
        lemma_self_comparison(records, count - 1);
        assert(same_key(records[count - 1], records[count - 1]));
    }
}

/// A capture compared with itself gives an empty result.
pub proof fn lemma_diff_of_equal_captures_is_empty(records: Seq<SliceHashView>)
    ensures
        diff_entries(records, records) == Seq::<DiffEntryView>::empty(),
{
    lemma_self_comparison(records, records.len() as int);
    assert(diff_entries(records, records) =~= Seq::<DiffEntryView>::empty());
}

/// The digest that counts for the key of `wanted` in a capture; `None`
/// where the capture lacks the key.
pub open spec fn digest_of_key(records: Seq<SliceHashView>, wanted: SliceHashView) -> Option<
    Seq<u8>,
> {
    if last_index_of_key(records, wanted) >= 0 {
        Some(records[last_index_of_key(records, wanted)].hash)
    } else {
        None
    }
}

/// Whether two captures hold the same keys, each with the same digest.
pub open spec fn captures_agree(left: Seq<SliceHashView>, right: Seq<SliceHashView>) -> bool {
    forall|key: SliceHashView| #[trigger]
        digest_of_key(left, key) == digest_of_key(right, key)
}

/// Records of one key have the same last index.
proof fn lemma_last_index_by_key(records: Seq<SliceHashView>, a: SliceHashView, b: SliceHashView)
    requires
        same_key(a, b),
    ensures
        last_index_of_key(records, a) == last_index_of_key(records, b),
    decreases records.len(),
{
    if records.len() > 0 {
        lemma_last_index_by_key(records.drop_last(), a, b);
    }
}

/// Nothing is reported for one side alone exactly where no record is
/// unmatched, and no mismatch exactly where no record is one.
proof fn lemma_nothing_reported(left: Seq<SliceHashView>, right: Seq<SliceHashView>, count: int)
    requires
        count <= left.len(),
    ensures
        unmatched(left, right, count).len() == 0 <==> forall|i: int|
            0 <= i < count ==> !is_unmatched(left, right, i),
        mismatched(left, right, count).len() == 0 <==> forall|i: int|
            0 <= i < count ==> !is_mismatch(left, right, i),
    decreases count,
{
    if count > 0 {
        lemma_nothing_reported(left, right, count - 1);
    }
}

/// An empty result means that the two captures agree, and captures that
/// agree give an empty result.
pub proof fn lemma_empty_diff_means_agreement(left: Seq<SliceHashView>, right: Seq<SliceHashView>)
    ensures
        diff_entries(left, right).len() == 0 <==> captures_agree(left, right),
{
    let only_ours = unmatched(left, right, left.len() as int);
    let only_theirs = unmatched(right, left, right.len() as int);
    let both = mismatched(left, right, left.len() as int);
    lemma_nothing_reported(left, right, left.len() as int);
    lemma_nothing_reported(right, left, right.len() as int);
    assert(diff_entries(left, right).len() == only_ours.len() + only_theirs.len() + both.len());
    if diff_entries(left, right).len() == 0 {
        assert forall|key: SliceHashView| #[trigger]
            digest_of_key(left, key) == digest_of_key(right, key) by {
            lemma_last_index_of_key(left, key);
            lemma_last_index_of_key(right, key);
            let ours = last_index_of_key(left, key);
            let theirs = last_index_of_key(right, key);
            if ours >= 0 {
                lemma_last_index_by_key(left, left[ours], key);
                lemma_last_index_by_key(right, left[ours], key);
                lemma_last_index_of_key(right, left[ours]);
                assert(!is_unmatched(left, right, ours));
                assert(!is_mismatch(left, right, ours));
            } else if theirs >= 0 {
                lemma_last_index_by_key(right, right[theirs], key);
                lemma_last_index_by_key(left, right[theirs], key);
                lemma_last_index_of_key(left, right[theirs]);
                assert(!is_unmatched(right, left, theirs));
            }
        }
    }
    if captures_agree(left, right) {
        assert forall|i: int| 0 <= i < left.len() implies !is_unmatched(left, right, i)
            && !is_mismatch(left, right, i) by {
            lemma_last_index_of_key(right, left[i]);
            assert(digest_of_key(left, left[i]) == digest_of_key(right, left[i]));
        }
        assert forall|i: int| 0 <= i < right.len() implies !is_unmatched(right, left, i) by {
            lemma_last_index_of_key(left, right[i]);
            assert(digest_of_key(left, right[i]) == digest_of_key(right, right[i]));
        }
    }
}

/// The pair of a mismatch stands among the pairs found.
proof fn lemma_mismatch_is_found(
    left: Seq<SliceHashView>,
    right: Seq<SliceHashView>,
    index: int,
    count: int,
)
    requires
        0 <= index < count <= left.len(),
        is_mismatch(left, right, index),
    ensures
        mismatched(left, right, count).contains(
            (left[index], right[last_index_of_key(right, left[index])]),
        ),
    decreases count,
{
    let pair = (left[index], right[last_index_of_key(right, left[index])]);
    let found = mismatched(left, right, count);
    if index == count - 1 {
        assert(found[found.len() - 1] == pair);
    } else {
        lemma_mismatch_is_found(left, right, index, count - 1);
        let before = mismatched(left, right, count - 1);
        let at = choose|at: int| 0 <= at < before.len() && before[at] == pair;
        assert(found[at] == pair);
    }
}

/// A key that both captures hold with different digests is reported, in an
/// entry that carries both digests.
pub proof fn lemma_mismatch_is_reported(
    left: Seq<SliceHashView>,
    right: Seq<SliceHashView>,
    index: int,
)
    requires
        0 <= index < left.len(),
        is_mismatch(left, right, index),
    ensures
        diff_entries(left, right).contains(
            entry_for(
                left[index],
                SliceDiffView::HashMismatch {
                    left: left[index].hash,
                    right: right[last_index_of_key(right, left[index])].hash,
                },
            ),
        ),
{
    lemma_mismatch_is_found(left, right, index, left.len() as int);
    let pairs = mismatched(left, right, left.len() as int);
    let pair = (left[index], right[last_index_of_key(right, left[index])]);
    let at = choose|at: int| 0 <= at < pairs.len() && pairs[at] == pair;
    let before = left_only_entries(unmatched(left, right, left.len() as int)) + right_only_entries(
        unmatched(right, left, right.len() as int),
    );
    assert(mismatch_entries(pairs)[at] == entry_for(
        pair.0,
        SliceDiffView::HashMismatch { left: pair.0.hash, right: pair.1.hash },
    ));
    assert(diff_entries(left, right)[before.len() + at] == mismatch_entries(pairs)[at]);
}

} // verus!
