//! The chain of one agent, put together from what two stores hold of it.

use crate::error::{HcOpsError, HcOpsResult};
use crate::hash::{hash_decoding, HashType, HoloHash, HoloHashError, HoloHashView};
use crate::retrieve::model::{DbAction, ValidationStatus};
use holochain_zome_types::prelude::{ActionHashed, Entry, SignedAction};
use vstd::prelude::*;

verus! {

/// A chain entry: its identity, its place in the chain, and its stored
/// form.
#[derive(Debug)]
pub struct ChainAction {
    /// The hash of the action, by which it is told from every other.
    pub hash: HoloHash,
    /// The sequence number of the action in its author's chain.
    pub seq: u32,
    /// The signed action as it is stored.
    pub blob: Vec<u8>,
}

/// One record of a reconstructed chain.
#[derive(Debug)]
pub struct ChainRecord {
    pub action: ChainAction,
    pub validation_status: ValidationStatus,
    /// The entry of the action as it is stored, where it has one.
    pub entry: Option<Vec<u8>>,
}

/// A chain record as a mathematical value.
pub struct ChainRecordView {
    pub hash: HoloHashView,
    pub seq: u32,
    pub blob: Seq<u8>,
    pub validation_status: ValidationStatus,
    pub entry: Option<Seq<u8>>,
}

impl View for ChainRecord {
    type V = ChainRecordView;

    open spec fn view(&self) -> ChainRecordView {
        ChainRecordView {
            hash: self.action.hash@,
            seq: self.action.seq,
            blob: self.action.blob@,
            validation_status: self.validation_status,
            entry: match self.entry {
                Some(bytes) => Some(bytes@),
                None => None,
            },
        }
    }
}

impl DeepView for ChainRecord {
    type V = ChainRecordView;

    open spec fn deep_view(&self) -> ChainRecordView {
        self@
    }
}

/// Whether a record with the action of `record` is in `chain`.
pub open spec fn holds_action(chain: Seq<ChainRecordView>, record: ChainRecordView) -> bool {
    exists|i: int| 0 <= i < chain.len() && (#[trigger] chain[i]).hash == record.hash
}

/// The first position of `chain` whose record has a sequence number above
/// `seq`, or the length of the chain where none has.
pub open spec fn insertion_point(chain: Seq<ChainRecordView>, seq: u32) -> int
    decreases chain.len(),
{
    if chain.len() == 0 {
        0
    } else if chain.first().seq > seq {
        0
    } else {
        1 + insertion_point(chain.drop_first(), seq)
    }
}

/// The chain with `record` merged into it: unchanged where the chain holds
/// the action already; else with the record put before the first record of
/// a higher sequence number, or at the end.
pub open spec fn merged(chain: Seq<ChainRecordView>, record: ChainRecordView) -> Seq<
    ChainRecordView,
> {
    if holds_action(chain, record) {
        chain
    } else {
        chain.insert(insertion_point(chain, record.seq), record)
    }
}

/// The chain with each of `records` merged into it, in their order.
pub open spec fn merged_all(chain: Seq<ChainRecordView>, records: Seq<ChainRecordView>) -> Seq<
    ChainRecordView,
>
    decreases records.len(),
{
    if records.len() == 0 {
        chain
    } else {
        merged(merged_all(chain, records.drop_last()), records.last())
    }
}

/// What `insertion_point` finds: no record before it has a higher sequence
/// number, and the record at it has.
pub proof fn lemma_insertion_point(chain: Seq<ChainRecordView>, seq: u32)
    ensures
        0 <= insertion_point(chain, seq) <= chain.len(),
        forall|i: int| 0 <= i < insertion_point(chain, seq) ==> (#[trigger] chain[i]).seq <= seq,
        insertion_point(chain, seq) < chain.len() ==> chain[insertion_point(chain, seq)].seq > seq,
    decreases chain.len(),
{
    if chain.len() > 0 && chain.first().seq <= seq {
        let rest = chain.drop_first();
        lemma_insertion_point(rest, seq);
        assert forall|i: int| 0 <= i < insertion_point(chain, seq) implies (#[trigger] chain[i]).seq
            <= seq by {
            if i > 0 {
                assert(chain[i] == rest[i - 1]);
            }
        }
        if insertion_point(chain, seq) < chain.len() {
            assert(chain[insertion_point(chain, seq)] == rest[insertion_point(rest, seq)]);
        }
    }
}

/// Finds whether `chain` holds the action of `record`.
fn chain_holds(chain: &Vec<ChainRecord>, record: &ChainRecord) -> (held: bool)
    ensures
        held == holds_action(chain.deep_view(), record@),
{
    let mut index: usize = 0;
    while index < chain.len()
        invariant
            index <= chain.len(),
            forall|i: int| 0 <= i < index ==> (#[trigger] chain.deep_view()[i]).hash != record@.hash,
        decreases chain.len() - index,
    {
        if chain[index].action.hash.same_as(&record.action.hash) {
            assert(chain.deep_view()[index as int].hash == record@.hash);
            return true;
        }
        index = index + 1;
    }
    false
}

/// Finds the first position whose record has a sequence number above `seq`.
fn find_insertion_point(chain: &Vec<ChainRecord>, seq: u32) -> (position: usize)
    ensures
        position == insertion_point(chain.deep_view(), seq),
        position <= chain.len(),
{
    let ghost all = chain.deep_view();
    let mut index: usize = 0;
    assert(all.skip(0) =~= all);
    while index < chain.len()
        invariant
            index <= chain.len(),
            all == chain.deep_view(),
            insertion_point(all, seq) == index + insertion_point(all.skip(index as int), seq),
        decreases chain.len() - index,
    {
        assert(all.skip(index as int).first() == chain[index as int]@);
        assert(all.skip(index as int).drop_first() =~= all.skip(index + 1));
        if chain[index].action.seq > seq {
            return index;
        }
        index = index + 1;
    }
    assert(all.skip(index as int).len() == 0);
    index
}

/// Merges one record into a chain. A record whose action the chain holds
/// already is dropped, whatever else it holds. Any other record is put
/// before the first record with a higher sequence number, or at the end
/// where there is none: behind every record of its own sequence number.
pub fn merge_into_chain(chain: &mut Vec<ChainRecord>, record: ChainRecord)
    ensures
        final(chain).deep_view() == merged(old(chain).deep_view(), record@),
{
    if chain_holds(chain, &record) {
        return ;
    }
    let position = find_insertion_point(chain, record.action.seq);
    let ghost before = chain.deep_view();
    chain.insert(position, record);
    assert(chain.deep_view() =~= before.insert(position as int, record@));
}

/// Merges what a cache store holds of a chain into what the shared ledger
/// holds of it, record by record in the order of the cache.
pub fn merge_chains(base: Vec<ChainRecord>, cache: Vec<ChainRecord>) -> (chain: Vec<ChainRecord>)
    ensures
        chain.deep_view() == merged_all(base.deep_view(), cache.deep_view()),
{
    let mut chain = base;
    let mut cache = cache;
    let ghost wanted = cache.deep_view();
    let ghost start = chain.deep_view();
    let mut done: usize = 0;
    assert(wanted.skip(0) =~= wanted);
    assert(wanted.len() == cache.len());
    while cache.len() > 0
        invariant
            done + cache.len() == wanted.len(),
            wanted.len() <= usize::MAX,
            cache.deep_view() == wanted.skip(done as int),
            chain.deep_view() == merged_all(start, wanted.take(done as int)),
        decreases cache.len(),
    {
        let ghost rest = cache.deep_view();
        let ghost items = cache@;
        let record = cache.remove(0);
        assert(record@ == rest[0]);
        assert(cache@ == items.remove(0));
        assert forall|i: int| 0 <= i < cache.len() implies cache.deep_view()[i] == wanted.skip(
            done + 1,
        )[i] by {
            assert(cache@[i] == items[i + 1]);
            assert(rest[i + 1] == items[i + 1]@);
        }
        assert(cache.deep_view() =~= wanted.skip(done + 1));
        assert(wanted.take(done + 1).drop_last() =~= wanted.take(done as int));
        assert(wanted.take(done + 1).last() == wanted[done as int]);
        merge_into_chain(&mut chain, record);
        done = done + 1;
    }
    assert(wanted.take(done as int) =~= wanted);
    chain
}

/// Whether sequence numbers never fall along the chain.
pub open spec fn is_ordered(chain: Seq<ChainRecordView>) -> bool {
    forall|i: int, j: int| 0 <= i <= j < chain.len() ==> chain[i].seq <= chain[j].seq
}

/// Whether no action stands twice in the chain.
pub open spec fn has_distinct_actions(chain: Seq<ChainRecordView>) -> bool {
    forall|i: int, j: int| 0 <= i < j < chain.len() ==> chain[i].hash != chain[j].hash
}

/// Merging nothing into a chain gives the chain, record for record.
pub proof fn lemma_merge_nothing(chain: Seq<ChainRecordView>)
    ensures
        merged_all(chain, Seq::empty()) == chain,
{
}

/// Merging a record whose action the chain holds leaves the chain as it is:
/// as long as before, with every record where it was.
pub proof fn lemma_merge_known_action(chain: Seq<ChainRecordView>, record: ChainRecordView)
    requires
        holds_action(chain, record),
    ensures
        merged(chain, record) == chain,
{
}

/// Merging a record whose action the chain lacks makes the chain one
/// longer. The record stands at the insertion point: no record before it
/// has a higher sequence number, and the record behind it, where there is
/// one, has. The records that were there keep their order.
pub proof fn lemma_merge_new_action(chain: Seq<ChainRecordView>, record: ChainRecordView)
    requires
        !holds_action(chain, record),
    ensures
        merged(chain, record).len() == chain.len() + 1,
        0 <= insertion_point(chain, record.seq) <= chain.len(),
        merged(chain, record)[insertion_point(chain, record.seq)] == record,
        forall|i: int|
            0 <= i < insertion_point(chain, record.seq) ==> (#[trigger] merged(chain, record)[i])
                == chain[i] && chain[i].seq <= record.seq,
        forall|i: int|
            insertion_point(chain, record.seq) < i <= chain.len() ==> (#[trigger] merged(
                chain,
                record,
            )[i]) == chain[i - 1],
        insertion_point(chain, record.seq) < chain.len() ==> chain[insertion_point(
            chain,
            record.seq,
        )].seq > record.seq,
{
    lemma_insertion_point(chain, record.seq);
}

/// After a record has been merged, the chain holds its action.
pub proof fn lemma_merged_chain_holds_action(chain: Seq<ChainRecordView>, record: ChainRecordView)
    ensures
        holds_action(merged(chain, record), record),
{
    if !holds_action(chain, record) {
        lemma_insertion_point(chain, record.seq);
        let at = insertion_point(chain, record.seq);
        assert(merged(chain, record)[at].hash == record.hash);
    }
}

/// Merging the same record a second time changes nothing.
pub proof fn lemma_merge_twice(chain: Seq<ChainRecordView>, record: ChainRecordView)
    ensures
        merged(merged(chain, record), record) == merged(chain, record),
{
    lemma_merged_chain_holds_action(chain, record);
}

/// A chain whose sequence numbers never fall stays so when a record is
/// merged into it.
pub proof fn lemma_merge_keeps_order(chain: Seq<ChainRecordView>, record: ChainRecordView)
    requires
        is_ordered(chain),
    ensures
        is_ordered(merged(chain, record)),
{
    if !holds_action(chain, record) {
        lemma_insertion_point(chain, record.seq);
        let at = insertion_point(chain, record.seq);
        let after = merged(chain, record);
        assert forall|i: int, j: int| 0 <= i <= j < after.len() implies after[i].seq
            <= after[j].seq by {
            if at < chain.len() {
                assert(chain[at].seq > record.seq);
            }
            if i < at {
                assert(after[i] == chain[i]);
            } else if i > at {
                assert(after[i] == chain[i - 1]);
                assert(chain[at].seq <= chain[i - 1].seq);
            }
            if j < at {
                assert(after[j] == chain[j]);
            } else if j > at {
                assert(after[j] == chain[j - 1]);
                assert(chain[at].seq <= chain[j - 1].seq);
            }
        }
    }
}

/// A chain in which no action stands twice stays so when a record is merged
/// into it.
pub proof fn lemma_merge_keeps_actions_distinct(
    chain: Seq<ChainRecordView>,
    record: ChainRecordView,
)
    requires
        has_distinct_actions(chain),
    ensures
        has_distinct_actions(merged(chain, record)),
{
    if !holds_action(chain, record) {
        lemma_insertion_point(chain, record.seq);
        let at = insertion_point(chain, record.seq);
        let after = merged(chain, record);
        assert forall|i: int, j: int| 0 <= i < j < after.len() implies after[i].hash
            != after[j].hash by {
            let from_i = if i < at {
                i
            } else {
                i - 1
            };
            let from_j = if j < at {
                j
            } else {
                j - 1
            };
            if i != at {
                assert(after[i] == chain[from_i]);
            }
            if j != at {
                assert(after[j] == chain[from_j]);
            }
        }
    }
}

/// A reconstructed chain is in order and without repeated actions where
/// the chain that it starts from is, whatever is merged into it and in
/// whatever order.
pub proof fn lemma_merge_all_keeps_chain_sound(
    chain: Seq<ChainRecordView>,
    records: Seq<ChainRecordView>,
)
    ensures
        is_ordered(chain) ==> is_ordered(merged_all(chain, records)),
        has_distinct_actions(chain) ==> has_distinct_actions(merged_all(chain, records)),
    decreases records.len(),
{
    if records.len() > 0 {
        lemma_merge_all_keeps_chain_sound(chain, records.drop_last());
        let so_far = merged_all(chain, records.drop_last());
        if is_ordered(chain) {
            lemma_merge_keeps_order(so_far, records.last());
        }
        if has_distinct_actions(chain) {
            lemma_merge_keeps_actions_distinct(so_far, records.last());
        }
    }
}

/// Merging into an empty chain records that are in order and hold no
/// action twice gives those records, in their order.
pub proof fn lemma_merge_into_empty_chain(records: Seq<ChainRecordView>)
    requires
        is_ordered(records),
        has_distinct_actions(records),
    ensures
        merged_all(Seq::empty(), records) == records,
    decreases records.len(),
{
    if records.len() > 0 {
        let shorter = records.drop_last();
        let last = records.last();
        assert forall|i: int, j: int| 0 <= i <= j < shorter.len() implies shorter[i].seq
            <= shorter[j].seq by {
            assert(shorter[i] == records[i] && shorter[j] == records[j]);
        }
        assert forall|i: int, j: int| 0 <= i < j < shorter.len() implies shorter[i].hash
            != shorter[j].hash by {
            assert(shorter[i] == records[i] && shorter[j] == records[j]);
        }
        lemma_merge_into_empty_chain(shorter);
        assert(!holds_action(shorter, last)) by {
            if holds_action(shorter, last) {
                let i = choose|i: int| 0 <= i < shorter.len() && (#[trigger] shorter[i]).hash
                    == last.hash;
                assert(records[i].hash == records[records.len() - 1].hash);
            }
        }
        lemma_insertion_point(shorter, last.seq);
        let at = insertion_point(shorter, last.seq);
        if at < shorter.len() {
            assert(shorter[at] == records[at]);
            assert(records[at].seq <= records[records.len() - 1].seq);
        }
        assert(shorter.insert(at, last) =~= records);
    }
}

/// The hash and the sequence number of the action that a stored signed
/// action holds; `None` where the bytes are no signed action.
pub uninterp spec fn decoded_action(blob: Seq<u8>) -> Option<(Seq<u8>, u32)>;

/// Whether stored bytes are an entry.
pub uninterp spec fn entry_blob_decodes(blob: Seq<u8>) -> bool;

/// The longest stored action that is decoded: longer ones are refused
/// unread, so that every part of a decoded action can be written again.
pub const MAX_ACTION_BLOB_BYTES: usize = 0xFFFF_FFFF;

/// What a stored action that is too long is reported as.
pub const ACTION_TOO_LARGE_MESSAGE: &'static str = "Action blob is too large";

/// Decodes a stored signed action with `decode` of
/// `holochain_serialized_bytes`, hashes the action with
/// `HoloHashed::from_content_sync` of `holo_hash`, and reads its sequence
/// number with `Action::action_seq`. Trusted: the result is the 39 bytes of
/// the action's hash and its sequence number, and an error, in the words of
/// the decoder, exactly where the bytes are no signed action. Hashing writes
/// the action again and panics where that fails, which no action read from
/// fewer than 2^32 bytes can bring about.
#[verifier::external_body]
fn decode_action(blob: &[u8]) -> (decoded: Result<(Vec<u8>, u32), String>)
    requires
        blob@.len() <= 0xFFFF_FFFF,
    ensures
        decoded is Ok <==> decoded_action(blob@) is Some,
        decoded matches Ok(found) ==> (found.0@, found.1) == decoded_action(blob@).unwrap(),
{
    match holochain_serialized_bytes::decode::<_, SignedAction>(blob) {
        Ok(signed) => {
            let seq = signed.data().action_seq();
            let hashed = ActionHashed::from_content_sync(signed.into_data());
            Ok((hashed.hash.get_raw_39().to_vec(), seq))
        },
        Err(e) => Err(e.to_string()),
    }
}

/// Decodes a stored entry with `decode` of `holochain_serialized_bytes`.
/// Trusted: the call succeeds exactly where the bytes are an entry, and
/// else gives the error in the words of the decoder.
#[verifier::external_body]
fn check_entry(blob: &[u8]) -> (checked: Result<(), String>)
    ensures
        checked is Ok <==> entry_blob_decodes(blob@),
{
    match holochain_serialized_bytes::decode::<_, Entry>(blob) {
        Ok(_) => Ok(()),
        Err(e) => Err(e.to_string()),
    }
}

/// What a row of a chain query holds, as far as a record is made of it.
pub struct ChainRowView {
    pub blob: Seq<u8>,
    pub validation_status: ValidationStatus,
    pub entry: Option<Seq<u8>>,
}

/// What can be wrong with a row of a chain query.
pub enum RecordFault {
    /// The stored action is longer than is decoded.
    ActionTooLarge,
    /// The stored action does not decode.
    BadAction,
    /// The hash of the action is no action hash.
    BadHash(HoloHashError),
    /// The stored entry does not decode.
    BadEntry,
}

/// The record that a row makes, or the first thing wrong with the row: the
/// action is decoded first, then its hash is typed, then the entry is
/// decoded where there is one.
pub open spec fn record_decoding(row: ChainRowView) -> Result<ChainRecordView, RecordFault> {
    if row.blob.len() > 0xFFFF_FFFF {
        Err(RecordFault::ActionTooLarge)
    } else {
        match decoded_action(row.blob) {
            None => Err(RecordFault::BadAction),
            Some((hash, seq)) => {
                if hash_decoding(HashType::Action, hash) is Err {
                    Err(RecordFault::BadHash(hash_decoding(HashType::Action, hash)->Err_0))
                } else if row.entry is Some && !entry_blob_decodes(row.entry->0) {
                    Err(RecordFault::BadEntry)
                } else {
                    Ok(
                        ChainRecordView {
                            hash: HoloHashView { hash_type: HashType::Action, bytes: hash },
                            seq,
                            blob: row.blob,
                            validation_status: row.validation_status,
                            entry: row.entry,
                        },
                    )
                }
            },
        }
    }
}

/// Whether `error` is the report of `fault`.
pub open spec fn reports_fault(error: HcOpsError, fault: RecordFault) -> bool {
    match fault {
        RecordFault::ActionTooLarge => error is SerializedBytes && error->SerializedBytes_0@
            == ACTION_TOO_LARGE_MESSAGE@,
        RecordFault::BadAction => error is SerializedBytes,
        RecordFault::BadHash(cause) => error == HcOpsError::HoloHash(cause),
        RecordFault::BadEntry => error is SerializedBytes,
    }
}

/// Whether `made` is what `decoding` owes: the record, or the report of the
/// fault.
pub open spec fn is_record_decoding(
    made: HcOpsResult<ChainRecord>,
    decoding: Result<ChainRecordView, RecordFault>,
) -> bool {
    match decoding {
        Ok(record) => made is Ok && made->Ok_0@ == record,
        Err(fault) => made is Err && reports_fault(made->Err_0, fault),
    }
}

/// The view of optional bytes.
pub open spec fn optional_bytes(bytes: Option<Vec<u8>>) -> Option<Seq<u8>> {
    match bytes {
        Some(held) => Some(held@),
        None => None,
    }
}

impl ChainAction {
    /// Makes a chain entry of its stored form and of what decoding that
    /// form gave: the bytes of its hash and its sequence number. Bytes that
    /// are no action hash are an error.
    pub fn from_identity(hash: Vec<u8>, seq: u32, blob: Vec<u8>) -> (made: HcOpsResult<
        ChainAction,
    >)
        ensures
            match made {
                Ok(action) => {
                    &&& hash_decoding(HashType::Action, hash@) is Ok
                    &&& action.hash@ == (HoloHashView {
                        hash_type: HashType::Action,
                        bytes: hash@,
                    })
                    &&& action.seq == seq
                    &&& action.blob@ == blob@
                },
                Err(error) => {
                    &&& hash_decoding(HashType::Action, hash@) is Err
                    &&& error == HcOpsError::HoloHash(
                        hash_decoding(HashType::Action, hash@)->Err_0,
                    )
                },
            },
    {
        match HoloHash::try_from_raw_39(HashType::Action, hash) {
            Ok(hash) => Ok(ChainAction { hash, seq, blob }),
            Err(cause) => Err(HcOpsError::HoloHash(cause)),
        }
    }
}

impl ChainRecord {
    /// Makes a chain record of a row: a stored action, a validation status
    /// and, where the action has one, its stored entry. An action or an
    /// entry that does not decode fails the row.
    pub fn try_from(row: (DbAction, ValidationStatus, Option<Vec<u8>>)) -> (made: HcOpsResult<
        ChainRecord,
    >)
        ensures
            is_record_decoding(
                made,
                record_decoding(
                    ChainRowView {
                        blob: row.0.blob@,
                        validation_status: row.1,
                        entry: optional_bytes(row.2),
                    },
                ),
            ),
    {
        let (db_action, validation_status, maybe_entry) = row;
        let blob = db_action.blob;
        if blob.len() > MAX_ACTION_BLOB_BYTES {
            return Err(HcOpsError::SerializedBytes(String::from_str(ACTION_TOO_LARGE_MESSAGE)));
        }
        let (hash, seq) = match decode_action(blob.as_slice()) {
            Ok(found) => found,
            Err(cause) => {
                return Err(HcOpsError::SerializedBytes(cause));
            },
        };
        let action = match ChainAction::from_identity(hash, seq, blob) {
            Ok(action) => action,
            Err(error) => {
                return Err(error);
            },
        };
        match &maybe_entry {
            Some(entry) => match check_entry(entry.as_slice()) {
                Ok(()) => {},
                Err(cause) => {
                    return Err(HcOpsError::SerializedBytes(cause));
                },
            },
            None => {},
        }
        Ok(ChainRecord { action, validation_status, entry: maybe_entry })
    }
}

/// The records that rows make, in their order, or the first fault of the
/// first row that has one.
pub open spec fn chain_decoding(rows: Seq<ChainRowView>) -> Result<
    Seq<ChainRecordView>,
    RecordFault,
>
    decreases rows.len(),
{
    if rows.len() == 0 {
        Ok(Seq::empty())
    } else {
        match chain_decoding(rows.drop_last()) {
            Err(fault) => Err(fault),
            Ok(records) => match record_decoding(rows.last()) {
                Ok(record) => Ok(records.push(record)),
                Err(fault) => Err(fault),
            },
        }
    }
}

/// Whether `made` is what `decoding` owes: the records, or the report of
/// the fault.
pub open spec fn is_chain_decoding(
    made: HcOpsResult<Vec<ChainRecord>>,
    decoding: Result<Seq<ChainRecordView>, RecordFault>,
) -> bool {
    match decoding {
        Ok(records) => made is Ok && made->Ok_0.deep_view() == records,
        Err(fault) => made is Err && reports_fault(made->Err_0, fault),
    }
}

/// The rows of a chain query on a shared-ledger store.
pub open spec fn dht_rows(rows: Seq<(DbAction, ValidationStatus, Option<Vec<u8>>)>) -> Seq<
    ChainRowView,
> {
    rows.map_values(
        |row: (DbAction, ValidationStatus, Option<Vec<u8>>)|
            ChainRowView {
                blob: row.0.blob@,
                validation_status: row.1,
                entry: optional_bytes(row.2),
            },
    )
}

/// The rows of a chain query on a cache store. A cache keeps no validation
/// status: what it holds counts as valid.
pub open spec fn cache_rows(rows: Seq<(DbAction, Option<Vec<u8>>)>) -> Seq<ChainRowView> {
    rows.map_values(
        |row: (DbAction, Option<Vec<u8>>)|
            ChainRowView {
                blob: row.0.blob@,
                validation_status: ValidationStatus::Valid,
                entry: optional_bytes(row.1),
            },
    )
}

/// Makes the chain that a shared-ledger store holds of an agent from the
/// rows of its query: the agent's actions in integrated operations, by
/// rising sequence number, each with its validation status and its entry.
/// One row that does not decode fails the whole chain.
pub fn get_dht_agent_chain(rows: Vec<(DbAction, ValidationStatus, Option<Vec<u8>>)>) -> (chain:
    HcOpsResult<Vec<ChainRecord>>)
    ensures
        is_chain_decoding(chain, chain_decoding(dht_rows(rows@))),
{
    let ghost wanted = dht_rows(rows@);
    let mut left = rows;
    let mut chain: Vec<ChainRecord> = Vec::new();
    let mut done: usize = 0;
    assert(wanted.take(0) =~= Seq::empty());
    assert(chain.deep_view() =~= Seq::empty());
    assert(wanted.len() == left.len());
    assert(wanted.skip(0) =~= wanted);
    while left.len() > 0
        invariant
            done + left.len() == wanted.len(),
            wanted.len() <= usize::MAX,
            wanted == dht_rows(rows@),
            dht_rows(left@) == wanted.skip(done as int),
            chain_decoding(wanted.take(done as int)) == Ok::<Seq<ChainRecordView>, RecordFault>(
                chain.deep_view(),
            ),
        decreases left.len(),
    {
        let ghost rest = left@;
        let ghost so_far = chain.deep_view();
        let row = left.remove(0);
        assert(left@ == rest.remove(0));
        assert forall|i: int| 0 <= i < left@.len() implies dht_rows(left@)[i] == wanted.skip(
            done + 1,
        )[i] by {
            assert(left@[i] == rest[i + 1]);
            assert(dht_rows(rest)[i + 1] == wanted.skip(done as int)[i + 1]);
        }
        assert(dht_rows(left@) =~= wanted.skip(done + 1));
        assert(wanted.take(done + 1).drop_last() =~= wanted.take(done as int));
        assert(wanted.take(done + 1).last() == dht_rows(rest)[0]);
        match ChainRecord::try_from(row) {
            Ok(record) => {
                chain.push(record);
                assert(chain.deep_view() =~= so_far.push(record@));
            },
            Err(error) => {
                proof {
                    lemma_fault_fails_chain(wanted, done + 1);
                }
                return Err(error);
            },
        }
        done = done + 1;
    }
    assert(wanted.take(done as int) =~= wanted);
    Ok(chain)
}

/// Makes the chain that a cache store holds of an agent from the rows of
/// its query: the agent's actions by rising sequence number, each with its
/// entry. Every record counts as valid. One row that does not decode fails
/// the whole chain.
pub fn get_cache_agent_chain(rows: Vec<(DbAction, Option<Vec<u8>>)>) -> (chain: HcOpsResult<
    Vec<ChainRecord>,
>)
    ensures
        is_chain_decoding(chain, chain_decoding(cache_rows(rows@))),
{
    let ghost wanted = cache_rows(rows@);
    let mut left = rows;
    let mut chain: Vec<ChainRecord> = Vec::new();
    let mut done: usize = 0;
    assert(wanted.take(0) =~= Seq::empty());
    assert(chain.deep_view() =~= Seq::empty());
    assert(wanted.len() == left.len());
    assert(wanted.skip(0) =~= wanted);
    while left.len() > 0
        invariant
            done + left.len() == wanted.len(),
            wanted.len() <= usize::MAX,
            wanted == cache_rows(rows@),
            cache_rows(left@) == wanted.skip(done as int),
            chain_decoding(wanted.take(done as int)) == Ok::<Seq<ChainRecordView>, RecordFault>(
                chain.deep_view(),
            ),
        decreases left.len(),
    {
        let ghost rest = left@;
        let ghost so_far = chain.deep_view();
        let row = left.remove(0);
        assert(left@ == rest.remove(0));
        assert forall|i: int| 0 <= i < left@.len() implies cache_rows(left@)[i] == wanted.skip(
            done + 1,
        )[i] by {
            assert(left@[i] == rest[i + 1]);
            assert(cache_rows(rest)[i + 1] == wanted.skip(done as int)[i + 1]);
        }
        assert(cache_rows(left@) =~= wanted.skip(done + 1));
        assert(wanted.take(done + 1).drop_last() =~= wanted.take(done as int));
        assert(wanted.take(done + 1).last() == cache_rows(rest)[0]);
        match ChainRecord::try_from((row.0, ValidationStatus::Valid, row.1)) {
            Ok(record) => {
                chain.push(record);
                assert(chain.deep_view() =~= so_far.push(record@));
            },
            Err(error) => {
                proof {
                    lemma_fault_fails_chain(wanted, done + 1);
                }
                return Err(error);
            },
        }
        done = done + 1;
    }
    assert(wanted.take(done as int) =~= wanted);
    Ok(chain)
}

/// A fault among the first rows is the fault of all the rows.
proof fn lemma_fault_fails_chain(rows: Seq<ChainRowView>, count: int)
    requires
        0 <= count <= rows.len(),
        chain_decoding(rows.take(count)) is Err,
    ensures
        chain_decoding(rows) == chain_decoding(rows.take(count)),
    decreases rows.len() - count,
{
    if count < rows.len() {
        assert(rows.take(count + 1).drop_last() =~= rows.take(count));
        lemma_fault_fails_chain(rows, count + 1);
    } else {
        assert(rows.take(count) =~= rows);
    }
}

/// The chain that two stores hold of an agent, or the first fault met
/// while reading them: the shared ledger is read first, then the cache.
pub open spec fn agent_chain(
    dht: Result<Seq<ChainRecordView>, RecordFault>,
    cache: Result<Seq<ChainRecordView>, RecordFault>,
) -> Result<Seq<ChainRecordView>, RecordFault> {
    match dht {
        Err(fault) => Err(fault),
        Ok(base) => match cache {
            Err(fault) => Err(fault),
            Ok(seen) => Ok(merged_all(base, seen)),
        },
    }
}

/// Puts the chain of an agent together from the rows that the queries on
/// the shared-ledger store and on the cache store gave: the chain of the
/// shared ledger, with each record of the cache merged into it in the order
/// of the cache.
pub fn get_agent_chain(
    dht_rows: Vec<(DbAction, ValidationStatus, Option<Vec<u8>>)>,
    cache_rows: Vec<(DbAction, Option<Vec<u8>>)>,
) -> (chain: HcOpsResult<Vec<ChainRecord>>)
    ensures
        is_chain_decoding(
            chain,
            agent_chain(
                chain_decoding(self::dht_rows(dht_rows@)),
                chain_decoding(self::cache_rows(cache_rows@)),
            ),
        ),
{
    let base = match get_dht_agent_chain(dht_rows) {
        Ok(base) => base,
        Err(error) => {
            return Err(error);
        },
    };
    let seen = match get_cache_agent_chain(cache_rows) {
        Ok(seen) => seen,
        Err(error) => {
            return Err(error);
        },
    };
    Ok(merge_chains(base, seen))
}

} // verus!
