//! Reading a node's stores: where they lie, their typed rows, their key, and
//! the chain of one agent put together from two stores.

pub mod chain;
pub mod crypt;
pub mod model;

use crate::error::{HcOpsError, HcOpsResult};
use crate::hash::{
    hash_decoding, holo_hash_encoded, HashType, HoloHash, HoloHashError, HoloHashView,
};
use crate::retrieve::chain::{
    record_decoding, reports_fault, ChainAction, ChainRecord, ChainRowView, optional_bytes,
};
use crate::retrieve::model::{
    bytes_equal, dht_meta_of, holds_common_columns, reports, row_fault, DbAction, DbDhtOp,
    DhtMeta, DhtOp, ValidationStatus,
};
use crate::retrieve::crypt::{is_key_loading, locked_bytes, Key};
use sodoken::LockedArray;
use vstd::prelude::*;
use vstd::slice::slice_to_vec;

verus! {

/// The kinds of store that a node keeps for each shard.
#[derive(Debug)]
pub enum DbKind {
    /// What the agent with this key authored.
    Authored(HoloHash),
    /// The shared ledger.
    Dht,
    /// What was seen from peers.
    Cache,
}

/// Where the key blob lies below the root of a node's data.
pub const KEY_FILE_PATH: &'static str = "databases/db.key";

/// The store kind as a mathematical value.
pub enum DbKindView {
    Authored(HoloHashView),
    Dht,
    Cache,
}

impl View for DbKind {
    type V = DbKindView;

    open spec fn view(&self) -> DbKindView {
        match self {
            DbKind::Authored(agent) => DbKindView::Authored(agent@),
            DbKind::Dht => DbKindView::Dht,
            DbKind::Cache => DbKindView::Cache,
        }
    }
}

/// Where the store of a kind lies, for the shard with hash `dna`, below the
/// root of a node's data: `databases/authored/<shard>-<agent>`,
/// `databases/dht/<shard>` or `databases/cache/<shard>`, with hashes in
/// their text form.
pub open spec fn database_path_text(kind: DbKindView, dna: HoloHashView) -> Seq<char> {
    match kind {
        DbKindView::Authored(agent) => "databases/authored/"@ + holo_hash_encoded(dna.bytes)
            + "-"@ + holo_hash_encoded(agent.bytes),
        DbKindView::Dht => "databases/dht/"@ + holo_hash_encoded(dna.bytes),
        DbKindView::Cache => "databases/cache/"@ + holo_hash_encoded(dna.bytes),
    }
}

/// The path of a store below the root of a node's data.
pub fn database_path(kind: &DbKind, dna_hash: &HoloHash) -> (path: String)
    ensures
        path@ == database_path_text(kind@, dna_hash@),
{
    let shard = dna_hash.to_text();
    match kind {
        DbKind::Authored(agent_pub_key) => {
            let mut path = String::from_str("databases/authored/");
            path.append(shard.as_str());
            path.append("-");
            let agent = agent_pub_key.to_text();
            path.append(agent.as_str());
            path
        },
        DbKind::Dht => String::from_str("databases/dht/").concat(shard.as_str()),
        DbKind::Cache => String::from_str("databases/cache/").concat(shard.as_str()),
    }
}

/// Unlocks the key of a node's stores. `key_file` is what the key file
/// holds, or `None` where there is no such file: the stores are then not
/// encrypted, and there is no key.
pub fn load_database_key(key_file: Option<&str>, passphrase: LockedArray) -> (loaded: HcOpsResult<
    Option<Key>,
>)
    ensures
        match key_file {
            None => loaded matches Ok(None),
            Some(encoded) => match loaded {
                Ok(Some(key)) => is_key_loading(Ok(key), encoded@, locked_bytes(passphrase)),
                Ok(None) => false,
                Err(error) => is_key_loading(Err(error), encoded@, locked_bytes(passphrase)),
            },
        },
{
    match key_file {
        Some(encoded) => match Key::load(encoded, passphrase) {
            Ok(key) => Ok(Some(key)),
            Err(error) => Err(error),
        },
        None => Ok(None),
    }
}

/// `seen` with each of `keys` that it does not hold yet put behind it, in
/// the order of `keys`.
pub open spec fn with_new_keys(seen: Seq<Seq<u8>>, keys: Seq<Seq<u8>>) -> Seq<Seq<u8>>
    decreases keys.len(),
{
    if keys.len() == 0 {
        seen
    } else {
        let before = with_new_keys(seen, keys.drop_last());
        if before.contains(keys.last()) {
            before
        } else {
            before.push(keys.last())
        }
    }
}

/// Whether no key stands twice in `keys`.
pub open spec fn are_distinct(keys: Seq<Seq<u8>>) -> bool {
    forall|i: int, j: int| 0 <= i < j < keys.len() ==> keys[i] != keys[j]
}

/// Putting new keys behind keys that are distinct gives keys that are
/// distinct and that hold each of the keys put.
pub proof fn lemma_with_new_keys(seen: Seq<Seq<u8>>, keys: Seq<Seq<u8>>)
    ensures
        are_distinct(seen) ==> are_distinct(with_new_keys(seen, keys)),
        forall|i: int| 0 <= i < seen.len() ==> with_new_keys(seen, keys).contains(#[trigger] seen[i]),
        forall|i: int| 0 <= i < keys.len() ==> with_new_keys(seen, keys).contains(#[trigger] keys[i]),
    decreases keys.len(),
{
    let all = with_new_keys(seen, keys);
    if keys.len() == 0 {
        assert forall|i: int| 0 <= i < seen.len() implies all.contains(#[trigger] seen[i]) by {
            assert(all[i] == seen[i]);
        }
    } else {
        let shorter = keys.drop_last();
        let before = with_new_keys(seen, shorter);
        lemma_with_new_keys(seen, shorter);
        assert forall|k: Seq<u8>| before.contains(k) implies all.contains(k) by {
            let at = choose|at: int| 0 <= at < before.len() && before[at] == k;
            assert(all[at] == k);
        }
        assert forall|i: int| 0 <= i < keys.len() implies all.contains(#[trigger] keys[i]) by {
            if i < shorter.len() {
                assert(shorter[i] == keys[i]);
                assert(before.contains(shorter[i]));
            } else if !before.contains(keys.last()) {
                assert(all[before.len() as int] == keys[i]);
            }
        }
        assert forall|i: int| 0 <= i < seen.len() implies all.contains(#[trigger] seen[i]) by {
            assert(before.contains(seen[i]));
        }
        if are_distinct(seen) && !before.contains(keys.last()) {
            assert forall|i: int, j: int| 0 <= i < j < all.len() implies all[i] != all[j] by {
                if j == before.len() {
                    assert(before[i] == all[i]);
                    assert(before.contains(all[i]));
                } else {
                    assert(before[i] == all[i] && before[j] == all[j]);
                }
            }
        }
    }
}

/// The agent keys that `keys` decode to, in their order, or the fault of
/// the first that is no agent key.
pub open spec fn agents_decoding(keys: Seq<Seq<u8>>) -> Result<Seq<HoloHashView>, HoloHashError>
    decreases keys.len(),
{
    if keys.len() == 0 {
        Ok(Seq::empty())
    } else {
        match agents_decoding(keys.drop_last()) {
            Err(fault) => Err(fault),
            Ok(agents) => match hash_decoding(HashType::Agent, keys.last()) {
                Ok(_) => Ok(
                    agents.push(HoloHashView { hash_type: HashType::Agent, bytes: keys.last() }),
                ),
                Err(fault) => Err(fault),
            },
        }
    }
}

/// A fault among the first keys is the fault of all the keys.
proof fn lemma_fault_fails_agents(keys: Seq<Seq<u8>>, count: int)
    requires
        0 <= count <= keys.len(),
        agents_decoding(keys.take(count)) is Err,
    ensures
        agents_decoding(keys) == agents_decoding(keys.take(count)),
    decreases keys.len() - count,
{
    if count < keys.len() {
        assert(keys.take(count + 1).drop_last() =~= keys.take(count));
        lemma_fault_fails_agents(keys, count + 1);
    } else {
        assert(keys.take(count) =~= keys);
    }
}

fn holds_key(seen: &Vec<Vec<u8>>, key: &Vec<u8>) -> (held: bool)
    ensures
        held == seen.deep_view().contains(key@),
{
    let mut index: usize = 0;
    while index < seen.len()
        invariant
            index <= seen.len(),
            forall|i: int| 0 <= i < index ==> seen.deep_view()[i] != key@,
        decreases seen.len() - index,
    {
        assert(seen.deep_view()[index as int] =~= seen[index as int]@);
        assert(key.deep_view() =~= key@);
        if bytes_equal(&seen[index], key) {
            return true;
        }
        index = index + 1;
    }
    false
}

fn push_new_keys(seen: &mut Vec<Vec<u8>>, keys: &Vec<Vec<u8>>)
    ensures
        final(seen).deep_view() == with_new_keys(old(seen).deep_view(), keys.deep_view()),
{
    let ghost start = seen.deep_view();
    let ghost wanted = keys.deep_view();
    let mut index: usize = 0;
    assert(wanted.take(0) =~= Seq::empty());
    while index < keys.len()
        invariant
            index <= keys.len(),
            wanted == keys.deep_view(),
            seen.deep_view() == with_new_keys(start, wanted.take(index as int)),
        decreases keys.len() - index,
    {
        let ghost before = seen.deep_view();
        assert(wanted.take(index + 1).drop_last() =~= wanted.take(index as int));
        assert(wanted.take(index + 1).last() =~= keys[index as int]@);
        if !holds_key(seen, &keys[index]) {
            let copy = slice_to_vec(keys[index].as_slice());
            assert(copy.deep_view() =~= keys[index as int]@);
            seen.push(copy);
            assert(seen.deep_view() =~= before.push(keys[index as int]@));
        }
        index = index + 1;
    }
    assert(wanted.take(index as int) =~= wanted);
}

/// The agents that two stores know of, from the authors that their queries
/// for agent validation markers gave: those of the shared ledger, then
/// those of the cache, each agent once. A key that is no agent key fails
/// the listing.
pub fn list_discovered_agents(dht_keys: Vec<Vec<u8>>, cache_keys: Vec<Vec<u8>>) -> (agents:
    HcOpsResult<Vec<HoloHash>>)
    ensures
        match agents_decoding(
            with_new_keys(
                with_new_keys(Seq::empty(), dht_keys.deep_view()),
                cache_keys.deep_view(),
            ),
        ) {
            Ok(found) => agents is Ok && agents->Ok_0.deep_view() == found,
            Err(fault) => agents is Err && agents->Err_0 == HcOpsError::HoloHash(fault),
        },
{
    let mut keys: Vec<Vec<u8>> = Vec::new();
    assert(keys.deep_view() =~= Seq::empty());
    push_new_keys(&mut keys, &dht_keys);
    push_new_keys(&mut keys, &cache_keys);
    let ghost wanted = keys.deep_view();
    let mut agents: Vec<HoloHash> = Vec::new();
    let mut index: usize = 0;
    assert(wanted.take(0) =~= Seq::empty());
    assert(agents.deep_view() =~= Seq::empty());
    while index < keys.len()
        invariant
            index <= keys.len(),
            wanted == keys.deep_view(),
            wanted == with_new_keys(
                with_new_keys(Seq::empty(), dht_keys.deep_view()),
                cache_keys.deep_view(),
            ),
            agents_decoding(wanted.take(index as int)) == Ok::<Seq<HoloHashView>, HoloHashError>(
                agents.deep_view(),
            ),
        decreases keys.len() - index,
    {
        let ghost so_far = agents.deep_view();
        assert(wanted.take(index + 1).drop_last() =~= wanted.take(index as int));
        assert(wanted.take(index + 1).last() =~= keys[index as int]@);
        match HoloHash::try_from_raw_39(HashType::Agent, slice_to_vec(keys[index].as_slice())) {
            Ok(agent) => {
                agents.push(agent);
                assert(agents.deep_view() =~= so_far.push(agent@));
            },
            Err(fault) => {
                proof {
                    lemma_fault_fails_agents(wanted, index + 1);
                }
                return Err(HcOpsError::HoloHash(fault));
            },
        }
        index = index + 1;
    }
    assert(wanted.take(index as int) =~= wanted);
    Ok(agents)
}

/// An operation of the shared ledger together with the action that it
/// came from and, where the action has one, its stored entry.
#[derive(Debug)]
pub struct Record {
    pub dht_op: DhtOp<DhtMeta>,
    pub action: ChainAction,
    pub entry: Option<Vec<u8>>,
}

/// The row of a chain query that the action and the entry of a joined row
/// make.
pub open spec fn joined_chain_row(action: DbAction, entry: Option<Vec<u8>>) -> ChainRowView {
    ChainRowView {
        blob: action.blob@,
        validation_status: ValidationStatus::Valid,
        entry: optional_bytes(entry),
    }
}

impl Record {
    /// Makes a record of a row that joins an operation with its action and
    /// the entry of that action. The operation is typed first, then the
    /// action is decoded, then the entry; the first fault fails the row.
    pub fn try_from(row: (DbDhtOp, DbAction, Option<Vec<u8>>)) -> (made: HcOpsResult<Record>)
        ensures
            match made {
                Ok(record) => {
                    &&& row_fault(row.0) is None
                    &&& holds_common_columns(record.dht_op, row.0)
                    &&& record.dht_op.meta == dht_meta_of(row.0)
                    &&& record_decoding(joined_chain_row(row.1, row.2)) matches Ok(decoded)
                    &&& record.action.hash@ == decoded.hash
                    &&& record.action.seq == decoded.seq
                    &&& record.action.blob@ == decoded.blob
                    &&& optional_bytes(record.entry) == decoded.entry
                },
                Err(error) => {
                    if row_fault(row.0) is Some {
                        reports(error, row_fault(row.0)->0)
                    } else {
                        &&& record_decoding(joined_chain_row(row.1, row.2)) is Err
                        &&& reports_fault(
                            error,
                            record_decoding(joined_chain_row(row.1, row.2))->Err_0,
                        )
                    }
                },
            },
    {
        let (db_op, db_action, maybe_entry) = row;
        let dht_op = match DhtOp::<DhtMeta>::try_from(db_op) {
            Ok(dht_op) => dht_op,
            Err(error) => {
                return Err(error);
            },
        };
        match ChainRecord::try_from((db_action, ValidationStatus::Valid, maybe_entry)) {
            Ok(record) => Ok(Record { dht_op, action: record.action, entry: record.entry }),
            Err(error) => Err(error),
        }
    }
}

} // verus!
