//! The rows of the tables that results are shown in.

use crate::hash::{hash_type_name, holo_hash_encoded, is_hash_of_type, HashType, HoloHash};
use vstd::prelude::*;

verus! {

/// A tag that names the address of a node.
#[derive(Debug)]
pub struct ConductorTag {
    pub tag: String,
    pub address: String,
    pub port: i32,
}

/// A tag that names an agent.
#[derive(Debug)]
pub struct AgentTag {
    /// The 39 bytes of the agent's key.
    pub agent: Vec<u8>,
    pub tag: String,
}

/// One row of the table of storage use: sizes in words, per shard.
#[derive(Debug)]
pub struct StorageInfoBlob {
    pub referenced_by_apps: String,
    pub dna: String,
    pub authored: String,
    pub authored_on_disk: String,
    pub dht: String,
    pub dht_on_disk: String,
    pub cache: String,
    pub cache_on_disk: String,
}

/// One row of the table of agent tags.
#[derive(Debug)]
pub struct AgentTagTable {
    /// The agent's key as it is shown: `AgentPubKey(` and its text form
    /// in brackets.
    pub agent: String,
    pub tag: String,
}

/// One row of the table of node tags.
#[derive(Debug)]
pub struct ConductorTagTable {
    pub tag: String,
    pub address: String,
    pub port: i32,
}

impl AgentTagTable {
    /// The row that shows a tag. The tag must hold an agent key.
    pub fn from(tag: AgentTag) -> (row: AgentTagTable)
        requires
            is_hash_of_type(HashType::Agent, tag.agent@),
        ensures
            row.agent@ == hash_type_name(HashType::Agent) + "("@ + holo_hash_encoded(tag.agent@)
                + ")"@,
            row.tag == tag.tag,
    {
        let AgentTag { agent, tag } = tag;
        match HoloHash::try_from_raw_39(HashType::Agent, agent) {
            Ok(key) => AgentTagTable { agent: key.to_debug_text(), tag },
            Err(_) => vstd::pervasive::unreached(),
        }
    }
}

impl From<ConductorTag> for ConductorTagTable {
    fn from(tag: ConductorTag) -> (row: ConductorTagTable) {
        ConductorTagTable { tag: tag.tag, address: tag.address, port: tag.port }
    }
}

impl vstd::std_specs::convert::FromSpecImpl<ConductorTag> for ConductorTagTable {
    open spec fn obeys_from_spec() -> bool {
        true
    }

    open spec fn from_spec(tag: ConductorTag) -> ConductorTagTable {
        ConductorTagTable { tag: tag.tag, address: tag.address, port: tag.port }
    }
}

} // verus!
