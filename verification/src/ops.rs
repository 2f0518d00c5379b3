//! Decisions about a running node, made on what its admin interface
//! reported.

use crate::error::{HcOpsError, HcOpsResult};
use vstd::prelude::*;

verus! {

/// The type of the action that marks a cell as initialised.
pub const INIT_COMPLETE_TYPE: &'static str = "InitZomesComplete";

/// What a state dump without records is reported as.
pub const NO_RECORDS_MESSAGE: &'static str = "No records found in dump";

/// Whether one of the action types is that of the marker of initialisation.
/// A record whose action has no readable type has `None` in its place.
pub open spec fn shows_initialized(action_types: Seq<Option<String>>) -> bool {
    exists|i: int|
        0 <= i < action_types.len() && (#[trigger] action_types[i]) is Some
            && action_types[i]->0@ == INIT_COMPLETE_TYPE@
}

/// Whether a cell has been initialised, judged by the state dump of its
/// source chain. `action_types` holds the type of the action of each record
/// in the dump, or is `None` where the dump has no list of records, which is
/// an error.
pub fn is_cell_initialized(action_types: Option<Vec<Option<String>>>) -> (initialized:
    HcOpsResult<bool>)
    ensures
        match action_types {
            Some(types) => initialized == Ok::<bool, HcOpsError>(shows_initialized(types@)),
            None => initialized is Err && initialized->Err_0 is Other
                && initialized->Err_0->Other_0@ == NO_RECORDS_MESSAGE@,
        },
{
    match action_types {
        Some(types) => {
            let mut index: usize = 0;
            let marker = String::from_str(INIT_COMPLETE_TYPE);
            while index < types.len()
                invariant
                    index <= types.len(),
                    action_types == Some(types),
                    marker@ == INIT_COMPLETE_TYPE@,
                    forall|i: int|
                        0 <= i < index ==> !((#[trigger] types@[i]) is Some && types@[i]->0@
                            == INIT_COMPLETE_TYPE@),
                decreases types.len() - index,
            {
                match &types[index] {
                    Some(found) => {
                        if *found == marker {
                            assert(types@[index as int] is Some && types@[index as int]->0@
                                == INIT_COMPLETE_TYPE@);
                            return Ok(true);
                        }
                    },
                    None => {},
                }
                index = index + 1;
            }
            Ok(false)
        },
        None => Err(HcOpsError::Other(String::from_str(NO_RECORDS_MESSAGE))),
    }
}

/// An app interface of a node, as far as choosing one needs it.
#[derive(Debug)]
pub struct AppInterface {
    pub port: u16,
    /// The app that the interface is kept for, where it is kept for one.
    pub installed_app_id: Option<String>,
    /// Whether the interface admits the origin that will be used.
    pub origin_allowed: bool,
}

/// Whether an interface can serve the app `app_id`: it is kept for no other
/// app, and it admits the origin.
pub open spec fn can_serve(interface: AppInterface, app_id: Seq<char>) -> bool {
    &&& interface.installed_app_id matches Some(kept_for) ==> kept_for@ == app_id
    &&& interface.origin_allowed
}

/// The port of the first interface that can serve `app_id`, or `None` where
/// none can, and an interface is to be attached.
pub fn select_app_interface(interfaces: &Vec<AppInterface>, app_id: &str) -> (port: Option<u16>)
    ensures
        match port {
            Some(found) => exists|i: int|
                0 <= i < interfaces.len() && can_serve(#[trigger] interfaces@[i], app_id@)
                    && interfaces@[i].port == found && forall|j: int|
                    0 <= j < i ==> !can_serve(#[trigger] interfaces@[j], app_id@),
            None => forall|i: int|
                0 <= i < interfaces.len() ==> !can_serve(#[trigger] interfaces@[i], app_id@),
        },
{
    let wanted = String::from_str(app_id);
    let mut index: usize = 0;
    while index < interfaces.len()
        invariant
            index <= interfaces.len(),
            wanted@ == app_id@,
            forall|i: int| 0 <= i < index ==> !can_serve(#[trigger] interfaces@[i], app_id@),
        decreases interfaces.len() - index,
    {
        let interface = &interfaces[index];
        let kept_for_other = match &interface.installed_app_id {
            Some(kept_for) => *kept_for != wanted,
            None => false,
        };
        if !kept_for_other && interface.origin_allowed {
            return Some(interface.port);
        }
        index = index + 1;
    }
    None
}

} // verus!
