//! The readable form of an entry: an agent's key, an app entry, or a
//! capability claim or grant, whose secrets are not shown.

use crate::error::{error_chain, HcOpsError, HcOpsResult, HcOpsResultContextExt};
use crate::readable::json::{
    field_value, fields_view, find_field, has_field, lemma_field_position, lemma_json_view,
    lemma_take_and_put, put_field_at, set_field_at, take_field_at, with_field, Json, JsonView,
};
use crate::readable::rules::{
    field_is_text, has_text, replace_if_present, replaced_if_present, FieldsView,
};
use crate::readable::{is_reading, transformed, Transform};
use vstd::prelude::*;

verus! {

/// What stands in the place of a secret.
pub const HIDDEN_SECRET: &'static str = "...";

/// What a failure to read an app entry is said to have come up in.
pub const APP_ENTRY_CONTEXT: &'static str = "Could not convert app entry from msgpack";

/// The fields with the value of the field `secret` hidden, where there is
/// such a field.
pub open spec fn hidden_secret(fields: FieldsView) -> FieldsView {
    if has_field(fields, "secret"@) {
        with_field(fields, "secret"@, JsonView::Text(HIDDEN_SECRET@))
    } else {
        fields
    }
}

/// The readable form of a capability claim: the key of the grantor as
/// text, and the secret hidden.
pub open spec fn claim_reading(claim: JsonView) -> Result<JsonView, Seq<Seq<char>>> {
    match claim {
        JsonView::Object(fields) => match replaced_if_present(
            fields,
            "grantor"@,
            Transform::AgentPubKey,
        ) {
            Err(causes) => Err(causes),
            Ok(named) => Ok(JsonView::Object(hidden_secret(named))),
        },
        _ => Ok(claim),
    }
}

/// The texts of a list of agent keys, or the failure of the first that is
/// none.
pub open spec fn agents_reading(keys: Seq<JsonView>) -> Result<Seq<JsonView>, Seq<Seq<char>>>
    decreases keys.len(),
{
    if keys.len() == 0 {
        Ok(Seq::empty())
    } else {
        match agents_reading(keys.drop_last()) {
            Err(causes) => Err(causes),
            Ok(texts) => match transformed(Transform::AgentPubKey, keys.last()) {
                Err(causes) => Err(causes),
                Ok(text) => Ok(texts.push(text)),
            },
        }
    }
}

/// The readable form of those to whom a capability is assigned: where it
/// is a list, the texts of their keys.
pub open spec fn assignees_reading(assignees: JsonView) -> Result<JsonView, Seq<Seq<char>>> {
    match assignees {
        JsonView::Array(keys) => match agents_reading(keys) {
            Err(causes) => Err(causes),
            Ok(texts) => Ok(JsonView::Array(texts)),
        },
        _ => Ok(assignees),
    }
}

/// The readable form of an assigned capability: the secret hidden, and the
/// keys of the assignees as texts.
pub open spec fn assigned_reading(assigned: JsonView) -> Result<JsonView, Seq<Seq<char>>> {
    match assigned {
        JsonView::Object(fields) => match field_value(hidden_secret(fields), "assignees"@) {
            None => Ok(JsonView::Object(hidden_secret(fields))),
            Some(assignees) => match assignees_reading(assignees) {
                Err(causes) => Err(causes),
                Ok(texts) => Ok(
                    JsonView::Object(with_field(hidden_secret(fields), "assignees"@, texts)),
                ),
            },
        },
        _ => Ok(assigned),
    }
}

/// The readable form of a transferable capability: the secret hidden.
pub open spec fn transferable_reading(transferable: JsonView) -> JsonView {
    match transferable {
        JsonView::Object(fields) => JsonView::Object(hidden_secret(fields)),
        _ => transferable,
    }
}

/// The readable form of the access that a grant gives.
pub open spec fn access_reading(access: JsonView) -> Result<JsonView, Seq<Seq<char>>> {
    match access {
        JsonView::Object(fields) => {
            if has_field(fields, "Assigned"@) {
                match assigned_reading(field_value(fields, "Assigned"@)->0) {
                    Err(causes) => Err(causes),
                    Ok(assigned) => Ok(JsonView::Object(with_field(fields, "Assigned"@, assigned))),
                }
            } else if has_field(fields, "Transferable"@) {
                Ok(
                    JsonView::Object(
                        with_field(
                            fields,
                            "Transferable"@,
                            transferable_reading(field_value(fields, "Transferable"@)->0),
                        ),
                    ),
                )
            } else {
                Ok(access)
            }
        },
        _ => Ok(access),
    }
}

/// The readable form of a capability grant: that of its access.
pub open spec fn grant_reading(grant: JsonView) -> Result<JsonView, Seq<Seq<char>>> {
    match grant {
        JsonView::Object(fields) => match field_value(fields, "access"@) {
            None => Ok(grant),
            Some(access) => match access_reading(access) {
                Err(causes) => Err(causes),
                Ok(readable) => Ok(JsonView::Object(with_field(fields, "access"@, readable))),
            },
        },
        _ => Ok(grant),
    }
}

/// The readable form of what an entry holds, by the type of the entry.
pub open spec fn held_reading(fields: FieldsView, held: JsonView) -> Result<
    JsonView,
    Seq<Seq<char>>,
> {
    if field_is_text(fields, "entry_type"@, "Agent"@) {
        transformed(Transform::AgentPubKey, held)
    } else if field_is_text(fields, "entry_type"@, "App"@) {
        match transformed(Transform::MsgpackBlob, held) {
            Err(causes) => Err(seq![APP_ENTRY_CONTEXT@] + causes),
            Ok(value) => Ok(value),
        }
    } else if field_is_text(fields, "entry_type"@, "CapClaim"@) {
        claim_reading(held)
    } else if field_is_text(fields, "entry_type"@, "CapGrant"@) {
        grant_reading(held)
    } else {
        Ok(held)
    }
}

/// The readable form of an entry: where it is an object with the fields
/// `entry` and `entry_type`, what it holds is put in readable form by its
/// type; any other value stays as it is.
pub open spec fn entry_reading(entry: JsonView) -> Result<JsonView, Seq<Seq<char>>> {
    match entry {
        JsonView::Object(fields) => {
            if has_field(fields, "entry"@) && has_field(fields, "entry_type"@) {
                match held_reading(fields, field_value(fields, "entry"@)->0) {
                    Err(causes) => Err(causes),
                    Ok(readable) => Ok(JsonView::Object(with_field(fields, "entry"@, readable))),
                }
            } else {
                Ok(entry)
            }
        },
        _ => Ok(entry),
    }
}

fn hide_secret(fields: &mut Vec<(String, Json)>)
    ensures
        fields_view(final(fields)@) == hidden_secret(fields_view(old(fields)@)),
{
    match find_field(fields, "secret") {
        Some(index) => {
            proof {
                lemma_field_position(fields_view(fields@), "secret"@, index as int);
            }
            set_field_at(fields, index, Json::Text(String::from_str(HIDDEN_SECRET)));
        },
        None => {},
    }
}

fn claim_readable(claim: Json) -> (made: HcOpsResult<Json>)
    ensures
        is_reading(made, claim_reading(claim@)),
{
    proof {
        lemma_json_view(claim);
    }
    match claim {
        Json::Object(fields) => {
            let mut fields = fields;
            match replace_if_present(&mut fields, "grantor", Transform::AgentPubKey) {
                Ok(()) => {},
                Err(error) => {
                    return Err(error);
                },
            }
            hide_secret(&mut fields);
            let made = Json::Object(fields);
            proof {
                lemma_json_view(made);
            }
            Ok(made)
        },
        other => Ok(other),
    }
}

/// A failure among the first keys is the failure of all the keys.
proof fn lemma_failure_ends_agents(keys: Seq<JsonView>, count: int)
    requires
        0 <= count <= keys.len(),
        agents_reading(keys.take(count)) is Err,
    ensures
        agents_reading(keys) == agents_reading(keys.take(count)),
    decreases keys.len() - count,
{
    if count < keys.len() {
        assert(keys.take(count + 1).drop_last() =~= keys.take(count));
        lemma_failure_ends_agents(keys, count + 1);
    } else {
        assert(keys.take(count) =~= keys);
    }
}

fn assignees_readable(assignees: Json) -> (made: HcOpsResult<Json>)
    ensures
        is_reading(made, assignees_reading(assignees@)),
{
    proof {
        lemma_json_view(assignees);
    }
    match assignees {
        Json::Array(keys) => {
            let ghost all = keys.deep_view();
            let mut texts: Vec<Json> = Vec::new();
            let mut index: usize = 0;
            assert(all.take(0) =~= Seq::empty());
            assert(texts.deep_view() =~= Seq::empty());
            while index < keys.len()
                invariant
                    index <= keys.len(),
                    all == keys.deep_view(),
                    assignees@ == JsonView::Array(all),
                    agents_reading(all.take(index as int)) == Ok::<
                        Seq<JsonView>,
                        Seq<Seq<char>>,
                    >(texts.deep_view()),
                decreases keys.len() - index,
            {
                let ghost so_far = texts.deep_view();
                proof {
                    assert(all.take(index + 1).drop_last() =~= all.take(index as int));
                    assert(all.take(index + 1).last() == keys[index as int]@);
                }
                match Transform::AgentPubKey.apply(&keys[index]) {
                    Ok(text) => {
                        texts.push(text);
                        assert(texts.deep_view() =~= so_far.push(text@));
                    },
                    Err(error) => {
                        proof {
                            lemma_failure_ends_agents(all, index + 1);
                        }
                        return Err(error);
                    },
                }
                index = index + 1;
            }
            assert(all.take(index as int) =~= all);
            let made = Json::Array(texts);
            proof {
                lemma_json_view(made);
            }
            Ok(made)
        },
        other => Ok(other),
    }
}

fn assigned_readable(assigned: Json) -> (made: HcOpsResult<Json>)
    ensures
        is_reading(made, assigned_reading(assigned@)),
{
    proof {
        lemma_json_view(assigned);
    }
    match assigned {
        Json::Object(fields) => {
            let mut fields = fields;
            hide_secret(&mut fields);
            let ghost hidden = fields_view(fields@);
            match find_field(&fields, "assignees") {
                Some(index) => {
                    proof {
                        lemma_field_position(hidden, "assignees"@, index as int);
                    }
                    let (key, assignees) = take_field_at(&mut fields, index);
                    let texts = match assignees_readable(assignees) {
                        Ok(texts) => texts,
                        Err(error) => {
                            return Err(error);
                        },
                    };
                    proof {
                        lemma_take_and_put(hidden, index as int, (key@, texts@));
                    }
                    put_field_at(&mut fields, index, key, texts);
                },
                None => {},
            }
            let made = Json::Object(fields);
            proof {
                lemma_json_view(made);
            }
            Ok(made)
        },
        other => Ok(other),
    }
}

fn transferable_readable(transferable: Json) -> (made: Json)
    ensures
        made@ == transferable_reading(transferable@),
{
    proof {
        lemma_json_view(transferable);
    }
    match transferable {
        Json::Object(fields) => {
            let mut fields = fields;
            hide_secret(&mut fields);
            let made = Json::Object(fields);
            proof {
                lemma_json_view(made);
            }
            made
        },
        other => other,
    }
}

fn access_readable(access: Json) -> (made: HcOpsResult<Json>)
    ensures
        is_reading(made, access_reading(access@)),
{
    proof {
        lemma_json_view(access);
    }
    match access {
        Json::Object(fields) => {
            let mut fields = fields;
            let ghost before = fields_view(fields@);
            match find_field(&fields, "Assigned") {
                Some(index) => {
                    proof {
                        lemma_field_position(before, "Assigned"@, index as int);
                    }
                    let (key, assigned) = take_field_at(&mut fields, index);
                    let readable = match assigned_readable(assigned) {
                        Ok(readable) => readable,
                        Err(error) => {
                            return Err(error);
                        },
                    };
                    proof {
                        lemma_take_and_put(before, index as int, (key@, readable@));
                    }
                    put_field_at(&mut fields, index, key, readable);
                },
                None => match find_field(&fields, "Transferable") {
                    Some(index) => {
                        proof {
                            lemma_field_position(before, "Transferable"@, index as int);
                        }
                        let (key, transferable) = take_field_at(&mut fields, index);
                        let readable = transferable_readable(transferable);
                        proof {
                            lemma_take_and_put(before, index as int, (key@, readable@));
                        }
                        put_field_at(&mut fields, index, key, readable);
                    },
                    None => {},
                },
            }
            let made = Json::Object(fields);
            proof {
                lemma_json_view(made);
            }
            Ok(made)
        },
        other => Ok(other),
    }
}

fn grant_readable(grant: Json) -> (made: HcOpsResult<Json>)
    ensures
        is_reading(made, grant_reading(grant@)),
{
    proof {
        lemma_json_view(grant);
    }
    match grant {
        Json::Object(fields) => {
            let mut fields = fields;
            let ghost before = fields_view(fields@);
            match find_field(&fields, "access") {
                Some(index) => {
                    proof {
                        lemma_field_position(before, "access"@, index as int);
                    }
                    let (key, access) = take_field_at(&mut fields, index);
                    let readable = match access_readable(access) {
                        Ok(readable) => readable,
                        Err(error) => {
                            return Err(error);
                        },
                    };
                    proof {
                        lemma_take_and_put(before, index as int, (key@, readable@));
                    }
                    put_field_at(&mut fields, index, key, readable);
                },
                None => {},
            }
            let made = Json::Object(fields);
            proof {
                lemma_json_view(made);
            }
            Ok(made)
        },
        other => Ok(other),
    }
}

/// Puts an entry in its readable form. The key of an agent becomes its
/// text; an app entry becomes the value that its bytes hold, or the text
/// of its bytes; in a capability claim or grant, keys become texts and
/// secrets are hidden.
pub fn entry_readable(entry: Json) -> (made: HcOpsResult<Json>)
    ensures
        is_reading(made, entry_reading(entry@)),
{
    proof {
        lemma_json_view(entry);
    }
    match entry {
        Json::Object(fields) => {
            let mut fields = fields;
            let ghost before = fields_view(fields@);
            let index = match find_field(&fields, "entry") {
                Some(index) => index,
                None => {
                    let same = Json::Object(fields);
                    proof {
                        lemma_json_view(same);
                    }
                    return Ok(same);
                },
            };
            if find_field(&fields, "entry_type").is_none() {
                let same = Json::Object(fields);
                proof {
                    lemma_json_view(same);
                }
                return Ok(same);
            }
            proof {
                lemma_field_position(before, "entry"@, index as int);
                lemma_field_position(
                    before,
                    "entry_type"@,
                    choose|i: int|
                        crate::readable::json::is_first_field(before, "entry_type"@, i),
                );
            }
            let is_agent = has_text(&fields, "entry_type", "Agent");
            let is_app = has_text(&fields, "entry_type", "App");
            let is_claim = has_text(&fields, "entry_type", "CapClaim");
            let is_grant = has_text(&fields, "entry_type", "CapGrant");
            let (key, held) = take_field_at(&mut fields, index);
            let readable = if is_agent {
                Transform::AgentPubKey.apply(&held)
            } else if is_app {
                let made = Transform::MsgpackBlob.apply(&held);
                made.context(String::from_str(APP_ENTRY_CONTEXT))
            } else if is_claim {
                claim_readable(held)
            } else if is_grant {
                grant_readable(held)
            } else {
                Ok(held)
            };
            let readable = match readable {
                Ok(readable) => readable,
                Err(error) => {
                    return Err(error);
                },
            };
            proof {
                lemma_take_and_put(before, index as int, (key@, readable@));
            }
            put_field_at(&mut fields, index, key, readable);
            let made = Json::Object(fields);
            proof {
                lemma_json_view(made);
            }
            Ok(made)
        },
        other => Ok(other),
    }
}

} // verus!
