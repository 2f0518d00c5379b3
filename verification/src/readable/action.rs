//! The readable form of an action, alone, signed, and signed and hashed.

use crate::error::{HcOpsError, HcOpsResult};
use crate::hash::HashType;
use crate::readable::json::{fields_view, lemma_json_view, without_field, Json, JsonView};
use crate::readable::rules::{
    apply_rules, remove_field, with_rules, FieldsView, Rule, RuleView,
};
use crate::readable::{
    flat_reading, hash_reading, is_reading, transform_flatten_byte_array, transform_hash,
    Transform,
};
use vstd::prelude::*;

verus! {

/// The rules that make an action readable: the author, the time, the
/// action before and the entry of every action, and the hashes and tags
/// that actions of one type hold.
pub open spec fn action_rules_view() -> Seq<RuleView> {
    seq![
        RuleView { only_type: None, field: "author"@, transform: Transform::AgentPubKey },
        RuleView { only_type: None, field: "timestamp"@, transform: Transform::Timestamp },
        RuleView { only_type: None, field: "prev_action"@, transform: Transform::ActionHash },
        RuleView { only_type: None, field: "entry_hash"@, transform: Transform::EntryHash },
        RuleView { only_type: Some("Dna"@), field: "hash"@, transform: Transform::DnaHash },
        RuleView { only_type: Some("CreateLink"@), field: "base_address"@, transform: Transform::AnyLinkableHash },
        RuleView { only_type: Some("CreateLink"@), field: "target_address"@, transform: Transform::AnyLinkableHash },
        RuleView { only_type: Some("CreateLink"@), field: "tag"@, transform: Transform::FlattenByteArray },
        RuleView { only_type: Some("DeleteLink"@), field: "base_address"@, transform: Transform::AnyLinkableHash },
        RuleView { only_type: Some("DeleteLink"@), field: "link_add_address"@, transform: Transform::ActionHash },
        RuleView { only_type: Some("Update"@), field: "original_action_address"@, transform: Transform::ActionHash },
        RuleView { only_type: Some("Update"@), field: "original_entry_address"@, transform: Transform::EntryHash },
        RuleView { only_type: Some("Delete"@), field: "deletes_address"@, transform: Transform::ActionHash },
        RuleView { only_type: Some("Delete"@), field: "deletes_entry_address"@, transform: Transform::EntryHash },
    ]
}

/// The rules that make an action readable.
pub fn action_rules() -> (rules: Vec<Rule>)
    ensures
        rules.deep_view() == action_rules_view(),
{
    let mut rules: Vec<Rule> = Vec::new();
    rules.push(Rule { only_type: None, field: "author", transform: Transform::AgentPubKey });
    rules.push(Rule { only_type: None, field: "timestamp", transform: Transform::Timestamp });
    rules.push(Rule { only_type: None, field: "prev_action", transform: Transform::ActionHash });
    rules.push(Rule { only_type: None, field: "entry_hash", transform: Transform::EntryHash });
    rules.push(Rule { only_type: Some("Dna"), field: "hash", transform: Transform::DnaHash });
    rules.push(Rule { only_type: Some("CreateLink"), field: "base_address", transform: Transform::AnyLinkableHash });
    rules.push(Rule { only_type: Some("CreateLink"), field: "target_address", transform: Transform::AnyLinkableHash });
    rules.push(Rule { only_type: Some("CreateLink"), field: "tag", transform: Transform::FlattenByteArray });
    rules.push(Rule { only_type: Some("DeleteLink"), field: "base_address", transform: Transform::AnyLinkableHash });
    rules.push(Rule { only_type: Some("DeleteLink"), field: "link_add_address", transform: Transform::ActionHash });
    rules.push(Rule { only_type: Some("Update"), field: "original_action_address", transform: Transform::ActionHash });
    rules.push(Rule { only_type: Some("Update"), field: "original_entry_address", transform: Transform::EntryHash });
    rules.push(Rule { only_type: Some("Delete"), field: "deletes_address", transform: Transform::ActionHash });
    rules.push(Rule { only_type: Some("Delete"), field: "deletes_entry_address", transform: Transform::EntryHash });
    assert(rules.deep_view() =~= action_rules_view());
    rules
}

/// The readable form of an action: where it is an object, its fields
/// after the rules for actions; any other value as it is.
pub open spec fn action_reading(action: JsonView) -> Result<JsonView, Seq<Seq<char>>> {
    match action {
        JsonView::Object(fields) => match with_rules(fields, action_rules_view()) {
            Ok(readable) => Ok(JsonView::Object(readable)),
            Err(causes) => Err(causes),
        },
        _ => Ok(action),
    }
}

/// Puts an action in its readable form: hashes become their texts, the
/// time of authoring the text of an instant, and the tag of a link one
/// text.
pub fn action_readable(action: Json) -> (made: HcOpsResult<Json>)
    ensures
        is_reading(made, action_reading(action@)),
{
    proof {
        lemma_json_view(action);
    }
    match action {
        Json::Object(fields) => {
            let mut fields = fields;
            let rules = action_rules();
            match apply_rules(&mut fields, &rules) {
                Ok(()) => {
                    let made = Json::Object(fields);
                    proof {
                        lemma_json_view(made);
                    }
                    Ok(made)
                },
                Err(error) => Err(error),
            }
        },
        other => Ok(other),
    }
}

/// An object of fields given as names and values, in their order.
pub fn object_of(fields: Vec<(&'static str, Json)>) -> (made: Json)
    ensures
        made@ == JsonView::Object(named_fields_view(fields@)),
{
    let mut left = fields;
    let ghost wanted = named_fields_view(fields@);
    let mut named: Vec<(String, Json)> = Vec::new();
    assert(fields_view(named@) =~= wanted.take(0));
    while left.len() > 0
        invariant
            wanted == named_fields_view(fields@),
            named.len() + left.len() == fields.len(),
            left@ == fields@.skip(named.len() as int),
            fields_view(named@) == wanted.take(named.len() as int),
        decreases left.len(),
    {
        let ghost before = fields_view(named@);
        let ghost done = named.len() as int;
        let (name, value) = left.remove(0);
        assert((name, value) == fields@[done]);
        named.push((String::from_str(name), value));
        assert(left@ =~= fields@.skip(done + 1));
        assert(fields_view(named@) =~= before.push((name@, value@)));
        assert(wanted.take(done + 1) =~= wanted.take(done).push(wanted[done]));
    }
    let made = Json::Object(named);
    proof {
        lemma_json_view(made);
        assert(wanted.take(named.len() as int) =~= wanted);
    }
    made
}

/// The views of fields given as names and values.
pub open spec fn named_fields_view(fields: Seq<(&'static str, Json)>) -> FieldsView {
    Seq::new(fields.len(), |i: int| (fields[i].0@, fields[i].1@))
}

/// The readable form of a signed action: the readable form of the action
/// as `data`, and the signature as one text.
pub open spec fn signed_action_reading(action: JsonView, signature: JsonView) -> Result<
    JsonView,
    Seq<Seq<char>>,
> {
    match action_reading(action) {
        Err(causes) => Err(causes),
        Ok(data) => match flat_reading(signature) {
            Err(causes) => Err(causes),
            Ok(signed) => Ok(JsonView::Object(seq![("data"@, data), ("signature"@, signed)])),
        },
    }
}

/// A value without its field `weight`, where it is an object.
pub open spec fn without_weight(data: JsonView) -> JsonView {
    match data {
        JsonView::Object(fields) => JsonView::Object(without_field(fields, "weight"@)),
        _ => data,
    }
}

/// The summary of a signed action: its readable form without the weight of
/// the action and without the signature. What fails the readable form
/// fails the summary.
pub open spec fn signed_action_summary_reading(action: JsonView, signature: JsonView) -> Result<
    JsonView,
    Seq<Seq<char>>,
> {
    match action_reading(action) {
        Err(causes) => Err(causes),
        Ok(data) => match flat_reading(signature) {
            Err(causes) => Err(causes),
            Ok(_) => Ok(JsonView::Object(seq![("data"@, without_weight(data))])),
        },
    }
}

/// The readable form of a signed and hashed action: the readable form of
/// the action as `content`, the text of its hash, and the signature as one
/// text.
pub open spec fn signed_action_hashed_reading(
    content: JsonView,
    hash: JsonView,
    signature: JsonView,
) -> Result<JsonView, Seq<Seq<char>>> {
    match action_reading(content) {
        Err(causes) => Err(causes),
        Ok(readable) => match hash_reading(
            hash,
            HashType::Action,
            "Cannot convert to an action hash, not an array"@,
        ) {
            Err(causes) => Err(causes),
            Ok(hashed) => match flat_reading(signature) {
                Err(causes) => Err(causes),
                Ok(signed) => Ok(
                    JsonView::Object(
                        seq![("content"@, readable), ("hash"@, hashed), ("signature"@, signed)],
                    ),
                ),
            },
        },
    }
}

/// Puts a signed action in its readable form, from the action and the
/// signature as they are written in JSON.
pub fn signed_action_readable(action: Json, signature: &Json) -> (made: HcOpsResult<Json>)
    ensures
        is_reading(made, signed_action_reading(action@, signature@)),
{
    let data = match action_readable(action) {
        Ok(data) => data,
        Err(error) => {
            return Err(error);
        },
    };
    let signed = match transform_flatten_byte_array(signature) {
        Ok(signed) => signed,
        Err(error) => {
            return Err(error);
        },
    };
    let mut fields: Vec<(&'static str, Json)> = Vec::new();
    fields.push(("data", data));
    fields.push(("signature", signed));
    assert(named_fields_view(fields@) =~= seq![("data"@, data@), ("signature"@, signed@)]);
    Ok(object_of(fields))
}

/// Puts a signed action in its summary form.
pub fn signed_action_summary(action: Json, signature: &Json) -> (made: HcOpsResult<Json>)
    ensures
        is_reading(made, signed_action_summary_reading(action@, signature@)),
{
    let data = match action_readable(action) {
        Ok(data) => data,
        Err(error) => {
            return Err(error);
        },
    };
    match transform_flatten_byte_array(signature) {
        Ok(_) => {},
        Err(error) => {
            return Err(error);
        },
    }
    proof {
        lemma_json_view(data);
    }
    let ghost full = data@;
    let light = match data {
        Json::Object(fields) => {
            let mut fields = fields;
            remove_field(&mut fields, "weight");
            let light = Json::Object(fields);
            proof {
                lemma_json_view(light);
            }
            light
        },
        other => other,
    };
    assert(light@ == without_weight(full));
    let mut fields: Vec<(&'static str, Json)> = Vec::new();
    fields.push(("data", light));
    assert(named_fields_view(fields@) =~= seq![("data"@, light@)]);
    Ok(object_of(fields))
}

/// Puts a signed and hashed action in its readable form, from the action,
/// its hash and the signature as they are written in JSON.
pub fn signed_action_hashed_readable(content: Json, hash: &Json, signature: &Json) -> (made:
    HcOpsResult<Json>)
    ensures
        is_reading(made, signed_action_hashed_reading(content@, hash@, signature@)),
{
    let readable = match action_readable(content) {
        Ok(readable) => readable,
        Err(error) => {
            return Err(error);
        },
    };
    let hashed = match transform_hash(
        hash,
        HashType::Action,
        "Cannot convert to an action hash, not an array",
    ) {
        Ok(hashed) => hashed,
        Err(error) => {
            return Err(error);
        },
    };
    let signed = match transform_flatten_byte_array(signature) {
        Ok(signed) => signed,
        Err(error) => {
            return Err(error);
        },
    };
    let mut fields: Vec<(&'static str, Json)> = Vec::new();
    fields.push(("content", readable));
    fields.push(("hash", hashed));
    fields.push(("signature", signed));
    assert(named_fields_view(fields@) =~= seq![
        ("content"@, readable@),
        ("hash"@, hashed@),
        ("signature"@, signed@),
    ]);
    Ok(object_of(fields))
}

} // verus!
