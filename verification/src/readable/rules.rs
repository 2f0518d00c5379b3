//! Putting the fields of an object in their readable form, field by field,
//! and with them the readable form of an action.

use crate::error::{error_chain, HcOpsError, HcOpsResult};
use crate::readable::json::{
    field_position, field_value, fields_view, find_field, has_field, is_first_field,
    lemma_field_position, lemma_json_view, remove_field_at, set_field_at, with_field,
    without_field, Json, JsonView,
};
use crate::readable::{failure, fault, is_reading, transformed, Transform};
use vstd::prelude::*;

verus! {

/// The fields of an object as a mathematical value.
pub type FieldsView = Seq<(Seq<char>, JsonView)>;

/// Whether `made` and the fields `after` it are what `owed` asks for: these
/// fields, or an error with those causes.
pub open spec fn is_fields_reading(
    made: HcOpsResult<()>,
    after: FieldsView,
    owed: Result<FieldsView, Seq<Seq<char>>>,
) -> bool {
    match owed {
        Ok(fields) => made is Ok && after == fields,
        Err(causes) => made is Err && error_chain(made->Err_0) == causes,
    }
}

/// The fields with the value of the field `key` put in its readable form,
/// where there is such a field; the fields as they are where there is
/// none.
pub open spec fn replaced_if_present(fields: FieldsView, key: Seq<char>, transform: Transform) -> Result<
    FieldsView,
    Seq<Seq<char>>,
> {
    match field_value(fields, key) {
        None => Ok(fields),
        Some(value) => match transformed(transform, value) {
            Ok(readable) => Ok(with_field(fields, key, readable)),
            Err(causes) => Err(causes),
        },
    }
}

/// The fields with the value of the field `key` put in its readable form;
/// a field that is missing is a failure.
pub open spec fn replaced(fields: FieldsView, key: Seq<char>, transform: Transform) -> Result<
    FieldsView,
    Seq<Seq<char>>,
> {
    if has_field(fields, key) {
        replaced_if_present(fields, key, transform)
    } else {
        Err(fault("Missing field: "@ + key))
    }
}

/// Puts the value of the field `key` in its readable form, where there is
/// such a field.
pub fn replace_if_present(fields: &mut Vec<(String, Json)>, key: &str, transform: Transform) -> (made:
    HcOpsResult<()>)
    ensures
        is_fields_reading(
            made,
            fields_view(final(fields)@),
            replaced_if_present(fields_view(old(fields)@), key@, transform),
        ),
{
    match find_field(fields, key) {
        Some(index) => {
            proof {
                lemma_field_position(fields_view(fields@), key@, index as int);
            }
            match transform.apply(&fields[index].1) {
                Ok(readable) => {
                    set_field_at(fields, index, readable);
                    Ok(())
                },
                Err(error) => Err(error),
            }
        },
        None => Ok(()),
    }
}

/// Puts the value of the field `key` in its readable form. A field that is
/// missing is a failure.
pub fn replace_field(fields: &mut Vec<(String, Json)>, key: &str, transform: Transform) -> (made:
    HcOpsResult<()>)
    ensures
        is_fields_reading(
            made,
            fields_view(final(fields)@),
            replaced(fields_view(old(fields)@), key@, transform),
        ),
{
    match find_field(fields, key) {
        Some(index) => {
            proof {
                lemma_field_position(fields_view(fields@), key@, index as int);
            }
            replace_if_present(fields, key, transform)
        },
        None => {
            let message = String::from_str("Missing field: ").concat(key);
            failure(message.as_str())
        },
    }
}

/// Takes the field `key` out, where there is such a field.
pub fn remove_field(fields: &mut Vec<(String, Json)>, key: &str)
    ensures
        fields_view(final(fields)@) == without_field(fields_view(old(fields)@), key@),
{
    match find_field(fields, key) {
        Some(index) => {
            proof {
                lemma_field_position(fields_view(fields@), key@, index as int);
            }
            remove_field_at(fields, index);
        },
        None => {},
    }
}

/// Whether the value of the field `key` is the text `text`.
pub open spec fn field_is_text(fields: FieldsView, key: Seq<char>, text: Seq<char>) -> bool {
    field_value(fields, key) == Some(JsonView::Text(text))
}

/// Finds whether the value of the field `key` is the text `text`.
pub fn has_text(fields: &Vec<(String, Json)>, key: &str, text: &str) -> (same: bool)
    ensures
        same == field_is_text(fields_view(fields@), key@, text@),
{
    match find_field(fields, key) {
        Some(index) => {
            proof {
                lemma_field_position(fields_view(fields@), key@, index as int);
            }
            match &fields[index].1 {
                Json::Text(held) => *held == String::from_str(text),
                _ => false,
            }
        },
        None => false,
    }
}

/// One step in making an object readable: a field and the way in which
/// its value is put in readable form, for objects of every type or for
/// those whose field `type` names one type.
#[derive(Clone, Copy, Debug)]
pub struct Rule {
    /// The type of the objects that the rule is for, where it is for one.
    pub only_type: Option<&'static str>,
    pub field: &'static str,
    pub transform: Transform,
}

/// A rule as a mathematical value.
pub struct RuleView {
    pub only_type: Option<Seq<char>>,
    pub field: Seq<char>,
    pub transform: Transform,
}

impl View for Rule {
    type V = RuleView;

    open spec fn view(&self) -> RuleView {
        RuleView {
            only_type: match self.only_type {
                Some(name) => Some(name@),
                None => None,
            },
            field: self.field@,
            transform: self.transform,
        }
    }
}

impl DeepView for Rule {
    type V = RuleView;

    open spec fn deep_view(&self) -> RuleView {
        self@
    }
}

/// Whether a rule is for the object with these fields.
pub open spec fn rule_applies(fields: FieldsView, rule: RuleView) -> bool {
    match rule.only_type {
        Some(name) => field_is_text(fields, "type"@, name),
        None => true,
    }
}

/// The fields after one rule.
pub open spec fn with_rule(fields: FieldsView, rule: RuleView) -> Result<
    FieldsView,
    Seq<Seq<char>>,
> {
    if rule_applies(fields, rule) {
        replaced_if_present(fields, rule.field, rule.transform)
    } else {
        Ok(fields)
    }
}

/// The fields after the rules, each applied in its turn to what the rules
/// before it made; the first failure ends it.
pub open spec fn with_rules(fields: FieldsView, rules: Seq<RuleView>) -> Result<
    FieldsView,
    Seq<Seq<char>>,
>
    decreases rules.len(),
{
    if rules.len() == 0 {
        Ok(fields)
    } else {
        match with_rules(fields, rules.drop_last()) {
            Err(causes) => Err(causes),
            Ok(done) => with_rule(done, rules.last()),
        }
    }
}

/// A failure among the first rules is the failure of all the rules.
proof fn lemma_failure_ends_rules(fields: FieldsView, rules: Seq<RuleView>, count: int)
    requires
        0 <= count <= rules.len(),
        with_rules(fields, rules.take(count)) is Err,
    ensures
        with_rules(fields, rules) == with_rules(fields, rules.take(count)),
    decreases rules.len() - count,
{
    if count < rules.len() {
        assert(rules.take(count + 1).drop_last() =~= rules.take(count));
        lemma_failure_ends_rules(fields, rules, count + 1);
    } else {
        assert(rules.take(count) =~= rules);
    }
}

/// Applies rules to the fields of an object, one after the other.
pub fn apply_rules(fields: &mut Vec<(String, Json)>, rules: &Vec<Rule>) -> (made: HcOpsResult<()>)
    ensures
        is_fields_reading(
            made,
            fields_view(final(fields)@),
            with_rules(fields_view(old(fields)@), rules.deep_view()),
        ),
{
    let ghost start = fields_view(fields@);
    let ghost all = rules.deep_view();
    let mut index: usize = 0;
    assert(all.take(0) =~= Seq::empty());
    while index < rules.len()
        invariant
            index <= rules.len(),
            all == rules.deep_view(),
            start == fields_view(old(fields)@),
            with_rules(start, all.take(index as int)) == Ok::<FieldsView, Seq<Seq<char>>>(
                fields_view(fields@),
            ),
        decreases rules.len() - index,
    {
        let rule = &rules[index];
        proof {
            assert(all.take(index + 1).drop_last() =~= all.take(index as int));
            assert(all.take(index + 1).last() == rule@);
        }
        let applies = match rule.only_type {
            Some(name) => has_text(fields, "type", name),
            None => true,
        };
        if applies {
            match replace_if_present(fields, rule.field, rule.transform) {
                Ok(()) => {},
                Err(error) => {
                    proof {
                        lemma_failure_ends_rules(start, all, index + 1);
                    }
                    return Err(error);
                },
            }
        }
        index = index + 1;
    }
    assert(all.take(index as int) =~= all);
    Ok(())
}

} // verus!
