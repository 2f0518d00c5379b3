//! The readable form of what a node tells of an installed app.

use crate::error::{HcOpsError, HcOpsResult};
use crate::readable::json::{
    field_value, fields_view, find_field, has_field, lemma_field_position, lemma_json_view,
    lemma_take_and_put, put_field_at, take_field_at, with_field, without_field, Json, JsonView,
};
use crate::readable::rules::{remove_field, replace_field, replaced, FieldsView};
use crate::readable::{failure, fault, is_reading, Transform};
use vstd::prelude::*;

verus! {

/// What cells that are not written as expected are reported as.
pub const UNEXPECTED_CELL_INFO_MESSAGE: &'static str = "Unexpected cell info format";

/// A provisioned cell with its cell id in readable form.
pub open spec fn provisioned_reading(cell: JsonView) -> Result<JsonView, Seq<Seq<char>>> {
    match cell {
        JsonView::Object(fields) => match replaced(fields, "cell_id"@, Transform::CellId) {
            Err(causes) => Err(causes),
            Ok(readable) => Ok(JsonView::Object(readable)),
        },
        _ => Err(fault("Missing field: cell_id"@)),
    }
}

/// A cloned cell with its cell id and the hash of the shard that it was
/// cloned from in readable form.
pub open spec fn cloned_reading(cell: JsonView) -> Result<JsonView, Seq<Seq<char>>> {
    match cell {
        JsonView::Object(fields) => match replaced(fields, "cell_id"@, Transform::CellId) {
            Err(causes) => Err(causes),
            Ok(named) => match replaced(named, "original_dna_hash"@, Transform::DnaHash) {
                Err(causes) => Err(causes),
                Ok(readable) => Ok(JsonView::Object(readable)),
            },
        },
        _ => Err(fault("Missing field: cell_id"@)),
    }
}

/// The readable form of one cell of an app: that of the provisioned or of
/// the cloned cell that it holds. A cell that is no object is a failure.
pub open spec fn cell_reading(cell: JsonView) -> Result<JsonView, Seq<Seq<char>>> {
    match cell {
        JsonView::Object(fields) => {
            if has_field(fields, "provisioned"@) {
                match provisioned_reading(field_value(fields, "provisioned"@)->0) {
                    Err(causes) => Err(causes),
                    Ok(readable) => Ok(
                        JsonView::Object(with_field(fields, "provisioned"@, readable)),
                    ),
                }
            } else if has_field(fields, "cloned"@) {
                match cloned_reading(field_value(fields, "cloned"@)->0) {
                    Err(causes) => Err(causes),
                    Ok(readable) => Ok(JsonView::Object(with_field(fields, "cloned"@, readable))),
                }
            } else {
                Ok(cell)
            }
        },
        _ => Err(fault(UNEXPECTED_CELL_INFO_MESSAGE@)),
    }
}

/// The readable forms of cells, or the failure of the first that has
/// none.
pub open spec fn cells_reading(cells: Seq<JsonView>) -> Result<Seq<JsonView>, Seq<Seq<char>>>
    decreases cells.len(),
{
    if cells.len() == 0 {
        Ok(Seq::empty())
    } else {
        match cells_reading(cells.drop_last()) {
            Err(causes) => Err(causes),
            Ok(done) => match cell_reading(cells.last()) {
                Err(causes) => Err(causes),
                Ok(readable) => Ok(done.push(readable)),
            },
        }
    }
}

/// The readable form of the cells of one role. Cells that are no list are
/// a failure.
pub open spec fn role_reading(cells: JsonView) -> Result<JsonView, Seq<Seq<char>>> {
    match cells {
        JsonView::Array(held) => match cells_reading(held) {
            Err(causes) => Err(causes),
            Ok(readable) => Ok(JsonView::Array(readable)),
        },
        _ => Err(fault(UNEXPECTED_CELL_INFO_MESSAGE@)),
    }
}

/// The roles of an app with their cells in readable form, or the failure
/// of the first role whose cells have none.
pub open spec fn roles_reading(roles: FieldsView) -> Result<FieldsView, Seq<Seq<char>>>
    decreases roles.len(),
{
    if roles.len() == 0 {
        Ok(Seq::empty())
    } else {
        match roles_reading(roles.drop_last()) {
            Err(causes) => Err(causes),
            Ok(done) => match role_reading(roles.last().1) {
                Err(causes) => Err(causes),
                Ok(readable) => Ok(done.push((roles.last().0, readable))),
            },
        }
    }
}

/// The readable form of an app: the key of its agent as text, and the
/// cells of each of its roles in readable form.
pub open spec fn app_info_reading(info: JsonView) -> Result<JsonView, Seq<Seq<char>>> {
    match info {
        JsonView::Object(fields) => match replaced(
            fields,
            "agent_pub_key"@,
            Transform::AgentPubKey,
        ) {
            Err(causes) => Err(causes),
            Ok(named) => match field_value(named, "cell_info"@) {
                Some(JsonView::Object(roles)) => match roles_reading(roles) {
                    Err(causes) => Err(causes),
                    Ok(readable) => Ok(
                        JsonView::Object(
                            with_field(named, "cell_info"@, JsonView::Object(readable)),
                        ),
                    ),
                },
                _ => Err(fault(UNEXPECTED_CELL_INFO_MESSAGE@)),
            },
        },
        _ => Err(fault("Missing field: agent_pub_key"@)),
    }
}

/// The summary of an app: its readable form without its manifest.
pub open spec fn app_info_summary_reading(info: JsonView) -> Result<JsonView, Seq<Seq<char>>> {
    match app_info_reading(info) {
        Err(causes) => Err(causes),
        Ok(readable) => match readable {
            JsonView::Object(fields) => Ok(JsonView::Object(without_field(fields, "manifest"@))),
            _ => Ok(readable),
        },
    }
}

fn provisioned_readable(cell: Json) -> (made: HcOpsResult<Json>)
    ensures
        is_reading(made, provisioned_reading(cell@)),
{
    proof {
        lemma_json_view(cell);
    }
    match cell {
        Json::Object(fields) => {
            let mut fields = fields;
            match replace_field(&mut fields, "cell_id", Transform::CellId) {
                Ok(()) => {
                    let made = Json::Object(fields);
                    proof {
                        lemma_json_view(made);
                    }
                    Ok(made)
                },
                Err(error) => Err(error),
            }
        },
        _ => failure("Missing field: cell_id"),
    }
}

fn cloned_readable(cell: Json) -> (made: HcOpsResult<Json>)
    ensures
        is_reading(made, cloned_reading(cell@)),
{
    proof {
        lemma_json_view(cell);
    }
    match cell {
        Json::Object(fields) => {
            let mut fields = fields;
            match replace_field(&mut fields, "cell_id", Transform::CellId) {
                Ok(()) => {},
                Err(error) => {
                    return Err(error);
                },
            }
            match replace_field(&mut fields, "original_dna_hash", Transform::DnaHash) {
                Ok(()) => {},
                Err(error) => {
                    return Err(error);
                },
            }
            let made = Json::Object(fields);
            proof {
                lemma_json_view(made);
            }
            Ok(made)
        },
        _ => failure("Missing field: cell_id"),
    }
}

fn cell_readable(cell: Json) -> (made: HcOpsResult<Json>)
    ensures
        is_reading(made, cell_reading(cell@)),
{
    proof {
        lemma_json_view(cell);
    }
    match cell {
        Json::Object(fields) => {
            let mut fields = fields;
            let ghost before = fields_view(fields@);
            match find_field(&fields, "provisioned") {
                Some(index) => {
                    proof {
                        lemma_field_position(before, "provisioned"@, index as int);
                    }
                    let (key, held) = take_field_at(&mut fields, index);
                    let readable = match provisioned_readable(held) {
                        Ok(readable) => readable,
                        Err(error) => {
                            return Err(error);
                        },
                    };
                    proof {
                        lemma_take_and_put(before, index as int, (key@, readable@));
                    }
                    put_field_at(&mut fields, index, key, readable);
                },
                None => match find_field(&fields, "cloned") {
                    Some(index) => {
                        proof {
                            lemma_field_position(before, "cloned"@, index as int);
                        }
                        let (key, held) = take_field_at(&mut fields, index);
                        let readable = match cloned_readable(held) {
                            Ok(readable) => readable,
                            Err(error) => {
                                return Err(error);
                            },
                        };
                        proof {
                            lemma_take_and_put(before, index as int, (key@, readable@));
                        }
                        put_field_at(&mut fields, index, key, readable);
                    },
                    None => {},
                },
            }
            let made = Json::Object(fields);
            proof {
                lemma_json_view(made);
            }
            Ok(made)
        },
        _ => failure(UNEXPECTED_CELL_INFO_MESSAGE),
    }
}

/// A failure among the first cells is the failure of all the cells.
proof fn lemma_failure_ends_cells(cells: Seq<JsonView>, count: int)
    requires
        0 <= count <= cells.len(),
        cells_reading(cells.take(count)) is Err,
    ensures
        cells_reading(cells) == cells_reading(cells.take(count)),
    decreases cells.len() - count,
{
    if count < cells.len() {
        assert(cells.take(count + 1).drop_last() =~= cells.take(count));
        lemma_failure_ends_cells(cells, count + 1);
    } else {
        assert(cells.take(count) =~= cells);
    }
}

/// A failure among the first roles is the failure of all the roles.
proof fn lemma_failure_ends_roles(roles: FieldsView, count: int)
    requires
        0 <= count <= roles.len(),
        roles_reading(roles.take(count)) is Err,
    ensures
        roles_reading(roles) == roles_reading(roles.take(count)),
    decreases roles.len() - count,
{
    if count < roles.len() {
        assert(roles.take(count + 1).drop_last() =~= roles.take(count));
        lemma_failure_ends_roles(roles, count + 1);
    } else {
        assert(roles.take(count) =~= roles);
    }
}

fn role_readable(cells: Json) -> (made: HcOpsResult<Json>)
    ensures
        is_reading(made, role_reading(cells@)),
{
    proof {
        lemma_json_view(cells);
    }
    match cells {
        Json::Array(held) => {
            let mut left = held;
            let ghost all = held.deep_view();
            let mut readable: Vec<Json> = Vec::new();
            assert(all.take(0) =~= Seq::empty());
            assert(readable.deep_view() =~= Seq::empty());
            assert(all.skip(0) =~= all);
            while left.len() > 0
                invariant
                    cells@ == JsonView::Array(all),
                    readable.len() + left.len() == all.len(),
                    left.deep_view() == all.skip(readable.len() as int),
                    cells_reading(all.take(readable.len() as int)) == Ok::<
                        Seq<JsonView>,
                        Seq<Seq<char>>,
                    >(readable.deep_view()),
                decreases left.len(),
            {
                let ghost done = readable.len() as int;
                let ghost so_far = readable.deep_view();
                let ghost rest = left@;
                let ghost rest_view = left.deep_view();
                let cell = left.remove(0);
                proof {
                    assert(cell@ == rest_view[0]);
                    assert(all.take(done + 1).drop_last() =~= all.take(done));
                    assert(all.take(done + 1).last() == cell@);
                    assert forall|i: int| 0 <= i < left.len() implies left.deep_view()[i]
                        == all.skip(done + 1)[i] by {
                        assert(left@[i] == rest[i + 1]);
                        assert(rest_view[i + 1] == rest[i + 1]@);
                    }
                    assert(left.deep_view() =~= all.skip(done + 1));
                }
                match cell_readable(cell) {
                    Ok(made) => {
                        readable.push(made);
                        assert(readable.deep_view() =~= so_far.push(made@));
                    },
                    Err(error) => {
                        proof {
                            lemma_failure_ends_cells(all, done + 1);
                        }
                        return Err(error);
                    },
                }
            }
            assert(all.take(readable.len() as int) =~= all);
            let made = Json::Array(readable);
            proof {
                lemma_json_view(made);
            }
            Ok(made)
        },
        _ => failure(UNEXPECTED_CELL_INFO_MESSAGE),
    }
}

fn roles_readable(roles: Vec<(String, Json)>) -> (made: HcOpsResult<Vec<(String, Json)>>)
    ensures
        match roles_reading(fields_view(roles@)) {
            Ok(readable) => made is Ok && fields_view(made->Ok_0@) == readable,
            Err(causes) => made is Err && crate::error::error_chain(made->Err_0) == causes,
        },
{
    let mut left = roles;
    let ghost all = fields_view(roles@);
    let mut readable: Vec<(String, Json)> = Vec::new();
    assert(all.take(0) =~= Seq::empty());
    assert(fields_view(readable@) =~= Seq::empty());
    assert(all.skip(0) =~= all);
    while left.len() > 0
        invariant
            all == fields_view(roles@),
            readable.len() + left.len() == all.len(),
            fields_view(left@) == all.skip(readable.len() as int),
            roles_reading(all.take(readable.len() as int)) == Ok::<FieldsView, Seq<Seq<char>>>(
                fields_view(readable@),
            ),
        decreases left.len(),
    {
        let ghost done = readable.len() as int;
        let ghost so_far = fields_view(readable@);
        let ghost rest = fields_view(left@);
        let (role, cells) = take_field_at(&mut left, 0);
        proof {
            assert(rest[0] == all[done]);
            assert(all.take(done + 1).drop_last() =~= all.take(done));
            assert(all.take(done + 1).last() == (role@, cells@));
            assert(fields_view(left@) =~= all.skip(done + 1));
        }
        match role_readable(cells) {
            Ok(made) => {
                readable.push((role, made));
                assert(fields_view(readable@) =~= so_far.push((role@, made@)));
            },
            Err(error) => {
                proof {
                    lemma_failure_ends_roles(all, done + 1);
                }
                return Err(error);
            },
        }
    }
    assert(all.take(readable.len() as int) =~= all);
    Ok(readable)
}

/// Puts what a node tells of an app in its readable form: the key of its
/// agent and the ids of its cells become texts. Cells that are not written
/// as a list of objects for each role are a failure.
pub fn app_info_readable(info: Json) -> (made: HcOpsResult<Json>)
    ensures
        is_reading(made, app_info_reading(info@)),
{
    proof {
        lemma_json_view(info);
    }
    match info {
        Json::Object(fields) => {
            let mut fields = fields;
            match replace_field(&mut fields, "agent_pub_key", Transform::AgentPubKey) {
                Ok(()) => {},
                Err(error) => {
                    return Err(error);
                },
            }
            let ghost named = fields_view(fields@);
            let index = match find_field(&fields, "cell_info") {
                Some(index) => index,
                None => {
                    return failure(UNEXPECTED_CELL_INFO_MESSAGE);
                },
            };
            proof {
                lemma_field_position(named, "cell_info"@, index as int);
            }
            let (key, cell_info) = take_field_at(&mut fields, index);
            proof {
                lemma_json_view(cell_info);
            }
            let roles = match cell_info {
                Json::Object(roles) => roles,
                _ => {
                    return failure(UNEXPECTED_CELL_INFO_MESSAGE);
                },
            };
            let readable = match roles_readable(roles) {
                Ok(readable) => Json::Object(readable),
                Err(error) => {
                    return Err(error);
                },
            };
            proof {
                lemma_json_view(readable);
                lemma_take_and_put(named, index as int, (key@, readable@));
            }
            put_field_at(&mut fields, index, key, readable);
            let made = Json::Object(fields);
            proof {
                lemma_json_view(made);
            }
            Ok(made)
        },
        _ => failure("Missing field: agent_pub_key"),
    }
}

/// Puts what a node tells of an app in its summary form.
pub fn app_info_summary(info: Json) -> (made: HcOpsResult<Json>)
    ensures
        is_reading(made, app_info_summary_reading(info@)),
{
    let readable = match app_info_readable(info) {
        Ok(readable) => readable,
        Err(error) => {
            return Err(error);
        },
    };
    proof {
        lemma_json_view(readable);
    }
    match readable {
        Json::Object(fields) => {
            let mut fields = fields;
            remove_field(&mut fields, "manifest");
            let made = Json::Object(fields);
            proof {
                lemma_json_view(made);
            }
            Ok(made)
        },
        other => Ok(other),
    }
}

} // verus!
