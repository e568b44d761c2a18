//! The startup tree loader: flattens a hierarchical signal-definition
//! document into stored rows.
//!
//! Each node under a grouping branch is walked; a non-branch child
//! becomes one row whose path is the dot-joined ancestor chain, with
//! its declared classification and type, and a state seeded from the
//! node's declared default value. Branch nodes group their children and
//! are never themselves rows.

use vstd::prelude::*;
use vstd::string::StringExecFns;
use crate::decode::spec_build_value;
use crate::error::VehicleShadowError;
use crate::json::Json;
use crate::signal::{
    spec_leaf_type_of, spec_value_type_of, Config, LeafType, Signal, SignalModel, State, Value,
    ValueType,
};

verus! {

/// The declared classification of a node: its `type` member, where that
/// is a string naming one.
pub open spec fn spec_node_type(node: Json) -> Option<LeafType> {
    match node.spec_get("type"@) {
        Option::Some(Json::Str(s)) => spec_leaf_type_of(s@),
        _ => Option::None,
    }
}

/// The declared type tag of a node: its `datatype` member, where that
/// is a string naming one.
pub open spec fn spec_node_datatype(node: Json) -> Option<ValueType> {
    match node.spec_get("datatype"@) {
        Option::Some(Json::Str(s)) => spec_value_type_of(s@),
        _ => Option::None,
    }
}

/// The seeded value of a node: its `default` member decoded against the
/// declared type tag; the no-value sentinel where either is missing.
pub open spec fn spec_node_default(node: Json) -> crate::signal::ValueModel {
    match (node.spec_get("default"@), spec_node_datatype(node)) {
        (Option::Some(d), Option::Some(vt)) => spec_build_value(vt, d),
        _ => crate::signal::ValueModel::Nan,
    }
}

/// What holds of every row the loader produces: a stored, settable
/// leaf, unlocked, with both liveness flags down and the reserved field
/// seeded.
pub open spec fn loaded_row_ok(sm: SignalModel) -> bool {
    &&& sm.config.leaf_type != LeafType::Branch
    &&& sm.state.lock_token is None
    &&& !sm.state.capability
    &&& !sm.state.availability
    &&& sm.state.reserved == "reserved"@
}

/// The row a leaf node yields: the dot-joined path, the state seeded
/// from the declared default with both liveness flags down and no lock,
/// and a config carrying the declared classification and type.
pub open spec fn spec_leaf_row(path: Seq<char>, node: Json, lt: LeafType, dt: ValueType) -> SignalModel {
    SignalModel {
        path,
        state: crate::signal::StateModel {
            value: spec_node_default(node),
            capability: false,
            availability: false,
            lock_token: Option::None,
            reserved: "reserved"@,
        },
        config: crate::signal::ConfigModel {
            leaf_type: lt,
            data_type: dt,
            deprecation: Option::None,
            unit: Option::None,
            min: Option::None,
            max: Option::None,
            description: Option::None,
            comment: Option::None,
            allowed: Option::None,
            default: Option::None,
        },
    }
}

/// The rows a branch node yields: its `children` object's members
/// flattened in order; nothing where the node has no children object or
/// a child is unreadable.
pub open spec fn spec_load_branch(path: Seq<char>, node: Json) -> Option<Seq<SignalModel>>
    decreases node,
    via spec_load_branch_decreases
{
    match node.spec_get("children"@) {
        Option::Some(children) => match children {
            Json::Obj(members) => spec_load_children(path, members@),
            _ => Option::None,
        },
        Option::None => Option::None,
    }
}

#[via_fn]
proof fn spec_load_branch_decreases(path: Seq<char>, node: Json) {
    match node.spec_get("children"@) {
        Option::Some(children) => match children {
            Json::Obj(members) => {
                lemma_node_dominates_children(node, children);
                assert(decreases_to!(children => members));
                assert(decreases_to!(members => members@));
            },
            _ => {},
        },
        Option::None => {},
    }
}

/// A node strictly dominates the value of any of its members, so
/// recursion into a member terminates.
proof fn lemma_node_dominates_children(node: Json, child: Json)
    requires
        node.spec_get("children"@) == Option::Some(child),
    ensures
        decreases_to!(node => child),
{
    match node {
        Json::Obj(node_members) => {
            crate::json::lemma_find_member_witness(node_members@, "children"@);
            let j = choose|j: int|
                0 <= j < node_members@.len() && (#[trigger] node_members@[j]).1
                    == crate::json::spec_find_member(node_members@, "children"@)->Some_0;
            assert(decreases_to!(node => node_members));
            assert(decreases_to!(node_members => node_members@));
            assert(decreases_to!(node_members@ => node_members@[j]));
            assert(decreases_to!(node_members@[j] => node_members@[j].1));
        },
        _ => {
            assert(false);
        },
    }
}

/// The rows a run of child members yields, in member order: a non-branch
/// child with a readable type and type tag is one row, a branch child
/// contributes its own flattening, and an unreadable child yields
/// nothing for the whole run.
pub open spec fn spec_load_children(path: Seq<char>, items: Seq<(String, Json)>) -> Option<
    Seq<SignalModel>,
>
    decreases items,
    via spec_load_children_decreases
{
    if items.len() == 0 {
        Option::Some(Seq::empty())
    } else {
        let child_path = path + "."@ + items[0].0@;
        let child = items[0].1;
        match spec_node_type(child) {
            Option::None => Option::None,
            Option::Some(LeafType::Branch) => match spec_load_branch(child_path, child) {
                Option::None => Option::None,
                Option::Some(rows) => match spec_load_children(path, items.drop_first()) {
                    Option::None => Option::None,
                    Option::Some(rest) => Option::Some(rows + rest),
                },
            },
            Option::Some(lt) => match spec_node_datatype(child) {
                Option::None => Option::None,
                Option::Some(dt) => match spec_load_children(path, items.drop_first()) {
                    Option::None => Option::None,
                    Option::Some(rest) => Option::Some(
                        seq![spec_leaf_row(child_path, child, lt, dt)] + rest,
                    ),
                },
            },
        }
    }
}

#[via_fn]
proof fn spec_load_children_decreases(path: Seq<char>, items: Seq<(String, Json)>) {
    if items.len() != 0 {
        assert(decreases_to!(items => items[0]));
        assert(decreases_to!(items[0] => items[0].1));
        assert(items.drop_first() =~= items.subrange(1, items.len() as int));
        assert(decreases_to!(items => items.subrange(1, items.len() as int)));
    }
}

/// The rows a whole document yields: each top-level member flattened as
/// a branch under its own name, in member order; a document whose top
/// level is not an object yields no rows.
pub open spec fn spec_load_doc(doc: Json) -> Option<Seq<SignalModel>> {
    match doc {
        Json::Obj(members) => spec_load_tops(members@),
        _ => Option::Some(Seq::empty()),
    }
}

/// The rows of a run of top-level members, in order.
pub open spec fn spec_load_tops(items: Seq<(String, Json)>) -> Option<Seq<SignalModel>>
    decreases items,
    via spec_load_tops_decreases
{
    if items.len() == 0 {
        Option::Some(Seq::empty())
    } else {
        match spec_load_branch(items[0].0@, items[0].1) {
            Option::None => Option::None,
            Option::Some(rows) => match spec_load_tops(items.drop_first()) {
                Option::None => Option::None,
                Option::Some(rest) => Option::Some(rows + rest),
            },
        }
    }
}

#[via_fn]
proof fn spec_load_tops_decreases(items: Seq<(String, Json)>) {
    if items.len() != 0 {
        assert(decreases_to!(items => items[0]));
        assert(decreases_to!(items[0] => items[0].1));
        assert(items.drop_first() =~= items.subrange(1, items.len() as int));
        assert(decreases_to!(items => items.subrange(1, items.len() as int)));
    }
}

/// Reads a node's declared classification, as `spec_node_type`
/// describes.
fn read_type(node: &Json) -> (r: Result<LeafType, VehicleShadowError>)
    ensures
        (r matches Result::Ok(lt) ==> spec_node_type(*node) == Option::Some(lt)),
        (r is Err ==> spec_node_type(*node) is None),
{
    match node.get("type") {
        Option::Some(t) => match t {
            Json::Str(s) => LeafType::from_str(s.as_str()),
            _ => Result::Err(VehicleShadowError::NotFound("type not found".to_owned())),
        },
        Option::None => Result::Err(VehicleShadowError::NotFound("type not found".to_owned())),
    }
}

/// Reads a node's declared type tag, as `spec_node_datatype` describes.
fn read_datatype(node: &Json) -> (r: Result<ValueType, VehicleShadowError>)
    ensures
        (r matches Result::Ok(vt) ==> spec_node_datatype(*node) == Option::Some(vt)),
        (r is Err ==> spec_node_datatype(*node) is None),
{
    match node.get("datatype") {
        Option::Some(t) => match t {
            Json::Str(s) => ValueType::from_str(s.as_str()),
            _ => Result::Err(
                VehicleShadowError::NotFound("datatype not found".to_owned()),
            ),
        },
        Option::None => Result::Err(
            VehicleShadowError::NotFound("datatype not found".to_owned()),
        ),
    }
}

/// Reads a node's seeded default value, as `spec_node_default`
/// describes.
fn read_default_value(node: &Json) -> (r: Value)
    ensures
        r@ == spec_node_default(*node),
{
    match node.get("default") {
        Option::Some(d) => match read_datatype(node) {
            Result::Ok(vt) => vt.build_value(d),
            Result::Err(_) => Value::NAN,
        },
        Option::None => Value::NAN,
    }
}

/// Builds the row of one leaf node.
fn create_signal(path: String, node: &Json) -> (r: Result<Signal, VehicleShadowError>)
    ensures
        (r matches Result::Ok(sig) ==> {
            &&& spec_node_type(*node) == Option::Some(sig@.config.leaf_type)
            &&& spec_node_datatype(*node) == Option::Some(sig@.config.data_type)
            &&& sig@ == spec_leaf_row(
                path@,
                *node,
                sig@.config.leaf_type,
                sig@.config.data_type,
            )
        }),
        (r is Err ==> spec_node_type(*node) is None || spec_node_datatype(*node) is None),
{
    let leaf_type = match read_type(node) {
        Result::Ok(lt) => lt,
        Result::Err(e) => {
            return Result::Err(e);
        },
    };
    let data_type = match read_datatype(node) {
        Result::Ok(vt) => vt,
        Result::Err(e) => {
            return Result::Err(e);
        },
    };
    let state = State {
        value: read_default_value(node),
        capability: false,
        availability: false,
        lock_token: Option::None,
        reserved: "reserved".to_owned(),
    };
    let config = Config {
        leaf_type,
        data_type,
        deprecation: Option::None,
        unit: Option::None,
        min: Option::None,
        max: Option::None,
        description: Option::None,
        comment: Option::None,
        allowed: Option::None,
        default: Option::None,
    };
    let sig = Signal { path, state, config };
    proof {
        assert(sig@ =~= spec_leaf_row(sig@.path, *node, leaf_type, data_type));
    }
    Result::Ok(sig)
}

/// Walks one branch node: every child under its `children` object
/// becomes either a row (a non-branch leaf, appended to the result) or
/// a nested branch walked in turn under the extended path.
#[verifier::loop_isolation(false)]
fn load_branch(path: &String, node: &Json, result: &mut Vec<Signal>) -> (r: Result<
    (),
    VehicleShadowError,
>)
    ensures
        final(result)@.len() >= old(result)@.len(),
        forall|k: int| 0 <= k < old(result)@.len() ==> (#[trigger] final(result)@[k])@ == old(
            result,
        )@[k]@,
        forall|k: int|
            old(result)@.len() <= k < final(result)@.len() ==> loaded_row_ok(
                (#[trigger] final(result)@[k])@,
            ),
        (match spec_load_branch(path@, *node) {
            Option::Some(rows) => r matches Result::Ok(()) && final(result)@.map_values(
                |s: Signal| s@,
            ) == old(result)@.map_values(|s: Signal| s@) + rows,
            Option::None => r is Err,
        }),
    decreases *node,
{
    let children = match node.get("children") {
        Option::Some(c) => c,
        Option::None => {
            return Result::Err(
                VehicleShadowError::NotFound("children not found".to_owned()),
            );
        },
    };
    match children {
        Json::Obj(members) => {
            let n = members.len();
            let mut i: usize = 0;
            proof {
                assert(members@.skip(0) =~= members@);
                assert(result@.map_values(|s: Signal| s@).skip(old(result)@.len() as int)
                    =~= Seq::<SignalModel>::empty());
                match spec_load_children(path@, members@) {
                    Option::Some(rest) => {
                        assert(Seq::<SignalModel>::empty() + rest =~= rest);
                    },
                    Option::None => {},
                }
            }
            while i < n
                invariant
                    n == members@.len(),
                    i <= n,
                    result@.len() >= old(result)@.len(),
                    forall|k: int| 0 <= k < old(result)@.len() ==> (
                    #[trigger] result@[k])@ == old(result)@[k]@,
                    forall|k: int|
                        old(result)@.len() <= k < result@.len() ==> loaded_row_ok(
                            (#[trigger] result@[k])@,
                        ),
                    (match spec_load_children(path@, members@.skip(i as int)) {
                        Option::Some(rest) => spec_load_children(path@, members@)
                            == Option::Some(
                            result@.map_values(|s: Signal| s@).skip(
                                old(result)@.len() as int,
                            ) + rest,
                        ),
                        Option::None => spec_load_children(path@, members@) is None,
                    }),
                decreases n - i,
            {
                let ghost added = result@.map_values(|s: Signal| s@).skip(
                    old(result)@.len() as int,
                );
                proof {
                    assert(members@.skip(i as int)[0] == members@[i as int]);
                    assert(members@.skip(i as int).drop_first() =~= members@.skip(i + 1));
                }
                let child_key = &members[i].0;
                let child = &members[i].1;
                let mut child_path = path.clone();
                child_path.append(".");
                child_path.append(child_key.as_str());
                proof {
                    assert(child_path@ == path@ + "."@ + members@[i as int].0@);
                }
                let child_leaf_type = match read_type(child) {
                    Result::Ok(lt) => lt,
                    Result::Err(e) => {
                        return Result::Err(e);
                    },
                };
                proof {
                    assert(decreases_to!(*children => members@[i as int].1)) by {
                        assert(decreases_to!(*children => *members));
                        assert(decreases_to!(*members => members@));
                        assert(decreases_to!(members@ => members@[i as int]));
                        assert(decreases_to!(members@[i as int] => members@[i as int].1));
                    }
                    assert(decreases_to!(*node => *children)) by {
                        match *node {
                            Json::Obj(node_members) => {
                                crate::json::lemma_find_member_witness(
                                    node_members@,
                                    "children"@,
                                );
                                let j = choose|j: int|
                                    0 <= j < node_members@.len() && (
                                    #[trigger] node_members@[j]).1
                                        == crate::json::spec_find_member(
                                        node_members@,
                                        "children"@,
                                    )->Some_0;
                                assert(decreases_to!(*node => node_members));
                                assert(decreases_to!(node_members => node_members@));
                                assert(decreases_to!(node_members@ => node_members@[j]));
                                assert(decreases_to!(node_members@[j] => node_members@[j].1));
                            },
                            _ => {
                                assert(false);
                            },
                        }
                    }
                }
                match child_leaf_type {
                    LeafType::Branch => {
                        match load_branch(&child_path, child, result) {
                            Result::Ok(()) => {
                                proof {
                                    let view_fn = |s: Signal| s@;
                                    let rows = spec_load_branch(
                                        child_path@,
                                        members@[i as int].1,
                                    )->Some_0;
                                    assert(result@.map_values(view_fn).skip(
                                        old(result)@.len() as int,
                                    ) =~= added + rows);
                                    match spec_load_children(path@, members@.skip(i + 1)) {
                                        Option::Some(rest) => {
                                            assert(added + (rows + rest) =~= (added + rows)
                                                + rest);
                                        },
                                        Option::None => {},
                                    }
                                }
                            },
                            Result::Err(e) => {
                                return Result::Err(e);
                            },
                        }
                    },
                    _ => {
                        let sig = match create_signal(child_path, child) {
                            Result::Ok(sig) => sig,
                            Result::Err(e) => {
                                return Result::Err(e);
                            },
                        };
                        proof {
                            assert(sig@.config.leaf_type != LeafType::Branch);
                        }
                        let ghost row = sig@;
                        result.push(sig);
                        proof {
                            let view_fn = |s: Signal| s@;
                            assert(result@.map_values(view_fn).skip(
                                old(result)@.len() as int,
                            ) =~= added.push(row));
                            match spec_load_children(path@, members@.skip(i + 1)) {
                                Option::Some(rest) => {
                                    assert(added + (seq![row] + rest) =~= added.push(row)
                                        + rest);
                                },
                                Option::None => {},
                            }
                        }
                    },
                }
                i = i + 1;
            }
            proof {
                assert(members@.skip(n as int) =~= Seq::<(String, Json)>::empty());
                let view_fn = |s: Signal| s@;
                let added = result@.map_values(view_fn).skip(old(result)@.len() as int);
                assert(added + Seq::<SignalModel>::empty() =~= added);
                assert(result@.map_values(view_fn) =~= old(result)@.map_values(view_fn)
                    + added);
            }
            Result::Ok(())
        },
        _ => Result::Err(
            VehicleShadowError::InvalidInput("children is not an object".to_owned()),
        ),
    }
}

/// Flattens a whole signal-definition document, as `spec_load_doc`
/// describes: every top-level member is walked as a branch, and the
/// produced rows are exactly the non-branch leaves, one row per leaf,
/// under dot-joined paths, in document order. A document whose top
/// level is not an object yields no rows.
#[verifier::loop_isolation(false)]
pub fn load_vss_document(doc: &Json) -> (r: Result<Vec<Signal>, VehicleShadowError>)
    ensures
        (r matches Result::Ok(rows) ==> forall|k: int|
            0 <= k < rows@.len() ==> loaded_row_ok((#[trigger] rows@[k])@)),
        (match spec_load_doc(*doc) {
            Option::Some(rows) => r matches Result::Ok(v) && v@.map_values(|s: Signal| s@)
                == rows,
            Option::None => r is Err,
        }),
{
    let mut result: Vec<Signal> = Vec::new();
    match doc {
        Json::Obj(members) => {
            let n = members.len();
            let mut i: usize = 0;
            proof {
                assert(members@.skip(0) =~= members@);
                assert(result@.map_values(|s: Signal| s@) =~= Seq::<SignalModel>::empty());
                match spec_load_tops(members@) {
                    Option::Some(rest) => {
                        assert(Seq::<SignalModel>::empty() + rest =~= rest);
                    },
                    Option::None => {},
                }
            }
            while i < n
                invariant
                    n == members@.len(),
                    i <= n,
                    forall|k: int| 0 <= k < result@.len() ==> loaded_row_ok(
                        (#[trigger] result@[k])@,
                    ),
                    (match spec_load_tops(members@.skip(i as int)) {
                        Option::Some(rest) => spec_load_tops(members@) == Option::Some(
                            result@.map_values(|s: Signal| s@) + rest,
                        ),
                        Option::None => spec_load_tops(members@) is None,
                    }),
                decreases n - i,
            {
                let ghost added = result@.map_values(|s: Signal| s@);
                proof {
                    assert(members@.skip(i as int)[0] == members@[i as int]);
                    assert(members@.skip(i as int).drop_first() =~= members@.skip(i + 1));
                }
                let path = members[i].0.clone();
                match load_branch(&path, &members[i].1, &mut result) {
                    Result::Ok(()) => {
                        proof {
                            let view_fn = |s: Signal| s@;
                            let rows = spec_load_branch(
                                members@[i as int].0@,
                                members@[i as int].1,
                            )->Some_0;
                            assert(result@.map_values(view_fn) =~= added + rows);
                            match spec_load_tops(members@.skip(i + 1)) {
                                Option::Some(rest) => {
                                    assert(added + (rows + rest) =~= (added + rows) + rest);
                                },
                                Option::None => {},
                            }
                        }
                    },
                    Result::Err(e) => {
                        return Result::Err(e);
                    },
                }
                i = i + 1;
            }
            proof {
                assert(members@.skip(n as int) =~= Seq::<(String, Json)>::empty());
                let view_fn = |s: Signal| s@;
                assert(result@.map_values(view_fn) + Seq::<SignalModel>::empty()
                    =~= result@.map_values(view_fn));
            }
            Result::Ok(result)
        },
        _ => {
            proof {
                assert(result@.map_values(|s: Signal| s@) =~= Seq::<SignalModel>::empty());
            }
            Result::Ok(result)
        },
    }
}

} // verus!
