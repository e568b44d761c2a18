//! Client-side parsing: loosely-typed JSON values read into wire form.
//!
//! This is the best-effort inference path, independent of declared-type
//! decoding: booleans and strings map directly; an integral number
//! fitting signed 32 bits becomes a 32-bit value, a wider integer a
//! 64-bit one, anything else a double; an array takes its kind from its
//! first element and supports boolean, string and 32-bit integer
//! elements only; an empty array is invalid input.

use vstd::prelude::*;
use vstd::string::StringExecFns;
use crate::decode::{
    all_fit_bool, all_fit_i32, all_fit_str, json_bool, json_i32, spec_json_bool, spec_json_i32,
    spec_json_str,
};
use crate::error::ClientError;
use crate::json::Json;
use crate::wire::{WireKind, WireKindModel, WireState, WireStateModel, WireValue};

verus! {

/// The wire one-of inferred from a JSON value, or nothing where the
/// shape is unsupported: a non-empty array of a supported element kind,
/// a number, a boolean or a string.
pub open spec fn spec_infer(j: Json) -> Option<WireKindModel> {
    match j {
        Json::Bool(b) => Option::Some(WireKindModel::BoolValue(b)),
        Json::Str(s) => Option::Some(WireKindModel::StringValue(s@)),
        Json::Num(n) => match n.int_val {
            Option::Some(i) => if -2147483648 <= i && i <= 2147483647 {
                Option::Some(WireKindModel::Int32Value(i as i32))
            } else {
                Option::Some(WireKindModel::Int64Value(i))
            },
            Option::None => Option::Some(WireKindModel::DoubleValue(n.double_bits)),
        },
        Json::Arr(items) => if items@.len() == 0 {
            Option::None
        } else {
            match items@[0] {
                Json::Bool(_) => if all_fit_bool(items@) {
                    Option::Some(
                        WireKindModel::BoolArrayValue(
                            Seq::new(items@.len(), |k: int| spec_json_bool(items@[k])->Some_0),
                        ),
                    )
                } else {
                    Option::None
                },
                Json::Str(_) => if all_fit_str(items@) {
                    Option::Some(
                        WireKindModel::StringArrayValue(
                            Seq::new(items@.len(), |k: int| spec_json_str(items@[k])->Some_0),
                        ),
                    )
                } else {
                    Option::None
                },
                Json::Num(_) => if all_fit_i32(items@) {
                    Option::Some(
                        WireKindModel::Int32ArrayValue(
                            Seq::new(items@.len(), |k: int| spec_json_i32(items@[k])->Some_0),
                        ),
                    )
                } else {
                    Option::None
                },
                _ => Option::None,
            }
        },
        _ => Option::None,
    }
}

/// Parses a JSON value into a wire value by inference, as `spec_infer`
/// describes; an unsupported shape is invalid input.
#[verifier::loop_isolation(false)]
pub fn parse_value_from_json(json: &Json) -> (r: Result<WireValue, ClientError>)
    ensures
        match spec_infer(*json) {
            Option::Some(k) => r matches Result::Ok(w) && w@ == Option::Some(k),
            Option::None => r matches Result::Err(e) && e is InvalidInput,
        },
        (*json matches Json::Arr(items) ==> (items@.len() == 0 ==> (r matches Result::Err(e)
            && (e matches ClientError::InvalidInput(m) && m@
            == "Empty arrays are not supported"@)))),
{
    match json {
        Json::Bool(b) => Result::Ok(WireValue { value: Option::Some(WireKind::BoolValue(*b)) }),
        Json::Str(s) => Result::Ok(
            WireValue { value: Option::Some(WireKind::StringValue(s.clone())) },
        ),
        Json::Num(n) => match n.int_val {
            Option::Some(i) => {
                if -2147483648 <= i && i <= 2147483647 {
                    Result::Ok(
                        WireValue { value: Option::Some(WireKind::Int32Value(i as i32)) },
                    )
                } else {
                    Result::Ok(WireValue { value: Option::Some(WireKind::Int64Value(i)) })
                }
            },
            Option::None => Result::Ok(
                WireValue { value: Option::Some(WireKind::DoubleValue(n.double_bits)) },
            ),
        },
        Json::Arr(items) => {
            if items.len() == 0 {
                return Result::Err(
                    ClientError::InvalidInput("Empty arrays are not supported".to_owned()),
                );
            }
            match &items[0] {
                Json::Bool(_) => {
                    let mut out: Vec<bool> = Vec::new();
                    let n = items.len();
                    let mut i: usize = 0;
                    while i < n
                        invariant
                            n == items@.len(),
                            i <= n,
                            out@.len() == i,
                            forall|k: int| 0 <= k < i ==> spec_json_bool(#[trigger] items@[k])
                                == Option::Some(out@[k]),
                        decreases n - i,
                    {
                        match json_bool(&items[i]) {
                            Option::Some(x) => out.push(x),
                            Option::None => {
                                return Result::Err(
                                    ClientError::InvalidInput(
                                        "Invalid boolean value".to_owned(),
                                    ),
                                );
                            },
                        }
                        i = i + 1;
                    }
                    proof {
                        assert(out@ =~= Seq::new(
                            items@.len(),
                            |k: int| spec_json_bool(items@[k])->Some_0,
                        ));
                    }
                    Result::Ok(
                        WireValue { value: Option::Some(WireKind::BoolArrayValue(out)) },
                    )
                },
                Json::Str(_) => {
                    let mut out: Vec<String> = Vec::new();
                    let n = items.len();
                    let mut i: usize = 0;
                    while i < n
                        invariant
                            n == items@.len(),
                            i <= n,
                            out@.len() == i,
                            forall|k: int| 0 <= k < i ==> spec_json_str(#[trigger] items@[k])
                                == Option::Some(out@[k]@),
                        decreases n - i,
                    {
                        match &items[i] {
                            Json::Str(s) => out.push(s.clone()),
                            _ => {
                                return Result::Err(
                                    ClientError::InvalidInput(
                                        "Invalid string value".to_owned(),
                                    ),
                                );
                            },
                        }
                        i = i + 1;
                    }
                    proof {
                        assert(out.deep_view() =~= Seq::new(
                            items@.len(),
                            |k: int| spec_json_str(items@[k])->Some_0,
                        ));
                    }
                    Result::Ok(
                        WireValue { value: Option::Some(WireKind::StringArrayValue(out)) },
                    )
                },
                Json::Num(_) => {
                    let mut out: Vec<i32> = Vec::new();
                    let n = items.len();
                    let mut i: usize = 0;
                    while i < n
                        invariant
                            n == items@.len(),
                            i <= n,
                            out@.len() == i,
                            forall|k: int| 0 <= k < i ==> spec_json_i32(#[trigger] items@[k])
                                == Option::Some(out@[k]),
                        decreases n - i,
                    {
                        match json_i32(&items[i]) {
                            Option::Some(x) => out.push(x),
                            Option::None => {
                                return Result::Err(
                                    ClientError::InvalidInput(
                                        "Invalid integer value".to_owned(),
                                    ),
                                );
                            },
                        }
                        i = i + 1;
                    }
                    proof {
                        assert(out@ =~= Seq::new(
                            items@.len(),
                            |k: int| spec_json_i32(items@[k])->Some_0,
                        ));
                    }
                    Result::Ok(
                        WireValue { value: Option::Some(WireKind::Int32ArrayValue(out)) },
                    )
                },
                _ => Result::Err(
                    ClientError::InvalidInput("Unsupported array element type".to_owned()),
                ),
            }
        },
        _ => Result::Err(
            ClientError::InvalidInput("Unsupported JSON value type".to_owned()),
        ),
    }
}

/// The partial state read from a JSON value.
///
/// An object contributes each of its recognized members: `value` parsed
/// by inference (and failing the whole read where unsupported),
/// `capability` and `availability` where boolean, `reserved` where a
/// string. Any other JSON value is read as a bare `value`.
pub open spec fn spec_parse_state(j: Json) -> Option<WireStateModel> {
    match j {
        Json::Obj(members) => {
            match j.spec_get("value"@) {
                Option::Some(vj) => match spec_infer(vj) {
                    Option::Some(k) => Option::Some(
                        WireStateModel {
                            value: Option::Some(Option::Some(k)),
                            capability: spec_opt_bool_member(j, "capability"@),
                            availability: spec_opt_bool_member(j, "availability"@),
                            reserved: spec_opt_str_member(j, "reserved"@),
                        },
                    ),
                    Option::None => Option::None,
                },
                Option::None => Option::Some(
                    WireStateModel {
                        value: Option::None,
                        capability: spec_opt_bool_member(j, "capability"@),
                        availability: spec_opt_bool_member(j, "availability"@),
                        reserved: spec_opt_str_member(j, "reserved"@),
                    },
                ),
            }
        },
        _ => match spec_infer(j) {
            Option::Some(k) => Option::Some(
                WireStateModel {
                    value: Option::Some(Option::Some(k)),
                    capability: Option::None,
                    availability: Option::None,
                    reserved: Option::None,
                },
            ),
            Option::None => Option::None,
        },
    }
}

/// The boolean member under a key, where present and boolean.
pub open spec fn spec_opt_bool_member(j: Json, key: Seq<char>) -> Option<bool> {
    match j.spec_get(key) {
        Option::Some(m) => spec_json_bool(m),
        Option::None => Option::None,
    }
}

/// The text member under a key, where present and a string.
pub open spec fn spec_opt_str_member(j: Json, key: Seq<char>) -> Option<Seq<char>> {
    match j.spec_get(key) {
        Option::Some(m) => spec_json_str(m),
        Option::None => Option::None,
    }
}

/// Reads the boolean member under a key.
fn opt_bool_member(j: &Json, key: &str) -> (r: Option<bool>)
    ensures
        r == spec_opt_bool_member(*j, key@),
{
    match j.get(key) {
        Option::Some(m) => json_bool(m),
        Option::None => Option::None,
    }
}

/// Reads the text member under a key.
fn opt_str_member(j: &Json, key: &str) -> (r: Option<String>)
    ensures
        crate::signal::opt_str_view(r) == spec_opt_str_member(*j, key@),
{
    match j.get(key) {
        Option::Some(m) => match m {
            Json::Str(s) => Option::Some(s.clone()),
            _ => Option::None,
        },
        Option::None => Option::None,
    }
}

/// Parses a JSON value into a partial state, as `spec_parse_state`
/// describes; an unsupported shape is invalid input.
pub fn parse_state_from_json(json: &Json) -> (r: Result<WireState, ClientError>)
    ensures
        match spec_parse_state(*json) {
            Option::Some(st) => r matches Result::Ok(w) && w@ == st,
            Option::None => r matches Result::Err(e) && e is InvalidInput,
        },
{
    match json {
        Json::Obj(_) => {
            let value = match json.get("value") {
                Option::Some(vj) => match parse_value_from_json(vj) {
                    Result::Ok(w) => Option::Some(w),
                    Result::Err(e) => {
                        return Result::Err(e);
                    },
                },
                Option::None => Option::None,
            };
            Result::Ok(
                WireState {
                    value,
                    capability: opt_bool_member(json, "capability"),
                    availability: opt_bool_member(json, "availability"),
                    reserved: opt_str_member(json, "reserved"),
                },
            )
        },
        _ => match parse_value_from_json(json) {
            Result::Ok(w) => Result::Ok(
                WireState {
                    value: Option::Some(w),
                    capability: Option::None,
                    availability: Option::None,
                    reserved: Option::None,
                },
            ),
            Result::Err(e) => Result::Err(e),
        },
    }
}

} // verus!
