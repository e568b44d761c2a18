//! Decoding loosely-typed input against a declared type tag.
//!
//! A leaf's declared `ValueType` steers how a JSON value is read into a
//! `Value`. A reading that does not fit the declared type yields the
//! no-value sentinel, never an error: the mismatch is non-fatal by
//! design.

use vstd::prelude::*;
use crate::json::Json;
use crate::signal::{Value, ValueModel, ValueType};

verus! {

/// The boolean reading of a JSON value.
pub open spec fn spec_json_bool(j: Json) -> Option<bool> {
    match j {
        Json::Bool(b) => Option::Some(b),
        _ => Option::None,
    }
}

/// The text reading of a JSON value.
pub open spec fn spec_json_str(j: Json) -> Option<Seq<char>> {
    match j {
        Json::Str(s) => Option::Some(s@),
        _ => Option::None,
    }
}

/// The signed 8-bit reading of a JSON value: an integer in range.
pub open spec fn spec_json_i8(j: Json) -> Option<i8> {
    match j {
        Json::Num(n) => match n.int_val {
            Option::Some(x) => if -128 <= x && x <= 127 {
                Option::Some(x as i8)
            } else {
                Option::None
            },
            Option::None => Option::None,
        },
        _ => Option::None,
    }
}

/// The signed 16-bit reading of a JSON value: an integer in range.
pub open spec fn spec_json_i16(j: Json) -> Option<i16> {
    match j {
        Json::Num(n) => match n.int_val {
            Option::Some(x) => if -32768 <= x && x <= 32767 {
                Option::Some(x as i16)
            } else {
                Option::None
            },
            Option::None => Option::None,
        },
        _ => Option::None,
    }
}

/// The signed 32-bit reading of a JSON value: an integer in range.
pub open spec fn spec_json_i32(j: Json) -> Option<i32> {
    match j {
        Json::Num(n) => match n.int_val {
            Option::Some(x) => if -2147483648 <= x && x <= 2147483647 {
                Option::Some(x as i32)
            } else {
                Option::None
            },
            Option::None => Option::None,
        },
        _ => Option::None,
    }
}

/// The signed 64-bit reading of a JSON value.
pub open spec fn spec_json_i64(j: Json) -> Option<i64> {
    match j {
        Json::Num(n) => n.int_val,
        _ => Option::None,
    }
}

/// The unsigned 8-bit reading of a JSON value: a non-negative integer in
/// range.
pub open spec fn spec_json_u8(j: Json) -> Option<u8> {
    match j {
        Json::Num(n) => match n.uint_val {
            Option::Some(x) => if x <= 255 {
                Option::Some(x as u8)
            } else {
                Option::None
            },
            Option::None => Option::None,
        },
        _ => Option::None,
    }
}

/// The unsigned 16-bit reading of a JSON value: a non-negative integer in
/// range.
pub open spec fn spec_json_u16(j: Json) -> Option<u16> {
    match j {
        Json::Num(n) => match n.uint_val {
            Option::Some(x) => if x <= 65535 {
                Option::Some(x as u16)
            } else {
                Option::None
            },
            Option::None => Option::None,
        },
        _ => Option::None,
    }
}

/// The unsigned 32-bit reading of a JSON value: a non-negative integer in
/// range.
pub open spec fn spec_json_u32(j: Json) -> Option<u32> {
    match j {
        Json::Num(n) => match n.uint_val {
            Option::Some(x) => if x <= 4294967295 {
                Option::Some(x as u32)
            } else {
                Option::None
            },
            Option::None => Option::None,
        },
        _ => Option::None,
    }
}

/// The unsigned 64-bit reading of a JSON value.
pub open spec fn spec_json_u64(j: Json) -> Option<u64> {
    match j {
        Json::Num(n) => n.uint_val,
        _ => Option::None,
    }
}

/// The single-precision reading of a JSON value: any number, by the bit
/// pattern fixed at the boundary.
pub open spec fn spec_json_f32_bits(j: Json) -> Option<u32> {
    match j {
        Json::Num(n) => Option::Some(n.float_bits),
        _ => Option::None,
    }
}

/// The double-precision reading of a JSON value: any number, by the bit
/// pattern fixed at the boundary.
pub open spec fn spec_json_f64_bits(j: Json) -> Option<u64> {
    match j {
        Json::Num(n) => Option::Some(n.double_bits),
        _ => Option::None,
    }
}

/// The value a declared type tag reads out of a JSON value.
///
/// A scalar or array that does not fit the tag yields `Nan`. An array
/// fits only where every element fits the element tag.
pub open spec fn spec_build_value(vt: ValueType, j: Json) -> ValueModel {
    match vt {
        ValueType::TypeNAN => ValueModel::Nan,
        ValueType::TypeBool => match spec_json_bool(j) {
            Option::Some(b) => ValueModel::Bool(b),
            Option::None => ValueModel::Nan,
        },
        ValueType::TypeString => match spec_json_str(j) {
            Option::Some(s) => ValueModel::Str(s),
            Option::None => ValueModel::Nan,
        },
        ValueType::TypeInt8 => match spec_json_i8(j) {
            Option::Some(x) => ValueModel::Int8(x),
            Option::None => ValueModel::Nan,
        },
        ValueType::TypeInt16 => match spec_json_i16(j) {
            Option::Some(x) => ValueModel::Int16(x),
            Option::None => ValueModel::Nan,
        },
        ValueType::TypeInt32 => match spec_json_i32(j) {
            Option::Some(x) => ValueModel::Int32(x),
            Option::None => ValueModel::Nan,
        },
        ValueType::TypeInt64 => match spec_json_i64(j) {
            Option::Some(x) => ValueModel::Int64(x),
            Option::None => ValueModel::Nan,
        },
        ValueType::TypeUint8 => match spec_json_u8(j) {
            Option::Some(x) => ValueModel::Uint8(x),
            Option::None => ValueModel::Nan,
        },
        ValueType::TypeUint16 => match spec_json_u16(j) {
            Option::Some(x) => ValueModel::Uint16(x),
            Option::None => ValueModel::Nan,
        },
        ValueType::TypeUint32 => match spec_json_u32(j) {
            Option::Some(x) => ValueModel::Uint32(x),
            Option::None => ValueModel::Nan,
        },
        ValueType::TypeUint64 => match spec_json_u64(j) {
            Option::Some(x) => ValueModel::Uint64(x),
            Option::None => ValueModel::Nan,
        },
        ValueType::TypeFloat => match spec_json_f32_bits(j) {
            Option::Some(x) => ValueModel::Float(x),
            Option::None => ValueModel::Nan,
        },
        ValueType::TypeDouble => match spec_json_f64_bits(j) {
            Option::Some(x) => ValueModel::Double(x),
            Option::None => ValueModel::Nan,
        },
        ValueType::TypeBoolArray => match j {
            Json::Arr(items) => if all_fit_bool(items@) {
                ValueModel::BoolArray(Seq::new(items@.len(), |k: int| spec_json_bool(items@[k])->Some_0))
            } else {
                ValueModel::Nan
            },
            _ => ValueModel::Nan,
        },
        ValueType::TypeStringArray => match j {
            Json::Arr(items) => if all_fit_str(items@) {
                ValueModel::StringArray(Seq::new(items@.len(), |k: int| spec_json_str(items@[k])->Some_0))
            } else {
                ValueModel::Nan
            },
            _ => ValueModel::Nan,
        },
        ValueType::TypeInt8Array => match j {
            Json::Arr(items) => if all_fit_i8(items@) {
                ValueModel::Int8Array(Seq::new(items@.len(), |k: int| spec_json_i8(items@[k])->Some_0))
            } else {
                ValueModel::Nan
            },
            _ => ValueModel::Nan,
        },
        ValueType::TypeInt16Array => match j {
            Json::Arr(items) => if all_fit_i16(items@) {
                ValueModel::Int16Array(Seq::new(items@.len(), |k: int| spec_json_i16(items@[k])->Some_0))
            } else {
                ValueModel::Nan
            },
            _ => ValueModel::Nan,
        },
        ValueType::TypeInt32Array => match j {
            Json::Arr(items) => if all_fit_i32(items@) {
                ValueModel::Int32Array(Seq::new(items@.len(), |k: int| spec_json_i32(items@[k])->Some_0))
            } else {
                ValueModel::Nan
            },
            _ => ValueModel::Nan,
        },
        ValueType::TypeInt64Array => match j {
            Json::Arr(items) => if all_fit_i64(items@) {
                ValueModel::Int64Array(Seq::new(items@.len(), |k: int| spec_json_i64(items@[k])->Some_0))
            } else {
                ValueModel::Nan
            },
            _ => ValueModel::Nan,
        },
        ValueType::TypeUint8Array => match j {
            Json::Arr(items) => if all_fit_u8(items@) {
                ValueModel::Uint8Array(Seq::new(items@.len(), |k: int| spec_json_u8(items@[k])->Some_0))
            } else {
                ValueModel::Nan
            },
            _ => ValueModel::Nan,
        },
        ValueType::TypeUint16Array => match j {
            Json::Arr(items) => if all_fit_u16(items@) {
                ValueModel::Uint16Array(Seq::new(items@.len(), |k: int| spec_json_u16(items@[k])->Some_0))
            } else {
                ValueModel::Nan
            },
            _ => ValueModel::Nan,
        },
        ValueType::TypeUint32Array => match j {
            Json::Arr(items) => if all_fit_u32(items@) {
                ValueModel::Uint32Array(Seq::new(items@.len(), |k: int| spec_json_u32(items@[k])->Some_0))
            } else {
                ValueModel::Nan
            },
            _ => ValueModel::Nan,
        },
        ValueType::TypeUint64Array => match j {
            Json::Arr(items) => if all_fit_u64(items@) {
                ValueModel::Uint64Array(Seq::new(items@.len(), |k: int| spec_json_u64(items@[k])->Some_0))
            } else {
                ValueModel::Nan
            },
            _ => ValueModel::Nan,
        },
        ValueType::TypeFloatArray => match j {
            Json::Arr(items) => if all_fit_f32(items@) {
                ValueModel::FloatArray(Seq::new(items@.len(), |k: int| spec_json_f32_bits(items@[k])->Some_0))
            } else {
                ValueModel::Nan
            },
            _ => ValueModel::Nan,
        },
        ValueType::TypeDoubleArray => match j {
            Json::Arr(items) => if all_fit_f64(items@) {
                ValueModel::DoubleArray(Seq::new(items@.len(), |k: int| spec_json_f64_bits(items@[k])->Some_0))
            } else {
                ValueModel::Nan
            },
            _ => ValueModel::Nan,
        },
    }
}

/// Every element has a boolean reading.
pub open spec fn all_fit_bool(items: Seq<Json>) -> bool {
    forall|k: int| 0 <= k < items.len() ==> spec_json_bool(#[trigger] items[k]) is Some
}

/// Every element has a text reading.
pub open spec fn all_fit_str(items: Seq<Json>) -> bool {
    forall|k: int| 0 <= k < items.len() ==> spec_json_str(#[trigger] items[k]) is Some
}

/// Every element has a signed 8-bit reading.
pub open spec fn all_fit_i8(items: Seq<Json>) -> bool {
    forall|k: int| 0 <= k < items.len() ==> spec_json_i8(#[trigger] items[k]) is Some
}

/// Every element has a signed 16-bit reading.
pub open spec fn all_fit_i16(items: Seq<Json>) -> bool {
    forall|k: int| 0 <= k < items.len() ==> spec_json_i16(#[trigger] items[k]) is Some
}

/// Every element has a signed 32-bit reading.
pub open spec fn all_fit_i32(items: Seq<Json>) -> bool {
    forall|k: int| 0 <= k < items.len() ==> spec_json_i32(#[trigger] items[k]) is Some
}

/// Every element has a signed 64-bit reading.
pub open spec fn all_fit_i64(items: Seq<Json>) -> bool {
    forall|k: int| 0 <= k < items.len() ==> spec_json_i64(#[trigger] items[k]) is Some
}

/// Every element has an unsigned 8-bit reading.
pub open spec fn all_fit_u8(items: Seq<Json>) -> bool {
    forall|k: int| 0 <= k < items.len() ==> spec_json_u8(#[trigger] items[k]) is Some
}

/// Every element has an unsigned 16-bit reading.
pub open spec fn all_fit_u16(items: Seq<Json>) -> bool {
    forall|k: int| 0 <= k < items.len() ==> spec_json_u16(#[trigger] items[k]) is Some
}

/// Every element has an unsigned 32-bit reading.
pub open spec fn all_fit_u32(items: Seq<Json>) -> bool {
    forall|k: int| 0 <= k < items.len() ==> spec_json_u32(#[trigger] items[k]) is Some
}

/// Every element has an unsigned 64-bit reading.
pub open spec fn all_fit_u64(items: Seq<Json>) -> bool {
    forall|k: int| 0 <= k < items.len() ==> spec_json_u64(#[trigger] items[k]) is Some
}

/// Every element has a single-precision reading.
pub open spec fn all_fit_f32(items: Seq<Json>) -> bool {
    forall|k: int| 0 <= k < items.len() ==> spec_json_f32_bits(#[trigger] items[k]) is Some
}

/// Every element has a double-precision reading.
pub open spec fn all_fit_f64(items: Seq<Json>) -> bool {
    forall|k: int| 0 <= k < items.len() ==> spec_json_f64_bits(#[trigger] items[k]) is Some
}

/// Reads the boolean out of a JSON value, as `spec_json_bool` describes.
pub(crate) fn json_bool(j: &Json) -> (r: Option<bool>)
    ensures
        r == spec_json_bool(*j),
{
    match j {
        Json::Bool(b) => Option::Some(*b),
        _ => Option::None,
    }
}

/// Reads the signed 8-bit integer out of a JSON value, as `spec_json_i8`
/// describes.
fn json_i8(j: &Json) -> (r: Option<i8>)
    ensures
        r == spec_json_i8(*j),
{
    match j {
        Json::Num(n) => match n.int_val {
            Option::Some(x) => if -128 <= x && x <= 127 {
                Option::Some(x as i8)
            } else {
                Option::None
            },
            Option::None => Option::None,
        },
        _ => Option::None,
    }
}

/// Reads the signed 16-bit integer out of a JSON value, as `spec_json_i16`
/// describes.
fn json_i16(j: &Json) -> (r: Option<i16>)
    ensures
        r == spec_json_i16(*j),
{
    match j {
        Json::Num(n) => match n.int_val {
            Option::Some(x) => if -32768 <= x && x <= 32767 {
                Option::Some(x as i16)
            } else {
                Option::None
            },
            Option::None => Option::None,
        },
        _ => Option::None,
    }
}

/// Reads the signed 32-bit integer out of a JSON value, as `spec_json_i32`
/// describes.
pub(crate) fn json_i32(j: &Json) -> (r: Option<i32>)
    ensures
        r == spec_json_i32(*j),
{
    match j {
        Json::Num(n) => match n.int_val {
            Option::Some(x) => if -2147483648 <= x && x <= 2147483647 {
                Option::Some(x as i32)
            } else {
                Option::None
            },
            Option::None => Option::None,
        },
        _ => Option::None,
    }
}

/// Reads the signed 64-bit integer out of a JSON value, as `spec_json_i64`
/// describes.
fn json_i64(j: &Json) -> (r: Option<i64>)
    ensures
        r == spec_json_i64(*j),
{
    match j {
        Json::Num(n) => n.int_val,
        _ => Option::None,
    }
}

/// Reads the unsigned 8-bit integer out of a JSON value, as `spec_json_u8`
/// describes.
fn json_u8(j: &Json) -> (r: Option<u8>)
    ensures
        r == spec_json_u8(*j),
{
    match j {
        Json::Num(n) => match n.uint_val {
            Option::Some(x) => if x <= 255 {
                Option::Some(x as u8)
            } else {
                Option::None
            },
            Option::None => Option::None,
        },
        _ => Option::None,
    }
}

/// Reads the unsigned 16-bit integer out of a JSON value, as
/// `spec_json_u16` describes.
fn json_u16(j: &Json) -> (r: Option<u16>)
    ensures
        r == spec_json_u16(*j),
{
    match j {
        Json::Num(n) => match n.uint_val {
            Option::Some(x) => if x <= 65535 {
                Option::Some(x as u16)
            } else {
                Option::None
            },
            Option::None => Option::None,
        },
        _ => Option::None,
    }
}

/// Reads the unsigned 32-bit integer out of a JSON value, as
/// `spec_json_u32` describes.
fn json_u32(j: &Json) -> (r: Option<u32>)
    ensures
        r == spec_json_u32(*j),
{
    match j {
        Json::Num(n) => match n.uint_val {
            Option::Some(x) => if x <= 4294967295 {
                Option::Some(x as u32)
            } else {
                Option::None
            },
            Option::None => Option::None,
        },
        _ => Option::None,
    }
}

/// Reads the unsigned 64-bit integer out of a JSON value, as
/// `spec_json_u64` describes.
fn json_u64(j: &Json) -> (r: Option<u64>)
    ensures
        r == spec_json_u64(*j),
{
    match j {
        Json::Num(n) => n.uint_val,
        _ => Option::None,
    }
}

/// Reads the single-precision bit pattern out of a JSON value, as
/// `spec_json_f32_bits` describes.
fn json_f32_bits(j: &Json) -> (r: Option<u32>)
    ensures
        r == spec_json_f32_bits(*j),
{
    match j {
        Json::Num(n) => Option::Some(n.float_bits),
        _ => Option::None,
    }
}

/// Reads the double-precision bit pattern out of a JSON value, as
/// `spec_json_f64_bits` describes.
fn json_f64_bits(j: &Json) -> (r: Option<u64>)
    ensures
        r == spec_json_f64_bits(*j),
{
    match j {
        Json::Num(n) => Option::Some(n.double_bits),
        _ => Option::None,
    }
}

impl ValueType {
    /// Decodes a JSON value against this declared type tag, as
    /// `spec_build_value` describes: the fitting reading, or the no-value
    /// sentinel where it does not fit.
    #[verifier::loop_isolation(false)]
    pub fn build_value(&self, value: &Json) -> (r: Value)
        ensures
            r@ == spec_build_value(*self, *value),
    {
        match self {
            ValueType::TypeNAN => Value::NAN,
            ValueType::TypeBool => match json_bool(value) {
                Option::Some(b) => Value::Bool(b),
                Option::None => Value::NAN,
            },
            ValueType::TypeString => match value {
                Json::Str(s) => Value::String(s.clone()),
                _ => Value::NAN,
            },
            ValueType::TypeInt8 => match json_i8(value) {
                Option::Some(x) => Value::Int8(x),
                Option::None => Value::NAN,
            },
            ValueType::TypeInt16 => match json_i16(value) {
                Option::Some(x) => Value::Int16(x),
                Option::None => Value::NAN,
            },
            ValueType::TypeInt32 => match json_i32(value) {
                Option::Some(x) => Value::Int32(x),
                Option::None => Value::NAN,
            },
            ValueType::TypeInt64 => match json_i64(value) {
                Option::Some(x) => Value::Int64(x),
                Option::None => Value::NAN,
            },
            ValueType::TypeUint8 => match json_u8(value) {
                Option::Some(x) => Value::Uint8(x),
                Option::None => Value::NAN,
            },
            ValueType::TypeUint16 => match json_u16(value) {
                Option::Some(x) => Value::Uint16(x),
                Option::None => Value::NAN,
            },
            ValueType::TypeUint32 => match json_u32(value) {
                Option::Some(x) => Value::Uint32(x),
                Option::None => Value::NAN,
            },
            ValueType::TypeUint64 => match json_u64(value) {
                Option::Some(x) => Value::Uint64(x),
                Option::None => Value::NAN,
            },
            ValueType::TypeFloat => match json_f32_bits(value) {
                Option::Some(x) => Value::Float(x),
                Option::None => Value::NAN,
            },
            ValueType::TypeDouble => match json_f64_bits(value) {
                Option::Some(x) => Value::Double(x),
                Option::None => Value::NAN,
            },
            ValueType::TypeBoolArray => match value {
                Json::Arr(items) => {
                    let mut out: Vec<bool> = Vec::new();
                    let n = items.len();
                    let mut i: usize = 0;
                    while i < n
                        invariant
                            n == items@.len(),
                            i <= n,
                            out@.len() == i,
                            forall|k: int| 0 <= k < i ==> spec_json_bool(#[trigger] items@[k])
                                == Option::Some(out@[k]),
                        decreases n - i,
                    {
                        match json_bool(&items[i]) {
                            Option::Some(x) => out.push(x),
                            Option::None => {
                                return Value::NAN;
                            },
                        }
                        i = i + 1;
                    }
                    proof {
                        assert(out@ =~= Seq::new(
                            items@.len(),
                            |k: int| spec_json_bool(items@[k])->Some_0,
                        ));
                    }
                    Value::BoolArray(out)
                },
                _ => Value::NAN,
            },
            ValueType::TypeStringArray => match value {
                Json::Arr(items) => {
                    let mut out: Vec<String> = Vec::new();
                    let n = items.len();
                    let mut i: usize = 0;
                    while i < n
                        invariant
                            n == items@.len(),
                            i <= n,
                            out@.len() == i,
                            forall|k: int| 0 <= k < i ==> spec_json_str(#[trigger] items@[k])
                                == Option::Some(out@[k]@),
                        decreases n - i,
                    {
                        match &items[i] {
                            Json::Str(s) => out.push(s.clone()),
                            _ => {
                                return Value::NAN;
                            },
                        }
                        i = i + 1;
                    }
                    proof {
                        assert(out.deep_view() =~= Seq::new(
                            items@.len(),
                            |k: int| spec_json_str(items@[k])->Some_0,
                        ));
                    }
                    Value::StringArray(out)
                },
                _ => Value::NAN,
            },
            ValueType::TypeInt8Array => match value {
                Json::Arr(items) => {
                    let mut out: Vec<i8> = Vec::new();
                    let n = items.len();
                    let mut i: usize = 0;
                    while i < n
                        invariant
                            n == items@.len(),
                            i <= n,
                            out@.len() == i,
                            forall|k: int| 0 <= k < i ==> spec_json_i8(#[trigger] items@[k])
                                == Option::Some(out@[k]),
                        decreases n - i,
                    {
                        match json_i8(&items[i]) {
                            Option::Some(x) => out.push(x),
                            Option::None => {
                                return Value::NAN;
                            },
                        }
                        i = i + 1;
                    }
                    proof {
                        assert(out@ =~= Seq::new(
                            items@.len(),
                            |k: int| spec_json_i8(items@[k])->Some_0,
                        ));
                    }
                    Value::Int8Array(out)
                },
                _ => Value::NAN,
            },
            ValueType::TypeInt16Array => match value {
                Json::Arr(items) => {
                    let mut out: Vec<i16> = Vec::new();
                    let n = items.len();
                    let mut i: usize = 0;
                    while i < n
                        invariant
                            n == items@.len(),
                            i <= n,
                            out@.len() == i,
                            forall|k: int| 0 <= k < i ==> spec_json_i16(#[trigger] items@[k])
                                == Option::Some(out@[k]),
                        decreases n - i,
                    {
                        match json_i16(&items[i]) {
                            Option::Some(x) => out.push(x),
                            Option::None => {
                                return Value::NAN;
                            },
                        }
                        i = i + 1;
                    }
                    proof {
                        assert(out@ =~= Seq::new(
                            items@.len(),
                            |k: int| spec_json_i16(items@[k])->Some_0,
                        ));
                    }
                    Value::Int16Array(out)
                },
                _ => Value::NAN,
            },
            ValueType::TypeInt32Array => match value {
                Json::Arr(items) => {
                    let mut out: Vec<i32> = Vec::new();
                    let n = items.len();
                    let mut i: usize = 0;
                    while i < n
                        invariant
                            n == items@.len(),
                            i <= n,
                            out@.len() == i,
                            forall|k: int| 0 <= k < i ==> spec_json_i32(#[trigger] items@[k])
                                == Option::Some(out@[k]),
                        decreases n - i,
                    {
                        match json_i32(&items[i]) {
                            Option::Some(x) => out.push(x),
                            Option::None => {
                                return Value::NAN;
                            },
                        }
                        i = i + 1;
                    }
                    proof {
                        assert(out@ =~= Seq::new(
                            items@.len(),
                            |k: int| spec_json_i32(items@[k])->Some_0,
                        ));
                    }
                    Value::Int32Array(out)
                },
                _ => Value::NAN,
            },
            ValueType::TypeInt64Array => match value {
                Json::Arr(items) => {
                    let mut out: Vec<i64> = Vec::new();
                    let n = items.len();
                    let mut i: usize = 0;
                    while i < n
                        invariant
                            n == items@.len(),
                            i <= n,
                            out@.len() == i,
                            forall|k: int| 0 <= k < i ==> spec_json_i64(#[trigger] items@[k])
                                == Option::Some(out@[k]),
                        decreases n - i,
                    {
                        match json_i64(&items[i]) {
                            Option::Some(x) => out.push(x),
                            Option::None => {
                                return Value::NAN;
                            },
                        }
                        i = i + 1;
                    }
                    proof {
                        assert(out@ =~= Seq::new(
                            items@.len(),
                            |k: int| spec_json_i64(items@[k])->Some_0,
                        ));
                    }
                    Value::Int64Array(out)
                },
                _ => Value::NAN,
            },
            ValueType::TypeUint8Array => match value {
                Json::Arr(items) => {
                    let mut out: Vec<u8> = Vec::new();
                    let n = items.len();
                    let mut i: usize = 0;
                    while i < n
                        invariant
                            n == items@.len(),
                            i <= n,
                            out@.len() == i,
                            forall|k: int| 0 <= k < i ==> spec_json_u8(#[trigger] items@[k])
                                == Option::Some(out@[k]),
                        decreases n - i,
                    {
                        match json_u8(&items[i]) {
                            Option::Some(x) => out.push(x),
                            Option::None => {
                                return Value::NAN;
                            },
                        }
                        i = i + 1;
                    }
                    proof {
                        assert(out@ =~= Seq::new(
                            items@.len(),
                            |k: int| spec_json_u8(items@[k])->Some_0,
                        ));
                    }
                    Value::Uint8Array(out)
                },
                _ => Value::NAN,
            },
            ValueType::TypeUint16Array => match value {
                Json::Arr(items) => {
                    let mut out: Vec<u16> = Vec::new();
                    let n = items.len();
                    let mut i: usize = 0;
                    while i < n
                        invariant
                            n == items@.len(),
                            i <= n,
                            out@.len() == i,
                            forall|k: int| 0 <= k < i ==> spec_json_u16(#[trigger] items@[k])
                                == Option::Some(out@[k]),
                        decreases n - i,
                    {
                        match json_u16(&items[i]) {
                            Option::Some(x) => out.push(x),
                            Option::None => {
                                return Value::NAN;
                            },
                        }
                        i = i + 1;
                    }
                    proof {
                        assert(out@ =~= Seq::new(
                            items@.len(),
                            |k: int| spec_json_u16(items@[k])->Some_0,
                        ));
                    }
                    Value::Uint16Array(out)
                },
                _ => Value::NAN,
            },
            ValueType::TypeUint32Array => match value {
                Json::Arr(items) => {
                    let mut out: Vec<u32> = Vec::new();
                    let n = items.len();
                    let mut i: usize = 0;
                    while i < n
                        invariant
                            n == items@.len(),
                            i <= n,
                            out@.len() == i,
                            forall|k: int| 0 <= k < i ==> spec_json_u32(#[trigger] items@[k])
                                == Option::Some(out@[k]),
                        decreases n - i,
                    {
                        match json_u32(&items[i]) {
                            Option::Some(x) => out.push(x),
                            Option::None => {
                                return Value::NAN;
                            },
                        }
                        i = i + 1;
                    }
                    proof {
                        assert(out@ =~= Seq::new(
                            items@.len(),
                            |k: int| spec_json_u32(items@[k])->Some_0,
                        ));
                    }
                    Value::Uint32Array(out)
                },
                _ => Value::NAN,
            },
            ValueType::TypeUint64Array => match value {
                Json::Arr(items) => {
                    let mut out: Vec<u64> = Vec::new();
                    let n = items.len();
                    let mut i: usize = 0;
                    while i < n
                        invariant
                            n == items@.len(),
                            i <= n,
                            out@.len() == i,
                            forall|k: int| 0 <= k < i ==> spec_json_u64(#[trigger] items@[k])
                                == Option::Some(out@[k]),
                        decreases n - i,
                    {
                        match json_u64(&items[i]) {
                            Option::Some(x) => out.push(x),
                            Option::None => {
                                return Value::NAN;
                            },
                        }
                        i = i + 1;
                    }
                    proof {
                        assert(out@ =~= Seq::new(
                            items@.len(),
                            |k: int| spec_json_u64(items@[k])->Some_0,
                        ));
                    }
                    Value::Uint64Array(out)
                },
                _ => Value::NAN,
            },
            ValueType::TypeFloatArray => match value {
                Json::Arr(items) => {
                    let mut out: Vec<u32> = Vec::new();
                    let n = items.len();
                    let mut i: usize = 0;
                    while i < n
                        invariant
                            n == items@.len(),
                            i <= n,
                            out@.len() == i,
                            forall|k: int| 0 <= k < i ==> spec_json_f32_bits(#[trigger] items@[k])
                                == Option::Some(out@[k]),
                        decreases n - i,
                    {
                        match json_f32_bits(&items[i]) {
                            Option::Some(x) => out.push(x),
                            Option::None => {
                                return Value::NAN;
                            },
                        }
                        i = i + 1;
                    }
                    proof {
                        assert(out@ =~= Seq::new(
                            items@.len(),
                            |k: int| spec_json_f32_bits(items@[k])->Some_0,
                        ));
                    }
                    Value::FloatArray(out)
                },
                _ => Value::NAN,
            },
            ValueType::TypeDoubleArray => match value {
                Json::Arr(items) => {
                    let mut out: Vec<u64> = Vec::new();
                    let n = items.len();
                    let mut i: usize = 0;
                    while i < n
                        invariant
                            n == items@.len(),
                            i <= n,
                            out@.len() == i,
                            forall|k: int| 0 <= k < i ==> spec_json_f64_bits(#[trigger] items@[k])
                                == Option::Some(out@[k]),
                        decreases n - i,
                    {
                        match json_f64_bits(&items[i]) {
                            Option::Some(x) => out.push(x),
                            Option::None => {
                                return Value::NAN;
                            },
                        }
                        i = i + 1;
                    }
                    proof {
                        assert(out@ =~= Seq::new(
                            items@.len(),
                            |k: int| spec_json_f64_bits(items@[k])->Some_0,
                        ));
                    }
                    Value::DoubleArray(out)
                },
                _ => Value::NAN,
            },
        }
    }
}

} // verus!
