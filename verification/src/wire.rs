//! The wire form of signal data: the one-of value mapping, the message
//! shapes of the remote interface, and the conversions between wire and
//! internal representations.
//!
//! The wire value is a one-of covering every scalar and array `Value`
//! kind; an absent one-of stands for the no-value sentinel. Narrow
//! integers travel widened (8- and 16-bit kinds ride in 32-bit fields);
//! decoding truncates them back, so the round trip is the identity on
//! every `Value`.

use vstd::prelude::*;
use crate::signal::{
    clone_opt_string, clone_prim_vec, clone_string_vec, opt_str_view, LeafType, State, StateModel,
    Signal, Value, ValueModel, ValueType,
};

verus! {

/// The one-of carried by a wire value.
#[derive(Debug, PartialEq)]
pub enum WireKind {
    BoolValue(bool),
    StringValue(String),
    Int8Value(i32),
    Int16Value(i32),
    Int32Value(i32),
    Int64Value(i64),
    Uint8Value(u32),
    Uint16Value(u32),
    Uint32Value(u32),
    Uint64Value(u64),
    FloatValue(u32),
    DoubleValue(u64),
    BoolArrayValue(Vec<bool>),
    StringArrayValue(Vec<String>),
    Int8ArrayValue(Vec<i32>),
    Int16ArrayValue(Vec<i32>),
    Int32ArrayValue(Vec<i32>),
    Int64ArrayValue(Vec<i64>),
    Uint8ArrayValue(Vec<u32>),
    Uint16ArrayValue(Vec<u32>),
    Uint32ArrayValue(Vec<u32>),
    Uint64ArrayValue(Vec<u64>),
    FloatArrayValue(Vec<u32>),
    DoubleArrayValue(Vec<u64>),
}

/// The mathematical shape of a wire one-of.
#[verifier::ext_equal]
pub enum WireKindModel {
    BoolValue(bool),
    StringValue(Seq<char>),
    Int8Value(i32),
    Int16Value(i32),
    Int32Value(i32),
    Int64Value(i64),
    Uint8Value(u32),
    Uint16Value(u32),
    Uint32Value(u32),
    Uint64Value(u64),
    FloatValue(u32),
    DoubleValue(u64),
    BoolArrayValue(Seq<bool>),
    StringArrayValue(Seq<Seq<char>>),
    Int8ArrayValue(Seq<i32>),
    Int16ArrayValue(Seq<i32>),
    Int32ArrayValue(Seq<i32>),
    Int64ArrayValue(Seq<i64>),
    Uint8ArrayValue(Seq<u32>),
    Uint16ArrayValue(Seq<u32>),
    Uint32ArrayValue(Seq<u32>),
    Uint64ArrayValue(Seq<u64>),
    FloatArrayValue(Seq<u32>),
    DoubleArrayValue(Seq<u64>),
}

impl View for WireKind {
    type V = WireKindModel;

    open spec fn view(&self) -> WireKindModel {
        match self {
            WireKind::BoolValue(x) => WireKindModel::BoolValue(*x),
            WireKind::StringValue(s) => WireKindModel::StringValue(s@),
            WireKind::Int8Value(x) => WireKindModel::Int8Value(*x),
            WireKind::Int16Value(x) => WireKindModel::Int16Value(*x),
            WireKind::Int32Value(x) => WireKindModel::Int32Value(*x),
            WireKind::Int64Value(x) => WireKindModel::Int64Value(*x),
            WireKind::Uint8Value(x) => WireKindModel::Uint8Value(*x),
            WireKind::Uint16Value(x) => WireKindModel::Uint16Value(*x),
            WireKind::Uint32Value(x) => WireKindModel::Uint32Value(*x),
            WireKind::Uint64Value(x) => WireKindModel::Uint64Value(*x),
            WireKind::FloatValue(x) => WireKindModel::FloatValue(*x),
            WireKind::DoubleValue(x) => WireKindModel::DoubleValue(*x),
            WireKind::BoolArrayValue(v) => WireKindModel::BoolArrayValue(v@),
            WireKind::StringArrayValue(v) => WireKindModel::StringArrayValue(v.deep_view()),
            WireKind::Int8ArrayValue(v) => WireKindModel::Int8ArrayValue(v@),
            WireKind::Int16ArrayValue(v) => WireKindModel::Int16ArrayValue(v@),
            WireKind::Int32ArrayValue(v) => WireKindModel::Int32ArrayValue(v@),
            WireKind::Int64ArrayValue(v) => WireKindModel::Int64ArrayValue(v@),
            WireKind::Uint8ArrayValue(v) => WireKindModel::Uint8ArrayValue(v@),
            WireKind::Uint16ArrayValue(v) => WireKindModel::Uint16ArrayValue(v@),
            WireKind::Uint32ArrayValue(v) => WireKindModel::Uint32ArrayValue(v@),
            WireKind::Uint64ArrayValue(v) => WireKindModel::Uint64ArrayValue(v@),
            WireKind::FloatArrayValue(v) => WireKindModel::FloatArrayValue(v@),
            WireKind::DoubleArrayValue(v) => WireKindModel::DoubleArrayValue(v@),
        }
    }
}

/// A wire value: the one-of, or nothing for the no-value sentinel.
#[derive(Debug, PartialEq)]
pub struct WireValue {
    pub value: Option<WireKind>,
}

impl View for WireValue {
    type V = Option<WireKindModel>;

    open spec fn view(&self) -> Option<WireKindModel> {
        match self.value {
            Option::Some(k) => Option::Some(k@),
            Option::None => Option::None,
        }
    }
}

/// The wire form of a value: narrow integers widened, the no-value
/// sentinel as an absent one-of.
pub open spec fn spec_encode_wire(v: ValueModel) -> Option<WireKindModel> {
    match v {
        ValueModel::Nan => Option::None,
        ValueModel::Bool(x) => Option::Some(WireKindModel::BoolValue(x)),
        ValueModel::Str(s) => Option::Some(WireKindModel::StringValue(s)),
        ValueModel::Int8(x) => Option::Some(WireKindModel::Int8Value(x as i32)),
        ValueModel::Int16(x) => Option::Some(WireKindModel::Int16Value(x as i32)),
        ValueModel::Int32(x) => Option::Some(WireKindModel::Int32Value(x)),
        ValueModel::Int64(x) => Option::Some(WireKindModel::Int64Value(x)),
        ValueModel::Uint8(x) => Option::Some(WireKindModel::Uint8Value(x as u32)),
        ValueModel::Uint16(x) => Option::Some(WireKindModel::Uint16Value(x as u32)),
        ValueModel::Uint32(x) => Option::Some(WireKindModel::Uint32Value(x)),
        ValueModel::Uint64(x) => Option::Some(WireKindModel::Uint64Value(x)),
        ValueModel::Float(x) => Option::Some(WireKindModel::FloatValue(x)),
        ValueModel::Double(x) => Option::Some(WireKindModel::DoubleValue(x)),
        ValueModel::BoolArray(s) => Option::Some(WireKindModel::BoolArrayValue(s)),
        ValueModel::StringArray(s) => Option::Some(WireKindModel::StringArrayValue(s)),
        ValueModel::Int8Array(s) => Option::Some(
            WireKindModel::Int8ArrayValue(s.map_values(|x: i8| x as i32)),
        ),
        ValueModel::Int16Array(s) => Option::Some(
            WireKindModel::Int16ArrayValue(s.map_values(|x: i16| x as i32)),
        ),
        ValueModel::Int32Array(s) => Option::Some(WireKindModel::Int32ArrayValue(s)),
        ValueModel::Int64Array(s) => Option::Some(WireKindModel::Int64ArrayValue(s)),
        ValueModel::Uint8Array(s) => Option::Some(
            WireKindModel::Uint8ArrayValue(s.map_values(|x: u8| x as u32)),
        ),
        ValueModel::Uint16Array(s) => Option::Some(
            WireKindModel::Uint16ArrayValue(s.map_values(|x: u16| x as u32)),
        ),
        ValueModel::Uint32Array(s) => Option::Some(WireKindModel::Uint32ArrayValue(s)),
        ValueModel::Uint64Array(s) => Option::Some(WireKindModel::Uint64ArrayValue(s)),
        ValueModel::FloatArray(s) => Option::Some(WireKindModel::FloatArrayValue(s)),
        ValueModel::DoubleArray(s) => Option::Some(WireKindModel::DoubleArrayValue(s)),
    }
}

/// The value read back from a wire form: widened integers truncated to
/// their declared width, an absent one-of as the no-value sentinel.
pub open spec fn spec_decode_wire(w: Option<WireKindModel>) -> ValueModel {
    match w {
        Option::None => ValueModel::Nan,
        Option::Some(k) => match k {
            WireKindModel::BoolValue(x) => ValueModel::Bool(x),
            WireKindModel::StringValue(s) => ValueModel::Str(s),
            WireKindModel::Int8Value(x) => ValueModel::Int8(x as i8),
            WireKindModel::Int16Value(x) => ValueModel::Int16(x as i16),
            WireKindModel::Int32Value(x) => ValueModel::Int32(x),
            WireKindModel::Int64Value(x) => ValueModel::Int64(x),
            WireKindModel::Uint8Value(x) => ValueModel::Uint8(x as u8),
            WireKindModel::Uint16Value(x) => ValueModel::Uint16(x as u16),
            WireKindModel::Uint32Value(x) => ValueModel::Uint32(x),
            WireKindModel::Uint64Value(x) => ValueModel::Uint64(x),
            WireKindModel::FloatValue(x) => ValueModel::Float(x),
            WireKindModel::DoubleValue(x) => ValueModel::Double(x),
            WireKindModel::BoolArrayValue(s) => ValueModel::BoolArray(s),
            WireKindModel::StringArrayValue(s) => ValueModel::StringArray(s),
            WireKindModel::Int8ArrayValue(s) => ValueModel::Int8Array(
                s.map_values(|x: i32| x as i8),
            ),
            WireKindModel::Int16ArrayValue(s) => ValueModel::Int16Array(
                s.map_values(|x: i32| x as i16),
            ),
            WireKindModel::Int32ArrayValue(s) => ValueModel::Int32Array(s),
            WireKindModel::Int64ArrayValue(s) => ValueModel::Int64Array(s),
            WireKindModel::Uint8ArrayValue(s) => ValueModel::Uint8Array(
                s.map_values(|x: u32| x as u8),
            ),
            WireKindModel::Uint16ArrayValue(s) => ValueModel::Uint16Array(
                s.map_values(|x: u32| x as u16),
            ),
            WireKindModel::Uint32ArrayValue(s) => ValueModel::Uint32Array(s),
            WireKindModel::Uint64ArrayValue(s) => ValueModel::Uint64Array(s),
            WireKindModel::FloatArrayValue(s) => ValueModel::FloatArray(s),
            WireKindModel::DoubleArrayValue(s) => ValueModel::DoubleArray(s),
        },
    }
}

/// Round trip: reading a value back from its wire form yields the value,
/// for every variant, arrays and the no-value sentinel included.
pub proof fn lemma_wire_round_trip(v: ValueModel)
    ensures
        spec_decode_wire(spec_encode_wire(v)) == v,
{
    match v {
        ValueModel::Int8Array(s) => {
            assert(s.map_values(|x: i8| x as i32).map_values(|x: i32| x as i8) =~= s);
        },
        ValueModel::Int16Array(s) => {
            assert(s.map_values(|x: i16| x as i32).map_values(|x: i32| x as i16) =~= s);
        },
        ValueModel::Uint8Array(s) => {
            assert(s.map_values(|x: u8| x as u32).map_values(|x: u32| x as u8) =~= s);
        },
        ValueModel::Uint16Array(s) => {
            assert(s.map_values(|x: u16| x as u32).map_values(|x: u32| x as u16) =~= s);
        },
        _ => {},
    }
}

/// Widens a vector of signed 8-bit integers into 32-bit wire cells.
fn widen_i8_vec(v: &Vec<i8>) -> (r: Vec<i32>)
    ensures
        r@ == v@.map_values(|x: i8| x as i32),
{
    let mut r: Vec<i32> = Vec::new();
    let n = v.len();
    let mut i: usize = 0;
    while i < n
        invariant
            n == v@.len(),
            i <= n,
            r@.len() == i,
            forall|k: int| 0 <= k < i ==> r@[k] == v@[k] as i32,
        decreases n - i,
    {
        r.push(v[i] as i32);
        i = i + 1;
    }
    proof {
        assert(r@ =~= v@.map_values(|x: i8| x as i32));
    }
    r
}

/// Widens a vector of signed 16-bit integers into 32-bit wire cells.
fn widen_i16_vec(v: &Vec<i16>) -> (r: Vec<i32>)
    ensures
        r@ == v@.map_values(|x: i16| x as i32),
{
    let mut r: Vec<i32> = Vec::new();
    let n = v.len();
    let mut i: usize = 0;
    while i < n
        invariant
            n == v@.len(),
            i <= n,
            r@.len() == i,
            forall|k: int| 0 <= k < i ==> r@[k] == v@[k] as i32,
        decreases n - i,
    {
        r.push(v[i] as i32);
        i = i + 1;
    }
    proof {
        assert(r@ =~= v@.map_values(|x: i16| x as i32));
    }
    r
}

/// Widens a vector of unsigned 8-bit integers into 32-bit wire cells.
fn widen_u8_vec(v: &Vec<u8>) -> (r: Vec<u32>)
    ensures
        r@ == v@.map_values(|x: u8| x as u32),
{
    let mut r: Vec<u32> = Vec::new();
    let n = v.len();
    let mut i: usize = 0;
    while i < n
        invariant
            n == v@.len(),
            i <= n,
            r@.len() == i,
            forall|k: int| 0 <= k < i ==> r@[k] == v@[k] as u32,
        decreases n - i,
    {
        r.push(v[i] as u32);
        i = i + 1;
    }
    proof {
        assert(r@ =~= v@.map_values(|x: u8| x as u32));
    }
    r
}

/// Widens a vector of unsigned 16-bit integers into 32-bit wire cells.
fn widen_u16_vec(v: &Vec<u16>) -> (r: Vec<u32>)
    ensures
        r@ == v@.map_values(|x: u16| x as u32),
{
    let mut r: Vec<u32> = Vec::new();
    let n = v.len();
    let mut i: usize = 0;
    while i < n
        invariant
            n == v@.len(),
            i <= n,
            r@.len() == i,
            forall|k: int| 0 <= k < i ==> r@[k] == v@[k] as u32,
        decreases n - i,
    {
        r.push(v[i] as u32);
        i = i + 1;
    }
    proof {
        assert(r@ =~= v@.map_values(|x: u16| x as u32));
    }
    r
}

/// Truncates 32-bit wire cells back to signed 8-bit integers.
fn narrow_i8_vec(v: &Vec<i32>) -> (r: Vec<i8>)
    ensures
        r@ == v@.map_values(|x: i32| x as i8),
{
    let mut r: Vec<i8> = Vec::new();
    let n = v.len();
    let mut i: usize = 0;
    while i < n
        invariant
            n == v@.len(),
            i <= n,
            r@.len() == i,
            forall|k: int| 0 <= k < i ==> r@[k] == v@[k] as i8,
        decreases n - i,
    {
        r.push(#[verifier::truncate] (v[i] as i8));
        i = i + 1;
    }
    proof {
        assert(r@ =~= v@.map_values(|x: i32| x as i8));
    }
    r
}

/// Truncates 32-bit wire cells back to signed 16-bit integers.
fn narrow_i16_vec(v: &Vec<i32>) -> (r: Vec<i16>)
    ensures
        r@ == v@.map_values(|x: i32| x as i16),
{
    let mut r: Vec<i16> = Vec::new();
    let n = v.len();
    let mut i: usize = 0;
    while i < n
        invariant
            n == v@.len(),
            i <= n,
            r@.len() == i,
            forall|k: int| 0 <= k < i ==> r@[k] == v@[k] as i16,
        decreases n - i,
    {
        r.push(#[verifier::truncate] (v[i] as i16));
        i = i + 1;
    }
    proof {
        assert(r@ =~= v@.map_values(|x: i32| x as i16));
    }
    r
}

/// Truncates 32-bit wire cells back to unsigned 8-bit integers.
fn narrow_u8_vec(v: &Vec<u32>) -> (r: Vec<u8>)
    ensures
        r@ == v@.map_values(|x: u32| x as u8),
{
    let mut r: Vec<u8> = Vec::new();
    let n = v.len();
    let mut i: usize = 0;
    while i < n
        invariant
            n == v@.len(),
            i <= n,
            r@.len() == i,
            forall|k: int| 0 <= k < i ==> r@[k] == v@[k] as u8,
        decreases n - i,
    {
        r.push(#[verifier::truncate] (v[i] as u8));
        i = i + 1;
    }
    proof {
        assert(r@ =~= v@.map_values(|x: u32| x as u8));
    }
    r
}

/// Truncates 32-bit wire cells back to unsigned 16-bit integers.
fn narrow_u16_vec(v: &Vec<u32>) -> (r: Vec<u16>)
    ensures
        r@ == v@.map_values(|x: u32| x as u16),
{
    let mut r: Vec<u16> = Vec::new();
    let n = v.len();
    let mut i: usize = 0;
    while i < n
        invariant
            n == v@.len(),
            i <= n,
            r@.len() == i,
            forall|k: int| 0 <= k < i ==> r@[k] == v@[k] as u16,
        decreases n - i,
    {
        r.push(#[verifier::truncate] (v[i] as u16));
        i = i + 1;
    }
    proof {
        assert(r@ =~= v@.map_values(|x: u32| x as u16));
    }
    r
}

/// Encodes a value into its wire form, as `spec_encode_wire` describes.
pub fn convert_value_to_proto(value: &Value) -> (r: WireValue)
    ensures
        r@ == spec_encode_wire(value@),
{
    match value {
        Value::NAN => WireValue { value: Option::None },
        Value::Bool(x) => WireValue { value: Option::Some(WireKind::BoolValue(*x)) },
        Value::String(s) => WireValue { value: Option::Some(WireKind::StringValue(s.clone())) },
        Value::Int8(x) => WireValue { value: Option::Some(WireKind::Int8Value(*x as i32)) },
        Value::Int16(x) => WireValue { value: Option::Some(WireKind::Int16Value(*x as i32)) },
        Value::Int32(x) => WireValue { value: Option::Some(WireKind::Int32Value(*x)) },
        Value::Int64(x) => WireValue { value: Option::Some(WireKind::Int64Value(*x)) },
        Value::Uint8(x) => WireValue { value: Option::Some(WireKind::Uint8Value(*x as u32)) },
        Value::Uint16(x) => WireValue { value: Option::Some(WireKind::Uint16Value(*x as u32)) },
        Value::Uint32(x) => WireValue { value: Option::Some(WireKind::Uint32Value(*x)) },
        Value::Uint64(x) => WireValue { value: Option::Some(WireKind::Uint64Value(*x)) },
        Value::Float(x) => WireValue { value: Option::Some(WireKind::FloatValue(*x)) },
        Value::Double(x) => WireValue { value: Option::Some(WireKind::DoubleValue(*x)) },
        Value::BoolArray(v) => WireValue {
            value: Option::Some(WireKind::BoolArrayValue(clone_prim_vec(v))),
        },
        Value::StringArray(v) => WireValue {
            value: Option::Some(WireKind::StringArrayValue(clone_string_vec(v))),
        },
        Value::Int8Array(v) => WireValue {
            value: Option::Some(WireKind::Int8ArrayValue(widen_i8_vec(v))),
        },
        Value::Int16Array(v) => WireValue {
            value: Option::Some(WireKind::Int16ArrayValue(widen_i16_vec(v))),
        },
        Value::Int32Array(v) => WireValue {
            value: Option::Some(WireKind::Int32ArrayValue(clone_prim_vec(v))),
        },
        Value::Int64Array(v) => WireValue {
            value: Option::Some(WireKind::Int64ArrayValue(clone_prim_vec(v))),
        },
        Value::Uint8Array(v) => WireValue {
            value: Option::Some(WireKind::Uint8ArrayValue(widen_u8_vec(v))),
        },
        Value::Uint16Array(v) => WireValue {
            value: Option::Some(WireKind::Uint16ArrayValue(widen_u16_vec(v))),
        },
        Value::Uint32Array(v) => WireValue {
            value: Option::Some(WireKind::Uint32ArrayValue(clone_prim_vec(v))),
        },
        Value::Uint64Array(v) => WireValue {
            value: Option::Some(WireKind::Uint64ArrayValue(clone_prim_vec(v))),
        },
        Value::FloatArray(v) => WireValue {
            value: Option::Some(WireKind::FloatArrayValue(clone_prim_vec(v))),
        },
        Value::DoubleArray(v) => WireValue {
            value: Option::Some(WireKind::DoubleArrayValue(clone_prim_vec(v))),
        },
    }
}

/// Reads a wire value back into the internal form, as `spec_decode_wire`
/// describes.
pub fn convert_proto_value_to_rust(proto_value: &WireValue) -> (r: Value)
    ensures
        r@ == spec_decode_wire(proto_value@),
{
    match &proto_value.value {
        Option::None => Value::NAN,
        Option::Some(k) => match k {
            WireKind::BoolValue(x) => Value::Bool(*x),
            WireKind::StringValue(s) => Value::String(s.clone()),
            WireKind::Int8Value(x) => Value::Int8(#[verifier::truncate] (*x as i8)),
            WireKind::Int16Value(x) => Value::Int16(#[verifier::truncate] (*x as i16)),
            WireKind::Int32Value(x) => Value::Int32(*x),
            WireKind::Int64Value(x) => Value::Int64(*x),
            WireKind::Uint8Value(x) => Value::Uint8(#[verifier::truncate] (*x as u8)),
            WireKind::Uint16Value(x) => Value::Uint16(#[verifier::truncate] (*x as u16)),
            WireKind::Uint32Value(x) => Value::Uint32(*x),
            WireKind::Uint64Value(x) => Value::Uint64(*x),
            WireKind::FloatValue(x) => Value::Float(*x),
            WireKind::DoubleValue(x) => Value::Double(*x),
            WireKind::BoolArrayValue(v) => Value::BoolArray(clone_prim_vec(v)),
            WireKind::StringArrayValue(v) => Value::StringArray(clone_string_vec(v)),
            WireKind::Int8ArrayValue(v) => Value::Int8Array(narrow_i8_vec(v)),
            WireKind::Int16ArrayValue(v) => Value::Int16Array(narrow_i16_vec(v)),
            WireKind::Int32ArrayValue(v) => Value::Int32Array(clone_prim_vec(v)),
            WireKind::Int64ArrayValue(v) => Value::Int64Array(clone_prim_vec(v)),
            WireKind::Uint8ArrayValue(v) => Value::Uint8Array(narrow_u8_vec(v)),
            WireKind::Uint16ArrayValue(v) => Value::Uint16Array(narrow_u16_vec(v)),
            WireKind::Uint32ArrayValue(v) => Value::Uint32Array(clone_prim_vec(v)),
            WireKind::Uint64ArrayValue(v) => Value::Uint64Array(clone_prim_vec(v)),
            WireKind::FloatArrayValue(v) => Value::FloatArray(clone_prim_vec(v)),
            WireKind::DoubleArrayValue(v) => Value::DoubleArray(clone_prim_vec(v)),
        },
    }
}

impl Clone for WireKind {
    /// Copies the one-of, keeping its model.
    fn clone(&self) -> (r: Self)
        ensures
            r@ == self@,
    {
        match self {
            WireKind::BoolValue(x) => WireKind::BoolValue(*x),
            WireKind::StringValue(s) => WireKind::StringValue(s.clone()),
            WireKind::Int8Value(x) => WireKind::Int8Value(*x),
            WireKind::Int16Value(x) => WireKind::Int16Value(*x),
            WireKind::Int32Value(x) => WireKind::Int32Value(*x),
            WireKind::Int64Value(x) => WireKind::Int64Value(*x),
            WireKind::Uint8Value(x) => WireKind::Uint8Value(*x),
            WireKind::Uint16Value(x) => WireKind::Uint16Value(*x),
            WireKind::Uint32Value(x) => WireKind::Uint32Value(*x),
            WireKind::Uint64Value(x) => WireKind::Uint64Value(*x),
            WireKind::FloatValue(x) => WireKind::FloatValue(*x),
            WireKind::DoubleValue(x) => WireKind::DoubleValue(*x),
            WireKind::BoolArrayValue(v) => WireKind::BoolArrayValue(clone_prim_vec(v)),
            WireKind::StringArrayValue(v) => WireKind::StringArrayValue(clone_string_vec(v)),
            WireKind::Int8ArrayValue(v) => WireKind::Int8ArrayValue(clone_prim_vec(v)),
            WireKind::Int16ArrayValue(v) => WireKind::Int16ArrayValue(clone_prim_vec(v)),
            WireKind::Int32ArrayValue(v) => WireKind::Int32ArrayValue(clone_prim_vec(v)),
            WireKind::Int64ArrayValue(v) => WireKind::Int64ArrayValue(clone_prim_vec(v)),
            WireKind::Uint8ArrayValue(v) => WireKind::Uint8ArrayValue(clone_prim_vec(v)),
            WireKind::Uint16ArrayValue(v) => WireKind::Uint16ArrayValue(clone_prim_vec(v)),
            WireKind::Uint32ArrayValue(v) => WireKind::Uint32ArrayValue(clone_prim_vec(v)),
            WireKind::Uint64ArrayValue(v) => WireKind::Uint64ArrayValue(clone_prim_vec(v)),
            WireKind::FloatArrayValue(v) => WireKind::FloatArrayValue(clone_prim_vec(v)),
            WireKind::DoubleArrayValue(v) => WireKind::DoubleArrayValue(clone_prim_vec(v)),
        }
    }
}

impl Clone for WireValue {
    /// Copies the wire value, keeping its model.
    fn clone(&self) -> (r: Self)
        ensures
            r@ == self@,
    {
        match &self.value {
            Option::Some(k) => WireValue { value: Option::Some(k.clone()) },
            Option::None => WireValue { value: Option::None },
        }
    }
}

/// The wire form of a type tag.
#[derive(Debug, Clone, Copy, PartialEq, Eq, Structural)]
pub enum WireValueType {
    TypeNan,
    TypeBool,
    TypeString,
    TypeInt8,
    TypeInt16,
    TypeInt32,
    TypeInt64,
    TypeUint8,
    TypeUint16,
    TypeUint32,
    TypeUint64,
    TypeFloat,
    TypeDouble,
    TypeBoolArray,
    TypeStringArray,
    TypeInt8Array,
    TypeInt16Array,
    TypeInt32Array,
    TypeInt64Array,
    TypeUint8Array,
    TypeUint16Array,
    TypeUint32Array,
    TypeUint64Array,
    TypeFloatArray,
    TypeDoubleArray,
}

/// The wire tag standing for each internal type tag.
pub open spec fn spec_value_type_to_proto(vt: ValueType) -> WireValueType {
    match vt {
        ValueType::TypeNAN => WireValueType::TypeNan,
        ValueType::TypeBool => WireValueType::TypeBool,
        ValueType::TypeString => WireValueType::TypeString,
        ValueType::TypeInt8 => WireValueType::TypeInt8,
        ValueType::TypeInt16 => WireValueType::TypeInt16,
        ValueType::TypeInt32 => WireValueType::TypeInt32,
        ValueType::TypeInt64 => WireValueType::TypeInt64,
        ValueType::TypeUint8 => WireValueType::TypeUint8,
        ValueType::TypeUint16 => WireValueType::TypeUint16,
        ValueType::TypeUint32 => WireValueType::TypeUint32,
        ValueType::TypeUint64 => WireValueType::TypeUint64,
        ValueType::TypeFloat => WireValueType::TypeFloat,
        ValueType::TypeDouble => WireValueType::TypeDouble,
        ValueType::TypeBoolArray => WireValueType::TypeBoolArray,
        ValueType::TypeStringArray => WireValueType::TypeStringArray,
        ValueType::TypeInt8Array => WireValueType::TypeInt8Array,
        ValueType::TypeInt16Array => WireValueType::TypeInt16Array,
        ValueType::TypeInt32Array => WireValueType::TypeInt32Array,
        ValueType::TypeInt64Array => WireValueType::TypeInt64Array,
        ValueType::TypeUint8Array => WireValueType::TypeUint8Array,
        ValueType::TypeUint16Array => WireValueType::TypeUint16Array,
        ValueType::TypeUint32Array => WireValueType::TypeUint32Array,
        ValueType::TypeUint64Array => WireValueType::TypeUint64Array,
        ValueType::TypeFloatArray => WireValueType::TypeFloatArray,
        ValueType::TypeDoubleArray => WireValueType::TypeDoubleArray,
    }
}

/// Maps an internal type tag to its wire form, one to one.
pub fn convert_value_type_to_proto(value_type: &ValueType) -> (r: WireValueType)
    ensures
        r == spec_value_type_to_proto(*value_type),
{
    match value_type {
        ValueType::TypeNAN => WireValueType::TypeNan,
        ValueType::TypeBool => WireValueType::TypeBool,
        ValueType::TypeString => WireValueType::TypeString,
        ValueType::TypeInt8 => WireValueType::TypeInt8,
        ValueType::TypeInt16 => WireValueType::TypeInt16,
        ValueType::TypeInt32 => WireValueType::TypeInt32,
        ValueType::TypeInt64 => WireValueType::TypeInt64,
        ValueType::TypeUint8 => WireValueType::TypeUint8,
        ValueType::TypeUint16 => WireValueType::TypeUint16,
        ValueType::TypeUint32 => WireValueType::TypeUint32,
        ValueType::TypeUint64 => WireValueType::TypeUint64,
        ValueType::TypeFloat => WireValueType::TypeFloat,
        ValueType::TypeDouble => WireValueType::TypeDouble,
        ValueType::TypeBoolArray => WireValueType::TypeBoolArray,
        ValueType::TypeStringArray => WireValueType::TypeStringArray,
        ValueType::TypeInt8Array => WireValueType::TypeInt8Array,
        ValueType::TypeInt16Array => WireValueType::TypeInt16Array,
        ValueType::TypeInt32Array => WireValueType::TypeInt32Array,
        ValueType::TypeInt64Array => WireValueType::TypeInt64Array,
        ValueType::TypeUint8Array => WireValueType::TypeUint8Array,
        ValueType::TypeUint16Array => WireValueType::TypeUint16Array,
        ValueType::TypeUint32Array => WireValueType::TypeUint32Array,
        ValueType::TypeUint64Array => WireValueType::TypeUint64Array,
        ValueType::TypeFloatArray => WireValueType::TypeFloatArray,
        ValueType::TypeDoubleArray => WireValueType::TypeDoubleArray,
    }
}

/// The wire form of a leaf classification.
#[derive(Debug, Clone, Copy, PartialEq, Eq, Structural)]
pub enum WireLeafType {
    Branch,
    Sensor,
    Attribute,
    Actuator,
}

/// The wire classification standing for each internal one.
pub open spec fn spec_leaf_type_to_proto(lt: LeafType) -> WireLeafType {
    match lt {
        LeafType::Branch => WireLeafType::Branch,
        LeafType::Sensor => WireLeafType::Sensor,
        LeafType::Attribute => WireLeafType::Attribute,
        LeafType::Actuator => WireLeafType::Actuator,
    }
}

/// Maps an internal leaf classification to its wire form, one to one.
pub fn convert_leaf_type_to_proto(leaf_type: &LeafType) -> (r: WireLeafType)
    ensures
        r == spec_leaf_type_to_proto(*leaf_type),
{
    match leaf_type {
        LeafType::Branch => WireLeafType::Branch,
        LeafType::Sensor => WireLeafType::Sensor,
        LeafType::Attribute => WireLeafType::Attribute,
        LeafType::Actuator => WireLeafType::Actuator,
    }
}

/// The wire form of a state: every field optional, so a client can send
/// a partial update that overwrites only the supplied fields.
#[derive(Debug, PartialEq)]
pub struct WireState {
    pub value: Option<WireValue>,
    pub capability: Option<bool>,
    pub availability: Option<bool>,
    pub reserved: Option<String>,
}

/// The mathematical shape of a wire state.
#[verifier::ext_equal]
pub struct WireStateModel {
    pub value: Option<Option<WireKindModel>>,
    pub capability: Option<bool>,
    pub availability: Option<bool>,
    pub reserved: Option<Seq<char>>,
}

impl View for WireState {
    type V = WireStateModel;

    open spec fn view(&self) -> WireStateModel {
        WireStateModel {
            value: match self.value {
                Option::Some(w) => Option::Some(w@),
                Option::None => Option::None,
            },
            capability: self.capability,
            availability: self.availability,
            reserved: opt_str_view(self.reserved),
        }
    }
}

impl Clone for WireState {
    /// Copies the wire state, keeping its model.
    fn clone(&self) -> (r: Self)
        ensures
            r@ == self@,
    {
        WireState {
            value: match &self.value {
                Option::Some(w) => Option::Some(w.clone()),
                Option::None => Option::None,
            },
            capability: self.capability,
            availability: self.availability,
            reserved: clone_opt_string(&self.reserved),
        }
    }
}

/// The wire form of a config.
#[derive(Debug, PartialEq)]
pub struct WireConfig {
    pub leaf_type: WireLeafType,
    pub data_type: WireValueType,
    pub deprecation: Option<String>,
    pub unit: Option<String>,
    pub min: Option<WireValue>,
    pub max: Option<WireValue>,
    pub description: Option<String>,
    pub comment: Option<String>,
    pub allowed: Vec<WireValue>,
    pub default: Option<WireValue>,
}

/// The mathematical shape of a wire config.
#[verifier::ext_equal]
pub struct WireConfigModel {
    pub leaf_type: WireLeafType,
    pub data_type: WireValueType,
    pub deprecation: Option<Seq<char>>,
    pub unit: Option<Seq<char>>,
    pub min: Option<Option<WireKindModel>>,
    pub max: Option<Option<WireKindModel>>,
    pub description: Option<Seq<char>>,
    pub comment: Option<Seq<char>>,
    pub allowed: Seq<Option<WireKindModel>>,
    pub default: Option<Option<WireKindModel>>,
}

/// The view of an optional wire value.
pub open spec fn opt_wire_value_view(o: Option<WireValue>) -> Option<Option<WireKindModel>> {
    match o {
        Option::Some(w) => Option::Some(w@),
        Option::None => Option::None,
    }
}

impl View for WireConfig {
    type V = WireConfigModel;

    open spec fn view(&self) -> WireConfigModel {
        WireConfigModel {
            leaf_type: self.leaf_type,
            data_type: self.data_type,
            deprecation: opt_str_view(self.deprecation),
            unit: opt_str_view(self.unit),
            min: opt_wire_value_view(self.min),
            max: opt_wire_value_view(self.max),
            description: opt_str_view(self.description),
            comment: opt_str_view(self.comment),
            allowed: self.allowed@.map_values(|w: WireValue| w@),
            default: opt_wire_value_view(self.default),
        }
    }
}

impl Clone for WireConfig {
    /// Copies the wire config, keeping its model.
    fn clone(&self) -> (r: Self)
        ensures
            r@ == self@,
    {
        let mut allowed: Vec<WireValue> = Vec::new();
        let n = self.allowed.len();
        let mut i: usize = 0;
        while i < n
            invariant
                n == self.allowed@.len(),
                i <= n,
                allowed@.len() == i,
                forall|k: int| 0 <= k < i ==> allowed@[k]@ == self.allowed@[k]@,
            decreases n - i,
        {
            allowed.push(self.allowed[i].clone());
            i = i + 1;
        }
        proof {
            assert(allowed@.map_values(|w: WireValue| w@) =~= self.allowed@.map_values(
                |w: WireValue| w@,
            ));
        }
        WireConfig {
            leaf_type: self.leaf_type,
            data_type: self.data_type,
            deprecation: clone_opt_string(&self.deprecation),
            unit: clone_opt_string(&self.unit),
            min: clone_opt_wire_value(&self.min),
            max: clone_opt_wire_value(&self.max),
            description: clone_opt_string(&self.description),
            comment: clone_opt_string(&self.comment),
            allowed,
            default: clone_opt_wire_value(&self.default),
        }
    }
}

/// Copies an optional wire value, keeping its model.
fn clone_opt_wire_value(o: &Option<WireValue>) -> (r: Option<WireValue>)
    ensures
        opt_wire_value_view(r) == opt_wire_value_view(*o),
{
    match o {
        Option::Some(w) => Option::Some(w.clone()),
        Option::None => Option::None,
    }
}

/// The wire form of a stored row.
#[derive(Debug, PartialEq)]
pub struct WireSignal {
    pub path: String,
    pub state: Option<WireState>,
    pub config: Option<WireConfig>,
}

/// The mathematical shape of a wire signal.
#[verifier::ext_equal]
pub struct WireSignalModel {
    pub path: Seq<char>,
    pub state: Option<WireStateModel>,
    pub config: Option<WireConfigModel>,
}

impl View for WireSignal {
    type V = WireSignalModel;

    open spec fn view(&self) -> WireSignalModel {
        WireSignalModel {
            path: self.path@,
            state: match self.state {
                Option::Some(s) => Option::Some(s@),
                Option::None => Option::None,
            },
            config: match self.config {
                Option::Some(c) => Option::Some(c@),
                Option::None => Option::None,
            },
        }
    }
}

impl Clone for WireSignal {
    /// Copies the wire signal, keeping its model.
    fn clone(&self) -> (r: Self)
        ensures
            r@ == self@,
    {
        WireSignal {
            path: self.path.clone(),
            state: match &self.state {
                Option::Some(s) => Option::Some(s.clone()),
                Option::None => Option::None,
            },
            config: match &self.config {
                Option::Some(c) => Option::Some(c.clone()),
                Option::None => Option::None,
            },
        }
    }
}

/// The view of an optional string, mapped over `Option`.
pub open spec fn spec_opt_map_encode(o: Option<ValueModel>) -> Option<Option<WireKindModel>> {
    match o {
        Option::Some(v) => Option::Some(spec_encode_wire(v)),
        Option::None => Option::None,
    }
}

/// The wire form of a whole stored row: the state with every field
/// present, the config with its optional metadata carried over and the
/// allowed set flattened to a list (absent set: empty list). The lock
/// token never travels on the wire.
pub open spec fn spec_signal_to_proto(s: crate::signal::SignalModel) -> WireSignalModel {
    WireSignalModel {
        path: s.path,
        state: Option::Some(
            WireStateModel {
                value: Option::Some(spec_encode_wire(s.state.value)),
                capability: Option::Some(s.state.capability),
                availability: Option::Some(s.state.availability),
                reserved: Option::Some(s.state.reserved),
            },
        ),
        config: Option::Some(
            WireConfigModel {
                leaf_type: spec_leaf_type_to_proto(s.config.leaf_type),
                data_type: spec_value_type_to_proto(s.config.data_type),
                deprecation: s.config.deprecation,
                unit: s.config.unit,
                min: spec_opt_map_encode(s.config.min),
                max: spec_opt_map_encode(s.config.max),
                description: s.config.description,
                comment: s.config.comment,
                allowed: match s.config.allowed {
                    Option::Some(vs) => vs.map_values(|v: ValueModel| spec_encode_wire(v)),
                    Option::None => Seq::empty(),
                },
                default: spec_opt_map_encode(s.config.default),
            },
        ),
    }
}

/// Encodes an optional value for the wire.
fn encode_opt_value(o: &Option<Value>) -> (r: Option<WireValue>)
    ensures
        opt_wire_value_view(r) == spec_opt_map_encode(crate::signal::opt_value_view(*o)),
{
    match o {
        Option::Some(v) => Option::Some(convert_value_to_proto(v)),
        Option::None => Option::None,
    }
}

/// Encodes a stored row into its wire form, as `spec_signal_to_proto`
/// describes.
pub fn convert_signal_to_proto(signal: &Signal) -> (r: WireSignal)
    ensures
        r@ == spec_signal_to_proto(signal@),
{
    let allowed: Vec<WireValue> = match &signal.config.allowed {
        Option::Some(vs) => {
            let mut out: Vec<WireValue> = Vec::new();
            let n = vs.len();
            let mut i: usize = 0;
            while i < n
                invariant
                    n == vs@.len(),
                    i <= n,
                    out@.len() == i,
                    forall|k: int| 0 <= k < i ==> out@[k]@ == spec_encode_wire(#[trigger] vs@[k]@),
                decreases n - i,
            {
                out.push(convert_value_to_proto(&vs[i]));
                i = i + 1;
            }
            out
        },
        Option::None => Vec::new(),
    };
    proof {
        assert(allowed@.map_values(|w: WireValue| w@) =~= match signal@.config.allowed {
            Option::Some(vs) => vs.map_values(|v: ValueModel| spec_encode_wire(v)),
            Option::None => Seq::empty(),
        });
    }
    WireSignal {
        path: signal.path.clone(),
        state: Option::Some(
            WireState {
                value: Option::Some(convert_value_to_proto(&signal.state.value)),
                capability: Option::Some(signal.state.capability),
                availability: Option::Some(signal.state.availability),
                reserved: Option::Some(signal.state.reserved.clone()),
            },
        ),
        config: Option::Some(
            WireConfig {
                leaf_type: convert_leaf_type_to_proto(&signal.config.leaf_type),
                data_type: convert_value_type_to_proto(&signal.config.data_type),
                deprecation: clone_opt_string(&signal.config.deprecation),
                unit: clone_opt_string(&signal.config.unit),
                min: encode_opt_value(&signal.config.min),
                max: encode_opt_value(&signal.config.max),
                description: clone_opt_string(&signal.config.description),
                comment: clone_opt_string(&signal.config.comment),
                allowed,
                default: encode_opt_value(&signal.config.default),
            },
        ),
    }
}

/// The state after a partial overlay: each supplied field overwrites its
/// counterpart, an absent field keeps the stored one, and the lock token
/// is never touched by an overlay.
pub open spec fn spec_apply_state_update(old_state: StateModel, update: WireStateModel) -> StateModel {
    StateModel {
        value: match update.value {
            Option::Some(w) => spec_decode_wire(w),
            Option::None => old_state.value,
        },
        capability: match update.capability {
            Option::Some(c) => c,
            Option::None => old_state.capability,
        },
        availability: match update.availability {
            Option::Some(a) => a,
            Option::None => old_state.availability,
        },
        lock_token: old_state.lock_token,
        reserved: match update.reserved {
            Option::Some(t) => t,
            Option::None => old_state.reserved,
        },
    }
}

/// Applies a partial state overlay in place, as `spec_apply_state_update`
/// describes: only supplied fields overwrite.
pub fn apply_state_update(current_state: &mut State, proto_state: &WireState)
    ensures
        final(current_state)@ == spec_apply_state_update(old(current_state)@, proto_state@),
{
    if let Option::Some(w) = &proto_state.value {
        current_state.value = convert_proto_value_to_rust(w);
    }
    if let Option::Some(c) = proto_state.capability {
        current_state.capability = c;
    }
    if let Option::Some(a) = proto_state.availability {
        current_state.availability = a;
    }
    if let Option::Some(t) = &proto_state.reserved {
        current_state.reserved = t.clone();
    }
    proof {
        assert(current_state@ =~= spec_apply_state_update(old(current_state)@, proto_state@));
    }
}


/// One streamed subscription message: the signal's current wire form, or
/// a transient per-message error text.
#[derive(Debug, PartialEq)]
pub struct SubscribeResponse {
    pub signal: Option<WireSignal>,
    pub error_message: String,
}

/// The mathematical shape of a subscription message.
#[verifier::ext_equal]
pub struct SubscribeResponseModel {
    pub signal: Option<WireSignalModel>,
    pub error_message: Seq<char>,
}

impl View for SubscribeResponse {
    type V = SubscribeResponseModel;

    open spec fn view(&self) -> SubscribeResponseModel {
        SubscribeResponseModel {
            signal: match self.signal {
                Option::Some(s) => Option::Some(s@),
                Option::None => Option::None,
            },
            error_message: self.error_message@,
        }
    }
}

impl Clone for SubscribeResponse {
    /// Copies the message, keeping its model.
    fn clone(&self) -> (r: Self)
        ensures
            r@ == self@,
    {
        SubscribeResponse {
            signal: match &self.signal {
                Option::Some(s) => Option::Some(s.clone()),
                Option::None => Option::None,
            },
            error_message: self.error_message.clone(),
        }
    }
}

/// The answer to a batch read: the rows resolved before the first
/// failure, a success flag, and the failure's text.
#[derive(Debug, PartialEq)]
pub struct GetResponse {
    pub signals: Vec<WireSignal>,
    pub success: bool,
    pub error_message: String,
}

/// One per-path outcome of a batch write.
#[derive(Debug, PartialEq)]
pub struct SetResult {
    pub path: String,
    pub success: bool,
    pub error_message: String,
}

/// The answer to a batch write: one outcome per requested path, and the
/// conjunction of their successes.
#[derive(Debug, PartialEq)]
pub struct SetResponse {
    pub results: Vec<SetResult>,
    pub success: bool,
    pub error_message: String,
}

/// One path's entry in a batch write: the path and the partial state to
/// overlay.
#[derive(Debug, PartialEq)]
pub struct SetSignalRequest {
    pub path: String,
    pub state: Option<WireState>,
}

/// The answer to clearing subscriptions.
#[derive(Debug, PartialEq)]
pub struct UnsubscribeResponse {
    pub success: bool,
    pub error_message: String,
}

/// The answer to a batch lock: the token now holding every requested
/// path.
#[derive(Debug, PartialEq)]
pub struct LockResponse {
    pub token: String,
}

/// The answer to releasing a token's locks.
#[derive(Debug, PartialEq)]
pub struct UnlockResponse {
    pub success: bool,
}


} // verus!
