//! The signal data model: values, type tags, leaf classification, and the
//! stored row (path, state, config).
//!
//! `Value` is a closed union of scalar and array kinds plus the `NAN`
//! no-value sentinel. Float and double payloads are carried by bit
//! pattern (`u32`/`u64`): the verified core never computes with them, it
//! only stores, compares and transports them losslessly.

use vstd::prelude::*;
use vstd::string::StringExecFns;
use crate::error::VehicleShadowError;

verus! {

/// A signal value: the closed union stored in the shadow and carried on
/// the wire. `NAN` is the distinguished no-value sentinel, distinct from
/// any numeric payload.
#[derive(Debug, PartialEq)]
pub enum Value {
    NAN,
    Bool(bool),
    String(String),
    Int8(i8),
    Int16(i16),
    Int32(i32),
    Int64(i64),
    Uint8(u8),
    Uint16(u16),
    Uint32(u32),
    Uint64(u64),
    Float(u32),
    Double(u64),
    BoolArray(Vec<bool>),
    StringArray(Vec<String>),
    Int8Array(Vec<i8>),
    Int16Array(Vec<i16>),
    Int32Array(Vec<i32>),
    Int64Array(Vec<i64>),
    Uint8Array(Vec<u8>),
    Uint16Array(Vec<u16>),
    Uint32Array(Vec<u32>),
    Uint64Array(Vec<u64>),
    FloatArray(Vec<u32>),
    DoubleArray(Vec<u64>),
}

/// The mathematical shape of a `Value`: strings as character sequences,
/// arrays as sequences.
#[verifier::ext_equal]
pub enum ValueModel {
    Nan,
    Bool(bool),
    Str(Seq<char>),
    Int8(i8),
    Int16(i16),
    Int32(i32),
    Int64(i64),
    Uint8(u8),
    Uint16(u16),
    Uint32(u32),
    Uint64(u64),
    Float(u32),
    Double(u64),
    BoolArray(Seq<bool>),
    StringArray(Seq<Seq<char>>),
    Int8Array(Seq<i8>),
    Int16Array(Seq<i16>),
    Int32Array(Seq<i32>),
    Int64Array(Seq<i64>),
    Uint8Array(Seq<u8>),
    Uint16Array(Seq<u16>),
    Uint32Array(Seq<u32>),
    Uint64Array(Seq<u64>),
    FloatArray(Seq<u32>),
    DoubleArray(Seq<u64>),
}

impl View for Value {
    type V = ValueModel;

    open spec fn view(&self) -> ValueModel {
        match self {
            Value::NAN => ValueModel::Nan,
            Value::Bool(b) => ValueModel::Bool(*b),
            Value::String(s) => ValueModel::Str(s@),
            Value::Int8(x) => ValueModel::Int8(*x),
            Value::Int16(x) => ValueModel::Int16(*x),
            Value::Int32(x) => ValueModel::Int32(*x),
            Value::Int64(x) => ValueModel::Int64(*x),
            Value::Uint8(x) => ValueModel::Uint8(*x),
            Value::Uint16(x) => ValueModel::Uint16(*x),
            Value::Uint32(x) => ValueModel::Uint32(*x),
            Value::Uint64(x) => ValueModel::Uint64(*x),
            Value::Float(x) => ValueModel::Float(*x),
            Value::Double(x) => ValueModel::Double(*x),
            Value::BoolArray(v) => ValueModel::BoolArray(v@),
            Value::StringArray(v) => ValueModel::StringArray(v.deep_view()),
            Value::Int8Array(v) => ValueModel::Int8Array(v@),
            Value::Int16Array(v) => ValueModel::Int16Array(v@),
            Value::Int32Array(v) => ValueModel::Int32Array(v@),
            Value::Int64Array(v) => ValueModel::Int64Array(v@),
            Value::Uint8Array(v) => ValueModel::Uint8Array(v@),
            Value::Uint16Array(v) => ValueModel::Uint16Array(v@),
            Value::Uint32Array(v) => ValueModel::Uint32Array(v@),
            Value::Uint64Array(v) => ValueModel::Uint64Array(v@),
            Value::FloatArray(v) => ValueModel::FloatArray(v@),
            Value::DoubleArray(v) => ValueModel::DoubleArray(v@),
        }
    }
}

/// The type tag mirroring `Value`'s variants one to one. A leaf declares
/// its tag independently of its current value; the tag steers decoding of
/// loosely-typed input.
#[derive(Debug, Clone, Copy, PartialEq, Eq, Structural)]
pub enum ValueType {
    TypeNAN,
    TypeBool,
    TypeString,
    TypeInt8,
    TypeInt16,
    TypeInt32,
    TypeInt64,
    TypeUint8,
    TypeUint16,
    TypeUint32,
    TypeUint64,
    TypeFloat,
    TypeDouble,
    TypeBoolArray,
    TypeStringArray,
    TypeInt8Array,
    TypeInt16Array,
    TypeInt32Array,
    TypeInt64Array,
    TypeUint8Array,
    TypeUint16Array,
    TypeUint32Array,
    TypeUint64Array,
    TypeFloatArray,
    TypeDoubleArray,
}

/// Leaf classification: `Branch` groups other nodes and is never stored;
/// the other three name stored, settable leaves.
#[derive(Debug, Clone, Copy, PartialEq, Eq, Structural)]
pub enum LeafType {
    Branch,
    Sensor,
    Attribute,
    Actuator,
}

/// The live part of a stored row: the value, the liveness flags, the
/// optional lock token and a free-form reserved field.
#[derive(Debug, PartialEq)]
pub struct State {
    pub value: Value,
    pub capability: bool,
    pub availability: bool,
    pub lock_token: Option<String>,
    pub reserved: String,
}

/// The mathematical shape of a `State`.
#[verifier::ext_equal]
pub struct StateModel {
    pub value: ValueModel,
    pub capability: bool,
    pub availability: bool,
    pub lock_token: Option<Seq<char>>,
    pub reserved: Seq<char>,
}

/// The view of an optional string as an optional character sequence.
pub open spec fn opt_str_view(o: Option<String>) -> Option<Seq<char>> {
    match o {
        Option::Some(s) => Option::Some(s@),
        Option::None => Option::None,
    }
}

/// The view of an optional value as an optional value model.
pub open spec fn opt_value_view(o: Option<Value>) -> Option<ValueModel> {
    match o {
        Option::Some(v) => Option::Some(v@),
        Option::None => Option::None,
    }
}

/// The view of an optional value list as an optional model sequence.
pub open spec fn opt_values_view(o: Option<Vec<Value>>) -> Option<Seq<ValueModel>> {
    match o {
        Option::Some(v) => Option::Some(v@.map_values(|x: Value| x@)),
        Option::None => Option::None,
    }
}

impl View for State {
    type V = StateModel;

    open spec fn view(&self) -> StateModel {
        StateModel {
            value: self.value@,
            capability: self.capability,
            availability: self.availability,
            lock_token: opt_str_view(self.lock_token),
            reserved: self.reserved@,
        }
    }
}

/// Static per-path metadata: declared classification and type, and
/// optional documentation and bounds.
#[derive(Debug, PartialEq)]
pub struct Config {
    pub leaf_type: LeafType,
    pub data_type: ValueType,
    pub deprecation: Option<String>,
    pub unit: Option<String>,
    pub min: Option<Value>,
    pub max: Option<Value>,
    pub description: Option<String>,
    pub comment: Option<String>,
    pub allowed: Option<Vec<Value>>,
    pub default: Option<Value>,
}

/// The mathematical shape of a `Config`.
#[verifier::ext_equal]
pub struct ConfigModel {
    pub leaf_type: LeafType,
    pub data_type: ValueType,
    pub deprecation: Option<Seq<char>>,
    pub unit: Option<Seq<char>>,
    pub min: Option<ValueModel>,
    pub max: Option<ValueModel>,
    pub description: Option<Seq<char>>,
    pub comment: Option<Seq<char>>,
    pub allowed: Option<Seq<ValueModel>>,
    pub default: Option<ValueModel>,
}

impl View for Config {
    type V = ConfigModel;

    open spec fn view(&self) -> ConfigModel {
        ConfigModel {
            leaf_type: self.leaf_type,
            data_type: self.data_type,
            deprecation: opt_str_view(self.deprecation),
            unit: opt_str_view(self.unit),
            min: opt_value_view(self.min),
            max: opt_value_view(self.max),
            description: opt_str_view(self.description),
            comment: opt_str_view(self.comment),
            allowed: opt_values_view(self.allowed),
            default: opt_value_view(self.default),
        }
    }
}

/// A stored row: one signal, named by its dot-delimited path.
#[derive(Debug, PartialEq)]
pub struct Signal {
    pub path: String,
    pub state: State,
    pub config: Config,
}

/// The mathematical shape of a `Signal`.
#[verifier::ext_equal]
pub struct SignalModel {
    pub path: Seq<char>,
    pub state: StateModel,
    pub config: ConfigModel,
}

impl View for Signal {
    type V = SignalModel;

    open spec fn view(&self) -> SignalModel {
        SignalModel { path: self.path@, state: self.state@, config: self.config@ }
    }
}

/// Copies a vector of plain copyable elements.
pub(crate) fn clone_prim_vec<T: Copy>(v: &Vec<T>) -> (r: Vec<T>)
    ensures
        r@ == v@,
{
    let mut r: Vec<T> = Vec::new();
    let n = v.len();
    let mut i: usize = 0;
    while i < n
        invariant
            n == v@.len(),
            i <= n,
            r@ == v@.subrange(0, i as int),
        decreases n - i,
    {
        r.push(v[i]);
        proof {
            assert(v@.subrange(0, i + 1 as int) =~= v@.subrange(0, i as int).push(v@[i as int]));
        }
        i = i + 1;
    }
    proof {
        assert(v@.subrange(0, n as int) =~= v@);
    }
    r
}

/// Copies a vector of strings, keeping each text.
pub(crate) fn clone_string_vec(v: &Vec<String>) -> (r: Vec<String>)
    ensures
        r.deep_view() == v.deep_view(),
{
    let mut r: Vec<String> = Vec::new();
    let n = v.len();
    let mut i: usize = 0;
    while i < n
        invariant
            n == v@.len(),
            i <= n,
            r@.len() == i,
            forall|k: int| 0 <= k < i ==> r@[k]@ == v@[k]@,
        decreases n - i,
    {
        r.push(v[i].clone());
        i = i + 1;
    }
    proof {
        assert(r.deep_view() =~= v.deep_view());
    }
    r
}

impl Clone for Value {
    /// Copies the value, keeping its model.
    fn clone(&self) -> (r: Self)
        ensures
            r@ == self@,
    {
        match self {
            Value::NAN => Value::NAN,
            Value::Bool(b) => Value::Bool(*b),
            Value::String(s) => Value::String(s.clone()),
            Value::Int8(x) => Value::Int8(*x),
            Value::Int16(x) => Value::Int16(*x),
            Value::Int32(x) => Value::Int32(*x),
            Value::Int64(x) => Value::Int64(*x),
            Value::Uint8(x) => Value::Uint8(*x),
            Value::Uint16(x) => Value::Uint16(*x),
            Value::Uint32(x) => Value::Uint32(*x),
            Value::Uint64(x) => Value::Uint64(*x),
            Value::Float(x) => Value::Float(*x),
            Value::Double(x) => Value::Double(*x),
            Value::BoolArray(v) => Value::BoolArray(clone_prim_vec(v)),
            Value::StringArray(v) => Value::StringArray(clone_string_vec(v)),
            Value::Int8Array(v) => Value::Int8Array(clone_prim_vec(v)),
            Value::Int16Array(v) => Value::Int16Array(clone_prim_vec(v)),
            Value::Int32Array(v) => Value::Int32Array(clone_prim_vec(v)),
            Value::Int64Array(v) => Value::Int64Array(clone_prim_vec(v)),
            Value::Uint8Array(v) => Value::Uint8Array(clone_prim_vec(v)),
            Value::Uint16Array(v) => Value::Uint16Array(clone_prim_vec(v)),
            Value::Uint32Array(v) => Value::Uint32Array(clone_prim_vec(v)),
            Value::Uint64Array(v) => Value::Uint64Array(clone_prim_vec(v)),
            Value::FloatArray(v) => Value::FloatArray(clone_prim_vec(v)),
            Value::DoubleArray(v) => Value::DoubleArray(clone_prim_vec(v)),
        }
    }
}

/// Copies an optional string, keeping its view.
pub(crate) fn clone_opt_string(o: &Option<String>) -> (r: Option<String>)
    ensures
        opt_str_view(r) == opt_str_view(*o),
{
    match o {
        Option::Some(s) => Option::Some(s.clone()),
        Option::None => Option::None,
    }
}

/// Copies an optional value, keeping its model.
fn clone_opt_value(o: &Option<Value>) -> (r: Option<Value>)
    ensures
        opt_value_view(r) == opt_value_view(*o),
{
    match o {
        Option::Some(v) => Option::Some(v.clone()),
        Option::None => Option::None,
    }
}

/// Copies an optional value list, keeping each model.
fn clone_opt_values(o: &Option<Vec<Value>>) -> (r: Option<Vec<Value>>)
    ensures
        opt_values_view(r) == opt_values_view(*o),
{
    match o {
        Option::Some(v) => {
            let mut out: Vec<Value> = Vec::new();
            let n = v.len();
            let mut i: usize = 0;
            while i < n
                invariant
                    n == v@.len(),
                    i <= n,
                    out@.len() == i,
                    forall|k: int| 0 <= k < i ==> out@[k]@ == v@[k]@,
                decreases n - i,
            {
                out.push(v[i].clone());
                i = i + 1;
            }
            proof {
                assert(out@.map_values(|x: Value| x@) =~= v@.map_values(|x: Value| x@));
            }
            Option::Some(out)
        },
        Option::None => Option::None,
    }
}

impl Clone for State {
    /// Copies the state, keeping its model.
    fn clone(&self) -> (r: Self)
        ensures
            r@ == self@,
    {
        State {
            value: self.value.clone(),
            capability: self.capability,
            availability: self.availability,
            lock_token: clone_opt_string(&self.lock_token),
            reserved: self.reserved.clone(),
        }
    }
}

impl Clone for Config {
    /// Copies the config, keeping its model.
    fn clone(&self) -> (r: Self)
        ensures
            r@ == self@,
    {
        Config {
            leaf_type: self.leaf_type,
            data_type: self.data_type,
            deprecation: clone_opt_string(&self.deprecation),
            unit: clone_opt_string(&self.unit),
            min: clone_opt_value(&self.min),
            max: clone_opt_value(&self.max),
            description: clone_opt_string(&self.description),
            comment: clone_opt_string(&self.comment),
            allowed: clone_opt_values(&self.allowed),
            default: clone_opt_value(&self.default),
        }
    }
}

impl Clone for Signal {
    /// Copies the row, keeping its model.
    fn clone(&self) -> (r: Self)
        ensures
            r@ == self@,
    {
        Signal {
            path: self.path.clone(),
            state: self.state.clone(),
            config: self.config.clone(),
        }
    }
}

/// A character lowered to ASCII lower case; characters outside `A`..`Z`
/// are kept.
pub open spec fn spec_lower_char(c: char) -> char {
    if 65 <= (c as u32) && (c as u32) <= 90 {
        (((c as u32) + 32) as u8) as char
    } else {
        c
    }
}

/// A text lowered to ASCII lower case, character by character.
pub open spec fn spec_lower(s: Seq<char>) -> Seq<char> {
    s.map_values(|c: char| spec_lower_char(c))
}

/// Lowers one character to ASCII lower case.
fn lower_char(c: char) -> (r: char)
    ensures
        r == spec_lower_char(c),
{
    let u = c as u32;
    if 65 <= u && u <= 90 {
        ((u + 32) as u8) as char
    } else {
        c
    }
}

/// Decides whether the text, lowered to ASCII lower case, equals the
/// given name.
fn matches_lowered(s: &str, name: &str) -> (r: bool)
    ensures
        r == (spec_lower(s@) == name@),
{
    let n = s.unicode_len();
    let m = name.unicode_len();
    if n != m {
        proof {
            assert(spec_lower(s@).len() == s@.len());
        }
        return false;
    }
    let mut i: usize = 0;
    while i < n
        invariant
            n == s@.len(),
            n == name@.len(),
            i <= n,
            forall|k: int| 0 <= k < i ==> spec_lower_char(s@[k]) == name@[k],
        decreases n - i,
    {
        let a = lower_char(s.get_char(i));
        let b = name.get_char(i);
        if a != b {
            proof {
                assert(spec_lower(s@)[i as int] != name@[i as int]);
            }
            return false;
        }
        i = i + 1;
    }
    proof {
        assert(spec_lower(s@) =~= name@);
    }
    true
}

/// The type tag named by a text, compared in ASCII lower case; `None`
/// where no tag carries that name.
pub open spec fn spec_value_type_of(s: Seq<char>) -> Option<ValueType> {
    let l = spec_lower(s);
    if l == "boolean"@ {
        Option::Some(ValueType::TypeBool)
    } else if l == "string"@ {
        Option::Some(ValueType::TypeString)
    } else if l == "int8"@ {
        Option::Some(ValueType::TypeInt8)
    } else if l == "int16"@ {
        Option::Some(ValueType::TypeInt16)
    } else if l == "int32"@ {
        Option::Some(ValueType::TypeInt32)
    } else if l == "int64"@ {
        Option::Some(ValueType::TypeInt64)
    } else if l == "uint8"@ {
        Option::Some(ValueType::TypeUint8)
    } else if l == "uint16"@ {
        Option::Some(ValueType::TypeUint16)
    } else if l == "uint32"@ {
        Option::Some(ValueType::TypeUint32)
    } else if l == "uint64"@ {
        Option::Some(ValueType::TypeUint64)
    } else if l == "float"@ {
        Option::Some(ValueType::TypeFloat)
    } else if l == "double"@ {
        Option::Some(ValueType::TypeDouble)
    } else if l == "boolean[]"@ {
        Option::Some(ValueType::TypeBoolArray)
    } else if l == "string[]"@ {
        Option::Some(ValueType::TypeStringArray)
    } else if l == "int8[]"@ {
        Option::Some(ValueType::TypeInt8Array)
    } else if l == "int16[]"@ {
        Option::Some(ValueType::TypeInt16Array)
    } else if l == "int32[]"@ {
        Option::Some(ValueType::TypeInt32Array)
    } else if l == "int64[]"@ {
        Option::Some(ValueType::TypeInt64Array)
    } else if l == "uint8[]"@ {
        Option::Some(ValueType::TypeUint8Array)
    } else if l == "uint16[]"@ {
        Option::Some(ValueType::TypeUint16Array)
    } else if l == "uint32[]"@ {
        Option::Some(ValueType::TypeUint32Array)
    } else if l == "uint64[]"@ {
        Option::Some(ValueType::TypeUint64Array)
    } else if l == "float[]"@ {
        Option::Some(ValueType::TypeFloatArray)
    } else if l == "double[]"@ {
        Option::Some(ValueType::TypeDoubleArray)
    } else {
        Option::None
    }
}

impl ValueType {
    /// Parses a declared type name, case-insensitively; an unknown name is
    /// invalid input, reported with the offending text.
    pub fn from_str(s: &str) -> (r: Result<ValueType, VehicleShadowError>)
        ensures
            match r {
                Result::Ok(vt) => spec_value_type_of(s@) == Option::Some(vt),
                Result::Err(e) => spec_value_type_of(s@) is None && (e matches
                    VehicleShadowError::InvalidInput(m) && m@ == s@),
            },
    {
        if matches_lowered(s, "boolean") {
            Result::Ok(ValueType::TypeBool)
        } else if matches_lowered(s, "string") {
            Result::Ok(ValueType::TypeString)
        } else if matches_lowered(s, "int8") {
            Result::Ok(ValueType::TypeInt8)
        } else if matches_lowered(s, "int16") {
            Result::Ok(ValueType::TypeInt16)
        } else if matches_lowered(s, "int32") {
            Result::Ok(ValueType::TypeInt32)
        } else if matches_lowered(s, "int64") {
            Result::Ok(ValueType::TypeInt64)
        } else if matches_lowered(s, "uint8") {
            Result::Ok(ValueType::TypeUint8)
        } else if matches_lowered(s, "uint16") {
            Result::Ok(ValueType::TypeUint16)
        } else if matches_lowered(s, "uint32") {
            Result::Ok(ValueType::TypeUint32)
        } else if matches_lowered(s, "uint64") {
            Result::Ok(ValueType::TypeUint64)
        } else if matches_lowered(s, "float") {
            Result::Ok(ValueType::TypeFloat)
        } else if matches_lowered(s, "double") {
            Result::Ok(ValueType::TypeDouble)
        } else if matches_lowered(s, "boolean[]") {
            Result::Ok(ValueType::TypeBoolArray)
        } else if matches_lowered(s, "string[]") {
            Result::Ok(ValueType::TypeStringArray)
        } else if matches_lowered(s, "int8[]") {
            Result::Ok(ValueType::TypeInt8Array)
        } else if matches_lowered(s, "int16[]") {
            Result::Ok(ValueType::TypeInt16Array)
        } else if matches_lowered(s, "int32[]") {
            Result::Ok(ValueType::TypeInt32Array)
        } else if matches_lowered(s, "int64[]") {
            Result::Ok(ValueType::TypeInt64Array)
        } else if matches_lowered(s, "uint8[]") {
            Result::Ok(ValueType::TypeUint8Array)
        } else if matches_lowered(s, "uint16[]") {
            Result::Ok(ValueType::TypeUint16Array)
        } else if matches_lowered(s, "uint32[]") {
            Result::Ok(ValueType::TypeUint32Array)
        } else if matches_lowered(s, "uint64[]") {
            Result::Ok(ValueType::TypeUint64Array)
        } else if matches_lowered(s, "float[]") {
            Result::Ok(ValueType::TypeFloatArray)
        } else if matches_lowered(s, "double[]") {
            Result::Ok(ValueType::TypeDoubleArray)
        } else {
            Result::Err(VehicleShadowError::InvalidInput(s.to_owned()))
        }
    }
}

/// The leaf classification named by a text, compared in ASCII lower case;
/// `None` where no classification carries that name.
pub open spec fn spec_leaf_type_of(s: Seq<char>) -> Option<LeafType> {
    let l = spec_lower(s);
    if l == "branch"@ {
        Option::Some(LeafType::Branch)
    } else if l == "sensor"@ {
        Option::Some(LeafType::Sensor)
    } else if l == "attribute"@ {
        Option::Some(LeafType::Attribute)
    } else if l == "actuator"@ {
        Option::Some(LeafType::Actuator)
    } else {
        Option::None
    }
}

impl LeafType {
    /// Parses a leaf classification name, case-insensitively; an unknown
    /// name is invalid input, reported with the offending text.
    pub fn from_str(s: &str) -> (r: Result<LeafType, VehicleShadowError>)
        ensures
            match r {
                Result::Ok(lt) => spec_leaf_type_of(s@) == Option::Some(lt),
                Result::Err(e) => spec_leaf_type_of(s@) is None && (e matches
                    VehicleShadowError::InvalidInput(m) && m@ == s@),
            },
    {
        if matches_lowered(s, "branch") {
            Result::Ok(LeafType::Branch)
        } else if matches_lowered(s, "sensor") {
            Result::Ok(LeafType::Sensor)
        } else if matches_lowered(s, "attribute") {
            Result::Ok(LeafType::Attribute)
        } else if matches_lowered(s, "actuator") {
            Result::Ok(LeafType::Actuator)
        } else {
            Result::Err(VehicleShadowError::InvalidInput(s.to_owned()))
        }
    }
}

} // verus!
