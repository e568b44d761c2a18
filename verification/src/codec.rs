//! The fixed binary row encoding used by the shadow store.
//!
//! A stored row is serialized before insertion and read back with a
//! decoder that consumes exactly the stored byte length; any mismatch is
//! an integrity error fatal to that read. The encoding is cell-based:
//! every primitive occupies one 8-byte little-endian cell, a text is its
//! length followed by one cell per character, and compounds concatenate
//! their parts behind a tag or length cell. The layout favours a small,
//! fully proved decoder over compactness; rows live in a local embedded
//! store where this trade is cheap.

use vstd::prelude::*;
use vstd::bytes::{spec_u64_from_le_bytes, spec_u64_to_le_bytes};
use vstd::string::{StrSliceExecFns, StringExecFns};
use crate::error::VehicleShadowError;
use crate::signal::{
    Config, ConfigModel, LeafType, Signal, SignalModel, State, StateModel, Value, ValueModel,
    ValueType,
};

verus! {

/// One 8-byte little-endian cell.
pub open spec fn cell(x: u64) -> Seq<u8> {
    spec_u64_to_le_bytes(x)
}

/// A run of cells.
pub open spec fn cells(vals: Seq<u64>) -> Seq<u8>
    decreases vals.len(),
{
    if vals.len() == 0 {
        Seq::empty()
    } else {
        cell(vals[0]) + cells(vals.drop_first())
    }
}

/// The cell carrying a boolean.
pub open spec fn bool_cell(b: bool) -> u64 {
    if b {
        1u64
    } else {
        0u64
    }
}

/// The boolean a cell carries, if any.
pub open spec fn dec_bool_cell(x: u64) -> Option<bool> {
    if x == 0 {
        Option::Some(false)
    } else if x == 1 {
        Option::Some(true)
    } else {
        Option::None
    }
}

/// The cell carrying a character, by its scalar value.
pub open spec fn char_cell(c: char) -> u64 {
    (c as u32) as u64
}

/// The character a cell carries, if the cell is a valid scalar value.
pub open spec fn dec_char_cell(x: u64) -> Option<char> {
    if x < 0xD800 || (0xE000 <= x && x < 0x110000) {
        Option::Some(((x as u32) as char))
    } else {
        Option::None
    }
}

/// The cell carrying a signed 8-bit integer, by its unsigned bits.
pub open spec fn i8_cell(x: i8) -> u64 {
    (x as u8) as u64
}

/// The signed 8-bit integer a cell carries, if in range.
pub open spec fn dec_i8_cell(x: u64) -> Option<i8> {
    if x <= 255 {
        Option::Some((x as u8) as i8)
    } else {
        Option::None
    }
}

/// The cell carrying a signed 16-bit integer, by its unsigned bits.
pub open spec fn i16_cell(x: i16) -> u64 {
    (x as u16) as u64
}

/// The signed 16-bit integer a cell carries, if in range.
pub open spec fn dec_i16_cell(x: u64) -> Option<i16> {
    if x <= 65535 {
        Option::Some((x as u16) as i16)
    } else {
        Option::None
    }
}

/// The cell carrying a signed 32-bit integer, by its unsigned bits.
pub open spec fn i32_cell(x: i32) -> u64 {
    (x as u32) as u64
}

/// The signed 32-bit integer a cell carries, if in range.
pub open spec fn dec_i32_cell(x: u64) -> Option<i32> {
    if x <= 4294967295 {
        Option::Some((x as u32) as i32)
    } else {
        Option::None
    }
}

/// The cell carrying a signed 64-bit integer, by its unsigned bits.
pub open spec fn i64_cell(x: i64) -> u64 {
    x as u64
}

/// The signed 64-bit integer a cell carries.
pub open spec fn dec_i64_cell(x: u64) -> Option<i64> {
    Option::Some(x as i64)
}

/// The cell carrying an unsigned 8-bit integer.
pub open spec fn u8_cell(x: u8) -> u64 {
    x as u64
}

/// The unsigned 8-bit integer a cell carries, if in range.
pub open spec fn dec_u8_cell(x: u64) -> Option<u8> {
    if x <= 255 {
        Option::Some(x as u8)
    } else {
        Option::None
    }
}

/// The cell carrying an unsigned 16-bit integer.
pub open spec fn u16_cell(x: u16) -> u64 {
    x as u64
}

/// The unsigned 16-bit integer a cell carries, if in range.
pub open spec fn dec_u16_cell(x: u64) -> Option<u16> {
    if x <= 65535 {
        Option::Some(x as u16)
    } else {
        Option::None
    }
}

/// The cell carrying an unsigned 32-bit integer.
pub open spec fn u32_cell(x: u32) -> u64 {
    x as u64
}

/// The unsigned 32-bit integer a cell carries, if in range.
pub open spec fn dec_u32_cell(x: u64) -> Option<u32> {
    if x <= 4294967295 {
        Option::Some(x as u32)
    } else {
        Option::None
    }
}

/// The cell carrying an unsigned 64-bit integer.
pub open spec fn u64_cell(x: u64) -> u64 {
    x
}

/// The unsigned 64-bit integer a cell carries.
pub open spec fn dec_u64_cell(x: u64) -> Option<u64> {
    Option::Some(x)
}

/// A text: its length, then one cell per character.
pub open spec fn enc_str(s: Seq<char>) -> Seq<u8> {
    cell(s.len() as u64) + cells(s.map_values(|c: char| char_cell(c)))
}

/// A run of texts.
pub open spec fn enc_strs(ss: Seq<Seq<char>>) -> Seq<u8>
    decreases ss.len(),
{
    if ss.len() == 0 {
        Seq::empty()
    } else {
        enc_str(ss[0]) + enc_strs(ss.drop_first())
    }
}

/// An optional text: a presence cell, then the text if present.
pub open spec fn enc_opt_str(o: Option<Seq<char>>) -> Seq<u8> {
    match o {
        Option::None => cell(0),
        Option::Some(s) => cell(1) + enc_str(s),
    }
}

/// The tag cell opening a value's encoding.
pub open spec fn value_tag(v: ValueModel) -> u64 {
    match v {
        ValueModel::Nan => 0,
        ValueModel::Bool(_) => 1,
        ValueModel::Str(_) => 2,
        ValueModel::Int8(_) => 3,
        ValueModel::Int16(_) => 4,
        ValueModel::Int32(_) => 5,
        ValueModel::Int64(_) => 6,
        ValueModel::Uint8(_) => 7,
        ValueModel::Uint16(_) => 8,
        ValueModel::Uint32(_) => 9,
        ValueModel::Uint64(_) => 10,
        ValueModel::Float(_) => 11,
        ValueModel::Double(_) => 12,
        ValueModel::BoolArray(_) => 13,
        ValueModel::StringArray(_) => 14,
        ValueModel::Int8Array(_) => 15,
        ValueModel::Int16Array(_) => 16,
        ValueModel::Int32Array(_) => 17,
        ValueModel::Int64Array(_) => 18,
        ValueModel::Uint8Array(_) => 19,
        ValueModel::Uint16Array(_) => 20,
        ValueModel::Uint32Array(_) => 21,
        ValueModel::Uint64Array(_) => 22,
        ValueModel::FloatArray(_) => 23,
        ValueModel::DoubleArray(_) => 24,
    }
}

/// A primitive array: its length, then one cell per element.
pub open spec fn enc_prim_seq<T>(s: Seq<T>, f: spec_fn(T) -> u64) -> Seq<u8> {
    cell(s.len() as u64) + cells(s.map_values(f))
}

/// A value: its tag cell, then its payload.
pub open spec fn enc_value(v: ValueModel) -> Seq<u8> {
    cell(value_tag(v)) + match v {
        ValueModel::Nan => Seq::empty(),
        ValueModel::Bool(x) => cell(bool_cell(x)),
        ValueModel::Str(s) => enc_str(s),
        ValueModel::Int8(x) => cell(i8_cell(x)),
        ValueModel::Int16(x) => cell(i16_cell(x)),
        ValueModel::Int32(x) => cell(i32_cell(x)),
        ValueModel::Int64(x) => cell(i64_cell(x)),
        ValueModel::Uint8(x) => cell(u8_cell(x)),
        ValueModel::Uint16(x) => cell(u16_cell(x)),
        ValueModel::Uint32(x) => cell(u32_cell(x)),
        ValueModel::Uint64(x) => cell(x),
        ValueModel::Float(x) => cell(u32_cell(x)),
        ValueModel::Double(x) => cell(x),
        ValueModel::BoolArray(s) => enc_prim_seq(s, |b: bool| bool_cell(b)),
        ValueModel::StringArray(ss) => cell(ss.len() as u64) + enc_strs(ss),
        ValueModel::Int8Array(s) => enc_prim_seq(s, |x: i8| i8_cell(x)),
        ValueModel::Int16Array(s) => enc_prim_seq(s, |x: i16| i16_cell(x)),
        ValueModel::Int32Array(s) => enc_prim_seq(s, |x: i32| i32_cell(x)),
        ValueModel::Int64Array(s) => enc_prim_seq(s, |x: i64| i64_cell(x)),
        ValueModel::Uint8Array(s) => enc_prim_seq(s, |x: u8| u8_cell(x)),
        ValueModel::Uint16Array(s) => enc_prim_seq(s, |x: u16| u16_cell(x)),
        ValueModel::Uint32Array(s) => enc_prim_seq(s, |x: u32| u32_cell(x)),
        ValueModel::Uint64Array(s) => enc_prim_seq(s, |x: u64| u64_cell(x)),
        ValueModel::FloatArray(s) => enc_prim_seq(s, |x: u32| u32_cell(x)),
        ValueModel::DoubleArray(s) => enc_prim_seq(s, |x: u64| u64_cell(x)),
    }
}

/// A run of values.
pub open spec fn enc_values(vs: Seq<ValueModel>) -> Seq<u8>
    decreases vs.len(),
{
    if vs.len() == 0 {
        Seq::empty()
    } else {
        enc_value(vs[0]) + enc_values(vs.drop_first())
    }
}

/// An optional value: a presence cell, then the value if present.
pub open spec fn enc_opt_value(o: Option<ValueModel>) -> Seq<u8> {
    match o {
        Option::None => cell(0),
        Option::Some(v) => cell(1) + enc_value(v),
    }
}

/// An optional value list: a presence cell, then a length cell and the
/// values if present.
pub open spec fn enc_opt_values(o: Option<Seq<ValueModel>>) -> Seq<u8> {
    match o {
        Option::None => cell(0),
        Option::Some(vs) => cell(1) + cell(vs.len() as u64) + enc_values(vs),
    }
}

/// The cell carrying a leaf classification.
pub open spec fn leaf_cell(lt: LeafType) -> u64 {
    match lt {
        LeafType::Branch => 0,
        LeafType::Sensor => 1,
        LeafType::Attribute => 2,
        LeafType::Actuator => 3,
    }
}

/// The leaf classification a cell carries, if any.
pub open spec fn dec_leaf_cell(x: u64) -> Option<LeafType> {
    if x == 0 {
        Option::Some(LeafType::Branch)
    } else if x == 1 {
        Option::Some(LeafType::Sensor)
    } else if x == 2 {
        Option::Some(LeafType::Attribute)
    } else if x == 3 {
        Option::Some(LeafType::Actuator)
    } else {
        Option::None
    }
}

/// The cell carrying a type tag.
pub open spec fn vt_cell(vt: ValueType) -> u64 {
    match vt {
        ValueType::TypeNAN => 0,
        ValueType::TypeBool => 1,
        ValueType::TypeString => 2,
        ValueType::TypeInt8 => 3,
        ValueType::TypeInt16 => 4,
        ValueType::TypeInt32 => 5,
        ValueType::TypeInt64 => 6,
        ValueType::TypeUint8 => 7,
        ValueType::TypeUint16 => 8,
        ValueType::TypeUint32 => 9,
        ValueType::TypeUint64 => 10,
        ValueType::TypeFloat => 11,
        ValueType::TypeDouble => 12,
        ValueType::TypeBoolArray => 13,
        ValueType::TypeStringArray => 14,
        ValueType::TypeInt8Array => 15,
        ValueType::TypeInt16Array => 16,
        ValueType::TypeInt32Array => 17,
        ValueType::TypeInt64Array => 18,
        ValueType::TypeUint8Array => 19,
        ValueType::TypeUint16Array => 20,
        ValueType::TypeUint32Array => 21,
        ValueType::TypeUint64Array => 22,
        ValueType::TypeFloatArray => 23,
        ValueType::TypeDoubleArray => 24,
    }
}

/// The type tag a cell carries, if any.
pub open spec fn dec_vt_cell(x: u64) -> Option<ValueType> {
    if x == 0 {
        Option::Some(ValueType::TypeNAN)
    } else if x == 1 {
        Option::Some(ValueType::TypeBool)
    } else if x == 2 {
        Option::Some(ValueType::TypeString)
    } else if x == 3 {
        Option::Some(ValueType::TypeInt8)
    } else if x == 4 {
        Option::Some(ValueType::TypeInt16)
    } else if x == 5 {
        Option::Some(ValueType::TypeInt32)
    } else if x == 6 {
        Option::Some(ValueType::TypeInt64)
    } else if x == 7 {
        Option::Some(ValueType::TypeUint8)
    } else if x == 8 {
        Option::Some(ValueType::TypeUint16)
    } else if x == 9 {
        Option::Some(ValueType::TypeUint32)
    } else if x == 10 {
        Option::Some(ValueType::TypeUint64)
    } else if x == 11 {
        Option::Some(ValueType::TypeFloat)
    } else if x == 12 {
        Option::Some(ValueType::TypeDouble)
    } else if x == 13 {
        Option::Some(ValueType::TypeBoolArray)
    } else if x == 14 {
        Option::Some(ValueType::TypeStringArray)
    } else if x == 15 {
        Option::Some(ValueType::TypeInt8Array)
    } else if x == 16 {
        Option::Some(ValueType::TypeInt16Array)
    } else if x == 17 {
        Option::Some(ValueType::TypeInt32Array)
    } else if x == 18 {
        Option::Some(ValueType::TypeInt64Array)
    } else if x == 19 {
        Option::Some(ValueType::TypeUint8Array)
    } else if x == 20 {
        Option::Some(ValueType::TypeUint16Array)
    } else if x == 21 {
        Option::Some(ValueType::TypeUint32Array)
    } else if x == 22 {
        Option::Some(ValueType::TypeUint64Array)
    } else if x == 23 {
        Option::Some(ValueType::TypeFloatArray)
    } else if x == 24 {
        Option::Some(ValueType::TypeDoubleArray)
    } else {
        Option::None
    }
}

/// A state: value, flags, optional lock token, reserved text.
pub open spec fn enc_state(st: StateModel) -> Seq<u8> {
    enc_value(st.value) + cell(bool_cell(st.capability)) + cell(bool_cell(st.availability))
        + enc_opt_str(st.lock_token) + enc_str(st.reserved)
}

/// A config: classification and type cells, then the optional metadata.
pub open spec fn enc_config(c: ConfigModel) -> Seq<u8> {
    cell(leaf_cell(c.leaf_type)) + cell(vt_cell(c.data_type)) + enc_opt_str(c.deprecation)
        + enc_opt_str(c.unit) + enc_opt_value(c.min) + enc_opt_value(c.max) + enc_opt_str(
        c.description,
    ) + enc_opt_str(c.comment) + enc_opt_values(c.allowed) + enc_opt_value(c.default)
}

/// A whole row: path, state, config.
pub open spec fn enc_signal(s: SignalModel) -> Seq<u8> {
    enc_str(s.path) + enc_state(s.state) + enc_config(s.config)
}

/// Every sequence in a value is short enough for its length cell.
pub open spec fn wf_value(v: ValueModel) -> bool {
    match v {
        ValueModel::Str(s) => s.len() <= 0xFFFF_FFFF_FFFF_FFFF,
        ValueModel::StringArray(ss) => ss.len() <= 0xFFFF_FFFF_FFFF_FFFF && (forall|k: int|
            0 <= k < ss.len() ==> (#[trigger] ss[k]).len() <= 0xFFFF_FFFF_FFFF_FFFF),
        ValueModel::BoolArray(s) => s.len() <= 0xFFFF_FFFF_FFFF_FFFF,
        ValueModel::Int8Array(s) => s.len() <= 0xFFFF_FFFF_FFFF_FFFF,
        ValueModel::Int16Array(s) => s.len() <= 0xFFFF_FFFF_FFFF_FFFF,
        ValueModel::Int32Array(s) => s.len() <= 0xFFFF_FFFF_FFFF_FFFF,
        ValueModel::Int64Array(s) => s.len() <= 0xFFFF_FFFF_FFFF_FFFF,
        ValueModel::Uint8Array(s) => s.len() <= 0xFFFF_FFFF_FFFF_FFFF,
        ValueModel::Uint16Array(s) => s.len() <= 0xFFFF_FFFF_FFFF_FFFF,
        ValueModel::Uint32Array(s) => s.len() <= 0xFFFF_FFFF_FFFF_FFFF,
        ValueModel::Uint64Array(s) => s.len() <= 0xFFFF_FFFF_FFFF_FFFF,
        ValueModel::FloatArray(s) => s.len() <= 0xFFFF_FFFF_FFFF_FFFF,
        ValueModel::DoubleArray(s) => s.len() <= 0xFFFF_FFFF_FFFF_FFFF,
        _ => true,
    }
}

/// Every text in an optional text is short enough for its length cell.
pub open spec fn wf_opt_str(o: Option<Seq<char>>) -> bool {
    match o {
        Option::Some(s) => s.len() <= 0xFFFF_FFFF_FFFF_FFFF,
        Option::None => true,
    }
}

/// Every sequence in a state is short enough for its length cell.
pub open spec fn wf_state(st: StateModel) -> bool {
    wf_value(st.value) && wf_opt_str(st.lock_token) && st.reserved.len()
        <= 0xFFFF_FFFF_FFFF_FFFF
}

/// Every sequence in a config is short enough for its length cell.
pub open spec fn wf_config(c: ConfigModel) -> bool {
    wf_opt_str(c.deprecation) && wf_opt_str(c.unit) && wf_opt_str(c.description) && wf_opt_str(
        c.comment,
    ) && (match c.min {
        Option::Some(v) => wf_value(v),
        Option::None => true,
    }) && (match c.max {
        Option::Some(v) => wf_value(v),
        Option::None => true,
    }) && (match c.default {
        Option::Some(v) => wf_value(v),
        Option::None => true,
    }) && (match c.allowed {
        Option::Some(vs) => vs.len() <= 0xFFFF_FFFF_FFFF_FFFF && (forall|k: int|
            0 <= k < vs.len() ==> wf_value(#[trigger] vs[k])),
        Option::None => true,
    })
}

/// Every sequence in a row is short enough for its length cell.
pub open spec fn wf_signal(s: SignalModel) -> bool {
    s.path.len() <= 0xFFFF_FFFF_FFFF_FFFF && wf_state(s.state) && wf_config(s.config)
}

/// Reads one cell: 8 bytes, little endian.
pub open spec fn dec_cell(b: Seq<u8>, i: int) -> Option<(u64, int)> {
    if 0 <= i && i + 8 <= b.len() {
        Option::Some((spec_u64_from_le_bytes(b.subrange(i, i + 8)), i + 8))
    } else {
        Option::None
    }
}

/// Reads `n` one-cell elements through the given cell reader.
pub open spec fn dec_prim_seq<T>(b: Seq<u8>, i: int, n: nat, f: spec_fn(u64) -> Option<T>) -> Option<
    (Seq<T>, int),
>
    decreases n,
{
    if n == 0 {
        Option::Some((Seq::empty(), i))
    } else {
        match dec_cell(b, i) {
            Option::None => Option::None,
            Option::Some((x, i2)) => match f(x) {
                Option::None => Option::None,
                Option::Some(v) => match dec_prim_seq(b, i2, (n - 1) as nat, f) {
                    Option::None => Option::None,
                    Option::Some((rest, i3)) => Option::Some((seq![v] + rest, i3)),
                },
            },
        }
    }
}

/// Reads a text: a length cell, then that many character cells.
pub open spec fn dec_str(b: Seq<u8>, i: int) -> Option<(Seq<char>, int)> {
    match dec_cell(b, i) {
        Option::None => Option::None,
        Option::Some((n, i2)) => dec_prim_seq(b, i2, n as nat, |x: u64| dec_char_cell(x)),
    }
}

/// Reads `n` texts.
pub open spec fn dec_strs(b: Seq<u8>, i: int, n: nat) -> Option<(Seq<Seq<char>>, int)>
    decreases n,
{
    if n == 0 {
        Option::Some((Seq::empty(), i))
    } else {
        match dec_str(b, i) {
            Option::None => Option::None,
            Option::Some((s, i2)) => match dec_strs(b, i2, (n - 1) as nat) {
                Option::None => Option::None,
                Option::Some((rest, i3)) => Option::Some((seq![s] + rest, i3)),
            },
        }
    }
}

/// Reads an optional text behind its presence cell.
pub open spec fn dec_opt_str(b: Seq<u8>, i: int) -> Option<(Option<Seq<char>>, int)> {
    match dec_cell(b, i) {
        Option::None => Option::None,
        Option::Some((p, i2)) => if p == 0 {
            Option::Some((Option::None, i2))
        } else if p == 1 {
            match dec_str(b, i2) {
                Option::None => Option::None,
                Option::Some((s, i3)) => Option::Some((Option::Some(s), i3)),
            }
        } else {
            Option::None
        },
    }
}

/// Reads a value behind its tag cell.
pub open spec fn dec_value(b: Seq<u8>, i: int) -> Option<(ValueModel, int)> {
    match dec_cell(b, i) {
        Option::None => Option::None,
        Option::Some((tag, i2)) => if tag == 0 {
            Option::Some((ValueModel::Nan, i2))
        } else if tag == 1 {
            match dec_cell(b, i2) {
                Option::None => Option::None,
                Option::Some((x, i3)) => match dec_bool_cell(x) {
                    Option::None => Option::None,
                    Option::Some(v) => Option::Some((ValueModel::Bool(v), i3)),
                },
            }
        } else if tag == 2 {
            match dec_str(b, i2) {
                Option::None => Option::None,
                Option::Some((s, i3)) => Option::Some((ValueModel::Str(s), i3)),
            }
        } else if tag == 3 {
            match dec_cell(b, i2) {
                Option::None => Option::None,
                Option::Some((x, i3)) => match dec_i8_cell(x) {
                    Option::None => Option::None,
                    Option::Some(v) => Option::Some((ValueModel::Int8(v), i3)),
                },
            }
        } else if tag == 4 {
            match dec_cell(b, i2) {
                Option::None => Option::None,
                Option::Some((x, i3)) => match dec_i16_cell(x) {
                    Option::None => Option::None,
                    Option::Some(v) => Option::Some((ValueModel::Int16(v), i3)),
                },
            }
        } else if tag == 5 {
            match dec_cell(b, i2) {
                Option::None => Option::None,
                Option::Some((x, i3)) => match dec_i32_cell(x) {
                    Option::None => Option::None,
                    Option::Some(v) => Option::Some((ValueModel::Int32(v), i3)),
                },
            }
        } else if tag == 6 {
            match dec_cell(b, i2) {
                Option::None => Option::None,
                Option::Some((x, i3)) => Option::Some((ValueModel::Int64(x as i64), i3)),
            }
        } else if tag == 7 {
            match dec_cell(b, i2) {
                Option::None => Option::None,
                Option::Some((x, i3)) => match dec_u8_cell(x) {
                    Option::None => Option::None,
                    Option::Some(v) => Option::Some((ValueModel::Uint8(v), i3)),
                },
            }
        } else if tag == 8 {
            match dec_cell(b, i2) {
                Option::None => Option::None,
                Option::Some((x, i3)) => match dec_u16_cell(x) {
                    Option::None => Option::None,
                    Option::Some(v) => Option::Some((ValueModel::Uint16(v), i3)),
                },
            }
        } else if tag == 9 {
            match dec_cell(b, i2) {
                Option::None => Option::None,
                Option::Some((x, i3)) => match dec_u32_cell(x) {
                    Option::None => Option::None,
                    Option::Some(v) => Option::Some((ValueModel::Uint32(v), i3)),
                },
            }
        } else if tag == 10 {
            match dec_cell(b, i2) {
                Option::None => Option::None,
                Option::Some((x, i3)) => Option::Some((ValueModel::Uint64(x), i3)),
            }
        } else if tag == 11 {
            match dec_cell(b, i2) {
                Option::None => Option::None,
                Option::Some((x, i3)) => match dec_u32_cell(x) {
                    Option::None => Option::None,
                    Option::Some(v) => Option::Some((ValueModel::Float(v), i3)),
                },
            }
        } else if tag == 12 {
            match dec_cell(b, i2) {
                Option::None => Option::None,
                Option::Some((x, i3)) => Option::Some((ValueModel::Double(x), i3)),
            }
        } else if tag == 13 {
            match dec_cell(b, i2) {
                Option::None => Option::None,
                Option::Some((n, i3)) => match dec_prim_seq(
                    b,
                    i3,
                    n as nat,
                    |x: u64| dec_bool_cell(x),
                ) {
                    Option::None => Option::None,
                    Option::Some((s, i4)) => Option::Some((ValueModel::BoolArray(s), i4)),
                },
            }
        } else if tag == 14 {
            match dec_cell(b, i2) {
                Option::None => Option::None,
                Option::Some((n, i3)) => match dec_strs(b, i3, n as nat) {
                    Option::None => Option::None,
                    Option::Some((ss, i4)) => Option::Some((ValueModel::StringArray(ss), i4)),
                },
            }
        } else if tag == 15 {
            match dec_cell(b, i2) {
                Option::None => Option::None,
                Option::Some((n, i3)) => match dec_prim_seq(
                    b,
                    i3,
                    n as nat,
                    |x: u64| dec_i8_cell(x),
                ) {
                    Option::None => Option::None,
                    Option::Some((s, i4)) => Option::Some((ValueModel::Int8Array(s), i4)),
                },
            }
        } else if tag == 16 {
            match dec_cell(b, i2) {
                Option::None => Option::None,
                Option::Some((n, i3)) => match dec_prim_seq(
                    b,
                    i3,
                    n as nat,
                    |x: u64| dec_i16_cell(x),
                ) {
                    Option::None => Option::None,
                    Option::Some((s, i4)) => Option::Some((ValueModel::Int16Array(s), i4)),
                },
            }
        } else if tag == 17 {
            match dec_cell(b, i2) {
                Option::None => Option::None,
                Option::Some((n, i3)) => match dec_prim_seq(
                    b,
                    i3,
                    n as nat,
                    |x: u64| dec_i32_cell(x),
                ) {
                    Option::None => Option::None,
                    Option::Some((s, i4)) => Option::Some((ValueModel::Int32Array(s), i4)),
                },
            }
        } else if tag == 18 {
            match dec_cell(b, i2) {
                Option::None => Option::None,
                Option::Some((n, i3)) => match dec_prim_seq(
                    b,
                    i3,
                    n as nat,
                    |x: u64| dec_i64_cell(x),
                ) {
                    Option::None => Option::None,
                    Option::Some((s, i4)) => Option::Some((ValueModel::Int64Array(s), i4)),
                },
            }
        } else if tag == 19 {
            match dec_cell(b, i2) {
                Option::None => Option::None,
                Option::Some((n, i3)) => match dec_prim_seq(
                    b,
                    i3,
                    n as nat,
                    |x: u64| dec_u8_cell(x),
                ) {
                    Option::None => Option::None,
                    Option::Some((s, i4)) => Option::Some((ValueModel::Uint8Array(s), i4)),
                },
            }
        } else if tag == 20 {
            match dec_cell(b, i2) {
                Option::None => Option::None,
                Option::Some((n, i3)) => match dec_prim_seq(
                    b,
                    i3,
                    n as nat,
                    |x: u64| dec_u16_cell(x),
                ) {
                    Option::None => Option::None,
                    Option::Some((s, i4)) => Option::Some((ValueModel::Uint16Array(s), i4)),
                },
            }
        } else if tag == 21 {
            match dec_cell(b, i2) {
                Option::None => Option::None,
                Option::Some((n, i3)) => match dec_prim_seq(
                    b,
                    i3,
                    n as nat,
                    |x: u64| dec_u32_cell(x),
                ) {
                    Option::None => Option::None,
                    Option::Some((s, i4)) => Option::Some((ValueModel::Uint32Array(s), i4)),
                },
            }
        } else if tag == 22 {
            match dec_cell(b, i2) {
                Option::None => Option::None,
                Option::Some((n, i3)) => match dec_prim_seq(
                    b,
                    i3,
                    n as nat,
                    |x: u64| dec_u64_cell(x),
                ) {
                    Option::None => Option::None,
                    Option::Some((s, i4)) => Option::Some((ValueModel::Uint64Array(s), i4)),
                },
            }
        } else if tag == 23 {
            match dec_cell(b, i2) {
                Option::None => Option::None,
                Option::Some((n, i3)) => match dec_prim_seq(
                    b,
                    i3,
                    n as nat,
                    |x: u64| dec_u32_cell(x),
                ) {
                    Option::None => Option::None,
                    Option::Some((s, i4)) => Option::Some((ValueModel::FloatArray(s), i4)),
                },
            }
        } else if tag == 24 {
            match dec_cell(b, i2) {
                Option::None => Option::None,
                Option::Some((n, i3)) => match dec_prim_seq(
                    b,
                    i3,
                    n as nat,
                    |x: u64| dec_u64_cell(x),
                ) {
                    Option::None => Option::None,
                    Option::Some((s, i4)) => Option::Some((ValueModel::DoubleArray(s), i4)),
                },
            }
        } else {
            Option::None
        },
    }
}

/// Reads `n` values.
pub open spec fn dec_values(b: Seq<u8>, i: int, n: nat) -> Option<(Seq<ValueModel>, int)>
    decreases n,
{
    if n == 0 {
        Option::Some((Seq::empty(), i))
    } else {
        match dec_value(b, i) {
            Option::None => Option::None,
            Option::Some((v, i2)) => match dec_values(b, i2, (n - 1) as nat) {
                Option::None => Option::None,
                Option::Some((rest, i3)) => Option::Some((seq![v] + rest, i3)),
            },
        }
    }
}

/// Reads an optional value behind its presence cell.
pub open spec fn dec_opt_value(b: Seq<u8>, i: int) -> Option<(Option<ValueModel>, int)> {
    match dec_cell(b, i) {
        Option::None => Option::None,
        Option::Some((p, i2)) => if p == 0 {
            Option::Some((Option::None, i2))
        } else if p == 1 {
            match dec_value(b, i2) {
                Option::None => Option::None,
                Option::Some((v, i3)) => Option::Some((Option::Some(v), i3)),
            }
        } else {
            Option::None
        },
    }
}

/// Reads an optional value list behind its presence cell.
pub open spec fn dec_opt_values(b: Seq<u8>, i: int) -> Option<(Option<Seq<ValueModel>>, int)> {
    match dec_cell(b, i) {
        Option::None => Option::None,
        Option::Some((p, i2)) => if p == 0 {
            Option::Some((Option::None, i2))
        } else if p == 1 {
            match dec_cell(b, i2) {
                Option::None => Option::None,
                Option::Some((n, i3)) => match dec_values(b, i3, n as nat) {
                    Option::None => Option::None,
                    Option::Some((vs, i4)) => Option::Some((Option::Some(vs), i4)),
                },
            }
        } else {
            Option::None
        },
    }
}

/// Reads a state.
pub open spec fn dec_state(b: Seq<u8>, i: int) -> Option<(StateModel, int)> {
    match dec_value(b, i) {
        Option::None => Option::None,
        Option::Some((value, i2)) => match dec_cell(b, i2) {
            Option::None => Option::None,
            Option::Some((c, i3)) => match dec_bool_cell(c) {
                Option::None => Option::None,
                Option::Some(capability) => match dec_cell(b, i3) {
                    Option::None => Option::None,
                    Option::Some((a, i4)) => match dec_bool_cell(a) {
                        Option::None => Option::None,
                        Option::Some(availability) => match dec_opt_str(b, i4) {
                            Option::None => Option::None,
                            Option::Some((lock_token, i5)) => match dec_str(b, i5) {
                                Option::None => Option::None,
                                Option::Some((reserved, i6)) => Option::Some(
                                    (
                                        StateModel {
                                            value,
                                            capability,
                                            availability,
                                            lock_token,
                                            reserved,
                                        },
                                        i6,
                                    ),
                                ),
                            },
                        },
                    },
                },
            },
        },
    }
}

/// Reads a config.
pub open spec fn dec_config(b: Seq<u8>, i: int) -> Option<(ConfigModel, int)> {
    match dec_cell(b, i) {
        Option::None => Option::None,
        Option::Some((lc, i2)) => match dec_leaf_cell(lc) {
            Option::None => Option::None,
            Option::Some(leaf_type) => match dec_cell(b, i2) {
                Option::None => Option::None,
                Option::Some((tc, i3)) => match dec_vt_cell(tc) {
                    Option::None => Option::None,
                    Option::Some(data_type) => match dec_opt_str(b, i3) {
                        Option::None => Option::None,
                        Option::Some((deprecation, i4)) => match dec_opt_str(b, i4) {
                            Option::None => Option::None,
                            Option::Some((unit, i5)) => match dec_opt_value(b, i5) {
                                Option::None => Option::None,
                                Option::Some((min, i6)) => match dec_opt_value(b, i6) {
                                    Option::None => Option::None,
                                    Option::Some((max, i7)) => match dec_opt_str(b, i7) {
                                        Option::None => Option::None,
                                        Option::Some((description, i8r)) => match dec_opt_str(
                                            b,
                                            i8r,
                                        ) {
                                            Option::None => Option::None,
                                            Option::Some((comment, i9)) => match dec_opt_values(
                                                b,
                                                i9,
                                            ) {
                                                Option::None => Option::None,
                                                Option::Some((allowed, i10)) => match dec_opt_value(
                                                    b,
                                                    i10,
                                                ) {
                                                    Option::None => Option::None,
                                                    Option::Some((default, i11)) => Option::Some(
                                                        (
                                                            ConfigModel {
                                                                leaf_type,
                                                                data_type,
                                                                deprecation,
                                                                unit,
                                                                min,
                                                                max,
                                                                description,
                                                                comment,
                                                                allowed,
                                                                default,
                                                            },
                                                            i11,
                                                        ),
                                                    ),
                                                },
                                            },
                                        },
                                    },
                                },
                            },
                        },
                    },
                },
            },
        },
    }
}

/// Reads a whole row.
pub open spec fn dec_signal(b: Seq<u8>, i: int) -> Option<(SignalModel, int)> {
    match dec_str(b, i) {
        Option::None => Option::None,
        Option::Some((path, i2)) => match dec_state(b, i2) {
            Option::None => Option::None,
            Option::Some((state, i3)) => match dec_config(b, i3) {
                Option::None => Option::None,
                Option::Some((config, i4)) => Option::Some(
                    (SignalModel { path, state, config }, i4),
                ),
            },
        },
    }
}


/// Peels a known prefix off a suffix equation: if the bytes from `i` on
/// read as `p` then `rest`, the bytes from `i + p.len()` on read as
/// `rest`.
proof fn lemma_peel(b: Seq<u8>, i: int, p: Seq<u8>, rest: Seq<u8>)
    requires
        0 <= i <= b.len(),
        b.skip(i) == p + rest,
    ensures
        i + p.len() <= b.len(),
        b.skip(i + p.len()) == rest,
{
    assert(b.skip(i).len() == b.len() - i);
    assert(b.skip(i + p.len() as int) =~= rest) by {
        assert forall|k: int| 0 <= k < rest.len() implies b.skip(i + p.len() as int)[k]
            == rest[k] by {
            assert(b.skip(i)[p.len() + k] == rest[k]);
        }
    }
}

/// A cell read off the front of a suffix yields the encoded word.
proof fn lemma_dec_cell(b: Seq<u8>, i: int, x: u64, rest: Seq<u8>)
    requires
        0 <= i <= b.len(),
        b.skip(i) == cell(x) + rest,
    ensures
        cell(x).len() == 8,
        dec_cell(b, i) == Option::Some((x, i + 8)),
        i + 8 <= b.len(),
        b.skip(i + 8) == rest,
{
    vstd::bytes::lemma_auto_spec_u64_to_from_le_bytes();
    assert(cell(x).len() == 8);
    assert(b.skip(i).len() == b.len() - i);
    assert(i + 8 <= b.len());
    assert(b.subrange(i, i + 8) =~= cell(x)) by {
        assert forall|k: int| 0 <= k < 8 implies b.subrange(i, i + 8)[k] == cell(x)[k] by {
            assert(b.skip(i)[k] == (cell(x) + rest)[k]);
        }
    }
    lemma_peel(b, i, cell(x), rest);
}

/// A character cell decodes back to its character.
proof fn lemma_char_cell_rt(c: char)
    ensures
        dec_char_cell(char_cell(c)) == Option::Some(c),
{
    vstd::utf8::char_is_scalar(c);
    vstd::utf8::char_u32_cast(c, c as u32);
}

/// A run of one-cell elements decodes back to the encoded sequence, for
/// any cell coding whose reader inverts its writer.
pub proof fn lemma_dec_prim_seq<T>(
    b: Seq<u8>,
    i: int,
    s: Seq<T>,
    enc_f: spec_fn(T) -> u64,
    dec_f: spec_fn(u64) -> Option<T>,
    rest: Seq<u8>,
)
    requires
        forall|x: T| #[trigger] dec_f(enc_f(x)) == Option::Some(x),
        0 <= i <= b.len(),
        b.skip(i) == cells(s.map_values(enc_f)) + rest,
    ensures
        cells(s.map_values(enc_f)).len() == 8 * s.len(),
        dec_prim_seq(b, i, s.len(), dec_f) == Option::Some((s, i + 8 * s.len())),
        i + 8 * s.len() <= b.len(),
        b.skip(i + 8 * s.len()) == rest,
    decreases s.len(),
{
    if s.len() == 0 {
        assert(cells(s.map_values(enc_f)) =~= Seq::<u8>::empty());
        assert(b.skip(i) =~= rest);
        assert(dec_prim_seq(b, i, s.len(), dec_f) == Option::Some((Seq::<T>::empty(), i)));
        assert(s =~= Seq::<T>::empty());
    } else {
        let v0 = s[0];
        let tail = s.drop_first();
        let mapped = s.map_values(enc_f);
        assert(mapped[0] == enc_f(v0));
        assert(mapped.drop_first() =~= tail.map_values(enc_f));
        assert(cells(mapped) == cell(enc_f(v0)) + cells(mapped.drop_first()));
        assert(b.skip(i) =~= cell(enc_f(v0)) + (cells(tail.map_values(enc_f)) + rest));
        lemma_dec_cell(b, i, enc_f(v0), cells(tail.map_values(enc_f)) + rest);
        lemma_dec_prim_seq(b, i + 8, tail, enc_f, dec_f, rest);
        assert(seq![v0] + tail =~= s);
    }
}

/// A text decodes back to the encoded characters.
proof fn lemma_dec_str(b: Seq<u8>, i: int, s: Seq<char>, rest: Seq<u8>)
    requires
        0 <= i <= b.len(),
        s.len() <= 0xFFFF_FFFF_FFFF_FFFF,
        b.skip(i) == enc_str(s) + rest,
    ensures
        dec_str(b, i) == Option::Some((s, i + enc_str(s).len())),
        i + enc_str(s).len() <= b.len(),
        b.skip(i + enc_str(s).len()) == rest,
{
    let charf = |c: char| char_cell(c);
    let body = cells(s.map_values(charf));
    assert(b.skip(i) =~= cell(s.len() as u64) + (body + rest));
    lemma_dec_cell(b, i, s.len() as u64, body + rest);
    assert forall|c: char| #[trigger] dec_char_cell(char_cell(c)) == Option::Some(c) by {
        lemma_char_cell_rt(c);
    }
    lemma_dec_prim_seq(b, i + 8, s, charf, |x: u64| dec_char_cell(x), rest);
    assert((s.len() as u64) as nat == s.len());
    assert(enc_str(s).len() == 8 + 8 * s.len());
}

/// A run of texts decodes back to the encoded sequence.
proof fn lemma_dec_strs(b: Seq<u8>, i: int, ss: Seq<Seq<char>>, rest: Seq<u8>)
    requires
        0 <= i <= b.len(),
        forall|k: int| 0 <= k < ss.len() ==> (#[trigger] ss[k]).len() <= 0xFFFF_FFFF_FFFF_FFFF,
        b.skip(i) == enc_strs(ss) + rest,
    ensures
        dec_strs(b, i, ss.len()) == Option::Some((ss, i + enc_strs(ss).len())),
        i + enc_strs(ss).len() <= b.len(),
        b.skip(i + enc_strs(ss).len()) == rest,
    decreases ss.len(),
{
    if ss.len() == 0 {
        assert(enc_strs(ss) =~= Seq::<u8>::empty());
        assert(b.skip(i) =~= rest);
        assert(ss =~= Seq::<Seq<char>>::empty());
    } else {
        let s0 = ss[0];
        let tail = ss.drop_first();
        assert(enc_strs(ss) == enc_str(s0) + enc_strs(tail));
        assert(b.skip(i) =~= enc_str(s0) + (enc_strs(tail) + rest));
        lemma_dec_str(b, i, s0, enc_strs(tail) + rest);
        lemma_dec_strs(b, i + enc_str(s0).len(), tail, rest);
        assert(seq![s0] + tail =~= ss);
    }
}

/// An optional text decodes back to the encoded option.
proof fn lemma_dec_opt_str(b: Seq<u8>, i: int, o: Option<Seq<char>>, rest: Seq<u8>)
    requires
        0 <= i <= b.len(),
        wf_opt_str(o),
        b.skip(i) == enc_opt_str(o) + rest,
    ensures
        dec_opt_str(b, i) == Option::Some((o, i + enc_opt_str(o).len())),
        i + enc_opt_str(o).len() <= b.len(),
        b.skip(i + enc_opt_str(o).len()) == rest,
{
    match o {
        Option::None => {
            lemma_dec_cell(b, i, 0, rest);
        },
        Option::Some(s) => {
            assert(b.skip(i) =~= cell(1) + (enc_str(s) + rest));
            lemma_dec_cell(b, i, 1, enc_str(s) + rest);
            lemma_dec_str(b, i + 8, s, rest);
        },
    }
}


/// A signed 8-bit cell decodes back to its integer.
proof fn lemma_i8_cell_rt(x: i8)
    ensures
        dec_i8_cell(i8_cell(x)) == Option::Some(x),
{
    assert((((x as u8) as u64) as u8) as i8 == x) by (bit_vector);
    assert((x as u8) as u64 <= 255) by (bit_vector);
}

/// A signed 16-bit cell decodes back to its integer.
proof fn lemma_i16_cell_rt(x: i16)
    ensures
        dec_i16_cell(i16_cell(x)) == Option::Some(x),
{
    assert((((x as u16) as u64) as u16) as i16 == x) by (bit_vector);
    assert((x as u16) as u64 <= 65535) by (bit_vector);
}

/// A signed 32-bit cell decodes back to its integer.
proof fn lemma_i32_cell_rt(x: i32)
    ensures
        dec_i32_cell(i32_cell(x)) == Option::Some(x),
{
    assert((((x as u32) as u64) as u32) as i32 == x) by (bit_vector);
    assert((x as u32) as u64 <= 4294967295) by (bit_vector);
}

/// A signed 64-bit cell decodes back to its integer.
proof fn lemma_i64_cell_rt(x: i64)
    ensures
        dec_i64_cell(i64_cell(x)) == Option::Some(x),
{
    assert((x as u64) as i64 == x) by (bit_vector);
}

/// A value decodes back to the encoded value.
#[verifier::rlimit(100)]
proof fn lemma_dec_value(b: Seq<u8>, i: int, v: ValueModel, rest: Seq<u8>)
    requires
        0 <= i <= b.len(),
        wf_value(v),
        b.skip(i) == enc_value(v) + rest,
    ensures
        dec_value(b, i) == Option::Some((v, i + enc_value(v).len())),
        i + enc_value(v).len() <= b.len(),
        b.skip(i + enc_value(v).len()) == rest,
{
    let tag = value_tag(v);
    let payload = enc_value(v).skip(8);
    assert(enc_value(v) == cell(tag) + (enc_value(v).skip(8))) by {
        vstd::bytes::lemma_auto_spec_u64_to_from_le_bytes();
        assert(cell(tag) + enc_value(v).skip(8) =~= enc_value(v));
    }
    match v {
        ValueModel::Nan => {
            assert(b.skip(i) =~= cell(tag) + rest);
            lemma_dec_cell(b, i, tag, rest);
        },
        ValueModel::Bool(x) => {
            assert(b.skip(i) =~= cell(tag) + (cell(bool_cell(x)) + rest));
            lemma_dec_cell(b, i, tag, cell(bool_cell(x)) + rest);
            lemma_dec_cell(b, i + 8, bool_cell(x), rest);
        },
        ValueModel::Str(s) => {
            assert(b.skip(i) =~= cell(tag) + (enc_str(s) + rest));
            lemma_dec_cell(b, i, tag, enc_str(s) + rest);
            lemma_dec_str(b, i + 8, s, rest);
        },
        ValueModel::Int8(x) => {
            lemma_i8_cell_rt(x);
            assert(b.skip(i) =~= cell(tag) + (cell(i8_cell(x)) + rest));
            lemma_dec_cell(b, i, tag, cell(i8_cell(x)) + rest);
            lemma_dec_cell(b, i + 8, i8_cell(x), rest);
        },
        ValueModel::Int16(x) => {
            lemma_i16_cell_rt(x);
            assert(b.skip(i) =~= cell(tag) + (cell(i16_cell(x)) + rest));
            lemma_dec_cell(b, i, tag, cell(i16_cell(x)) + rest);
            lemma_dec_cell(b, i + 8, i16_cell(x), rest);
        },
        ValueModel::Int32(x) => {
            lemma_i32_cell_rt(x);
            assert(b.skip(i) =~= cell(tag) + (cell(i32_cell(x)) + rest));
            lemma_dec_cell(b, i, tag, cell(i32_cell(x)) + rest);
            lemma_dec_cell(b, i + 8, i32_cell(x), rest);
        },
        ValueModel::Int64(x) => {
            lemma_i64_cell_rt(x);
            assert(b.skip(i) =~= cell(tag) + (cell(i64_cell(x)) + rest));
            lemma_dec_cell(b, i, tag, cell(i64_cell(x)) + rest);
            lemma_dec_cell(b, i + 8, i64_cell(x), rest);
        },
        ValueModel::Uint8(x) => {
            assert(b.skip(i) =~= cell(tag) + (cell(u8_cell(x)) + rest));
            lemma_dec_cell(b, i, tag, cell(u8_cell(x)) + rest);
            lemma_dec_cell(b, i + 8, u8_cell(x), rest);
        },
        ValueModel::Uint16(x) => {
            assert(b.skip(i) =~= cell(tag) + (cell(u16_cell(x)) + rest));
            lemma_dec_cell(b, i, tag, cell(u16_cell(x)) + rest);
            lemma_dec_cell(b, i + 8, u16_cell(x), rest);
        },
        ValueModel::Uint32(x) => {
            assert(b.skip(i) =~= cell(tag) + (cell(u32_cell(x)) + rest));
            lemma_dec_cell(b, i, tag, cell(u32_cell(x)) + rest);
            lemma_dec_cell(b, i + 8, u32_cell(x), rest);
        },
        ValueModel::Uint64(x) => {
            assert(b.skip(i) =~= cell(tag) + (cell(x) + rest));
            lemma_dec_cell(b, i, tag, cell(x) + rest);
            lemma_dec_cell(b, i + 8, x, rest);
        },
        ValueModel::Float(x) => {
            assert(b.skip(i) =~= cell(tag) + (cell(u32_cell(x)) + rest));
            lemma_dec_cell(b, i, tag, cell(u32_cell(x)) + rest);
            lemma_dec_cell(b, i + 8, u32_cell(x), rest);
        },
        ValueModel::Double(x) => {
            assert(b.skip(i) =~= cell(tag) + (cell(x) + rest));
            lemma_dec_cell(b, i, tag, cell(x) + rest);
            lemma_dec_cell(b, i + 8, x, rest);
        },
        ValueModel::BoolArray(s) => {
            lemma_dec_prim_array(b, i, tag, s, |x: bool| bool_cell(x), |x: u64| dec_bool_cell(x), rest);
        },
        ValueModel::StringArray(ss) => {
            assert(b.skip(i) =~= cell(tag) + ((cell(ss.len() as u64) + enc_strs(ss)) + rest));
            lemma_dec_cell(b, i, tag, (cell(ss.len() as u64) + enc_strs(ss)) + rest);
            assert(b.skip(i + 8) =~= cell(ss.len() as u64) + (enc_strs(ss) + rest));
            lemma_dec_cell(b, i + 8, ss.len() as u64, enc_strs(ss) + rest);
            lemma_dec_strs(b, i + 16, ss, rest);
            assert((ss.len() as u64) as nat == ss.len());
        },
        ValueModel::Int8Array(s) => {
            assert forall|x: i8| #[trigger] dec_i8_cell(i8_cell(x)) == Option::Some(x) by {
                lemma_i8_cell_rt(x);
            }
            lemma_dec_prim_array(b, i, tag, s, |x: i8| i8_cell(x), |x: u64| dec_i8_cell(x), rest);
        },
        ValueModel::Int16Array(s) => {
            assert forall|x: i16| #[trigger] dec_i16_cell(i16_cell(x)) == Option::Some(x) by {
                lemma_i16_cell_rt(x);
            }
            lemma_dec_prim_array(b, i, tag, s, |x: i16| i16_cell(x), |x: u64| dec_i16_cell(x), rest);
        },
        ValueModel::Int32Array(s) => {
            assert forall|x: i32| #[trigger] dec_i32_cell(i32_cell(x)) == Option::Some(x) by {
                lemma_i32_cell_rt(x);
            }
            lemma_dec_prim_array(b, i, tag, s, |x: i32| i32_cell(x), |x: u64| dec_i32_cell(x), rest);
        },
        ValueModel::Int64Array(s) => {
            assert forall|x: i64| #[trigger] dec_i64_cell(i64_cell(x)) == Option::Some(x) by {
                lemma_i64_cell_rt(x);
            }
            lemma_dec_prim_array(b, i, tag, s, |x: i64| i64_cell(x), |x: u64| dec_i64_cell(x), rest);
        },
        ValueModel::Uint8Array(s) => {
            lemma_dec_prim_array(b, i, tag, s, |x: u8| u8_cell(x), |x: u64| dec_u8_cell(x), rest);
        },
        ValueModel::Uint16Array(s) => {
            lemma_dec_prim_array(b, i, tag, s, |x: u16| u16_cell(x), |x: u64| dec_u16_cell(x), rest);
        },
        ValueModel::Uint32Array(s) => {
            lemma_dec_prim_array(b, i, tag, s, |x: u32| u32_cell(x), |x: u64| dec_u32_cell(x), rest);
        },
        ValueModel::Uint64Array(s) => {
            lemma_dec_prim_array(b, i, tag, s, |x: u64| u64_cell(x), |x: u64| dec_u64_cell(x), rest);
        },
        ValueModel::FloatArray(s) => {
            lemma_dec_prim_array(b, i, tag, s, |x: u32| u32_cell(x), |x: u64| dec_u32_cell(x), rest);
        },
        ValueModel::DoubleArray(s) => {
            lemma_dec_prim_array(b, i, tag, s, |x: u64| u64_cell(x), |x: u64| dec_u64_cell(x), rest);
        },
    }
}

/// A tagged primitive array decodes back to its length and elements.
proof fn lemma_dec_prim_array<T>(
    b: Seq<u8>,
    i: int,
    tag: u64,
    s: Seq<T>,
    enc_f: spec_fn(T) -> u64,
    dec_f: spec_fn(u64) -> Option<T>,
    rest: Seq<u8>,
)
    requires
        forall|x: T| #[trigger] dec_f(enc_f(x)) == Option::Some(x),
        0 <= i <= b.len(),
        s.len() <= 0xFFFF_FFFF_FFFF_FFFF,
        b.skip(i) == (cell(tag) + enc_prim_seq(s, enc_f)) + rest,
    ensures
        dec_cell(b, i) == Option::Some((tag, i + 8)),
        dec_cell(b, i + 8) == Option::Some((s.len() as u64, i + 16)),
        dec_prim_seq(b, i + 16, s.len(), dec_f) == Option::Some(
            (s, i + 16 + 8 * s.len()),
        ),
        i + 16 + 8 * s.len() <= b.len(),
        (cell(tag) + enc_prim_seq(s, enc_f)).len() == 16 + 8 * s.len(),
        b.skip(i + 16 + 8 * s.len()) == rest,
        (s.len() as u64) as nat == s.len(),
{
    let body = cells(s.map_values(enc_f));
    assert(b.skip(i) =~= cell(tag) + ((cell(s.len() as u64) + body) + rest));
    lemma_dec_cell(b, i, tag, (cell(s.len() as u64) + body) + rest);
    assert(b.skip(i + 8) =~= cell(s.len() as u64) + (body + rest));
    lemma_dec_cell(b, i + 8, s.len() as u64, body + rest);
    lemma_dec_prim_seq(b, i + 16, s, enc_f, dec_f, rest);
}

/// A run of values decodes back to the encoded sequence.
proof fn lemma_dec_values(b: Seq<u8>, i: int, vs: Seq<ValueModel>, rest: Seq<u8>)
    requires
        0 <= i <= b.len(),
        forall|k: int| 0 <= k < vs.len() ==> wf_value(#[trigger] vs[k]),
        b.skip(i) == enc_values(vs) + rest,
    ensures
        dec_values(b, i, vs.len()) == Option::Some((vs, i + enc_values(vs).len())),
        i + enc_values(vs).len() <= b.len(),
        b.skip(i + enc_values(vs).len()) == rest,
    decreases vs.len(),
{
    if vs.len() == 0 {
        assert(enc_values(vs) =~= Seq::<u8>::empty());
        assert(b.skip(i) =~= rest);
        assert(vs =~= Seq::<ValueModel>::empty());
    } else {
        let v0 = vs[0];
        let tail = vs.drop_first();
        assert(enc_values(vs) == enc_value(v0) + enc_values(tail));
        assert(b.skip(i) =~= enc_value(v0) + (enc_values(tail) + rest));
        lemma_dec_value(b, i, v0, enc_values(tail) + rest);
        lemma_dec_values(b, i + enc_value(v0).len(), tail, rest);
        assert(seq![v0] + tail =~= vs);
    }
}

/// An optional value decodes back to the encoded option.
proof fn lemma_dec_opt_value(b: Seq<u8>, i: int, o: Option<ValueModel>, rest: Seq<u8>)
    requires
        0 <= i <= b.len(),
        (o matches Option::Some(v) ==> wf_value(v)),
        b.skip(i) == enc_opt_value(o) + rest,
    ensures
        dec_opt_value(b, i) == Option::Some((o, i + enc_opt_value(o).len())),
        i + enc_opt_value(o).len() <= b.len(),
        b.skip(i + enc_opt_value(o).len()) == rest,
{
    match o {
        Option::None => {
            lemma_dec_cell(b, i, 0, rest);
        },
        Option::Some(v) => {
            assert(b.skip(i) =~= cell(1) + (enc_value(v) + rest));
            lemma_dec_cell(b, i, 1, enc_value(v) + rest);
            lemma_dec_value(b, i + 8, v, rest);
        },
    }
}

/// An optional value list decodes back to the encoded option.
proof fn lemma_dec_opt_values(b: Seq<u8>, i: int, o: Option<Seq<ValueModel>>, rest: Seq<u8>)
    requires
        0 <= i <= b.len(),
        (o matches Option::Some(vs) ==> vs.len() <= 0xFFFF_FFFF_FFFF_FFFF && (forall|k: int|
            0 <= k < vs.len() ==> wf_value(#[trigger] vs[k]))),
        b.skip(i) == enc_opt_values(o) + rest,
    ensures
        dec_opt_values(b, i) == Option::Some((o, i + enc_opt_values(o).len())),
        i + enc_opt_values(o).len() <= b.len(),
        b.skip(i + enc_opt_values(o).len()) == rest,
{
    match o {
        Option::None => {
            lemma_dec_cell(b, i, 0, rest);
        },
        Option::Some(vs) => {
            assert(b.skip(i) =~= cell(1) + ((cell(vs.len() as u64) + enc_values(vs)) + rest));
            lemma_dec_cell(b, i, 1, (cell(vs.len() as u64) + enc_values(vs)) + rest);
            assert(b.skip(i + 8) =~= cell(vs.len() as u64) + (enc_values(vs) + rest));
            lemma_dec_cell(b, i + 8, vs.len() as u64, enc_values(vs) + rest);
            lemma_dec_values(b, i + 16, vs, rest);
            assert((vs.len() as u64) as nat == vs.len());
        },
    }
}

/// A state decodes back to the encoded state.
#[verifier::rlimit(100)]
proof fn lemma_dec_state(b: Seq<u8>, i: int, st: StateModel, rest: Seq<u8>)
    requires
        0 <= i <= b.len(),
        wf_state(st),
        b.skip(i) == enc_state(st) + rest,
    ensures
        dec_state(b, i) == Option::Some((st, i + enc_state(st).len())),
        i + enc_state(st).len() <= b.len(),
        b.skip(i + enc_state(st).len()) == rest,
{
    let r1 = cell(bool_cell(st.capability)) + (cell(bool_cell(st.availability)) + (enc_opt_str(
        st.lock_token,
    ) + (enc_str(st.reserved) + rest)));
    assert(b.skip(i) =~= enc_value(st.value) + r1);
    lemma_dec_value(b, i, st.value, r1);
    let i2 = i + enc_value(st.value).len();
    lemma_dec_cell(b, i2, bool_cell(st.capability), cell(bool_cell(st.availability)) + (enc_opt_str(
        st.lock_token,
    ) + (enc_str(st.reserved) + rest)));
    let i3 = i2 + 8;
    lemma_dec_cell(b, i3, bool_cell(st.availability), enc_opt_str(st.lock_token) + (enc_str(
        st.reserved,
    ) + rest));
    let i4 = i3 + 8;
    lemma_dec_opt_str(b, i4, st.lock_token, enc_str(st.reserved) + rest);
    let i5 = i4 + enc_opt_str(st.lock_token).len();
    lemma_dec_str(b, i5, st.reserved, rest);
}

/// A config's encoding, re-associated into a right-leaning chain.
#[verifier::rlimit(100)]
proof fn lemma_config_chain(c: ConfigModel, rest: Seq<u8>)
    ensures
        enc_config(c) + rest == cell(leaf_cell(c.leaf_type)) + (cell(vt_cell(c.data_type))
            + (enc_opt_str(c.deprecation) + (enc_opt_str(c.unit) + (enc_opt_value(c.min)
            + (enc_opt_value(c.max) + (enc_opt_str(c.description) + (enc_opt_str(c.comment)
            + (enc_opt_values(c.allowed) + (enc_opt_value(c.default) + rest))))))))),
{
    let a = cell(leaf_cell(c.leaf_type));
    let b2 = cell(vt_cell(c.data_type));
    let d = enc_opt_str(c.deprecation);
    let u = enc_opt_str(c.unit);
    let mn = enc_opt_value(c.min);
    let mx = enc_opt_value(c.max);
    let ds = enc_opt_str(c.description);
    let cm = enc_opt_str(c.comment);
    let al = enc_opt_values(c.allowed);
    let df = enc_opt_value(c.default);
    lemma_seq_assoc(a + b2 + d + u + mn + mx + ds + cm + al, df, rest);
    lemma_seq_assoc(a + b2 + d + u + mn + mx + ds + cm, al, df + rest);
    lemma_seq_assoc(a + b2 + d + u + mn + mx + ds, cm, al + (df + rest));
    lemma_seq_assoc(a + b2 + d + u + mn + mx, ds, cm + (al + (df + rest)));
    lemma_seq_assoc(a + b2 + d + u + mn, mx, ds + (cm + (al + (df + rest))));
    lemma_seq_assoc(a + b2 + d + u, mn, mx + (ds + (cm + (al + (df + rest)))));
    lemma_seq_assoc(a + b2 + d, u, mn + (mx + (ds + (cm + (al + (df + rest))))));
    lemma_seq_assoc(a + b2, d, u + (mn + (mx + (ds + (cm + (al + (df + rest)))))));
    lemma_seq_assoc(a, b2, d + (u + (mn + (mx + (ds + (cm + (al + (df + rest))))))));
}

/// Concatenation of byte runs is associative.
proof fn lemma_seq_assoc(a: Seq<u8>, b: Seq<u8>, c: Seq<u8>)
    ensures
        (a + b) + c == a + (b + c),
{
    assert((a + b) + c =~= a + (b + c));
}

/// A config decodes back to the encoded config.
#[verifier::rlimit(100)]
#[verifier::spinoff_prover]
proof fn lemma_dec_config(b: Seq<u8>, i: int, c: ConfigModel, rest: Seq<u8>)
    requires
        0 <= i <= b.len(),
        wf_config(c),
        b.skip(i) == enc_config(c) + rest,
    ensures
        dec_config(b, i) == Option::Some((c, i + enc_config(c).len())),
        i + enc_config(c).len() <= b.len(),
        b.skip(i + enc_config(c).len()) == rest,
{
    let r9 = enc_opt_value(c.default) + rest;
    let r8 = enc_opt_values(c.allowed) + r9;
    let r7 = enc_opt_str(c.comment) + r8;
    let r6 = enc_opt_str(c.description) + r7;
    let r5 = enc_opt_value(c.max) + r6;
    let r4 = enc_opt_value(c.min) + r5;
    let r3 = enc_opt_str(c.unit) + r4;
    let r2 = enc_opt_str(c.deprecation) + r3;
    let r1 = cell(vt_cell(c.data_type)) + r2;
    lemma_config_chain(c, rest);
    lemma_dec_cell(b, i, leaf_cell(c.leaf_type), r1);
    let i2 = i + 8;
    lemma_dec_cell(b, i2, vt_cell(c.data_type), r2);
    let i3 = i2 + 8;
    lemma_dec_opt_str(b, i3, c.deprecation, r3);
    let i4 = i3 + enc_opt_str(c.deprecation).len();
    lemma_dec_opt_str(b, i4, c.unit, r4);
    let i5 = i4 + enc_opt_str(c.unit).len();
    lemma_dec_opt_value(b, i5, c.min, r5);
    let i6 = i5 + enc_opt_value(c.min).len();
    lemma_dec_opt_value(b, i6, c.max, r6);
    let i7 = i6 + enc_opt_value(c.max).len();
    lemma_dec_opt_str(b, i7, c.description, r7);
    let i8r = i7 + enc_opt_str(c.description).len();
    lemma_dec_opt_str(b, i8r, c.comment, r8);
    let i9 = i8r + enc_opt_str(c.comment).len();
    lemma_dec_opt_values(b, i9, c.allowed, r9);
    let i10 = i9 + enc_opt_values(c.allowed).len();
    lemma_dec_opt_value(b, i10, c.default, rest);
}

/// A whole row decodes back to the encoded row, consuming its exact
/// encoding.
#[verifier::rlimit(100)]
#[verifier::spinoff_prover]
pub proof fn lemma_dec_signal(b: Seq<u8>, i: int, s: SignalModel, rest: Seq<u8>)
    requires
        0 <= i <= b.len(),
        wf_signal(s),
        b.skip(i) == enc_signal(s) + rest,
    ensures
        dec_signal(b, i) == Option::Some((s, i + enc_signal(s).len())),
        i + enc_signal(s).len() <= b.len(),
        b.skip(i + enc_signal(s).len()) == rest,
{
    let r2 = enc_config(s.config) + rest;
    let r1 = enc_state(s.state) + r2;
    assert(b.skip(i) =~= enc_str(s.path) + r1);
    lemma_dec_str(b, i, s.path, r1);
    let i2 = i + enc_str(s.path).len();
    lemma_dec_state(b, i2, s.state, r2);
    let i3 = i2 + enc_state(s.state).len();
    lemma_dec_config(b, i3, s.config, rest);
}


/// Appending one more cell value extends the byte run by one cell.
proof fn lemma_cells_snoc(vals: Seq<u64>, v: u64)
    ensures
        cells(vals.push(v)) == cells(vals) + cell(v),
    decreases vals.len(),
{
    if vals.len() == 0 {
        assert(vals.push(v) =~= seq![v]);
        assert(cells(seq![v]) == cell(v) + cells(seq![v].drop_first()));
        assert(seq![v].drop_first() =~= Seq::<u64>::empty());
        assert(cell(v) + cells(Seq::<u64>::empty()) =~= cell(v));
        assert(cells(vals) + cell(v) =~= cell(v));
    } else {
        assert(vals.push(v).drop_first() =~= vals.drop_first().push(v));
        lemma_cells_snoc(vals.drop_first(), v);
        assert(cells(vals.push(v)) =~= cells(vals) + cell(v));
    }
}

/// Appending one more text extends the run of texts by its encoding.
proof fn lemma_strs_snoc(ss: Seq<Seq<char>>, s: Seq<char>)
    ensures
        enc_strs(ss.push(s)) == enc_strs(ss) + enc_str(s),
    decreases ss.len(),
{
    if ss.len() == 0 {
        assert(ss.push(s) =~= seq![s]);
        assert(enc_strs(seq![s]) == enc_str(s) + enc_strs(seq![s].drop_first()));
        assert(seq![s].drop_first() =~= Seq::<Seq<char>>::empty());
        assert(enc_str(s) + enc_strs(Seq::<Seq<char>>::empty()) =~= enc_str(s));
        assert(enc_strs(ss) + enc_str(s) =~= enc_str(s));
    } else {
        assert(ss.push(s).drop_first() =~= ss.drop_first().push(s));
        lemma_strs_snoc(ss.drop_first(), s);
        assert(enc_strs(ss.push(s)) =~= enc_strs(ss) + enc_str(s));
    }
}

/// Appending one more value extends the run of values by its encoding.
proof fn lemma_values_snoc(vs: Seq<ValueModel>, v: ValueModel)
    ensures
        enc_values(vs.push(v)) == enc_values(vs) + enc_value(v),
    decreases vs.len(),
{
    if vs.len() == 0 {
        assert(vs.push(v) =~= seq![v]);
        assert(enc_values(seq![v]) == enc_value(v) + enc_values(seq![v].drop_first()));
        assert(seq![v].drop_first() =~= Seq::<ValueModel>::empty());
        assert(enc_value(v) + enc_values(Seq::<ValueModel>::empty()) =~= enc_value(v));
        assert(enc_values(vs) + enc_value(v) =~= enc_value(v));
    } else {
        assert(vs.push(v).drop_first() =~= vs.drop_first().push(v));
        lemma_values_snoc(vs.drop_first(), v);
        assert(enc_values(vs.push(v)) =~= enc_values(vs) + enc_value(v));
    }
}

/// Appends one cell.
fn push_cell(out: &mut Vec<u8>, x: u64)
    ensures
        final(out)@ == old(out)@ + cell(x),
{
    let mut bs = vstd::bytes::u64_to_le_bytes(x);
    out.append(&mut bs);
}

/// Appends a text: length cell, then one cell per character.
fn push_text(out: &mut Vec<u8>, s: &str)
    ensures
        final(out)@ == old(out)@ + enc_str(s@),
        s@.len() <= 0xFFFF_FFFF_FFFF_FFFF,
{
    let n = s.unicode_len();
    push_cell(out, n as u64);
    let mut i: usize = 0;
    proof {
        assert(out@ =~= old(out)@ + cell(n as u64) + cells(
            s@.subrange(0, 0).map_values(|c2: char| char_cell(c2)),
        ));
    }
    while i < n
        invariant
            n == s@.len(),
            i <= n,
            out@ == old(out)@ + cell(n as u64) + cells(
                s@.subrange(0, i as int).map_values(|c2: char| char_cell(c2)),
            ),
        decreases n - i,
    {
        let c = s.get_char(i);
        proof {
            lemma_cells_snoc(
                s@.subrange(0, i as int).map_values(|c2: char| char_cell(c2)),
                char_cell(c),
            );
            assert(s@.subrange(0, i + 1 as int).map_values(|c2: char| char_cell(c2))
                =~= s@.subrange(0, i as int).map_values(|c2: char| char_cell(c2)).push(
                char_cell(c),
            ));
        }
        push_cell(out, (c as u32) as u64);
        proof {
            assert(out@ =~= old(out)@ + cell(n as u64) + cells(
                s@.subrange(0, i + 1 as int).map_values(|c2: char| char_cell(c2)),
            ));
        }
        i = i + 1;
    }
    proof {
        assert(s@.subrange(0, n as int) =~= s@);
        assert(out@ =~= old(out)@ + enc_str(s@));
    }
}

/// Appends an optional text behind its presence cell.
fn push_opt_text(out: &mut Vec<u8>, o: &Option<String>)
    ensures
        final(out)@ == old(out)@ + enc_opt_str(crate::signal::opt_str_view(*o)),
        wf_opt_str(crate::signal::opt_str_view(*o)),
{
    match o {
        Option::None => {
            push_cell(out, 0);
        },
        Option::Some(s) => {
            push_cell(out, 1);
            push_text(out, s.as_str());
            proof {
                assert(out@ =~= old(out)@ + enc_opt_str(crate::signal::opt_str_view(*o)));
            }
        },
    }
}

/// Appends a run of bool cells behind a length cell.
fn push_bool_cells(out: &mut Vec<u8>, items: &Vec<bool>)
    ensures
        final(out)@ == old(out)@ + cell(items@.len() as u64) + cells(
            items@.map_values(|x: bool| bool_cell(x)),
        ),
        items@.len() <= 0xFFFF_FFFF_FFFF_FFFF,
{
    let n = items.len();
    push_cell(out, n as u64);
    let mut i: usize = 0;
    proof {
        assert(out@ =~= old(out)@ + cell(n as u64) + cells(
            items@.subrange(0, 0).map_values(|x: bool| bool_cell(x)),
        ));
    }
    while i < n
        invariant
            n == items@.len(),
            i <= n,
            out@ == old(out)@ + cell(n as u64) + cells(
                items@.subrange(0, i as int).map_values(|x: bool| bool_cell(x)),
            ),
        decreases n - i,
    {
        proof {
            lemma_cells_snoc(
                items@.subrange(0, i as int).map_values(|x: bool| bool_cell(x)),
                bool_cell(items@[i as int]),
            );
            assert(items@.subrange(0, i + 1 as int).map_values(|x: bool| bool_cell(x))
                =~= items@.subrange(0, i as int).map_values(|x: bool| bool_cell(x)).push(
                bool_cell(items@[i as int]),
            ));
        }
        push_cell(out, if items[i] { 1 } else { 0 });
        i = i + 1;
    }
    proof {
        assert(items@.subrange(0, n as int) =~= items@);
    }
}

/// Appends a run of i8 cells behind a length cell.
fn push_i8_cells(out: &mut Vec<u8>, items: &Vec<i8>)
    ensures
        final(out)@ == old(out)@ + cell(items@.len() as u64) + cells(
            items@.map_values(|x: i8| i8_cell(x)),
        ),
        items@.len() <= 0xFFFF_FFFF_FFFF_FFFF,
{
    let n = items.len();
    push_cell(out, n as u64);
    let mut i: usize = 0;
    proof {
        assert(out@ =~= old(out)@ + cell(n as u64) + cells(
            items@.subrange(0, 0).map_values(|x: i8| i8_cell(x)),
        ));
    }
    while i < n
        invariant
            n == items@.len(),
            i <= n,
            out@ == old(out)@ + cell(n as u64) + cells(
                items@.subrange(0, i as int).map_values(|x: i8| i8_cell(x)),
            ),
        decreases n - i,
    {
        proof {
            lemma_cells_snoc(
                items@.subrange(0, i as int).map_values(|x: i8| i8_cell(x)),
                i8_cell(items@[i as int]),
            );
            assert(items@.subrange(0, i + 1 as int).map_values(|x: i8| i8_cell(x))
                =~= items@.subrange(0, i as int).map_values(|x: i8| i8_cell(x)).push(
                i8_cell(items@[i as int]),
            ));
        }
        push_cell(out, (#[verifier::truncate] (items[i] as u8)) as u64);
        i = i + 1;
    }
    proof {
        assert(items@.subrange(0, n as int) =~= items@);
    }
}

/// Appends a run of i16 cells behind a length cell.
fn push_i16_cells(out: &mut Vec<u8>, items: &Vec<i16>)
    ensures
        final(out)@ == old(out)@ + cell(items@.len() as u64) + cells(
            items@.map_values(|x: i16| i16_cell(x)),
        ),
        items@.len() <= 0xFFFF_FFFF_FFFF_FFFF,
{
    let n = items.len();
    push_cell(out, n as u64);
    let mut i: usize = 0;
    proof {
        assert(out@ =~= old(out)@ + cell(n as u64) + cells(
            items@.subrange(0, 0).map_values(|x: i16| i16_cell(x)),
        ));
    }
    while i < n
        invariant
            n == items@.len(),
            i <= n,
            out@ == old(out)@ + cell(n as u64) + cells(
                items@.subrange(0, i as int).map_values(|x: i16| i16_cell(x)),
            ),
        decreases n - i,
    {
        proof {
            lemma_cells_snoc(
                items@.subrange(0, i as int).map_values(|x: i16| i16_cell(x)),
                i16_cell(items@[i as int]),
            );
            assert(items@.subrange(0, i + 1 as int).map_values(|x: i16| i16_cell(x))
                =~= items@.subrange(0, i as int).map_values(|x: i16| i16_cell(x)).push(
                i16_cell(items@[i as int]),
            ));
        }
        push_cell(out, (#[verifier::truncate] (items[i] as u16)) as u64);
        i = i + 1;
    }
    proof {
        assert(items@.subrange(0, n as int) =~= items@);
    }
}

/// Appends a run of i32 cells behind a length cell.
fn push_i32_cells(out: &mut Vec<u8>, items: &Vec<i32>)
    ensures
        final(out)@ == old(out)@ + cell(items@.len() as u64) + cells(
            items@.map_values(|x: i32| i32_cell(x)),
        ),
        items@.len() <= 0xFFFF_FFFF_FFFF_FFFF,
{
    let n = items.len();
    push_cell(out, n as u64);
    let mut i: usize = 0;
    proof {
        assert(out@ =~= old(out)@ + cell(n as u64) + cells(
            items@.subrange(0, 0).map_values(|x: i32| i32_cell(x)),
        ));
    }
    while i < n
        invariant
            n == items@.len(),
            i <= n,
            out@ == old(out)@ + cell(n as u64) + cells(
                items@.subrange(0, i as int).map_values(|x: i32| i32_cell(x)),
            ),
        decreases n - i,
    {
        proof {
            lemma_cells_snoc(
                items@.subrange(0, i as int).map_values(|x: i32| i32_cell(x)),
                i32_cell(items@[i as int]),
            );
            assert(items@.subrange(0, i + 1 as int).map_values(|x: i32| i32_cell(x))
                =~= items@.subrange(0, i as int).map_values(|x: i32| i32_cell(x)).push(
                i32_cell(items@[i as int]),
            ));
        }
        push_cell(out, (#[verifier::truncate] (items[i] as u32)) as u64);
        i = i + 1;
    }
    proof {
        assert(items@.subrange(0, n as int) =~= items@);
    }
}

/// Appends a run of i64 cells behind a length cell.
fn push_i64_cells(out: &mut Vec<u8>, items: &Vec<i64>)
    ensures
        final(out)@ == old(out)@ + cell(items@.len() as u64) + cells(
            items@.map_values(|x: i64| i64_cell(x)),
        ),
        items@.len() <= 0xFFFF_FFFF_FFFF_FFFF,
{
    let n = items.len();
    push_cell(out, n as u64);
    let mut i: usize = 0;
    proof {
        assert(out@ =~= old(out)@ + cell(n as u64) + cells(
            items@.subrange(0, 0).map_values(|x: i64| i64_cell(x)),
        ));
    }
    while i < n
        invariant
            n == items@.len(),
            i <= n,
            out@ == old(out)@ + cell(n as u64) + cells(
                items@.subrange(0, i as int).map_values(|x: i64| i64_cell(x)),
            ),
        decreases n - i,
    {
        proof {
            lemma_cells_snoc(
                items@.subrange(0, i as int).map_values(|x: i64| i64_cell(x)),
                i64_cell(items@[i as int]),
            );
            assert(items@.subrange(0, i + 1 as int).map_values(|x: i64| i64_cell(x))
                =~= items@.subrange(0, i as int).map_values(|x: i64| i64_cell(x)).push(
                i64_cell(items@[i as int]),
            ));
        }
        push_cell(out, #[verifier::truncate] (items[i] as u64));
        i = i + 1;
    }
    proof {
        assert(items@.subrange(0, n as int) =~= items@);
    }
}

/// Appends a run of u8 cells behind a length cell.
fn push_u8_cells(out: &mut Vec<u8>, items: &Vec<u8>)
    ensures
        final(out)@ == old(out)@ + cell(items@.len() as u64) + cells(
            items@.map_values(|x: u8| u8_cell(x)),
        ),
        items@.len() <= 0xFFFF_FFFF_FFFF_FFFF,
{
    let n = items.len();
    push_cell(out, n as u64);
    let mut i: usize = 0;
    proof {
        assert(out@ =~= old(out)@ + cell(n as u64) + cells(
            items@.subrange(0, 0).map_values(|x: u8| u8_cell(x)),
        ));
    }
    while i < n
        invariant
            n == items@.len(),
            i <= n,
            out@ == old(out)@ + cell(n as u64) + cells(
                items@.subrange(0, i as int).map_values(|x: u8| u8_cell(x)),
            ),
        decreases n - i,
    {
        proof {
            lemma_cells_snoc(
                items@.subrange(0, i as int).map_values(|x: u8| u8_cell(x)),
                u8_cell(items@[i as int]),
            );
            assert(items@.subrange(0, i + 1 as int).map_values(|x: u8| u8_cell(x))
                =~= items@.subrange(0, i as int).map_values(|x: u8| u8_cell(x)).push(
                u8_cell(items@[i as int]),
            ));
        }
        push_cell(out, items[i] as u64);
        i = i + 1;
    }
    proof {
        assert(items@.subrange(0, n as int) =~= items@);
    }
}

/// Appends a run of u16 cells behind a length cell.
fn push_u16_cells(out: &mut Vec<u8>, items: &Vec<u16>)
    ensures
        final(out)@ == old(out)@ + cell(items@.len() as u64) + cells(
            items@.map_values(|x: u16| u16_cell(x)),
        ),
        items@.len() <= 0xFFFF_FFFF_FFFF_FFFF,
{
    let n = items.len();
    push_cell(out, n as u64);
    let mut i: usize = 0;
    proof {
        assert(out@ =~= old(out)@ + cell(n as u64) + cells(
            items@.subrange(0, 0).map_values(|x: u16| u16_cell(x)),
        ));
    }
    while i < n
        invariant
            n == items@.len(),
            i <= n,
            out@ == old(out)@ + cell(n as u64) + cells(
                items@.subrange(0, i as int).map_values(|x: u16| u16_cell(x)),
            ),
        decreases n - i,
    {
        proof {
            lemma_cells_snoc(
                items@.subrange(0, i as int).map_values(|x: u16| u16_cell(x)),
                u16_cell(items@[i as int]),
            );
            assert(items@.subrange(0, i + 1 as int).map_values(|x: u16| u16_cell(x))
                =~= items@.subrange(0, i as int).map_values(|x: u16| u16_cell(x)).push(
                u16_cell(items@[i as int]),
            ));
        }
        push_cell(out, items[i] as u64);
        i = i + 1;
    }
    proof {
        assert(items@.subrange(0, n as int) =~= items@);
    }
}

/// Appends a run of u32 cells behind a length cell.
fn push_u32_cells(out: &mut Vec<u8>, items: &Vec<u32>)
    ensures
        final(out)@ == old(out)@ + cell(items@.len() as u64) + cells(
            items@.map_values(|x: u32| u32_cell(x)),
        ),
        items@.len() <= 0xFFFF_FFFF_FFFF_FFFF,
{
    let n = items.len();
    push_cell(out, n as u64);
    let mut i: usize = 0;
    proof {
        assert(out@ =~= old(out)@ + cell(n as u64) + cells(
            items@.subrange(0, 0).map_values(|x: u32| u32_cell(x)),
        ));
    }
    while i < n
        invariant
            n == items@.len(),
            i <= n,
            out@ == old(out)@ + cell(n as u64) + cells(
                items@.subrange(0, i as int).map_values(|x: u32| u32_cell(x)),
            ),
        decreases n - i,
    {
        proof {
            lemma_cells_snoc(
                items@.subrange(0, i as int).map_values(|x: u32| u32_cell(x)),
                u32_cell(items@[i as int]),
            );
            assert(items@.subrange(0, i + 1 as int).map_values(|x: u32| u32_cell(x))
                =~= items@.subrange(0, i as int).map_values(|x: u32| u32_cell(x)).push(
                u32_cell(items@[i as int]),
            ));
        }
        push_cell(out, items[i] as u64);
        i = i + 1;
    }
    proof {
        assert(items@.subrange(0, n as int) =~= items@);
    }
}

/// Appends a run of u64 cells behind a length cell.
fn push_u64_cells(out: &mut Vec<u8>, items: &Vec<u64>)
    ensures
        final(out)@ == old(out)@ + cell(items@.len() as u64) + cells(
            items@.map_values(|x: u64| u64_cell(x)),
        ),
        items@.len() <= 0xFFFF_FFFF_FFFF_FFFF,
{
    let n = items.len();
    push_cell(out, n as u64);
    let mut i: usize = 0;
    proof {
        assert(out@ =~= old(out)@ + cell(n as u64) + cells(
            items@.subrange(0, 0).map_values(|x: u64| u64_cell(x)),
        ));
    }
    while i < n
        invariant
            n == items@.len(),
            i <= n,
            out@ == old(out)@ + cell(n as u64) + cells(
                items@.subrange(0, i as int).map_values(|x: u64| u64_cell(x)),
            ),
        decreases n - i,
    {
        proof {
            lemma_cells_snoc(
                items@.subrange(0, i as int).map_values(|x: u64| u64_cell(x)),
                u64_cell(items@[i as int]),
            );
            assert(items@.subrange(0, i + 1 as int).map_values(|x: u64| u64_cell(x))
                =~= items@.subrange(0, i as int).map_values(|x: u64| u64_cell(x)).push(
                u64_cell(items@[i as int]),
            ));
        }
        push_cell(out, items[i]);
        i = i + 1;
    }
    proof {
        assert(items@.subrange(0, n as int) =~= items@);
    }
}

/// Appends a run of texts behind a length cell.
fn push_text_items(out: &mut Vec<u8>, items: &Vec<String>)
    ensures
        final(out)@ == old(out)@ + cell(items@.len() as u64) + enc_strs(items.deep_view()),
        items@.len() <= 0xFFFF_FFFF_FFFF_FFFF,
        forall|k: int| 0 <= k < items.deep_view().len() ==> (#[trigger] items.deep_view()[k]).len()
            <= 0xFFFF_FFFF_FFFF_FFFF,
{
    let n = items.len();
    push_cell(out, n as u64);
    let mut i: usize = 0;
    proof {
        assert(out@ =~= old(out)@ + cell(n as u64) + enc_strs(items.deep_view().subrange(0, 0)));
    }
    while i < n
        invariant
            n == items@.len(),
            i <= n,
            out@ == old(out)@ + cell(n as u64) + enc_strs(items.deep_view().subrange(0, i as int)),
            forall|k: int| 0 <= k < i ==> (#[trigger] items.deep_view()[k]).len()
                <= 0xFFFF_FFFF_FFFF_FFFF,
        decreases n - i,
    {
        proof {
            lemma_strs_snoc(items.deep_view().subrange(0, i as int), items.deep_view()[i as int]);
            assert(items.deep_view().subrange(0, i + 1 as int) =~= items.deep_view().subrange(
                0,
                i as int,
            ).push(items.deep_view()[i as int]));
        }
        push_text(out, items[i].as_str());
        proof {
            assert(out@ =~= old(out)@ + cell(n as u64) + enc_strs(
                items.deep_view().subrange(0, i + 1 as int),
            ));
        }
        i = i + 1;
    }
    proof {
        assert(items.deep_view().subrange(0, n as int) =~= items.deep_view());
    }
}

/// Appends a value: tag cell, then payload.
#[verifier::rlimit(100)]
fn push_value(out: &mut Vec<u8>, v: &Value)
    ensures
        final(out)@ == old(out)@ + enc_value(v@),
        wf_value(v@),
{
    match v {
        Value::NAN => {
            push_cell(out, 0);
            proof {
                assert(out@ =~= old(out)@ + enc_value(v@));
            }
        },
        Value::Bool(x) => {
            push_cell(out, 1);
            push_cell(out, if *x { 1 } else { 0 });
            proof {
                assert(out@ =~= old(out)@ + enc_value(v@));
            }
        },
        Value::String(text) => {
            push_cell(out, 2);
            push_text(out, text.as_str());
            proof {
                assert(out@ =~= old(out)@ + enc_value(v@));
            }
        },
        Value::Int8(x) => {
            push_cell(out, 3);
            push_cell(out, (#[verifier::truncate] (*x as u8)) as u64);
            proof {
                assert(out@ =~= old(out)@ + enc_value(v@));
            }
        },
        Value::Int16(x) => {
            push_cell(out, 4);
            push_cell(out, (#[verifier::truncate] (*x as u16)) as u64);
            proof {
                assert(out@ =~= old(out)@ + enc_value(v@));
            }
        },
        Value::Int32(x) => {
            push_cell(out, 5);
            push_cell(out, (#[verifier::truncate] (*x as u32)) as u64);
            proof {
                assert(out@ =~= old(out)@ + enc_value(v@));
            }
        },
        Value::Int64(x) => {
            push_cell(out, 6);
            push_cell(out, #[verifier::truncate] (*x as u64));
            proof {
                assert(out@ =~= old(out)@ + enc_value(v@));
            }
        },
        Value::Uint8(x) => {
            push_cell(out, 7);
            push_cell(out, *x as u64);
            proof {
                assert(out@ =~= old(out)@ + enc_value(v@));
            }
        },
        Value::Uint16(x) => {
            push_cell(out, 8);
            push_cell(out, *x as u64);
            proof {
                assert(out@ =~= old(out)@ + enc_value(v@));
            }
        },
        Value::Uint32(x) => {
            push_cell(out, 9);
            push_cell(out, *x as u64);
            proof {
                assert(out@ =~= old(out)@ + enc_value(v@));
            }
        },
        Value::Uint64(x) => {
            push_cell(out, 10);
            push_cell(out, *x);
            proof {
                assert(out@ =~= old(out)@ + enc_value(v@));
            }
        },
        Value::Float(x) => {
            push_cell(out, 11);
            push_cell(out, *x as u64);
            proof {
                assert(out@ =~= old(out)@ + enc_value(v@));
            }
        },
        Value::Double(x) => {
            push_cell(out, 12);
            push_cell(out, *x);
            proof {
                assert(out@ =~= old(out)@ + enc_value(v@));
            }
        },
        Value::BoolArray(items) => {
            push_cell(out, 13);
            push_bool_cells(out, items);
            proof {
                assert(out@ =~= old(out)@ + enc_value(v@));
            }
        },
        Value::StringArray(items) => {
            push_cell(out, 14);
            push_text_items(out, items);
            proof {
                assert(out@ =~= old(out)@ + enc_value(v@));
            }
        },
        Value::Int8Array(items) => {
            push_cell(out, 15);
            push_i8_cells(out, items);
            proof {
                assert(out@ =~= old(out)@ + enc_value(v@));
            }
        },
        Value::Int16Array(items) => {
            push_cell(out, 16);
            push_i16_cells(out, items);
            proof {
                assert(out@ =~= old(out)@ + enc_value(v@));
            }
        },
        Value::Int32Array(items) => {
            push_cell(out, 17);
            push_i32_cells(out, items);
            proof {
                assert(out@ =~= old(out)@ + enc_value(v@));
            }
        },
        Value::Int64Array(items) => {
            push_cell(out, 18);
            push_i64_cells(out, items);
            proof {
                assert(out@ =~= old(out)@ + enc_value(v@));
            }
        },
        Value::Uint8Array(items) => {
            push_cell(out, 19);
            push_u8_cells(out, items);
            proof {
                assert(out@ =~= old(out)@ + enc_value(v@));
            }
        },
        Value::Uint16Array(items) => {
            push_cell(out, 20);
            push_u16_cells(out, items);
            proof {
                assert(out@ =~= old(out)@ + enc_value(v@));
            }
        },
        Value::Uint32Array(items) => {
            push_cell(out, 21);
            push_u32_cells(out, items);
            proof {
                assert(out@ =~= old(out)@ + enc_value(v@));
            }
        },
        Value::Uint64Array(items) => {
            push_cell(out, 22);
            push_u64_cells(out, items);
            proof {
                assert(out@ =~= old(out)@ + enc_value(v@));
            }
        },
        Value::FloatArray(items) => {
            push_cell(out, 23);
            push_u32_cells(out, items);
            proof {
                assert(out@ =~= old(out)@ + enc_value(v@));
            }
        },
        Value::DoubleArray(items) => {
            push_cell(out, 24);
            push_u64_cells(out, items);
            proof {
                assert(out@ =~= old(out)@ + enc_value(v@));
            }
        },
    }
}

/// Appends an optional value behind its presence cell.
fn push_opt_value(out: &mut Vec<u8>, o: &Option<Value>)
    ensures
        final(out)@ == old(out)@ + enc_opt_value(crate::signal::opt_value_view(*o)),
        (crate::signal::opt_value_view(*o) matches Option::Some(vm) ==> wf_value(vm)),
{
    match o {
        Option::None => {
            push_cell(out, 0);
        },
        Option::Some(v) => {
            push_cell(out, 1);
            push_value(out, v);
            proof {
                assert(out@ =~= old(out)@ + enc_opt_value(crate::signal::opt_value_view(*o)));
            }
        },
    }
}

/// Appends an optional value list behind its presence cell.
fn push_opt_values(out: &mut Vec<u8>, o: &Option<Vec<Value>>)
    ensures
        final(out)@ == old(out)@ + enc_opt_values(crate::signal::opt_values_view(*o)),
        (crate::signal::opt_values_view(*o) matches Option::Some(vs) ==> vs.len()
            <= 0xFFFF_FFFF_FFFF_FFFF && (forall|k: int| 0 <= k < vs.len() ==> wf_value(
            #[trigger] vs[k],
        ))),
{
    match o {
        Option::None => {
            push_cell(out, 0);
        },
        Option::Some(items) => {
            push_cell(out, 1);
            let n = items.len();
            push_cell(out, n as u64);
            let ghost vm = items@.map_values(|x: Value| x@);
            let mut i: usize = 0;
            proof {
                assert(out@ =~= old(out)@ + cell(1) + cell(n as u64) + enc_values(
                    vm.subrange(0, 0),
                ));
            }
            while i < n
                invariant
                    n == items@.len(),
                    vm == items@.map_values(|x: Value| x@),
                    i <= n,
                    out@ == old(out)@ + cell(1) + cell(n as u64) + enc_values(
                        vm.subrange(0, i as int),
                    ),
                    forall|k: int| 0 <= k < i ==> wf_value(#[trigger] vm[k]),
                decreases n - i,
            {
                proof {
                    lemma_values_snoc(vm.subrange(0, i as int), vm[i as int]);
                    assert(vm.subrange(0, i + 1 as int) =~= vm.subrange(0, i as int).push(
                        vm[i as int],
                    ));
                }
                push_value(out, &items[i]);
                proof {
                    assert(out@ =~= old(out)@ + cell(1) + cell(n as u64) + enc_values(
                        vm.subrange(0, i + 1 as int),
                    ));
                }
                i = i + 1;
            }
            proof {
                assert(vm.subrange(0, n as int) =~= vm);
                assert(out@ =~= old(out)@ + enc_opt_values(crate::signal::opt_values_view(*o)));
            }
        },
    }
}

/// Appends a state.
fn push_state(out: &mut Vec<u8>, st: &State)
    ensures
        final(out)@ == old(out)@ + enc_state(st@),
        wf_state(st@),
{
    push_value(out, &st.value);
    push_cell(out, if st.capability { 1 } else { 0 });
    push_cell(out, if st.availability { 1 } else { 0 });
    push_opt_text(out, &st.lock_token);
    push_text(out, st.reserved.as_str());
    proof {
        assert(out@ =~= old(out)@ + enc_state(st@));
    }
}

/// Appends a config.
#[verifier::rlimit(100)]
#[verifier::spinoff_prover]
fn push_config(out: &mut Vec<u8>, c: &Config)
    ensures
        final(out)@ == old(out)@ + enc_config(c@),
        wf_config(c@),
{
    let ghost a = cell(leaf_cell(c@.leaf_type));
    let ghost b2 = cell(vt_cell(c@.data_type));
    let ghost d = enc_opt_str(c@.deprecation);
    let ghost u = enc_opt_str(c@.unit);
    let ghost mn = enc_opt_value(c@.min);
    let ghost mx = enc_opt_value(c@.max);
    let ghost ds = enc_opt_str(c@.description);
    let ghost cm = enc_opt_str(c@.comment);
    let ghost al = enc_opt_values(c@.allowed);
    let ghost df = enc_opt_value(c@.default);
    push_cell(out, leaf_cell_exec(&c.leaf_type));
    push_cell(out, vt_cell_exec(&c.data_type));
    push_opt_text(out, &c.deprecation);
    push_opt_text(out, &c.unit);
    push_opt_value(out, &c.min);
    push_opt_value(out, &c.max);
    push_opt_text(out, &c.description);
    push_opt_text(out, &c.comment);
    push_opt_values(out, &c.allowed);
    push_opt_value(out, &c.default);
    proof {
        lemma_seq_assoc(old(out)@, a, b2);
        lemma_seq_assoc(old(out)@, a + b2, d);
        lemma_seq_assoc(old(out)@, a + b2 + d, u);
        lemma_seq_assoc(old(out)@, a + b2 + d + u, mn);
        lemma_seq_assoc(old(out)@, a + b2 + d + u + mn, mx);
        lemma_seq_assoc(old(out)@, a + b2 + d + u + mn + mx, ds);
        lemma_seq_assoc(old(out)@, a + b2 + d + u + mn + mx + ds, cm);
        lemma_seq_assoc(old(out)@, a + b2 + d + u + mn + mx + ds + cm, al);
        lemma_seq_assoc(old(out)@, a + b2 + d + u + mn + mx + ds + cm + al, df);
        assert(out@ == old(out)@ + enc_config(c@));
    }
}

/// The cell of a leaf classification, computed.
fn leaf_cell_exec(lt: &LeafType) -> (r: u64)
    ensures
        r == leaf_cell(*lt),
{
    match lt {
        LeafType::Branch => 0,
        LeafType::Sensor => 1,
        LeafType::Attribute => 2,
        LeafType::Actuator => 3,
    }
}

/// The cell of a type tag, computed.
fn vt_cell_exec(vt: &ValueType) -> (r: u64)
    ensures
        r == vt_cell(*vt),
{
    match vt {
        ValueType::TypeNAN => 0,
        ValueType::TypeBool => 1,
        ValueType::TypeString => 2,
        ValueType::TypeInt8 => 3,
        ValueType::TypeInt16 => 4,
        ValueType::TypeInt32 => 5,
        ValueType::TypeInt64 => 6,
        ValueType::TypeUint8 => 7,
        ValueType::TypeUint16 => 8,
        ValueType::TypeUint32 => 9,
        ValueType::TypeUint64 => 10,
        ValueType::TypeFloat => 11,
        ValueType::TypeDouble => 12,
        ValueType::TypeBoolArray => 13,
        ValueType::TypeStringArray => 14,
        ValueType::TypeInt8Array => 15,
        ValueType::TypeInt16Array => 16,
        ValueType::TypeInt32Array => 17,
        ValueType::TypeInt64Array => 18,
        ValueType::TypeUint8Array => 19,
        ValueType::TypeUint16Array => 20,
        ValueType::TypeUint32Array => 21,
        ValueType::TypeUint64Array => 22,
        ValueType::TypeFloatArray => 23,
        ValueType::TypeDoubleArray => 24,
    }
}

/// Serializes a whole row with the fixed binary encoding.
pub fn encode_signal(signal: &Signal) -> (r: Vec<u8>)
    ensures
        r@ == enc_signal(signal@),
        wf_signal(signal@),
{
    let mut out: Vec<u8> = Vec::new();
    push_text(&mut out, signal.path.as_str());
    push_state(&mut out, &signal.state);
    push_config(&mut out, &signal.config);
    proof {
        assert(out@ =~= Seq::<u8>::empty() + enc_signal(signal@));
        assert(Seq::<u8>::empty() + enc_signal(signal@) =~= enc_signal(signal@));
    }
    out
}


/// Relies on char::from_u32: it returns the character of a valid Unicode
/// scalar value (not a surrogate, at most 0x10FFFF) and nothing
/// otherwise.
pub assume_specification[ char::from_u32 ](v: u32) -> (r: Option<char>)
    ensures
        (r matches Option::Some(c) ==> c as u32 == v),
        (v < 0xD800 || (0xE000 <= v && v <= 0x10FFFF)) <==> r is Some,
;

/// Relies on String::from_iter over copied characters: the collected
/// string holds exactly the given characters in order.
#[verifier::external_body]
fn string_from_chars(cs: &Vec<char>) -> (r: String)
    ensures
        r@ == cs@,
{
    cs.iter().collect()
}

/// A serialization error naming a truncated or malformed row.
fn row_error() -> (r: VehicleShadowError)
    ensures
        r is Serialization,
{
    VehicleShadowError::Serialization("malformed stored row".to_owned())
}

/// Reads one cell at the cursor.
fn read_cell(b: &Vec<u8>, pos: &mut usize) -> (r: Result<u64, VehicleShadowError>)
    requires
        *old(pos) <= b@.len(),
    ensures
        match dec_cell(b@, *old(pos) as int) {
            Option::Some(xp) => r matches Result::Ok(x) && x == xp.0 && *final(pos) == xp.1
                && *final(pos) <= b@.len(),
            Option::None => r is Err && *final(pos) == *old(pos),
        },
{
    if b.len() - *pos >= 8 {
        let s = vstd::slice::slice_subrange(b.as_slice(), *pos, *pos + 8);
        let x = vstd::bytes::u64_from_le_bytes(s);
        *pos = *pos + 8;
        Result::Ok(x)
    } else {
        Result::Err(row_error())
    }
}

/// Maps a cell to its boolean, as `dec_bool_cell` describes.
fn cell_to_bool(x: u64) -> (r: Option<bool>)
    ensures
        r == dec_bool_cell(x),
{
    if x == 0 {
        Option::Some(false)
    } else if x == 1 {
        Option::Some(true)
    } else {
        Option::None
    }
}

/// Maps a cell to its character, as `dec_char_cell` describes.
fn cell_to_char(x: u64) -> (r: Option<char>)
    ensures
        r == dec_char_cell(x),
{
    if x < 0xD800 || (0xE000 <= x && x < 0x110000) {
        let c = char::from_u32(x as u32);
        match c {
            Option::Some(ch) => {
                proof {
                    vstd::utf8::char_u32_cast(ch, x as u32);
                }
                Option::Some(ch)
            },
            Option::None => Option::None,
        }
    } else {
        Option::None
    }
}

/// Maps a cell to its signed 8-bit integer, as `dec_i8_cell` describes.
fn cell_to_i8(x: u64) -> (r: Option<i8>)
    ensures
        r == dec_i8_cell(x),
{
    if x <= 255 {
        Option::Some(#[verifier::truncate] ((x as u8) as i8))
    } else {
        Option::None
    }
}

/// Maps a cell to its signed 16-bit integer, as `dec_i16_cell` describes.
fn cell_to_i16(x: u64) -> (r: Option<i16>)
    ensures
        r == dec_i16_cell(x),
{
    if x <= 65535 {
        Option::Some(#[verifier::truncate] ((x as u16) as i16))
    } else {
        Option::None
    }
}

/// Maps a cell to its signed 32-bit integer, as `dec_i32_cell` describes.
fn cell_to_i32(x: u64) -> (r: Option<i32>)
    ensures
        r == dec_i32_cell(x),
{
    if x <= 4294967295 {
        Option::Some(#[verifier::truncate] ((x as u32) as i32))
    } else {
        Option::None
    }
}

/// Maps a cell to its signed 64-bit integer, as `dec_i64_cell` describes.
fn cell_to_i64(x: u64) -> (r: Option<i64>)
    ensures
        r == dec_i64_cell(x),
{
    Option::Some(#[verifier::truncate] (x as i64))
}

/// Maps a cell to its unsigned 8-bit integer, as `dec_u8_cell` describes.
fn cell_to_u8(x: u64) -> (r: Option<u8>)
    ensures
        r == dec_u8_cell(x),
{
    if x <= 255 {
        Option::Some(x as u8)
    } else {
        Option::None
    }
}

/// Maps a cell to its unsigned 16-bit integer, as `dec_u16_cell`
/// describes.
fn cell_to_u16(x: u64) -> (r: Option<u16>)
    ensures
        r == dec_u16_cell(x),
{
    if x <= 65535 {
        Option::Some(x as u16)
    } else {
        Option::None
    }
}

/// Maps a cell to its unsigned 32-bit integer, as `dec_u32_cell`
/// describes.
fn cell_to_u32(x: u64) -> (r: Option<u32>)
    ensures
        r == dec_u32_cell(x),
{
    if x <= 4294967295 {
        Option::Some(x as u32)
    } else {
        Option::None
    }
}

/// Maps a cell to its unsigned 64-bit integer, as `dec_u64_cell`
/// describes.
fn cell_to_u64(x: u64) -> (r: Option<u64>)
    ensures
        r == dec_u64_cell(x),
{
    Option::Some(x)
}

/// Reads `n` one-cell bool elements at the cursor.
#[verifier::loop_isolation(false)]
fn read_bool_cells(b: &Vec<u8>, pos: &mut usize, n: u64) -> (r: Result<
    Vec<bool>,
    VehicleShadowError,
>)
    requires
        *old(pos) <= b@.len(),
    ensures
        match dec_prim_seq(b@, *old(pos) as int, n as nat, |x: u64| dec_bool_cell(x)) {
            Option::Some(sp) => r matches Result::Ok(v) && v@ == sp.0 && *final(pos) == sp.1
                && *final(pos) <= b@.len(),
            Option::None => r is Err,
        },
{
    let ghost start = *pos as int;
    let mut out: Vec<bool> = Vec::new();
    let mut i: u64 = 0;
    while i < n
        invariant
            *pos <= b@.len(),
            i <= n,
            out@.len() == i,
            (match dec_prim_seq(b@, *pos as int, (n - i) as nat, |x: u64| dec_bool_cell(x)) {
                Option::Some(sp) => dec_prim_seq(b@, start, n as nat, |x: u64| dec_bool_cell(x))
                    == Option::Some((out@ + sp.0, sp.1)),
                Option::None => dec_prim_seq(b@, start, n as nat, |x: u64| dec_bool_cell(x)) is None,
            }),
        decreases n - i,
    {
        let x = match read_cell(b, pos) {
            Result::Ok(x) => x,
            Result::Err(e) => {
                return Result::Err(e);
            },
        };
        match cell_to_bool(x) {
            Option::Some(v) => {
                let ghost out_old = out@;
                out.push(v);
                proof {
                    assert(forall|sp0: Seq<bool>| out_old + (seq![v] + sp0) =~= out@ + sp0);
                }
            },
            Option::None => {
                return Result::Err(row_error());
            },
        }
        i = i + 1;
    }
    proof {
        assert(out@ + Seq::<bool>::empty() =~= out@);
    }
    Result::Ok(out)
}

/// Reads `n` one-cell i8 elements at the cursor.
#[verifier::loop_isolation(false)]
fn read_i8_cells(b: &Vec<u8>, pos: &mut usize, n: u64) -> (r: Result<
    Vec<i8>,
    VehicleShadowError,
>)
    requires
        *old(pos) <= b@.len(),
    ensures
        match dec_prim_seq(b@, *old(pos) as int, n as nat, |x: u64| dec_i8_cell(x)) {
            Option::Some(sp) => r matches Result::Ok(v) && v@ == sp.0 && *final(pos) == sp.1
                && *final(pos) <= b@.len(),
            Option::None => r is Err,
        },
{
    let ghost start = *pos as int;
    let mut out: Vec<i8> = Vec::new();
    let mut i: u64 = 0;
    while i < n
        invariant
            *pos <= b@.len(),
            i <= n,
            out@.len() == i,
            (match dec_prim_seq(b@, *pos as int, (n - i) as nat, |x: u64| dec_i8_cell(x)) {
                Option::Some(sp) => dec_prim_seq(b@, start, n as nat, |x: u64| dec_i8_cell(x))
                    == Option::Some((out@ + sp.0, sp.1)),
                Option::None => dec_prim_seq(b@, start, n as nat, |x: u64| dec_i8_cell(x)) is None,
            }),
        decreases n - i,
    {
        let x = match read_cell(b, pos) {
            Result::Ok(x) => x,
            Result::Err(e) => {
                return Result::Err(e);
            },
        };
        match cell_to_i8(x) {
            Option::Some(v) => {
                let ghost out_old = out@;
                out.push(v);
                proof {
                    assert(forall|sp0: Seq<i8>| out_old + (seq![v] + sp0) =~= out@ + sp0);
                }
            },
            Option::None => {
                return Result::Err(row_error());
            },
        }
        i = i + 1;
    }
    proof {
        assert(out@ + Seq::<i8>::empty() =~= out@);
    }
    Result::Ok(out)
}

/// Reads `n` one-cell i16 elements at the cursor.
#[verifier::loop_isolation(false)]
fn read_i16_cells(b: &Vec<u8>, pos: &mut usize, n: u64) -> (r: Result<
    Vec<i16>,
    VehicleShadowError,
>)
    requires
        *old(pos) <= b@.len(),
    ensures
        match dec_prim_seq(b@, *old(pos) as int, n as nat, |x: u64| dec_i16_cell(x)) {
            Option::Some(sp) => r matches Result::Ok(v) && v@ == sp.0 && *final(pos) == sp.1
                && *final(pos) <= b@.len(),
            Option::None => r is Err,
        },
{
    let ghost start = *pos as int;
    let mut out: Vec<i16> = Vec::new();
    let mut i: u64 = 0;
    while i < n
        invariant
            *pos <= b@.len(),
            i <= n,
            out@.len() == i,
            (match dec_prim_seq(b@, *pos as int, (n - i) as nat, |x: u64| dec_i16_cell(x)) {
                Option::Some(sp) => dec_prim_seq(b@, start, n as nat, |x: u64| dec_i16_cell(x))
                    == Option::Some((out@ + sp.0, sp.1)),
                Option::None => dec_prim_seq(b@, start, n as nat, |x: u64| dec_i16_cell(x)) is None,
            }),
        decreases n - i,
    {
        let x = match read_cell(b, pos) {
            Result::Ok(x) => x,
            Result::Err(e) => {
                return Result::Err(e);
            },
        };
        match cell_to_i16(x) {
            Option::Some(v) => {
                let ghost out_old = out@;
                out.push(v);
                proof {
                    assert(forall|sp0: Seq<i16>| out_old + (seq![v] + sp0) =~= out@ + sp0);
                }
            },
            Option::None => {
                return Result::Err(row_error());
            },
        }
        i = i + 1;
    }
    proof {
        assert(out@ + Seq::<i16>::empty() =~= out@);
    }
    Result::Ok(out)
}

/// Reads `n` one-cell i32 elements at the cursor.
#[verifier::loop_isolation(false)]
fn read_i32_cells(b: &Vec<u8>, pos: &mut usize, n: u64) -> (r: Result<
    Vec<i32>,
    VehicleShadowError,
>)
    requires
        *old(pos) <= b@.len(),
    ensures
        match dec_prim_seq(b@, *old(pos) as int, n as nat, |x: u64| dec_i32_cell(x)) {
            Option::Some(sp) => r matches Result::Ok(v) && v@ == sp.0 && *final(pos) == sp.1
                && *final(pos) <= b@.len(),
            Option::None => r is Err,
        },
{
    let ghost start = *pos as int;
    let mut out: Vec<i32> = Vec::new();
    let mut i: u64 = 0;
    while i < n
        invariant
            *pos <= b@.len(),
            i <= n,
            out@.len() == i,
            (match dec_prim_seq(b@, *pos as int, (n - i) as nat, |x: u64| dec_i32_cell(x)) {
                Option::Some(sp) => dec_prim_seq(b@, start, n as nat, |x: u64| dec_i32_cell(x))
                    == Option::Some((out@ + sp.0, sp.1)),
                Option::None => dec_prim_seq(b@, start, n as nat, |x: u64| dec_i32_cell(x)) is None,
            }),
        decreases n - i,
    {
        let x = match read_cell(b, pos) {
            Result::Ok(x) => x,
            Result::Err(e) => {
                return Result::Err(e);
            },
        };
        match cell_to_i32(x) {
            Option::Some(v) => {
                let ghost out_old = out@;
                out.push(v);
                proof {
                    assert(forall|sp0: Seq<i32>| out_old + (seq![v] + sp0) =~= out@ + sp0);
                }
            },
            Option::None => {
                return Result::Err(row_error());
            },
        }
        i = i + 1;
    }
    proof {
        assert(out@ + Seq::<i32>::empty() =~= out@);
    }
    Result::Ok(out)
}

/// Reads `n` one-cell i64 elements at the cursor.
#[verifier::loop_isolation(false)]
fn read_i64_cells(b: &Vec<u8>, pos: &mut usize, n: u64) -> (r: Result<
    Vec<i64>,
    VehicleShadowError,
>)
    requires
        *old(pos) <= b@.len(),
    ensures
        match dec_prim_seq(b@, *old(pos) as int, n as nat, |x: u64| dec_i64_cell(x)) {
            Option::Some(sp) => r matches Result::Ok(v) && v@ == sp.0 && *final(pos) == sp.1
                && *final(pos) <= b@.len(),
            Option::None => r is Err,
        },
{
    let ghost start = *pos as int;
    let mut out: Vec<i64> = Vec::new();
    let mut i: u64 = 0;
    while i < n
        invariant
            *pos <= b@.len(),
            i <= n,
            out@.len() == i,
            (match dec_prim_seq(b@, *pos as int, (n - i) as nat, |x: u64| dec_i64_cell(x)) {
                Option::Some(sp) => dec_prim_seq(b@, start, n as nat, |x: u64| dec_i64_cell(x))
                    == Option::Some((out@ + sp.0, sp.1)),
                Option::None => dec_prim_seq(b@, start, n as nat, |x: u64| dec_i64_cell(x)) is None,
            }),
        decreases n - i,
    {
        let x = match read_cell(b, pos) {
            Result::Ok(x) => x,
            Result::Err(e) => {
                return Result::Err(e);
            },
        };
        match cell_to_i64(x) {
            Option::Some(v) => {
                let ghost out_old = out@;
                out.push(v);
                proof {
                    assert(forall|sp0: Seq<i64>| out_old + (seq![v] + sp0) =~= out@ + sp0);
                }
            },
            Option::None => {
                return Result::Err(row_error());
            },
        }
        i = i + 1;
    }
    proof {
        assert(out@ + Seq::<i64>::empty() =~= out@);
    }
    Result::Ok(out)
}

/// Reads `n` one-cell u8 elements at the cursor.
#[verifier::loop_isolation(false)]
fn read_u8_cells(b: &Vec<u8>, pos: &mut usize, n: u64) -> (r: Result<
    Vec<u8>,
    VehicleShadowError,
>)
    requires
        *old(pos) <= b@.len(),
    ensures
        match dec_prim_seq(b@, *old(pos) as int, n as nat, |x: u64| dec_u8_cell(x)) {
            Option::Some(sp) => r matches Result::Ok(v) && v@ == sp.0 && *final(pos) == sp.1
                && *final(pos) <= b@.len(),
            Option::None => r is Err,
        },
{
    let ghost start = *pos as int;
    let mut out: Vec<u8> = Vec::new();
    let mut i: u64 = 0;
    while i < n
        invariant
            *pos <= b@.len(),
            i <= n,
            out@.len() == i,
            (match dec_prim_seq(b@, *pos as int, (n - i) as nat, |x: u64| dec_u8_cell(x)) {
                Option::Some(sp) => dec_prim_seq(b@, start, n as nat, |x: u64| dec_u8_cell(x))
                    == Option::Some((out@ + sp.0, sp.1)),
                Option::None => dec_prim_seq(b@, start, n as nat, |x: u64| dec_u8_cell(x)) is None,
            }),
        decreases n - i,
    {
        let x = match read_cell(b, pos) {
            Result::Ok(x) => x,
            Result::Err(e) => {
                return Result::Err(e);
            },
        };
        match cell_to_u8(x) {
            Option::Some(v) => {
                let ghost out_old = out@;
                out.push(v);
                proof {
                    assert(forall|sp0: Seq<u8>| out_old + (seq![v] + sp0) =~= out@ + sp0);
                }
            },
            Option::None => {
                return Result::Err(row_error());
            },
        }
        i = i + 1;
    }
    proof {
        assert(out@ + Seq::<u8>::empty() =~= out@);
    }
    Result::Ok(out)
}

/// Reads `n` one-cell u16 elements at the cursor.
#[verifier::loop_isolation(false)]
fn read_u16_cells(b: &Vec<u8>, pos: &mut usize, n: u64) -> (r: Result<
    Vec<u16>,
    VehicleShadowError,
>)
    requires
        *old(pos) <= b@.len(),
    ensures
        match dec_prim_seq(b@, *old(pos) as int, n as nat, |x: u64| dec_u16_cell(x)) {
            Option::Some(sp) => r matches Result::Ok(v) && v@ == sp.0 && *final(pos) == sp.1
                && *final(pos) <= b@.len(),
            Option::None => r is Err,
        },
{
    let ghost start = *pos as int;
    let mut out: Vec<u16> = Vec::new();
    let mut i: u64 = 0;
    while i < n
        invariant
            *pos <= b@.len(),
            i <= n,
            out@.len() == i,
            (match dec_prim_seq(b@, *pos as int, (n - i) as nat, |x: u64| dec_u16_cell(x)) {
                Option::Some(sp) => dec_prim_seq(b@, start, n as nat, |x: u64| dec_u16_cell(x))
                    == Option::Some((out@ + sp.0, sp.1)),
                Option::None => dec_prim_seq(b@, start, n as nat, |x: u64| dec_u16_cell(x)) is None,
            }),
        decreases n - i,
    {
        let x = match read_cell(b, pos) {
            Result::Ok(x) => x,
            Result::Err(e) => {
                return Result::Err(e);
            },
        };
        match cell_to_u16(x) {
            Option::Some(v) => {
                let ghost out_old = out@;
                out.push(v);
                proof {
                    assert(forall|sp0: Seq<u16>| out_old + (seq![v] + sp0) =~= out@ + sp0);
                }
            },
            Option::None => {
                return Result::Err(row_error());
            },
        }
        i = i + 1;
    }
    proof {
        assert(out@ + Seq::<u16>::empty() =~= out@);
    }
    Result::Ok(out)
}

/// Reads `n` one-cell u32 elements at the cursor.
#[verifier::loop_isolation(false)]
fn read_u32_cells(b: &Vec<u8>, pos: &mut usize, n: u64) -> (r: Result<
    Vec<u32>,
    VehicleShadowError,
>)
    requires
        *old(pos) <= b@.len(),
    ensures
        match dec_prim_seq(b@, *old(pos) as int, n as nat, |x: u64| dec_u32_cell(x)) {
            Option::Some(sp) => r matches Result::Ok(v) && v@ == sp.0 && *final(pos) == sp.1
                && *final(pos) <= b@.len(),
            Option::None => r is Err,
        },
{
    let ghost start = *pos as int;
    let mut out: Vec<u32> = Vec::new();
    let mut i: u64 = 0;
    while i < n
        invariant
            *pos <= b@.len(),
            i <= n,
            out@.len() == i,
            (match dec_prim_seq(b@, *pos as int, (n - i) as nat, |x: u64| dec_u32_cell(x)) {
                Option::Some(sp) => dec_prim_seq(b@, start, n as nat, |x: u64| dec_u32_cell(x))
                    == Option::Some((out@ + sp.0, sp.1)),
                Option::None => dec_prim_seq(b@, start, n as nat, |x: u64| dec_u32_cell(x)) is None,
            }),
        decreases n - i,
    {
        let x = match read_cell(b, pos) {
            Result::Ok(x) => x,
            Result::Err(e) => {
                return Result::Err(e);
            },
        };
        match cell_to_u32(x) {
            Option::Some(v) => {
                let ghost out_old = out@;
                out.push(v);
                proof {
                    assert(forall|sp0: Seq<u32>| out_old + (seq![v] + sp0) =~= out@ + sp0);
                }
            },
            Option::None => {
                return Result::Err(row_error());
            },
        }
        i = i + 1;
    }
    proof {
        assert(out@ + Seq::<u32>::empty() =~= out@);
    }
    Result::Ok(out)
}

/// Reads `n` one-cell u64 elements at the cursor.
#[verifier::loop_isolation(false)]
fn read_u64_cells(b: &Vec<u8>, pos: &mut usize, n: u64) -> (r: Result<
    Vec<u64>,
    VehicleShadowError,
>)
    requires
        *old(pos) <= b@.len(),
    ensures
        match dec_prim_seq(b@, *old(pos) as int, n as nat, |x: u64| dec_u64_cell(x)) {
            Option::Some(sp) => r matches Result::Ok(v) && v@ == sp.0 && *final(pos) == sp.1
                && *final(pos) <= b@.len(),
            Option::None => r is Err,
        },
{
    let ghost start = *pos as int;
    let mut out: Vec<u64> = Vec::new();
    let mut i: u64 = 0;
    while i < n
        invariant
            *pos <= b@.len(),
            i <= n,
            out@.len() == i,
            (match dec_prim_seq(b@, *pos as int, (n - i) as nat, |x: u64| dec_u64_cell(x)) {
                Option::Some(sp) => dec_prim_seq(b@, start, n as nat, |x: u64| dec_u64_cell(x))
                    == Option::Some((out@ + sp.0, sp.1)),
                Option::None => dec_prim_seq(b@, start, n as nat, |x: u64| dec_u64_cell(x)) is None,
            }),
        decreases n - i,
    {
        let x = match read_cell(b, pos) {
            Result::Ok(x) => x,
            Result::Err(e) => {
                return Result::Err(e);
            },
        };
        match cell_to_u64(x) {
            Option::Some(v) => {
                let ghost out_old = out@;
                out.push(v);
                proof {
                    assert(forall|sp0: Seq<u64>| out_old + (seq![v] + sp0) =~= out@ + sp0);
                }
            },
            Option::None => {
                return Result::Err(row_error());
            },
        }
        i = i + 1;
    }
    proof {
        assert(out@ + Seq::<u64>::empty() =~= out@);
    }
    Result::Ok(out)
}

/// Reads `n` one-cell char elements at the cursor.
#[verifier::loop_isolation(false)]
fn read_char_cells(b: &Vec<u8>, pos: &mut usize, n: u64) -> (r: Result<
    Vec<char>,
    VehicleShadowError,
>)
    requires
        *old(pos) <= b@.len(),
    ensures
        match dec_prim_seq(b@, *old(pos) as int, n as nat, |x: u64| dec_char_cell(x)) {
            Option::Some(sp) => r matches Result::Ok(v) && v@ == sp.0 && *final(pos) == sp.1
                && *final(pos) <= b@.len(),
            Option::None => r is Err,
        },
{
    let ghost start = *pos as int;
    let mut out: Vec<char> = Vec::new();
    let mut i: u64 = 0;
    while i < n
        invariant
            *pos <= b@.len(),
            i <= n,
            out@.len() == i,
            (match dec_prim_seq(b@, *pos as int, (n - i) as nat, |x: u64| dec_char_cell(x)) {
                Option::Some(sp) => dec_prim_seq(b@, start, n as nat, |x: u64| dec_char_cell(x))
                    == Option::Some((out@ + sp.0, sp.1)),
                Option::None => dec_prim_seq(b@, start, n as nat, |x: u64| dec_char_cell(x)) is None,
            }),
        decreases n - i,
    {
        let x = match read_cell(b, pos) {
            Result::Ok(x) => x,
            Result::Err(e) => {
                return Result::Err(e);
            },
        };
        match cell_to_char(x) {
            Option::Some(v) => {
                let ghost out_old = out@;
                out.push(v);
                proof {
                    assert(forall|sp0: Seq<char>| out_old + (seq![v] + sp0) =~= out@ + sp0);
                }
            },
            Option::None => {
                return Result::Err(row_error());
            },
        }
        i = i + 1;
    }
    proof {
        assert(out@ + Seq::<char>::empty() =~= out@);
    }
    Result::Ok(out)
}

/// Reads a text at the cursor.
fn read_text(b: &Vec<u8>, pos: &mut usize) -> (r: Result<String, VehicleShadowError>)
    requires
        *old(pos) <= b@.len(),
    ensures
        match dec_str(b@, *old(pos) as int) {
            Option::Some(sp) => r matches Result::Ok(t) && t@ == sp.0 && *final(pos) == sp.1
                && *final(pos) <= b@.len(),
            Option::None => r is Err,
        },
{
    let n = match read_cell(b, pos) {
        Result::Ok(n) => n,
        Result::Err(e) => {
            return Result::Err(e);
        },
    };
    match read_char_cells(b, pos, n) {
        Result::Ok(cs) => Result::Ok(string_from_chars(&cs)),
        Result::Err(e) => Result::Err(e),
    }
}

/// Reads `n` texts at the cursor.
#[verifier::loop_isolation(false)]
fn read_text_items(b: &Vec<u8>, pos: &mut usize, n: u64) -> (r: Result<
    Vec<String>,
    VehicleShadowError,
>)
    requires
        *old(pos) <= b@.len(),
    ensures
        match dec_strs(b@, *old(pos) as int, n as nat) {
            Option::Some(sp) => r matches Result::Ok(v) && v.deep_view() == sp.0 && *final(pos)
                == sp.1 && *final(pos) <= b@.len(),
            Option::None => r is Err,
        },
{
    let ghost start = *pos as int;
    let mut out: Vec<String> = Vec::new();
    let mut i: u64 = 0;
    while i < n
        invariant
            *pos <= b@.len(),
            i <= n,
            out@.len() == i,
            (match dec_strs(b@, *pos as int, (n - i) as nat) {
                Option::Some(sp) => dec_strs(b@, start, n as nat) == Option::Some(
                    (out.deep_view() + sp.0, sp.1),
                ),
                Option::None => dec_strs(b@, start, n as nat) is None,
            }),
        decreases n - i,
    {
        match read_text(b, pos) {
            Result::Ok(t) => {
                let ghost out_old = out.deep_view();
                out.push(t);
                proof {
                    assert(out.deep_view() =~= out_old.push(t@));
                    assert(forall|sp0: Seq<Seq<char>>| out_old + (seq![t@] + sp0) =~= out_old.push(
                        t@,
                    ) + sp0);
                }
            },
            Result::Err(e) => {
                return Result::Err(e);
            },
        }
        i = i + 1;
    }
    proof {
        assert(out.deep_view() + Seq::<Seq<char>>::empty() =~= out.deep_view());
    }
    Result::Ok(out)
}

/// Reads an optional text at the cursor.
fn read_opt_text(b: &Vec<u8>, pos: &mut usize) -> (r: Result<
    Option<String>,
    VehicleShadowError,
>)
    requires
        *old(pos) <= b@.len(),
    ensures
        match dec_opt_str(b@, *old(pos) as int) {
            Option::Some(sp) => r matches Result::Ok(o) && crate::signal::opt_str_view(o) == sp.0
                && *final(pos) == sp.1 && *final(pos) <= b@.len(),
            Option::None => r is Err,
        },
{
    let p = match read_cell(b, pos) {
        Result::Ok(p) => p,
        Result::Err(e) => {
            return Result::Err(e);
        },
    };
    if p == 0 {
        Result::Ok(Option::None)
    } else if p == 1 {
        match read_text(b, pos) {
            Result::Ok(t) => Result::Ok(Option::Some(t)),
            Result::Err(e) => Result::Err(e),
        }
    } else {
        Result::Err(row_error())
    }
}

/// Reads a value at the cursor.
fn read_value(b: &Vec<u8>, pos: &mut usize) -> (r: Result<Value, VehicleShadowError>)
    requires
        *old(pos) <= b@.len(),
    ensures
        match dec_value(b@, *old(pos) as int) {
            Option::Some(sp) => r matches Result::Ok(v) && v@ == sp.0 && *final(pos) == sp.1
                && *final(pos) <= b@.len(),
            Option::None => r is Err,
        },
{
    let tag = match read_cell(b, pos) {
        Result::Ok(t) => t,
        Result::Err(e) => {
            return Result::Err(e);
        },
    };
    if tag == 0 {
        Result::Ok(Value::NAN)
    } else if tag == 1 {
        match read_cell(b, pos) {
            Result::Ok(x) => match cell_to_bool(x) {
                Option::Some(v) => Result::Ok(Value::Bool(v)),
                Option::None => Result::Err(row_error()),
            },
            Result::Err(e) => Result::Err(e),
        }
    } else if tag == 2 {
        match read_text(b, pos) {
            Result::Ok(t) => Result::Ok(Value::String(t)),
            Result::Err(e) => Result::Err(e),
        }
    } else if tag == 3 {
        match read_cell(b, pos) {
            Result::Ok(x) => match cell_to_i8(x) {
                Option::Some(v) => Result::Ok(Value::Int8(v)),
                Option::None => Result::Err(row_error()),
            },
            Result::Err(e) => Result::Err(e),
        }
    } else if tag == 4 {
        match read_cell(b, pos) {
            Result::Ok(x) => match cell_to_i16(x) {
                Option::Some(v) => Result::Ok(Value::Int16(v)),
                Option::None => Result::Err(row_error()),
            },
            Result::Err(e) => Result::Err(e),
        }
    } else if tag == 5 {
        match read_cell(b, pos) {
            Result::Ok(x) => match cell_to_i32(x) {
                Option::Some(v) => Result::Ok(Value::Int32(v)),
                Option::None => Result::Err(row_error()),
            },
            Result::Err(e) => Result::Err(e),
        }
    } else if tag == 6 {
        match read_cell(b, pos) {
            Result::Ok(x) => match cell_to_i64(x) {
                Option::Some(v) => Result::Ok(Value::Int64(v)),
                Option::None => Result::Err(row_error()),
            },
            Result::Err(e) => Result::Err(e),
        }
    } else if tag == 7 {
        match read_cell(b, pos) {
            Result::Ok(x) => match cell_to_u8(x) {
                Option::Some(v) => Result::Ok(Value::Uint8(v)),
                Option::None => Result::Err(row_error()),
            },
            Result::Err(e) => Result::Err(e),
        }
    } else if tag == 8 {
        match read_cell(b, pos) {
            Result::Ok(x) => match cell_to_u16(x) {
                Option::Some(v) => Result::Ok(Value::Uint16(v)),
                Option::None => Result::Err(row_error()),
            },
            Result::Err(e) => Result::Err(e),
        }
    } else if tag == 9 {
        match read_cell(b, pos) {
            Result::Ok(x) => match cell_to_u32(x) {
                Option::Some(v) => Result::Ok(Value::Uint32(v)),
                Option::None => Result::Err(row_error()),
            },
            Result::Err(e) => Result::Err(e),
        }
    } else if tag == 10 {
        match read_cell(b, pos) {
            Result::Ok(x) => Result::Ok(Value::Uint64(x)),
            Result::Err(e) => Result::Err(e),
        }
    } else if tag == 11 {
        match read_cell(b, pos) {
            Result::Ok(x) => match cell_to_u32(x) {
                Option::Some(v) => Result::Ok(Value::Float(v)),
                Option::None => Result::Err(row_error()),
            },
            Result::Err(e) => Result::Err(e),
        }
    } else if tag == 12 {
        match read_cell(b, pos) {
            Result::Ok(x) => Result::Ok(Value::Double(x)),
            Result::Err(e) => Result::Err(e),
        }
    } else if tag == 13 {
        match read_cell(b, pos) {
            Result::Ok(n) => match read_bool_cells(b, pos, n) {
                Result::Ok(items) => Result::Ok(Value::BoolArray(items)),
                Result::Err(e) => Result::Err(e),
            },
            Result::Err(e) => Result::Err(e),
        }
    } else if tag == 14 {
        match read_cell(b, pos) {
            Result::Ok(n) => match read_text_items(b, pos, n) {
                Result::Ok(items) => Result::Ok(Value::StringArray(items)),
                Result::Err(e) => Result::Err(e),
            },
            Result::Err(e) => Result::Err(e),
        }
    } else if tag == 15 {
        match read_cell(b, pos) {
            Result::Ok(n) => match read_i8_cells(b, pos, n) {
                Result::Ok(items) => Result::Ok(Value::Int8Array(items)),
                Result::Err(e) => Result::Err(e),
            },
            Result::Err(e) => Result::Err(e),
        }
    } else if tag == 16 {
        match read_cell(b, pos) {
            Result::Ok(n) => match read_i16_cells(b, pos, n) {
                Result::Ok(items) => Result::Ok(Value::Int16Array(items)),
                Result::Err(e) => Result::Err(e),
            },
            Result::Err(e) => Result::Err(e),
        }
    } else if tag == 17 {
        match read_cell(b, pos) {
            Result::Ok(n) => match read_i32_cells(b, pos, n) {
                Result::Ok(items) => Result::Ok(Value::Int32Array(items)),
                Result::Err(e) => Result::Err(e),
            },
            Result::Err(e) => Result::Err(e),
        }
    } else if tag == 18 {
        match read_cell(b, pos) {
            Result::Ok(n) => match read_i64_cells(b, pos, n) {
                Result::Ok(items) => Result::Ok(Value::Int64Array(items)),
                Result::Err(e) => Result::Err(e),
            },
            Result::Err(e) => Result::Err(e),
        }
    } else if tag == 19 {
        match read_cell(b, pos) {
            Result::Ok(n) => match read_u8_cells(b, pos, n) {
                Result::Ok(items) => Result::Ok(Value::Uint8Array(items)),
                Result::Err(e) => Result::Err(e),
            },
            Result::Err(e) => Result::Err(e),
        }
    } else if tag == 20 {
        match read_cell(b, pos) {
            Result::Ok(n) => match read_u16_cells(b, pos, n) {
                Result::Ok(items) => Result::Ok(Value::Uint16Array(items)),
                Result::Err(e) => Result::Err(e),
            },
            Result::Err(e) => Result::Err(e),
        }
    } else if tag == 21 {
        match read_cell(b, pos) {
            Result::Ok(n) => match read_u32_cells(b, pos, n) {
                Result::Ok(items) => Result::Ok(Value::Uint32Array(items)),
                Result::Err(e) => Result::Err(e),
            },
            Result::Err(e) => Result::Err(e),
        }
    } else if tag == 22 {
        match read_cell(b, pos) {
            Result::Ok(n) => match read_u64_cells(b, pos, n) {
                Result::Ok(items) => Result::Ok(Value::Uint64Array(items)),
                Result::Err(e) => Result::Err(e),
            },
            Result::Err(e) => Result::Err(e),
        }
    } else if tag == 23 {
        match read_cell(b, pos) {
            Result::Ok(n) => match read_u32_cells(b, pos, n) {
                Result::Ok(items) => Result::Ok(Value::FloatArray(items)),
                Result::Err(e) => Result::Err(e),
            },
            Result::Err(e) => Result::Err(e),
        }
    } else if tag == 24 {
        match read_cell(b, pos) {
            Result::Ok(n) => match read_u64_cells(b, pos, n) {
                Result::Ok(items) => Result::Ok(Value::DoubleArray(items)),
                Result::Err(e) => Result::Err(e),
            },
            Result::Err(e) => Result::Err(e),
        }
    } else {
        Result::Err(row_error())
    }
}

/// Reads `n` values at the cursor.
#[verifier::loop_isolation(false)]
fn read_value_items(b: &Vec<u8>, pos: &mut usize, n: u64) -> (r: Result<
    Vec<Value>,
    VehicleShadowError,
>)
    requires
        *old(pos) <= b@.len(),
    ensures
        match dec_values(b@, *old(pos) as int, n as nat) {
            Option::Some(sp) => r matches Result::Ok(v) && v@.map_values(|x: Value| x@) == sp.0
                && *final(pos) == sp.1 && *final(pos) <= b@.len(),
            Option::None => r is Err,
        },
{
    let ghost start = *pos as int;
    let mut out: Vec<Value> = Vec::new();
    let mut i: u64 = 0;
    while i < n
        invariant
            *pos <= b@.len(),
            i <= n,
            out@.len() == i,
            (match dec_values(b@, *pos as int, (n - i) as nat) {
                Option::Some(sp) => dec_values(b@, start, n as nat) == Option::Some(
                    (out@.map_values(|x: Value| x@) + sp.0, sp.1),
                ),
                Option::None => dec_values(b@, start, n as nat) is None,
            }),
        decreases n - i,
    {
        match read_value(b, pos) {
            Result::Ok(v) => {
                let ghost out_old = out@.map_values(|x: Value| x@);
                let ghost vm = v@;
                out.push(v);
                proof {
                    assert(out@.map_values(|x: Value| x@) =~= out_old.push(vm));
                    assert(forall|sp0: Seq<ValueModel>| out_old + (seq![vm] + sp0) =~= out_old.push(
                        vm,
                    ) + sp0);
                }
            },
            Result::Err(e) => {
                return Result::Err(e);
            },
        }
        i = i + 1;
    }
    proof {
        assert(out@.map_values(|x: Value| x@) + Seq::<ValueModel>::empty() =~= out@.map_values(
            |x: Value| x@,
        ));
    }
    Result::Ok(out)
}

/// Reads an optional value at the cursor.
fn read_opt_value(b: &Vec<u8>, pos: &mut usize) -> (r: Result<
    Option<Value>,
    VehicleShadowError,
>)
    requires
        *old(pos) <= b@.len(),
    ensures
        match dec_opt_value(b@, *old(pos) as int) {
            Option::Some(sp) => r matches Result::Ok(o) && crate::signal::opt_value_view(o) == sp.0
                && *final(pos) == sp.1 && *final(pos) <= b@.len(),
            Option::None => r is Err,
        },
{
    let p = match read_cell(b, pos) {
        Result::Ok(p) => p,
        Result::Err(e) => {
            return Result::Err(e);
        },
    };
    if p == 0 {
        Result::Ok(Option::None)
    } else if p == 1 {
        match read_value(b, pos) {
            Result::Ok(v) => Result::Ok(Option::Some(v)),
            Result::Err(e) => Result::Err(e),
        }
    } else {
        Result::Err(row_error())
    }
}

/// Reads an optional value list at the cursor.
fn read_opt_values(b: &Vec<u8>, pos: &mut usize) -> (r: Result<
    Option<Vec<Value>>,
    VehicleShadowError,
>)
    requires
        *old(pos) <= b@.len(),
    ensures
        match dec_opt_values(b@, *old(pos) as int) {
            Option::Some(sp) => r matches Result::Ok(o) && crate::signal::opt_values_view(o)
                == sp.0 && *final(pos) == sp.1 && *final(pos) <= b@.len(),
            Option::None => r is Err,
        },
{
    let p = match read_cell(b, pos) {
        Result::Ok(p) => p,
        Result::Err(e) => {
            return Result::Err(e);
        },
    };
    if p == 0 {
        Result::Ok(Option::None)
    } else if p == 1 {
        let n = match read_cell(b, pos) {
            Result::Ok(n) => n,
            Result::Err(e) => {
                return Result::Err(e);
            },
        };
        match read_value_items(b, pos, n) {
            Result::Ok(items) => Result::Ok(Option::Some(items)),
            Result::Err(e) => Result::Err(e),
        }
    } else {
        Result::Err(row_error())
    }
}

/// Maps a cell to its leaf classification, as `dec_leaf_cell` describes.
fn cell_to_leaf(x: u64) -> (r: Option<LeafType>)
    ensures
        r == dec_leaf_cell(x),
{
    if x == 0 {
        Option::Some(LeafType::Branch)
    } else if x == 1 {
        Option::Some(LeafType::Sensor)
    } else if x == 2 {
        Option::Some(LeafType::Attribute)
    } else if x == 3 {
        Option::Some(LeafType::Actuator)
    } else {
        Option::None
    }
}

/// Maps a cell to its type tag, as `dec_vt_cell` describes.
fn cell_to_vt(x: u64) -> (r: Option<ValueType>)
    ensures
        r == dec_vt_cell(x),
{
    if x == 0 {
        Option::Some(ValueType::TypeNAN)
    } else if x == 1 {
        Option::Some(ValueType::TypeBool)
    } else if x == 2 {
        Option::Some(ValueType::TypeString)
    } else if x == 3 {
        Option::Some(ValueType::TypeInt8)
    } else if x == 4 {
        Option::Some(ValueType::TypeInt16)
    } else if x == 5 {
        Option::Some(ValueType::TypeInt32)
    } else if x == 6 {
        Option::Some(ValueType::TypeInt64)
    } else if x == 7 {
        Option::Some(ValueType::TypeUint8)
    } else if x == 8 {
        Option::Some(ValueType::TypeUint16)
    } else if x == 9 {
        Option::Some(ValueType::TypeUint32)
    } else if x == 10 {
        Option::Some(ValueType::TypeUint64)
    } else if x == 11 {
        Option::Some(ValueType::TypeFloat)
    } else if x == 12 {
        Option::Some(ValueType::TypeDouble)
    } else if x == 13 {
        Option::Some(ValueType::TypeBoolArray)
    } else if x == 14 {
        Option::Some(ValueType::TypeStringArray)
    } else if x == 15 {
        Option::Some(ValueType::TypeInt8Array)
    } else if x == 16 {
        Option::Some(ValueType::TypeInt16Array)
    } else if x == 17 {
        Option::Some(ValueType::TypeInt32Array)
    } else if x == 18 {
        Option::Some(ValueType::TypeInt64Array)
    } else if x == 19 {
        Option::Some(ValueType::TypeUint8Array)
    } else if x == 20 {
        Option::Some(ValueType::TypeUint16Array)
    } else if x == 21 {
        Option::Some(ValueType::TypeUint32Array)
    } else if x == 22 {
        Option::Some(ValueType::TypeUint64Array)
    } else if x == 23 {
        Option::Some(ValueType::TypeFloatArray)
    } else if x == 24 {
        Option::Some(ValueType::TypeDoubleArray)
    } else {
        Option::None
    }
}

/// Reads a state at the cursor.
fn read_state(b: &Vec<u8>, pos: &mut usize) -> (r: Result<State, VehicleShadowError>)
    requires
        *old(pos) <= b@.len(),
    ensures
        match dec_state(b@, *old(pos) as int) {
            Option::Some(sp) => r matches Result::Ok(st) && st@ == sp.0 && *final(pos) == sp.1
                && *final(pos) <= b@.len(),
            Option::None => r is Err,
        },
{
    let value = match read_value(b, pos) {
        Result::Ok(v) => v,
        Result::Err(e) => {
            return Result::Err(e);
        },
    };
    let capability = match read_cell(b, pos) {
        Result::Ok(x) => match cell_to_bool(x) {
            Option::Some(v) => v,
            Option::None => {
                return Result::Err(row_error());
            },
        },
        Result::Err(e) => {
            return Result::Err(e);
        },
    };
    let availability = match read_cell(b, pos) {
        Result::Ok(x) => match cell_to_bool(x) {
            Option::Some(v) => v,
            Option::None => {
                return Result::Err(row_error());
            },
        },
        Result::Err(e) => {
            return Result::Err(e);
        },
    };
    let lock_token = match read_opt_text(b, pos) {
        Result::Ok(o) => o,
        Result::Err(e) => {
            return Result::Err(e);
        },
    };
    let reserved = match read_text(b, pos) {
        Result::Ok(t) => t,
        Result::Err(e) => {
            return Result::Err(e);
        },
    };
    Result::Ok(State { value, capability, availability, lock_token, reserved })
}

/// Reads a config at the cursor.
fn read_config(b: &Vec<u8>, pos: &mut usize) -> (r: Result<Config, VehicleShadowError>)
    requires
        *old(pos) <= b@.len(),
    ensures
        match dec_config(b@, *old(pos) as int) {
            Option::Some(sp) => r matches Result::Ok(c) && c@ == sp.0 && *final(pos) == sp.1
                && *final(pos) <= b@.len(),
            Option::None => r is Err,
        },
{
    let leaf_type = match read_cell(b, pos) {
        Result::Ok(x) => match cell_to_leaf(x) {
            Option::Some(v) => v,
            Option::None => {
                return Result::Err(row_error());
            },
        },
        Result::Err(e) => {
            return Result::Err(e);
        },
    };
    let data_type = match read_cell(b, pos) {
        Result::Ok(x) => match cell_to_vt(x) {
            Option::Some(v) => v,
            Option::None => {
                return Result::Err(row_error());
            },
        },
        Result::Err(e) => {
            return Result::Err(e);
        },
    };
    let deprecation = match read_opt_text(b, pos) {
        Result::Ok(o) => o,
        Result::Err(e) => {
            return Result::Err(e);
        },
    };
    let unit = match read_opt_text(b, pos) {
        Result::Ok(o) => o,
        Result::Err(e) => {
            return Result::Err(e);
        },
    };
    let min = match read_opt_value(b, pos) {
        Result::Ok(o) => o,
        Result::Err(e) => {
            return Result::Err(e);
        },
    };
    let max = match read_opt_value(b, pos) {
        Result::Ok(o) => o,
        Result::Err(e) => {
            return Result::Err(e);
        },
    };
    let description = match read_opt_text(b, pos) {
        Result::Ok(o) => o,
        Result::Err(e) => {
            return Result::Err(e);
        },
    };
    let comment = match read_opt_text(b, pos) {
        Result::Ok(o) => o,
        Result::Err(e) => {
            return Result::Err(e);
        },
    };
    let allowed = match read_opt_values(b, pos) {
        Result::Ok(o) => o,
        Result::Err(e) => {
            return Result::Err(e);
        },
    };
    let default = match read_opt_value(b, pos) {
        Result::Ok(o) => o,
        Result::Err(e) => {
            return Result::Err(e);
        },
    };
    Result::Ok(
        Config {
            leaf_type,
            data_type,
            deprecation,
            unit,
            min,
            max,
            description,
            comment,
            allowed,
            default,
        },
    )
}

/// Deserializes a whole row from the front of the bytes, reporting how
/// many bytes the row occupied.
pub fn decode_signal(bytes: &Vec<u8>) -> (r: Result<(Signal, usize), VehicleShadowError>)
    ensures
        match dec_signal(bytes@, 0) {
            Option::Some(sp) => r matches Result::Ok(p) && p.0@ == sp.0 && p.1 as int == sp.1,
            Option::None => r is Err,
        },
{
    let mut pos: usize = 0;
    let path = match read_text(bytes, &mut pos) {
        Result::Ok(t) => t,
        Result::Err(e) => {
            return Result::Err(e);
        },
    };
    let state = match read_state(bytes, &mut pos) {
        Result::Ok(st) => st,
        Result::Err(e) => {
            return Result::Err(e);
        },
    };
    let config = match read_config(bytes, &mut pos) {
        Result::Ok(c) => c,
        Result::Err(e) => {
            return Result::Err(e);
        },
    };
    Result::Ok((Signal { path, state, config }, pos))
}


} // verus!
