//! Human-readable rendering of wire values and signals.
//!
//! The rendering mirrors the wire value mapping: every kind of the
//! closed union has a textual form, and the no-value sentinel reads
//! `NAN`. Float and double payloads are opaque bit patterns to the
//! verified core, so they are shown as the decimal text of those raw
//! patterns; presentation-grade decimal float rendering belongs to the
//! unverified edge.

use vstd::prelude::*;
use vstd::string::StringExecFns;
use crate::wire::{WireKind, WireKindModel, WireSignal, WireSignalModel, WireValue, WireLeafType, WireValueType};

verus! {

/// The character of one decimal digit.
pub open spec fn spec_digit(d: nat) -> char {
    if d == 0 {
        '0'
    } else if d == 1 {
        '1'
    } else if d == 2 {
        '2'
    } else if d == 3 {
        '3'
    } else if d == 4 {
        '4'
    } else if d == 5 {
        '5'
    } else if d == 6 {
        '6'
    } else if d == 7 {
        '7'
    } else if d == 8 {
        '8'
    } else {
        '9'
    }
}

/// The decimal text of a natural number, most significant digit first.
pub open spec fn spec_digits(n: nat) -> Seq<char>
    decreases n,
{
    if n < 10 {
        seq![spec_digit(n)]
    } else {
        spec_digits(n / 10).push(spec_digit(n % 10))
    }
}

/// The decimal text of a signed number: a leading minus for negatives.
pub open spec fn spec_signed_digits(x: int) -> Seq<char> {
    if x >= 0 {
        spec_digits(x as nat)
    } else {
        seq!['-'] + spec_digits((-x) as nat)
    }
}

/// Appends one decimal digit.
fn append_digit(out: &mut String, d: u64)
    requires
        d < 10,
    ensures
        final(out)@ == old(out)@ + seq![spec_digit(d as nat)],
{
    if d == 0 {
        proof {
            reveal_strlit("0");
        }
        out.append("0");
    } else if d == 1 {
        proof {
            reveal_strlit("1");
        }
        out.append("1");
    } else if d == 2 {
        proof {
            reveal_strlit("2");
        }
        out.append("2");
    } else if d == 3 {
        proof {
            reveal_strlit("3");
        }
        out.append("3");
    } else if d == 4 {
        proof {
            reveal_strlit("4");
        }
        out.append("4");
    } else if d == 5 {
        proof {
            reveal_strlit("5");
        }
        out.append("5");
    } else if d == 6 {
        proof {
            reveal_strlit("6");
        }
        out.append("6");
    } else if d == 7 {
        proof {
            reveal_strlit("7");
        }
        out.append("7");
    } else if d == 8 {
        proof {
            reveal_strlit("8");
        }
        out.append("8");
    } else {
        proof {
            reveal_strlit("9");
        }
        out.append("9");
    }
    proof {
        assert(out@ =~= old(out)@ + seq![spec_digit(d as nat)]);
    }
}

/// Appends the decimal text of an unsigned number.
fn append_u64(out: &mut String, n: u64)
    ensures
        final(out)@ == old(out)@ + spec_digits(n as nat),
    decreases n,
{
    if n < 10 {
        append_digit(out, n);
    } else {
        append_u64(out, n / 10);
        append_digit(out, n % 10);
        proof {
            assert(out@ =~= old(out)@ + spec_digits(n as nat));
        }
    }
}

/// Appends the decimal text of a signed number.
fn append_i64(out: &mut String, x: i64)
    ensures
        final(out)@ == old(out)@ + spec_signed_digits(x as int),
{
    if x >= 0 {
        append_u64(out, x as u64);
    } else {
        proof {
            reveal_strlit("-");
        }
        out.append("-");
        let wide: i128 = x as i128;
        let magnitude: u64 = (-wide) as u64;
        append_u64(out, magnitude);
        proof {
            assert(out@ =~= old(out)@ + spec_signed_digits(x as int));
        }
    }
}

/// The decimal text of an unsigned number.
pub fn u64_to_string(n: u64) -> (r: String)
    ensures
        r@ == spec_digits(n as nat),
{
    let mut out = String::new();
    append_u64(&mut out, n);
    proof {
        assert(Seq::<char>::empty() + spec_digits(n as nat) =~= spec_digits(n as nat));
    }
    out
}

/// Texts joined with a comma and a space.
pub open spec fn spec_join(items: Seq<Seq<char>>) -> Seq<char>
    decreases items.len(),
{
    if items.len() == 0 {
        Seq::empty()
    } else if items.len() == 1 {
        items[0]
    } else {
        spec_join(items.drop_last()) + ", "@ + items.last()
    }
}

/// The text of a boolean.
pub open spec fn spec_bool_text(b: bool) -> Seq<char> {
    if b {
        "true"@
    } else {
        "false"@
    }
}

/// A text in double quotes.
pub open spec fn spec_quoted(s: Seq<char>) -> Seq<char> {
    "\""@ + s + "\""@
}

/// The rendered text of a wire value: the no-value sentinel reads
/// `NAN`, scalars read as their payloads, arrays as bracketed
/// comma-separated lists, and float payloads as the decimal text of
/// their raw bit patterns.
pub open spec fn spec_format_value(w: Option<WireKindModel>) -> Seq<char> {
    match w {
        Option::None => "NAN"@,
        Option::Some(k) => match k {
            WireKindModel::BoolValue(b) => spec_bool_text(b),
            WireKindModel::StringValue(s) => spec_quoted(s),
            WireKindModel::Int8Value(x) => spec_signed_digits(x as int),
            WireKindModel::Int16Value(x) => spec_signed_digits(x as int),
            WireKindModel::Int32Value(x) => spec_signed_digits(x as int),
            WireKindModel::Int64Value(x) => spec_signed_digits(x as int),
            WireKindModel::Uint8Value(x) => spec_digits(x as nat),
            WireKindModel::Uint16Value(x) => spec_digits(x as nat),
            WireKindModel::Uint32Value(x) => spec_digits(x as nat),
            WireKindModel::Uint64Value(x) => spec_digits(x as nat),
            WireKindModel::FloatValue(x) => spec_digits(x as nat),
            WireKindModel::DoubleValue(x) => spec_digits(x as nat),
            WireKindModel::BoolArrayValue(v) => "["@ + spec_join(
                v.map_values(|x: bool| spec_bool_text(x)),
            ) + "]"@,
            WireKindModel::StringArrayValue(v) => "["@ + spec_join(
                v.map_values(|x: Seq<char>| spec_quoted(x)),
            ) + "]"@,
            WireKindModel::Int8ArrayValue(v) => "["@ + spec_join(
                v.map_values(|x: i32| spec_signed_digits(x as int)),
            ) + "]"@,
            WireKindModel::Int16ArrayValue(v) => "["@ + spec_join(
                v.map_values(|x: i32| spec_signed_digits(x as int)),
            ) + "]"@,
            WireKindModel::Int32ArrayValue(v) => "["@ + spec_join(
                v.map_values(|x: i32| spec_signed_digits(x as int)),
            ) + "]"@,
            WireKindModel::Int64ArrayValue(v) => "["@ + spec_join(
                v.map_values(|x: i64| spec_signed_digits(x as int)),
            ) + "]"@,
            WireKindModel::Uint8ArrayValue(v) => "["@ + spec_join(
                v.map_values(|x: u32| spec_digits(x as nat)),
            ) + "]"@,
            WireKindModel::Uint16ArrayValue(v) => "["@ + spec_join(
                v.map_values(|x: u32| spec_digits(x as nat)),
            ) + "]"@,
            WireKindModel::Uint32ArrayValue(v) => "["@ + spec_join(
                v.map_values(|x: u32| spec_digits(x as nat)),
            ) + "]"@,
            WireKindModel::Uint64ArrayValue(v) => "["@ + spec_join(
                v.map_values(|x: u64| spec_digits(x as nat)),
            ) + "]"@,
            WireKindModel::FloatArrayValue(v) => "["@ + spec_join(
                v.map_values(|x: u32| spec_digits(x as nat)),
            ) + "]"@,
            WireKindModel::DoubleArrayValue(v) => "["@ + spec_join(
                v.map_values(|x: u64| spec_digits(x as nat)),
            ) + "]"@,
        },
    }
}

/// Appends a boolean's text.
fn append_bool(out: &mut String, b: bool)
    ensures
        final(out)@ == old(out)@ + spec_bool_text(b),
{
    if b {
        out.append("true");
    } else {
        out.append("false");
    }
}

/// Appends a text in double quotes.
fn append_quoted(out: &mut String, s: &String)
    ensures
        final(out)@ == old(out)@ + spec_quoted(s@),
{
    out.append("\"");
    out.append(s.as_str());
    out.append("\"");
    proof {
        assert(out@ =~= old(out)@ + spec_quoted(s@));
    }
}

/// Appends a bracketed, comma-separated run of boolean elements.
fn append_bool_items(out: &mut String, v: &Vec<bool>)
    ensures
        final(out)@ == old(out)@ + "["@ + spec_join(v@.map_values(|x: bool| spec_bool_text(x))) + "]"@,
{
    out.append("[");
    let n = v.len();
    let mut i: usize = 0;
    proof {
        assert(v@.subrange(0, 0).map_values(|x: bool| spec_bool_text(x)) =~= Seq::<Seq<char>>::empty());
        assert(out@ =~= old(out)@ + "["@ + spec_join(v@.subrange(0, 0).map_values(|x: bool| spec_bool_text(x))));
    }
    while i < n
        invariant
            n == v@.len(),
            i <= n,
            out@ == old(out)@ + "["@ + spec_join(v@.subrange(0, i as int).map_values(|x: bool| spec_bool_text(x))),
        decreases n - i,
    {
        let ghost prefix = v@.subrange(0, i as int).map_values(|x: bool| spec_bool_text(x));
        proof {
            assert(v@.subrange(0, i + 1 as int) =~= v@.subrange(0, i as int).push(v@[i as int]));
            assert(v@.subrange(0, i + 1 as int).map_values(|x: bool| spec_bool_text(x)) =~= prefix.push(
                (|x: bool| spec_bool_text(x))(v@[i as int]),
            ));
            assert(prefix.push((|x: bool| spec_bool_text(x))(v@[i as int])).drop_last() =~= prefix);
        }
        if i > 0 {
            out.append(", ");
        }
        append_bool(out, v[i]);
        proof {
            assert(out@ =~= old(out)@ + "["@ + spec_join(
                v@.subrange(0, i + 1 as int).map_values(|x: bool| spec_bool_text(x)),
            ));
        }
        i = i + 1;
    }
    proof {
        assert(v@.subrange(0, n as int) =~= v@);
    }
    out.append("]");
}

/// Appends a bracketed, comma-separated run of quoted text elements.
fn append_string_items(out: &mut String, v: &Vec<String>)
    ensures
        final(out)@ == old(out)@ + "["@ + spec_join(v@.map_values(|x: String| spec_quoted(x@))) + "]"@,
{
    out.append("[");
    let n = v.len();
    let mut i: usize = 0;
    proof {
        assert(v@.subrange(0, 0).map_values(|x: String| spec_quoted(x@)) =~= Seq::<Seq<char>>::empty());
        assert(out@ =~= old(out)@ + "["@ + spec_join(v@.subrange(0, 0).map_values(|x: String| spec_quoted(x@))));
    }
    while i < n
        invariant
            n == v@.len(),
            i <= n,
            out@ == old(out)@ + "["@ + spec_join(v@.subrange(0, i as int).map_values(|x: String| spec_quoted(x@))),
        decreases n - i,
    {
        let ghost prefix = v@.subrange(0, i as int).map_values(|x: String| spec_quoted(x@));
        proof {
            assert(v@.subrange(0, i + 1 as int) =~= v@.subrange(0, i as int).push(v@[i as int]));
            assert(v@.subrange(0, i + 1 as int).map_values(|x: String| spec_quoted(x@)) =~= prefix.push(
                (|x: String| spec_quoted(x@))(v@[i as int]),
            ));
            assert(prefix.push((|x: String| spec_quoted(x@))(v@[i as int])).drop_last() =~= prefix);
        }
        if i > 0 {
            out.append(", ");
        }
        append_quoted(out, &v[i]);
        proof {
            assert(out@ =~= old(out)@ + "["@ + spec_join(
                v@.subrange(0, i + 1 as int).map_values(|x: String| spec_quoted(x@)),
            ));
        }
        i = i + 1;
    }
    proof {
        assert(v@.subrange(0, n as int) =~= v@);
    }
    out.append("]");
}

/// Appends a bracketed, comma-separated run of signed 32-bit elements.
fn append_i32_items(out: &mut String, v: &Vec<i32>)
    ensures
        final(out)@ == old(out)@ + "["@ + spec_join(v@.map_values(|x: i32| spec_signed_digits(x as int))) + "]"@,
{
    out.append("[");
    let n = v.len();
    let mut i: usize = 0;
    proof {
        assert(v@.subrange(0, 0).map_values(|x: i32| spec_signed_digits(x as int)) =~= Seq::<Seq<char>>::empty());
        assert(out@ =~= old(out)@ + "["@ + spec_join(v@.subrange(0, 0).map_values(|x: i32| spec_signed_digits(x as int))));
    }
    while i < n
        invariant
            n == v@.len(),
            i <= n,
            out@ == old(out)@ + "["@ + spec_join(v@.subrange(0, i as int).map_values(|x: i32| spec_signed_digits(x as int))),
        decreases n - i,
    {
        let ghost prefix = v@.subrange(0, i as int).map_values(|x: i32| spec_signed_digits(x as int));
        proof {
            assert(v@.subrange(0, i + 1 as int) =~= v@.subrange(0, i as int).push(v@[i as int]));
            assert(v@.subrange(0, i + 1 as int).map_values(|x: i32| spec_signed_digits(x as int)) =~= prefix.push(
                (|x: i32| spec_signed_digits(x as int))(v@[i as int]),
            ));
            assert(prefix.push((|x: i32| spec_signed_digits(x as int))(v@[i as int])).drop_last() =~= prefix);
        }
        if i > 0 {
            out.append(", ");
        }
        append_i64(out, v[i] as i64);
        proof {
            assert(out@ =~= old(out)@ + "["@ + spec_join(
                v@.subrange(0, i + 1 as int).map_values(|x: i32| spec_signed_digits(x as int)),
            ));
        }
        i = i + 1;
    }
    proof {
        assert(v@.subrange(0, n as int) =~= v@);
    }
    out.append("]");
}

/// Appends a bracketed, comma-separated run of signed 64-bit elements.
fn append_i64_items(out: &mut String, v: &Vec<i64>)
    ensures
        final(out)@ == old(out)@ + "["@ + spec_join(v@.map_values(|x: i64| spec_signed_digits(x as int))) + "]"@,
{
    out.append("[");
    let n = v.len();
    let mut i: usize = 0;
    proof {
        assert(v@.subrange(0, 0).map_values(|x: i64| spec_signed_digits(x as int)) =~= Seq::<Seq<char>>::empty());
        assert(out@ =~= old(out)@ + "["@ + spec_join(v@.subrange(0, 0).map_values(|x: i64| spec_signed_digits(x as int))));
    }
    while i < n
        invariant
            n == v@.len(),
            i <= n,
            out@ == old(out)@ + "["@ + spec_join(v@.subrange(0, i as int).map_values(|x: i64| spec_signed_digits(x as int))),
        decreases n - i,
    {
        let ghost prefix = v@.subrange(0, i as int).map_values(|x: i64| spec_signed_digits(x as int));
        proof {
            assert(v@.subrange(0, i + 1 as int) =~= v@.subrange(0, i as int).push(v@[i as int]));
            assert(v@.subrange(0, i + 1 as int).map_values(|x: i64| spec_signed_digits(x as int)) =~= prefix.push(
                (|x: i64| spec_signed_digits(x as int))(v@[i as int]),
            ));
            assert(prefix.push((|x: i64| spec_signed_digits(x as int))(v@[i as int])).drop_last() =~= prefix);
        }
        if i > 0 {
            out.append(", ");
        }
        append_i64(out, v[i]);
        proof {
            assert(out@ =~= old(out)@ + "["@ + spec_join(
                v@.subrange(0, i + 1 as int).map_values(|x: i64| spec_signed_digits(x as int)),
            ));
        }
        i = i + 1;
    }
    proof {
        assert(v@.subrange(0, n as int) =~= v@);
    }
    out.append("]");
}

/// Appends a bracketed, comma-separated run of unsigned 32-bit elements.
fn append_u32_items(out: &mut String, v: &Vec<u32>)
    ensures
        final(out)@ == old(out)@ + "["@ + spec_join(v@.map_values(|x: u32| spec_digits(x as nat))) + "]"@,
{
    out.append("[");
    let n = v.len();
    let mut i: usize = 0;
    proof {
        assert(v@.subrange(0, 0).map_values(|x: u32| spec_digits(x as nat)) =~= Seq::<Seq<char>>::empty());
        assert(out@ =~= old(out)@ + "["@ + spec_join(v@.subrange(0, 0).map_values(|x: u32| spec_digits(x as nat))));
    }
    while i < n
        invariant
            n == v@.len(),
            i <= n,
            out@ == old(out)@ + "["@ + spec_join(v@.subrange(0, i as int).map_values(|x: u32| spec_digits(x as nat))),
        decreases n - i,
    {
        let ghost prefix = v@.subrange(0, i as int).map_values(|x: u32| spec_digits(x as nat));
        proof {
            assert(v@.subrange(0, i + 1 as int) =~= v@.subrange(0, i as int).push(v@[i as int]));
            assert(v@.subrange(0, i + 1 as int).map_values(|x: u32| spec_digits(x as nat)) =~= prefix.push(
                (|x: u32| spec_digits(x as nat))(v@[i as int]),
            ));
            assert(prefix.push((|x: u32| spec_digits(x as nat))(v@[i as int])).drop_last() =~= prefix);
        }
        if i > 0 {
            out.append(", ");
        }
        append_u64(out, v[i] as u64);
        proof {
            assert(out@ =~= old(out)@ + "["@ + spec_join(
                v@.subrange(0, i + 1 as int).map_values(|x: u32| spec_digits(x as nat)),
            ));
        }
        i = i + 1;
    }
    proof {
        assert(v@.subrange(0, n as int) =~= v@);
    }
    out.append("]");
}

/// Appends a bracketed, comma-separated run of unsigned 64-bit elements.
fn append_u64_items(out: &mut String, v: &Vec<u64>)
    ensures
        final(out)@ == old(out)@ + "["@ + spec_join(v@.map_values(|x: u64| spec_digits(x as nat))) + "]"@,
{
    out.append("[");
    let n = v.len();
    let mut i: usize = 0;
    proof {
        assert(v@.subrange(0, 0).map_values(|x: u64| spec_digits(x as nat)) =~= Seq::<Seq<char>>::empty());
        assert(out@ =~= old(out)@ + "["@ + spec_join(v@.subrange(0, 0).map_values(|x: u64| spec_digits(x as nat))));
    }
    while i < n
        invariant
            n == v@.len(),
            i <= n,
            out@ == old(out)@ + "["@ + spec_join(v@.subrange(0, i as int).map_values(|x: u64| spec_digits(x as nat))),
        decreases n - i,
    {
        let ghost prefix = v@.subrange(0, i as int).map_values(|x: u64| spec_digits(x as nat));
        proof {
            assert(v@.subrange(0, i + 1 as int) =~= v@.subrange(0, i as int).push(v@[i as int]));
            assert(v@.subrange(0, i + 1 as int).map_values(|x: u64| spec_digits(x as nat)) =~= prefix.push(
                (|x: u64| spec_digits(x as nat))(v@[i as int]),
            ));
            assert(prefix.push((|x: u64| spec_digits(x as nat))(v@[i as int])).drop_last() =~= prefix);
        }
        if i > 0 {
            out.append(", ");
        }
        append_u64(out, v[i]);
        proof {
            assert(out@ =~= old(out)@ + "["@ + spec_join(
                v@.subrange(0, i + 1 as int).map_values(|x: u64| spec_digits(x as nat)),
            ));
        }
        i = i + 1;
    }
    proof {
        assert(v@.subrange(0, n as int) =~= v@);
    }
    out.append("]");
}

/// Renders a wire value as text, as `spec_format_value` describes.
pub fn format_value(value: &WireValue) -> (r: String)
    ensures
        r@ == spec_format_value(value@),
{
    let mut out = String::new();
    match &value.value {
        Option::None => {
            out.append("NAN");
        },
        Option::Some(k) => match k {
            WireKind::BoolValue(b) => append_bool(&mut out, *b),
            WireKind::StringValue(s) => append_quoted(&mut out, s),
            WireKind::Int8Value(x) => append_i64(&mut out, *x as i64),
            WireKind::Int16Value(x) => append_i64(&mut out, *x as i64),
            WireKind::Int32Value(x) => append_i64(&mut out, *x as i64),
            WireKind::Int64Value(x) => append_i64(&mut out, *x),
            WireKind::Uint8Value(x) => append_u64(&mut out, *x as u64),
            WireKind::Uint16Value(x) => append_u64(&mut out, *x as u64),
            WireKind::Uint32Value(x) => append_u64(&mut out, *x as u64),
            WireKind::Uint64Value(x) => append_u64(&mut out, *x),
            WireKind::FloatValue(x) => append_u64(&mut out, *x as u64),
            WireKind::DoubleValue(x) => append_u64(&mut out, *x),
            WireKind::BoolArrayValue(v) => append_bool_items(&mut out, v),
            WireKind::StringArrayValue(v) => {
                append_string_items(&mut out, v);
                proof {
                    assert(v@.map_values(|x: String| spec_quoted(x@)) =~= v.deep_view().map_values(
                        |x: Seq<char>| spec_quoted(x),
                    ));
                }
            },
            WireKind::Int8ArrayValue(v) => append_i32_items(&mut out, v),
            WireKind::Int16ArrayValue(v) => append_i32_items(&mut out, v),
            WireKind::Int32ArrayValue(v) => append_i32_items(&mut out, v),
            WireKind::Int64ArrayValue(v) => append_i64_items(&mut out, v),
            WireKind::Uint8ArrayValue(v) => append_u32_items(&mut out, v),
            WireKind::Uint16ArrayValue(v) => append_u32_items(&mut out, v),
            WireKind::Uint32ArrayValue(v) => append_u32_items(&mut out, v),
            WireKind::Uint64ArrayValue(v) => append_u64_items(&mut out, v),
            WireKind::FloatArrayValue(v) => append_u32_items(&mut out, v),
            WireKind::DoubleArrayValue(v) => append_u64_items(&mut out, v),
        },
    }
    proof {
        assert(Seq::<char>::empty() + spec_format_value(value@) =~= spec_format_value(value@));
    }
    out
}

/// The display name of a wire leaf classification.
pub open spec fn spec_leaf_text(lt: WireLeafType) -> Seq<char> {
    match lt {
        WireLeafType::Branch => "Branch"@,
        WireLeafType::Sensor => "Sensor"@,
        WireLeafType::Attribute => "Attribute"@,
        WireLeafType::Actuator => "Actuator"@,
    }
}

/// The display name of a wire type tag.
pub open spec fn spec_vt_text(vt: WireValueType) -> Seq<char> {
    match vt {
        WireValueType::TypeNan => "TypeNan"@,
        WireValueType::TypeBool => "TypeBool"@,
        WireValueType::TypeString => "TypeString"@,
        WireValueType::TypeInt8 => "TypeInt8"@,
        WireValueType::TypeInt16 => "TypeInt16"@,
        WireValueType::TypeInt32 => "TypeInt32"@,
        WireValueType::TypeInt64 => "TypeInt64"@,
        WireValueType::TypeUint8 => "TypeUint8"@,
        WireValueType::TypeUint16 => "TypeUint16"@,
        WireValueType::TypeUint32 => "TypeUint32"@,
        WireValueType::TypeUint64 => "TypeUint64"@,
        WireValueType::TypeFloat => "TypeFloat"@,
        WireValueType::TypeDouble => "TypeDouble"@,
        WireValueType::TypeBoolArray => "TypeBoolArray"@,
        WireValueType::TypeStringArray => "TypeStringArray"@,
        WireValueType::TypeInt8Array => "TypeInt8Array"@,
        WireValueType::TypeInt16Array => "TypeInt16Array"@,
        WireValueType::TypeInt32Array => "TypeInt32Array"@,
        WireValueType::TypeInt64Array => "TypeInt64Array"@,
        WireValueType::TypeUint8Array => "TypeUint8Array"@,
        WireValueType::TypeUint16Array => "TypeUint16Array"@,
        WireValueType::TypeUint32Array => "TypeUint32Array"@,
        WireValueType::TypeUint64Array => "TypeUint64Array"@,
        WireValueType::TypeFloatArray => "TypeFloatArray"@,
        WireValueType::TypeDoubleArray => "TypeDoubleArray"@,
    }
}

/// The rendered text of a whole wire signal: the path line, then the
/// state lines where a state is present, then the config lines where a
/// config is present.
pub open spec fn spec_format_signal(s: WireSignalModel) -> Seq<char> {
    "Path: "@ + s.path + "\n"@ + (match s.state {
        Option::Some(st) => spec_state_lines(st),
        Option::None => Seq::<char>::empty(),
    }) + (match s.config {
        Option::Some(c) => spec_config_lines(c),
        Option::None => Seq::<char>::empty(),
    })
}

/// Appends the display name of a wire leaf classification.
fn append_leaf_text(out: &mut String, lt: &WireLeafType)
    ensures
        final(out)@ == old(out)@ + spec_leaf_text(*lt),
{
    match lt {
        WireLeafType::Branch => out.append("Branch"),
        WireLeafType::Sensor => out.append("Sensor"),
        WireLeafType::Attribute => out.append("Attribute"),
        WireLeafType::Actuator => out.append("Actuator"),
    }
}

/// Appends the display name of a wire type tag.
fn append_vt_text(out: &mut String, vt: &WireValueType)
    ensures
        final(out)@ == old(out)@ + spec_vt_text(*vt),
{
    match vt {
        WireValueType::TypeNan => out.append("TypeNan"),
        WireValueType::TypeBool => out.append("TypeBool"),
        WireValueType::TypeString => out.append("TypeString"),
        WireValueType::TypeInt8 => out.append("TypeInt8"),
        WireValueType::TypeInt16 => out.append("TypeInt16"),
        WireValueType::TypeInt32 => out.append("TypeInt32"),
        WireValueType::TypeInt64 => out.append("TypeInt64"),
        WireValueType::TypeUint8 => out.append("TypeUint8"),
        WireValueType::TypeUint16 => out.append("TypeUint16"),
        WireValueType::TypeUint32 => out.append("TypeUint32"),
        WireValueType::TypeUint64 => out.append("TypeUint64"),
        WireValueType::TypeFloat => out.append("TypeFloat"),
        WireValueType::TypeDouble => out.append("TypeDouble"),
        WireValueType::TypeBoolArray => out.append("TypeBoolArray"),
        WireValueType::TypeStringArray => out.append("TypeStringArray"),
        WireValueType::TypeInt8Array => out.append("TypeInt8Array"),
        WireValueType::TypeInt16Array => out.append("TypeInt16Array"),
        WireValueType::TypeInt32Array => out.append("TypeInt32Array"),
        WireValueType::TypeInt64Array => out.append("TypeInt64Array"),
        WireValueType::TypeUint8Array => out.append("TypeUint8Array"),
        WireValueType::TypeUint16Array => out.append("TypeUint16Array"),
        WireValueType::TypeUint32Array => out.append("TypeUint32Array"),
        WireValueType::TypeUint64Array => out.append("TypeUint64Array"),
        WireValueType::TypeFloatArray => out.append("TypeFloatArray"),
        WireValueType::TypeDoubleArray => out.append("TypeDoubleArray"),
    }
}

/// The state lines of a rendered signal.
pub open spec fn spec_state_lines(st: crate::wire::WireStateModel) -> Seq<char> {
    (match st.value {
        Option::Some(w) => "  Value: "@ + spec_format_value(w) + "\n"@,
        Option::None => Seq::<char>::empty(),
    }) + "  Capability: "@ + spec_bool_text(
        match st.capability {
            Option::Some(c) => c,
            Option::None => false,
        },
    ) + "\n"@ + "  Availability: "@ + spec_bool_text(
        match st.availability {
            Option::Some(a) => a,
            Option::None => false,
        },
    ) + "\n"@
}

/// The config lines of a rendered signal.
pub open spec fn spec_config_lines(c: crate::wire::WireConfigModel) -> Seq<char> {
    "  Type: "@ + spec_leaf_text(c.leaf_type) + "\n"@ + "  Data Type: "@ + spec_vt_text(
        c.data_type,
    ) + "\n"@ + (match c.unit {
        Option::Some(u) => "  Unit: "@ + u + "\n"@,
        Option::None => Seq::<char>::empty(),
    }) + (match c.description {
        Option::Some(d) => "  Description: "@ + d + "\n"@,
        Option::None => Seq::<char>::empty(),
    })
}

/// Appends the state lines.
#[verifier::rlimit(100)]
#[verifier::spinoff_prover]
fn append_state_lines(out: &mut String, st: &crate::wire::WireState)
    ensures
        final(out)@ == old(out)@ + spec_state_lines(st@),
{
    if let Option::Some(w) = &st.value {
        out.append("  Value: ");
        let text = format_value(w);
        out.append(text.as_str());
        out.append("\n");
    }
    out.append("  Capability: ");
    append_bool(out, match st.capability {
        Option::Some(c) => c,
        Option::None => false,
    });
    out.append("\n");
    out.append("  Availability: ");
    append_bool(out, match st.availability {
        Option::Some(a) => a,
        Option::None => false,
    });
    out.append("\n");
    proof {
        assert(out@ =~= old(out)@ + spec_state_lines(st@));
    }
}

/// Appends the config lines.
#[verifier::rlimit(100)]
#[verifier::spinoff_prover]
fn append_config_lines(out: &mut String, c: &crate::wire::WireConfig)
    ensures
        final(out)@ == old(out)@ + spec_config_lines(c@),
{
    out.append("  Type: ");
    append_leaf_text(out, &c.leaf_type);
    out.append("\n");
    out.append("  Data Type: ");
    append_vt_text(out, &c.data_type);
    out.append("\n");
    if let Option::Some(u) = &c.unit {
        out.append("  Unit: ");
        out.append(u.as_str());
        out.append("\n");
    }
    if let Option::Some(d) = &c.description {
        out.append("  Description: ");
        out.append(d.as_str());
        out.append("\n");
    }
    proof {
        assert(out@ =~= old(out)@ + spec_config_lines(c@));
    }
}

/// Renders a signal for display, as `spec_format_signal` describes.
pub fn format_signal(signal: &WireSignal) -> (r: String)
    ensures
        r@ == spec_format_signal(signal@),
{
    let mut out = String::new();
    out.append("Path: ");
    out.append(signal.path.as_str());
    out.append("\n");
    if let Option::Some(st) = &signal.state {
        append_state_lines(&mut out, st);
    }
    if let Option::Some(c) = &signal.config {
        append_config_lines(&mut out, c);
    }
    proof {
        assert(out@ =~= spec_format_signal(signal@));
    }
    out
}

} // verus!
