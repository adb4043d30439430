//! Values as OLE Automation variants carry them: the display text of a variant, and the
//! conversions between variants and [`OpcValue`].
//!
//! A [`VariantData`] holds, as plain values, what is read out of a variant: its type tag
//! and payload.  Floating-point payloads are kept as bit patterns together with the text
//! the host rendered for them, so that no computation here involves a float.

use vstd::prelude::*;
use crate::error::{hex8, spec_hex_digits};
use crate::text::{
    concat_str, digits_value, is_decimal_numeral, lemma_decimal_reads_back, signed_value, spec_decimal, spec_digit_char,
    string_push, u64_to_string,
};
use crate::types::{OpcValue, OpcValueOf, OpcValueView};

verus! {

/// Deepest nesting of arrays that is rendered; deeper values show as `<nested>`.
pub const MAX_VARIANT_RECURSION_DEPTH: usize = 8;

/// Elements of a one-dimensional array that are shown; further ones are elided.
pub const MAX_ARRAY_ELEMENTS_SHOWN: usize = 20;

/// Type tag of a 64-bit signed integer variant, written for integers beyond 32 bits.
pub const VT_I8_TAG: u16 = 20;

/// `VT_INT`, the machine-width signed integer tag.
pub const VT_INT: u16 = 22;

/// `VT_UINT`, the machine-width unsigned integer tag.
pub const VT_UINT: u16 = 23;

/// What is read out of a variant, by its type tag.
#[derive(Debug)]
pub enum VariantData {
    /// `VT_EMPTY`.
    Empty,
    /// `VT_NULL`.
    Null,
    /// `VT_I2`.
    I2(i16),
    /// `VT_I4`.
    I4(i32),
    /// `VT_R4`: the bit pattern of the `f32`, that of the same value widened to `f64`,
    /// and its text with two decimals.
    R4 { bits: u32, wide_bits: u64, text: String },
    /// `VT_R8`: the bit pattern of the `f64` and its text with two decimals.
    R8 { bits: u64, text: String },
    /// `VT_CY`: currency, a 64-bit integer scaled by 10 000.
    Cy(i64),
    /// `VT_DATE`: the bit pattern of the OLE date and its text as a local date and time.
    Date { bits: u64, text: String },
    /// `VT_BSTR`.
    Bstr(String),
    /// `VT_ERROR`: a status code.
    Error(u32),
    /// `VT_BOOL`.
    Bool(bool),
    /// `VT_I1`.
    I1(i8),
    /// `VT_UI1`.
    UI1(u8),
    /// `VT_UI2`.
    UI2(u16),
    /// `VT_UI4`.
    UI4(u32),
    /// `VT_I8`.
    I8(i64),
    /// `VT_UI8`.
    UI8(u64),
    /// `VT_INT`.
    Int(i32),
    /// `VT_UINT`.
    UInt(u32),
    /// An array variant whose array could not be reached.
    UnreachableArray,
    /// An array variant with `dims` dimensions; for one dimension, `count` elements, of
    /// which `elements` holds those that were read, from the first on.
    Array { dims: u32, count: u64, elements: Vec<VariantData> },
    /// Any other type tag.
    Other(u16),
}

/// What is written into a variant for a value, over a text type `S`.
#[derive(Debug, PartialEq, Eq)]
pub enum WriteVariantOf<S> {
    /// `VT_BSTR`.
    Bstr(S),
    /// `VT_I4`.
    I4(i32),
    /// `VT_I8`.
    I8(i64),
    /// `VT_UI4`.
    UI4(u32),
    /// `VT_UI8`.
    UI8(u64),
    /// `VT_R8`, by its bit pattern.
    R8(u64),
    /// `VT_BOOL`, as the variant boolean (`-1` true, `0` false).
    Bool(i16),
    /// `VT_EMPTY`.
    Empty,
    /// `VT_NULL`.
    Null,
}

/// What is written into a variant for a value.
pub type WriteVariant = WriteVariantOf<String>;

/// The mathematical view of what is written.
pub type WriteVariantView = WriteVariantOf<Seq<char>>;

impl View for WriteVariantOf<String> {
    type V = WriteVariantView;

    open spec fn view(&self) -> WriteVariantView {
        match self {
            WriteVariantOf::Bstr(s) => WriteVariantOf::Bstr(s@),
            WriteVariantOf::I4(x) => WriteVariantOf::I4(*x),
            WriteVariantOf::I8(x) => WriteVariantOf::I8(*x),
            WriteVariantOf::UI4(x) => WriteVariantOf::UI4(*x),
            WriteVariantOf::UI8(x) => WriteVariantOf::UI8(*x),
            WriteVariantOf::R8(b) => WriteVariantOf::R8(*b),
            WriteVariantOf::Bool(x) => WriteVariantOf::Bool(*x),
            WriteVariantOf::Empty => WriteVariantOf::Empty,
            WriteVariantOf::Null => WriteVariantOf::Null,
        }
    }
}

/// A signed integer in decimal.
pub open spec fn spec_signed_decimal(x: int) -> Seq<char> {
    if x < 0 { "-"@ + spec_decimal((-x) as nat) } else { spec_decimal(x as nat) }
}

/// The last `k` decimal digits of `v`, zero padded.
pub open spec fn spec_decimal_digits(v: nat, k: nat) -> Seq<char>
    decreases k,
{
    if k == 0 {
        Seq::empty()
    } else {
        spec_decimal_digits(v / 10, (k - 1) as nat) + seq![spec_digit_char(v % 10)]
    }
}

/// Magnitude of an integer.
pub open spec fn abs(x: int) -> nat {
    if x < 0 { (-x) as nat } else { x as nat }
}

/// A currency amount: the whole part (truncated toward zero, so an amount above -1
/// shows no sign), a point, and four digits of the fraction's magnitude.
pub open spec fn spec_currency_text(raw: int) -> Seq<char> {
    let whole = abs(raw) / 10000;
    (if raw < 0 && whole > 0 { "-"@ } else { Seq::empty() }) + spec_decimal(whole) + "."@
        + spec_decimal_digits(abs(raw) % 10000, 4)
}

/// A short description of a well-known OPC status code.
pub open spec fn spec_status_hint(code: u32) -> Option<Seq<char>> {
    if code == 0xC004_0001 {
        Some("The value of the handle is invalid (OPC_E_INVALIDHANDLE)"@)
    } else if code == 0xC004_0004 {
        Some("The server cannot convert the data to the requested type (OPC_E_BADTYPE)"@)
    } else if code == 0xC004_0005 {
        Some("The operation cannot be done on a public group (OPC_E_PUBLIC)"@)
    } else if code == 0xC004_0006 {
        Some("The item's access rights do not allow the operation (OPC_E_BADRIGHTS)"@)
    } else if code == 0xC004_0007 {
        Some("Item ID not found in server address space (OPC_E_UNKNOWNITEMID)"@)
    } else if code == 0xC004_0008 {
        Some("Item ID does not conform to the server's syntax (OPC_E_INVALIDITEMID)"@)
    } else if code == 0xC004_0009 {
        Some("The filter string was not valid (OPC_E_INVALIDFILTER)"@)
    } else if code == 0xC004_000A {
        Some("The item's access path is not known to the server (OPC_E_UNKNOWNPATH)"@)
    } else if code == 0xC004_000B {
        Some("The value was out of range (OPC_E_RANGE)"@)
    } else if code == 0xC004_000C {
        Some("Duplicate name not allowed (OPC_E_DUPLICATENAME)"@)
    } else {
        None
    }
}

/// The text of an error variant: its description when the code is well known, and the
/// code in hexadecimal.
pub open spec fn spec_error_variant_text(code: u32) -> Seq<char> {
    match spec_status_hint(code) {
        Some(m) => "Error: "@ + m + " (0x"@ + spec_hex_digits(code as nat, 8) + ")"@,
        None => "Error (0x"@ + spec_hex_digits(code as nat, 8) + ")"@,
    }
}

/// The text of an unrecognized type tag.
pub open spec fn spec_other_text(vt: u16) -> Seq<char> {
    "(VT VARENUM("@ + spec_decimal(vt as nat) + "))"@
}

/// The text of a variant at nesting `depth`.
pub open spec fn spec_variant_text(v: VariantData, depth: int) -> Seq<char>
    decreases MAX_VARIANT_RECURSION_DEPTH - depth, 0int,
{
    if depth >= MAX_VARIANT_RECURSION_DEPTH {
        "<nested>"@
    } else {
        match v {
            VariantData::Empty => "Empty"@,
            VariantData::Null => "Null"@,
            VariantData::I2(x) => spec_signed_decimal(x as int),
            VariantData::I4(x) => spec_signed_decimal(x as int),
            VariantData::R4 { text, .. } => text@,
            VariantData::R8 { text, .. } => text@,
            VariantData::Cy(raw) => spec_currency_text(raw as int),
            VariantData::Date { text, .. } => text@,
            VariantData::Bstr(s) => "\""@ + s@ + "\""@,
            VariantData::Error(code) => spec_error_variant_text(code),
            VariantData::Bool(b) => if b { "true"@ } else { "false"@ },
            VariantData::I1(x) => spec_signed_decimal(x as int),
            VariantData::UI1(x) => spec_decimal(x as nat),
            VariantData::UI2(x) => spec_decimal(x as nat),
            VariantData::UI4(x) => spec_decimal(x as nat),
            VariantData::I8(x) => spec_signed_decimal(x as int),
            VariantData::UI8(x) => spec_decimal(x as nat),
            VariantData::Int(_) => spec_other_text(VT_INT),
            VariantData::UInt(_) => spec_other_text(VT_UINT),
            VariantData::UnreachableArray => "Array[?]"@,
            VariantData::Array { dims, count, elements } => {
                if dims == 0 {
                    "Array[0]"@
                } else if dims == 1 {
                    let shown = if elements@.len() < MAX_ARRAY_ELEMENTS_SHOWN {
                        elements@.len()
                    } else {
                        MAX_ARRAY_ELEMENTS_SHOWN as nat
                    };
                    "["@ + spec_join_elements(elements@, depth + 1, shown) + (if count > MAX_ARRAY_ELEMENTS_SHOWN {
                        ", ..."@
                    } else {
                        Seq::empty()
                    }) + "]"@
                } else {
                    "Array["@ + spec_decimal(dims as nat) + "D]"@
                }
            },
            VariantData::Other(vt) => spec_other_text(vt),
        }
    }
}

/// The texts of the first `n` of `elems` at nesting `depth`, separated by `", "`.
pub open spec fn spec_join_elements(elems: Seq<VariantData>, depth: int, n: nat) -> Seq<char>
    decreases MAX_VARIANT_RECURSION_DEPTH - depth, n,
{
    if n == 0 || n > elems.len() {
        Seq::empty()
    } else if n == 1 {
        spec_variant_text(elems[0], depth)
    } else {
        spec_join_elements(elems, depth, (n - 1) as nat) + ", "@ + spec_variant_text(elems[n - 1], depth)
    }
}

/// A signed integer in decimal.
pub fn i64_to_string(x: i64) -> (r: String)
    ensures
        r@ == spec_signed_decimal(x as int),
{
    if x < 0 {
        let mag: u64 = ((-(x + 1)) as u64) + 1;
        let d = u64_to_string(mag);
        concat_str("-", d.as_str())
    } else {
        u64_to_string(x as u64)
    }
}

/// The ASCII digit for a value below ten.
fn digit_char(d: u64) -> (c: char)
    requires
        d < 10,
    ensures
        c == spec_digit_char(d as nat),
{
    if d == 0 { '0' } else if d == 1 { '1' } else if d == 2 { '2' } else if d == 3 { '3' }
    else if d == 4 { '4' } else if d == 5 { '5' } else if d == 6 { '6' } else if d == 7 { '7' }
    else if d == 8 { '8' } else { '9' }
}

/// The last `k` decimal digits of `v`, zero padded.
fn decimal_digits(v: u64, k: usize) -> (r: String)
    ensures
        r@ == spec_decimal_digits(v as nat, k as nat),
    decreases k,
{
    if k == 0 {
        String::new()
    } else {
        let mut s = decimal_digits(v / 10, k - 1);
        string_push(&mut s, digit_char(v % 10));
        s
    }
}

/// The text of a currency amount scaled by 10 000.
pub fn currency_text(raw: i64) -> (r: String)
    ensures
        r@ == spec_currency_text(raw as int),
{
    let mag: u64 = if raw < 0 { ((-(raw + 1)) as u64) + 1 } else { raw as u64 };
    let whole = mag / 10000;
    let frac = mag % 10000;
    let w = u64_to_string(whole);
    let f = decimal_digits(frac, 4);
    let head = if raw < 0 && whole > 0 { concat_str("-", w.as_str()) } else { w };
    let a = head.concat(".");
    let r = a.concat(f.as_str());
    proof {
        reveal_strlit("-");
        assert(raw < 0 ==> mag == abs(raw as int));
    }
    r
}

/// The description of a well-known OPC status code.
pub fn status_hint(code: u32) -> (r: Option<String>)
    ensures
        (match r { Some(s) => Some(s@), None => None }) == spec_status_hint(code),
{
    if code == 0xC004_0001 {
        Some(String::from_str("The value of the handle is invalid (OPC_E_INVALIDHANDLE)"))
    } else if code == 0xC004_0004 {
        Some(String::from_str("The server cannot convert the data to the requested type (OPC_E_BADTYPE)"))
    } else if code == 0xC004_0005 {
        Some(String::from_str("The operation cannot be done on a public group (OPC_E_PUBLIC)"))
    } else if code == 0xC004_0006 {
        Some(String::from_str("The item's access rights do not allow the operation (OPC_E_BADRIGHTS)"))
    } else if code == 0xC004_0007 {
        Some(String::from_str("Item ID not found in server address space (OPC_E_UNKNOWNITEMID)"))
    } else if code == 0xC004_0008 {
        Some(String::from_str("Item ID does not conform to the server's syntax (OPC_E_INVALIDITEMID)"))
    } else if code == 0xC004_0009 {
        Some(String::from_str("The filter string was not valid (OPC_E_INVALIDFILTER)"))
    } else if code == 0xC004_000A {
        Some(String::from_str("The item's access path is not known to the server (OPC_E_UNKNOWNPATH)"))
    } else if code == 0xC004_000B {
        Some(String::from_str("The value was out of range (OPC_E_RANGE)"))
    } else if code == 0xC004_000C {
        Some(String::from_str("Duplicate name not allowed (OPC_E_DUPLICATENAME)"))
    } else {
        None
    }
}

/// The text of an error variant.
pub fn error_variant_text(code: u32) -> (r: String)
    ensures
        r@ == spec_error_variant_text(code),
{
    let hex = hex8(code);
    match status_hint(code) {
        Some(m) => {
            let a = concat_str("Error: ", m.as_str());
            let b = a.concat(" (0x");
            let c = b.concat(hex.as_str());
            c.concat(")")
        },
        None => {
            let a = concat_str("Error (0x", hex.as_str());
            a.concat(")")
        },
    }
}

/// The text of an unrecognized type tag.
pub fn other_text(vt: u16) -> (r: String)
    ensures
        r@ == spec_other_text(vt),
{
    let d = u64_to_string(vt as u64);
    let a = concat_str("(VT VARENUM(", d.as_str());
    a.concat("))")
}

/// A signed numeral in canonical form: a canonical decimal numeral, or `-` followed by a
/// canonical numeral other than `0`.
pub open spec fn is_signed_numeral(s: Seq<char>) -> bool {
    if s.len() > 0 && s[0] == '-' {
        is_decimal_numeral(s.drop_first()) && s.drop_first() != seq!['0']
    } else {
        is_decimal_numeral(s)
    }
}

/// The signed decimal text of `x` is a canonical signed numeral that reads back as `x`.
pub proof fn lemma_signed_decimal_reads_back(x: int)
    ensures
        is_signed_numeral(spec_signed_decimal(x)),
        signed_value(spec_signed_decimal(x)) == x,
{
    reveal_strlit("-");
    if x < 0 {
        lemma_decimal_reads_back((-x) as nat);
        let d = spec_decimal((-x) as nat);
        let t = "-"@ + d;
        assert(t.drop_first() =~= d);
        assert(t[0] == '-');
        if d == seq!['0'] {
            assert(d.drop_last() =~= Seq::<char>::empty());
            assert(digits_value(d) == digits_value(d.drop_last()) * 10 + (d.last() as int - '0' as int));
        }
    } else {
        lemma_decimal_reads_back(x as nat);
        let d = spec_decimal(x as nat);
        assert('0' <= d[0] && d[0] <= '9');
    }
}

/// A whole-number variant shows as the canonical decimal numeral of its whole value:
/// unsigned kinds as digits that read back as the value, signed kinds likewise with a
/// leading `-` for a negative value.
pub proof fn law_integer_variant_text(v: VariantData)
    ensures
        v matches VariantData::UI1(x) ==> is_decimal_numeral(spec_variant_text(v, 0)) && digits_value(
            spec_variant_text(v, 0),
        ) == x as int,
        v matches VariantData::UI2(x) ==> is_decimal_numeral(spec_variant_text(v, 0)) && digits_value(
            spec_variant_text(v, 0),
        ) == x as int,
        v matches VariantData::UI4(x) ==> is_decimal_numeral(spec_variant_text(v, 0)) && digits_value(
            spec_variant_text(v, 0),
        ) == x as int,
        v matches VariantData::UI8(x) ==> is_decimal_numeral(spec_variant_text(v, 0)) && digits_value(
            spec_variant_text(v, 0),
        ) == x as int,
        v matches VariantData::I1(x) ==> is_signed_numeral(spec_variant_text(v, 0)) && signed_value(
            spec_variant_text(v, 0),
        ) == x as int,
        v matches VariantData::I2(x) ==> is_signed_numeral(spec_variant_text(v, 0)) && signed_value(
            spec_variant_text(v, 0),
        ) == x as int,
        v matches VariantData::I4(x) ==> is_signed_numeral(spec_variant_text(v, 0)) && signed_value(
            spec_variant_text(v, 0),
        ) == x as int,
        v matches VariantData::I8(x) ==> is_signed_numeral(spec_variant_text(v, 0)) && signed_value(
            spec_variant_text(v, 0),
        ) == x as int,
{
    match v {
        VariantData::UI1(x) => lemma_decimal_reads_back(x as nat),
        VariantData::UI2(x) => lemma_decimal_reads_back(x as nat),
        VariantData::UI4(x) => lemma_decimal_reads_back(x as nat),
        VariantData::UI8(x) => lemma_decimal_reads_back(x as nat),
        VariantData::I1(x) => lemma_signed_decimal_reads_back(x as int),
        VariantData::I2(x) => lemma_signed_decimal_reads_back(x as int),
        VariantData::I4(x) => lemma_signed_decimal_reads_back(x as int),
        VariantData::I8(x) => lemma_signed_decimal_reads_back(x as int),
        _ => {},
    }
}

/// The text a variant is displayed as.
pub fn variant_to_string(v: &VariantData) -> (r: String)
    ensures
        r@ == spec_variant_text(*v, 0),
{
    variant_to_string_bounded(v, 0)
}

/// The text of a variant at nesting `depth`: scalars in their natural form, strings
/// quoted, currency with four decimals, error codes with their description, a
/// one-dimensional array as its first elements in brackets (with `, ...` when some are
/// not shown), other arrays by their shape, and anything nested too deeply as
/// `<nested>`.
pub fn variant_to_string_bounded(v: &VariantData, depth: usize) -> (r: String)
    ensures
        r@ == spec_variant_text(*v, depth as int),
    decreases MAX_VARIANT_RECURSION_DEPTH - depth,
{
    if depth >= MAX_VARIANT_RECURSION_DEPTH {
        return String::from_str("<nested>");
    }
    match v {
        VariantData::Empty => String::from_str("Empty"),
        VariantData::Null => String::from_str("Null"),
        VariantData::I2(x) => i64_to_string(*x as i64),
        VariantData::I4(x) => i64_to_string(*x as i64),
        VariantData::R4 { text, .. } => text.clone(),
        VariantData::R8 { text, .. } => text.clone(),
        VariantData::Cy(raw) => currency_text(*raw),
        VariantData::Date { text, .. } => text.clone(),
        VariantData::Bstr(s) => {
            let a = concat_str("\"", s.as_str());
            a.concat("\"")
        },
        VariantData::Error(code) => error_variant_text(*code),
        VariantData::Bool(b) => if *b { String::from_str("true") } else { String::from_str("false") },
        VariantData::I1(x) => i64_to_string(*x as i64),
        VariantData::UI1(x) => u64_to_string(*x as u64),
        VariantData::UI2(x) => u64_to_string(*x as u64),
        VariantData::UI4(x) => u64_to_string(*x as u64),
        VariantData::I8(x) => i64_to_string(*x),
        VariantData::UI8(x) => u64_to_string(*x),
        VariantData::Int(_) => other_text(VT_INT),
        VariantData::UInt(_) => other_text(VT_UINT),
        VariantData::UnreachableArray => String::from_str("Array[?]"),
        VariantData::Array { dims, count, elements } => {
            if *dims == 0 {
                String::from_str("Array[0]")
            } else if *dims == 1 {
                let shown: usize = if elements.len() < MAX_ARRAY_ELEMENTS_SHOWN {
                    elements.len()
                } else {
                    MAX_ARRAY_ELEMENTS_SHOWN
                };
                let mut body = String::new();
                let mut i: usize = 0;
                while i < shown
                    invariant
                        depth < MAX_VARIANT_RECURSION_DEPTH,
                        shown <= elements@.len(),
                        i <= shown,
                        body@ == spec_join_elements(elements@, depth + 1, i as nat),
                    decreases shown - i,
                {
                    let t = variant_to_string_bounded(&elements[i], depth + 1);
                    if i > 0 {
                        body = body.concat(", ");
                    }
                    body = body.concat(t.as_str());
                    proof {
                        assert(body@ == spec_join_elements(elements@, depth + 1, (i + 1) as nat));
                    }
                    i = i + 1;
                }
                let a = concat_str("[", body.as_str());
                let b = if *count > MAX_ARRAY_ELEMENTS_SHOWN as u64 { a.concat(", ...") } else { a };
                proof {
                    reveal_strlit("");
                }
                b.concat("]")
            } else {
                let d = u64_to_string(*dims as u64);
                let a = concat_str("Array[", d.as_str());
                a.concat("D]")
            }
        },
        VariantData::Other(vt) => other_text(*vt),
    }
}

/// The value a variant reads as.
pub open spec fn spec_variant_to_value(v: VariantData) -> OpcValueView {
    match v {
        VariantData::Empty => OpcValueOf::Empty,
        VariantData::Null => OpcValueOf::Null,
        VariantData::I1(x) => OpcValueOf::Int(x as i64),
        VariantData::UI1(x) => OpcValueOf::UInt(x as u64),
        VariantData::I2(x) => OpcValueOf::Int(x as i64),
        VariantData::UI2(x) => OpcValueOf::UInt(x as u64),
        VariantData::I4(x) => OpcValueOf::Int(x as i64),
        VariantData::UI4(x) => OpcValueOf::UInt(x as u64),
        VariantData::I8(x) => OpcValueOf::Int(x),
        VariantData::UI8(x) => OpcValueOf::UInt(x),
        VariantData::Int(x) => OpcValueOf::Int(x as i64),
        VariantData::UInt(x) => OpcValueOf::UInt(x as u64),
        VariantData::R4 { wide_bits, .. } => OpcValueOf::Float(wide_bits),
        VariantData::R8 { bits, .. } => OpcValueOf::Float(bits),
        VariantData::Bool(b) => OpcValueOf::Bool(b),
        VariantData::Bstr(s) => OpcValueOf::String(s@),
        _ => OpcValueOf::String(spec_variant_text(v, 0)),
    }
}

/// A variant holding a number, a flag or text reads as the same thing: each signed
/// integer kind as a signed integer and each unsigned kind as an unsigned one, with the
/// same mathematical value; a boolean as that boolean; a double by its bit pattern; a
/// string as that string.
pub proof fn law_variant_value_kept(v: VariantData)
    ensures
        v matches VariantData::I1(x) ==> (spec_variant_to_value(v) matches OpcValueOf::Int(y) && y as int == x as int),
        v matches VariantData::I2(x) ==> (spec_variant_to_value(v) matches OpcValueOf::Int(y) && y as int == x as int),
        v matches VariantData::I4(x) ==> (spec_variant_to_value(v) matches OpcValueOf::Int(y) && y as int == x as int),
        v matches VariantData::I8(x) ==> (spec_variant_to_value(v) matches OpcValueOf::Int(y) && y as int == x as int),
        v matches VariantData::Int(x) ==> (spec_variant_to_value(v) matches OpcValueOf::Int(y) && y as int == x as int),
        v matches VariantData::UI1(x) ==> (spec_variant_to_value(v) matches OpcValueOf::UInt(y) && y as int == x as int),
        v matches VariantData::UI2(x) ==> (spec_variant_to_value(v) matches OpcValueOf::UInt(y) && y as int == x as int),
        v matches VariantData::UI4(x) ==> (spec_variant_to_value(v) matches OpcValueOf::UInt(y) && y as int == x as int),
        v matches VariantData::UI8(x) ==> (spec_variant_to_value(v) matches OpcValueOf::UInt(y) && y as int == x as int),
        v matches VariantData::UInt(x) ==> (spec_variant_to_value(v) matches OpcValueOf::UInt(y) && y as int == x as int),
        v matches VariantData::Bool(b) ==> spec_variant_to_value(v) == OpcValueOf::<Seq<char>>::Bool(b),
        v matches VariantData::R8 { bits, .. } ==> spec_variant_to_value(v) == OpcValueOf::<Seq<char>>::Float(bits),
        v matches VariantData::Bstr(t) ==> spec_variant_to_value(v) == OpcValueOf::<Seq<char>>::String(t@),
{
}

/// Converts a variant into a value: integers by signedness, floats widened to `f64`,
/// booleans, strings and the empty and null markers as such, anything else as its
/// display text.
pub fn variant_to_opc_value(v: &VariantData) -> (r: OpcValue)
    ensures
        r@ == spec_variant_to_value(*v),
{
    match v {
        VariantData::Empty => OpcValueOf::Empty,
        VariantData::Null => OpcValueOf::Null,
        VariantData::I1(x) => OpcValueOf::Int(*x as i64),
        VariantData::UI1(x) => OpcValueOf::UInt(*x as u64),
        VariantData::I2(x) => OpcValueOf::Int(*x as i64),
        VariantData::UI2(x) => OpcValueOf::UInt(*x as u64),
        VariantData::I4(x) => OpcValueOf::Int(*x as i64),
        VariantData::UI4(x) => OpcValueOf::UInt(*x as u64),
        VariantData::I8(x) => OpcValueOf::Int(*x),
        VariantData::UI8(x) => OpcValueOf::UInt(*x),
        VariantData::Int(x) => OpcValueOf::Int(*x as i64),
        VariantData::UInt(x) => OpcValueOf::UInt(*x as u64),
        VariantData::R4 { wide_bits, .. } => OpcValueOf::Float(*wide_bits),
        VariantData::R8 { bits, .. } => OpcValueOf::Float(*bits),
        VariantData::Bool(b) => OpcValueOf::Bool(*b),
        VariantData::Bstr(s) => OpcValueOf::String(s.clone()),
        _ => OpcValueOf::String(variant_to_string(v)),
    }
}

/// What a value is written as: integers in 32 bits when they fit and in 64 bits
/// otherwise, floats as doubles, booleans as variant booleans (`-1` for true), strings,
/// and the empty and null markers.
pub open spec fn spec_value_to_variant(value: OpcValueView) -> WriteVariantView {
    match value {
        OpcValueOf::Int(i) => if i32::MIN <= i <= i32::MAX {
            WriteVariantOf::I4(i as i32)
        } else {
            WriteVariantOf::I8(i)
        },
        OpcValueOf::UInt(u) => if u <= u32::MAX { WriteVariantOf::UI4(u as u32) } else { WriteVariantOf::UI8(u) },
        OpcValueOf::Float(b) => WriteVariantOf::R8(b),
        OpcValueOf::Bool(b) => WriteVariantOf::Bool(if b { -1i16 } else { 0i16 }),
        OpcValueOf::String(s) => WriteVariantOf::Bstr(s),
        OpcValueOf::Empty => WriteVariantOf::Empty,
        OpcValueOf::Null => WriteVariantOf::Null,
    }
}

/// Converts a value into what is written for it.
pub fn opc_value_to_variant(value: &OpcValue) -> (r: WriteVariant)
    ensures
        r@ == spec_value_to_variant(value@),
{
    match value {
        OpcValueOf::String(s) => WriteVariantOf::Bstr(s.clone()),
        OpcValueOf::Int(i) => {
            if -2147483648 <= *i && *i <= 2147483647 {
                WriteVariantOf::I4(*i as i32)
            } else {
                WriteVariantOf::I8(*i)
            }
        },
        OpcValueOf::UInt(u) => {
            if *u <= 4294967295 {
                WriteVariantOf::UI4(*u as u32)
            } else {
                WriteVariantOf::UI8(*u)
            }
        },
        OpcValueOf::Float(b) => WriteVariantOf::R8(*b),
        OpcValueOf::Bool(b) => WriteVariantOf::Bool(if *b { -1 } else { 0 }),
        OpcValueOf::Empty => WriteVariantOf::Empty,
        OpcValueOf::Null => WriteVariantOf::Null,
    }
}

/// `read` is what reading back a variant written as `written` gives: the same type tag
/// with the same payload.
pub open spec fn reads_back(written: WriteVariantView, read: VariantData) -> bool {
    match written {
        WriteVariantOf::Bstr(s) => read matches VariantData::Bstr(t) && t@ == s,
        WriteVariantOf::I4(x) => read matches VariantData::I4(y) && y == x,
        WriteVariantOf::I8(x) => read matches VariantData::I8(y) && y == x,
        WriteVariantOf::UI4(x) => read matches VariantData::UI4(y) && y == x,
        WriteVariantOf::UI8(x) => read matches VariantData::UI8(y) && y == x,
        WriteVariantOf::R8(b) => read matches VariantData::R8 { bits, .. } && bits == b,
        WriteVariantOf::Bool(x) => read matches VariantData::Bool(y) && y == (x != 0),
        WriteVariantOf::Empty => read is Empty,
        WriteVariantOf::Null => read is Null,
    }
}

/// A value written into a variant reads back as the same value.
pub proof fn lemma_value_round_trip(value: OpcValueView, read: VariantData)
    requires
        reads_back(spec_value_to_variant(value), read),
    ensures
        spec_variant_to_value(read) == value,
{
}

} // verus!
