use opc_da_client::types::OpcValueOf;
use opc_da_client::variant::{
    currency_text, i64_to_string, opc_value_to_variant, variant_to_opc_value, variant_to_string,
    variant_to_string_bounded, VariantData, WriteVariant, WriteVariantOf,
};

/// What a host reading back a written variant decodes it into.
fn read_back(w: WriteVariant) -> VariantData {
    match w {
        WriteVariantOf::Bstr(s) => VariantData::Bstr(s),
        WriteVariantOf::I4(x) => VariantData::I4(x),
        WriteVariantOf::I8(x) => VariantData::I8(x),
        WriteVariantOf::UI4(x) => VariantData::UI4(x),
        WriteVariantOf::UI8(x) => VariantData::UI8(x),
        WriteVariantOf::R8(b) => VariantData::R8 { bits: b, text: format!("{:.2}", f64::from_bits(b)) },
        WriteVariantOf::Bool(x) => VariantData::Bool(x != 0),
        WriteVariantOf::Empty => VariantData::Empty,
        WriteVariantOf::Null => VariantData::Null,
    }
}

fn r4(v: f32) -> VariantData {
    VariantData::R4 { bits: v.to_bits(), wide_bits: f64::from(v).to_bits(), text: format!("{v:.2}") }
}

#[test]
fn test_opc_value_to_variant_int() {
    let v = opc_value_to_variant(&OpcValueOf::Int(42));
    assert_eq!(v, WriteVariantOf::I4(42));
}

#[test]
fn test_opc_value_to_variant_float() {
    let v = opc_value_to_variant(&OpcValueOf::Float(3.5f64.to_bits()));
    match v {
        WriteVariantOf::R8(b) => assert!((f64::from_bits(b) - 3.5).abs() < f64::EPSILON),
        other => panic!("expected R8, got {other:?}"),
    }
}

#[test]
fn test_opc_value_to_variant_bool_true() {
    assert_eq!(opc_value_to_variant(&OpcValueOf::Bool(true)), WriteVariantOf::Bool(-1));
}

#[test]
fn test_opc_value_to_variant_bool_false() {
    assert_eq!(opc_value_to_variant(&OpcValueOf::Bool(false)), WriteVariantOf::Bool(0));
}

#[test]
fn test_opc_value_to_variant_string() {
    let v = opc_value_to_variant(&OpcValueOf::String("hello".into()));
    assert_eq!(v, WriteVariantOf::Bstr("hello".to_string()));
}

#[test]
fn integers_use_32_bits_when_they_fit() {
    assert_eq!(opc_value_to_variant(&OpcValueOf::Int(i64::from(i32::MIN))), WriteVariantOf::I4(i32::MIN));
    assert_eq!(opc_value_to_variant(&OpcValueOf::Int(i64::from(i32::MAX) + 1)), WriteVariantOf::I8(2_147_483_648));
    assert_eq!(opc_value_to_variant(&OpcValueOf::UInt(4_294_967_295)), WriteVariantOf::UI4(u32::MAX));
    assert_eq!(opc_value_to_variant(&OpcValueOf::UInt(4_294_967_296)), WriteVariantOf::UI8(4_294_967_296));
    assert_eq!(opc_value_to_variant(&OpcValueOf::Empty), WriteVariantOf::Empty);
    assert_eq!(opc_value_to_variant(&OpcValueOf::Null), WriteVariantOf::Null);
}

#[test]
fn test_variant_roundtrip() {
    let v = read_back(opc_value_to_variant(&OpcValueOf::Int(99)));
    assert_eq!(variant_to_string(&v), "99");

    let v = read_back(opc_value_to_variant(&OpcValueOf::Float(3.5f64.to_bits())));
    assert_eq!(variant_to_string(&v), "3.50");

    let v = read_back(opc_value_to_variant(&OpcValueOf::Bool(true)));
    assert_eq!(variant_to_string(&v), "true");

    let v = read_back(opc_value_to_variant(&OpcValueOf::Bool(false)));
    assert_eq!(variant_to_string(&v), "false");

    let v = read_back(opc_value_to_variant(&OpcValueOf::String("world".into())));
    assert_eq!(variant_to_string(&v), "\"world\"");

    let v = read_back(opc_value_to_variant(&OpcValueOf::Empty));
    assert_eq!(variant_to_opc_value(&v), OpcValueOf::Empty);

    let v = read_back(opc_value_to_variant(&OpcValueOf::Null));
    assert_eq!(variant_to_opc_value(&v), OpcValueOf::Null);
}

#[test]
fn written_values_read_back_unchanged() {
    let values = vec![
        OpcValueOf::Int(-7),
        OpcValueOf::Int(i64::MAX),
        OpcValueOf::UInt(18_446_744_073_709_551_610),
        OpcValueOf::UInt(5),
        OpcValueOf::Float(2.25f64.to_bits()),
        OpcValueOf::Bool(true),
        OpcValueOf::String("x".to_string()),
        OpcValueOf::Empty,
        OpcValueOf::Null,
    ];
    for v in values {
        let back = variant_to_opc_value(&read_back(opc_value_to_variant(&v)));
        assert_eq!(back, v);
    }
}

#[test]
fn test_variant_to_string_cy() {
    assert_eq!(variant_to_string(&VariantData::Cy(123_456_789)), "12345.6789");
    assert_eq!(variant_to_string(&VariantData::Cy(-500_001)), "-50.0001");
}

#[test]
fn currency_edge_cases() {
    assert_eq!(currency_text(0), "0.0000");
    assert_eq!(currency_text(-5), "0.0005");
    assert_eq!(currency_text(10_000), "1.0000");
    assert_eq!(currency_text(i64::MIN), "-922337203685477.5808");
    assert_eq!(currency_text(i64::MAX), "922337203685477.5807");
}

#[test]
fn signed_decimal_edges() {
    assert_eq!(i64_to_string(i64::MIN), "-9223372036854775808");
    assert_eq!(i64_to_string(-1), "-1");
    assert_eq!(i64_to_string(0), "0");
}

#[test]
fn test_variant_to_string_empty() {
    assert_eq!(variant_to_string(&VariantData::Empty), "Empty");
}

#[test]
fn test_variant_to_string_null() {
    assert_eq!(variant_to_string(&VariantData::Null), "Null");
}

#[test]
fn test_variant_to_string_i2_and_r4() {
    assert_eq!(variant_to_string(&VariantData::I2(-42)), "-42");
    assert_eq!(variant_to_string(&r4(1.5)), "1.50");
}

#[test]
fn test_variant_to_string_unknown_vt() {
    let result = variant_to_string(&VariantData::Other(999));
    assert!(result.starts_with("(VT "), "Expected '(VT ...)' but got: {result}");
    assert_eq!(result, "(VT VARENUM(999))");
}

#[test]
fn test_variant_to_string_safearray_i4() {
    let v = VariantData::Array {
        dims: 1,
        count: 3,
        elements: vec![VariantData::I4(10), VariantData::I4(20), VariantData::I4(30)],
    };
    assert_eq!(variant_to_string(&v), "[10, 20, 30]");
}

#[test]
fn arrays_elide_beyond_twenty_and_show_shape_otherwise() {
    let elements: Vec<VariantData> = (0..20).map(VariantData::I4).collect();
    let v = VariantData::Array { dims: 1, count: 25, elements };
    let expected = format!(
        "[{}, ...]",
        (0..20).map(|i| i.to_string()).collect::<Vec<_>>().join(", ")
    );
    assert_eq!(variant_to_string(&v), expected);

    assert_eq!(variant_to_string(&VariantData::Array { dims: 0, count: 0, elements: vec![] }), "Array[0]");
    assert_eq!(variant_to_string(&VariantData::Array { dims: 3, count: 0, elements: vec![] }), "Array[3D]");
    assert_eq!(variant_to_string(&VariantData::UnreachableArray), "Array[?]");
    assert_eq!(variant_to_string(&VariantData::Array { dims: 1, count: 0, elements: vec![] }), "[]");
}

#[test]
fn nesting_is_bounded() {
    let mut v = VariantData::Bstr("deep".to_string());
    for _ in 0..9 {
        v = VariantData::Array { dims: 1, count: 1, elements: vec![v] };
    }
    assert_eq!(variant_to_string(&v), "[[[[[[[[<nested>]]]]]]]]");
    assert_eq!(variant_to_string_bounded(&VariantData::I4(1), 8), "<nested>");
}

#[test]
fn test_variant_to_string_vt_error_known() {
    assert_eq!(
        variant_to_string(&VariantData::Error(0xC004_0007)),
        "Error: Item ID not found in server address space (OPC_E_UNKNOWNITEMID) (0xC0040007)"
    );
}

#[test]
fn test_variant_to_string_vt_error_unknown() {
    assert_eq!(variant_to_string(&VariantData::Error(0xDEAD_BEEF)), "Error (0xDEADBEEF)");
}

#[test]
fn scalar_texts_and_values() {
    assert_eq!(variant_to_string(&VariantData::I1(-5)), "-5");
    assert_eq!(variant_to_string(&VariantData::UI1(200)), "200");
    assert_eq!(variant_to_string(&VariantData::UI8(u64::MAX)), "18446744073709551615");
    assert_eq!(variant_to_string(&VariantData::Int(3)), "(VT VARENUM(22))");
    assert_eq!(variant_to_opc_value(&VariantData::Int(3)), OpcValueOf::Int(3));
    assert_eq!(variant_to_opc_value(&VariantData::UInt(3)), OpcValueOf::UInt(3));
    assert_eq!(variant_to_opc_value(&VariantData::I1(-5)), OpcValueOf::Int(-5));
    assert_eq!(variant_to_opc_value(&r4(1.5)), OpcValueOf::Float(1.5f64.to_bits()));
    assert_eq!(
        variant_to_opc_value(&VariantData::Cy(10_000)),
        OpcValueOf::String("1.0000".to_string())
    );
    assert_eq!(
        variant_to_opc_value(&VariantData::Date { bits: 0, text: "1899-12-30 00:00:00".to_string() }),
        OpcValueOf::String("1899-12-30 00:00:00".to_string())
    );
}
