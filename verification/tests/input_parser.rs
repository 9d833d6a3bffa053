use hir_index::field_element::FieldElement;
use hir_index::input_parser::{parse_str_to_field, parse_str_to_signed, AbiType, Format, InputValue, Sign};
use num_bigint::BigUint;

fn big_uint_from_field(field: &FieldElement) -> BigUint {
    BigUint::from_bytes_be(&field.to_be_bytes())
}

fn field_from_u128(v: u128) -> FieldElement {
    let bytes: Vec<u8> = v.to_be_bytes().to_vec();
    FieldElement::from_be_bytes(&bytes).expect("small values lie below the modulus")
}

#[test]
fn parse_empty_str_fails() {
    // Check that this fails appropriately rather than being treated as 0, etc.
    assert!(parse_str_to_field("").is_err());
}

#[test]
fn parse_fields_from_strings() {
    let modulus = FieldElement::modulus_be_bytes();
    let mut max_bytes = modulus.clone();
    // The modulus ends in one, so its predecessor just drops that one.
    let last = max_bytes.len() - 1;
    max_bytes[last] = 0;
    let max_field = FieldElement::from_be_bytes(&max_bytes).unwrap();

    let mut two_pow_128 = vec![0u8; 17];
    two_pow_128[0] = 1;
    let two_pow_128_field = FieldElement::from_be_bytes(&two_pow_128).unwrap();

    let fields = vec![
        FieldElement::zero(),
        FieldElement::one(),
        two_pow_128_field,
        max_field,
    ];

    for field in fields {
        let hex_field = format!("0x{}", field.to_hex());
        let field_from_hex = parse_str_to_field(&hex_field).unwrap();
        assert_eq!(field_from_hex, field);

        let dec_field = big_uint_from_field(&field).to_string();
        let field_from_dec = parse_str_to_field(&dec_field).unwrap();
        assert_eq!(field_from_dec, field);
    }
}

#[test]
fn rejects_noncanonical_fields() {
    let modulus = BigUint::from_bytes_be(&FieldElement::modulus_be_bytes());
    let noncanonical_field = modulus.to_string();
    assert!(parse_str_to_field(&noncanonical_field).is_err());
}

#[test]
fn parses_small_decimal_and_hex_values() {
    assert_eq!(parse_str_to_field("255").unwrap(), field_from_u128(255));
    assert_eq!(parse_str_to_field("0xff").unwrap(), field_from_u128(255));
    assert_eq!(parse_str_to_field("0").unwrap(), FieldElement::zero());
    assert!(parse_str_to_field("0x").is_err());
    assert!(parse_str_to_field("12abc").is_err());
}

#[test]
fn parses_signed_values_as_twos_complement() {
    // -1 at width 8 is 255.
    assert_eq!(parse_str_to_signed("-1", 8).unwrap(), field_from_u128(255));
    // -128 at width 8 is 128.
    assert_eq!(parse_str_to_signed("-128", 8).unwrap(), field_from_u128(128));
    // Positive values pass through unchanged.
    assert_eq!(parse_str_to_signed("7", 8).unwrap(), field_from_u128(7));
    // A magnitude beyond the width is rejected.
    assert!(parse_str_to_signed("-257", 8).is_err());
    // Any width is accepted; a two's complement value at or above the
    // field modulus is rejected, not wrapped.
    assert!(parse_str_to_signed("-1", 70000).is_err());
}

#[test]
fn format_extensions() {
    assert_eq!(Format::Json.ext(), "json");
    assert_eq!(Format::Toml.ext(), "toml");
}

#[test]
fn num_bits_counts_significant_bits() {
    assert_eq!(FieldElement::zero().num_bits(), 0);
    assert_eq!(FieldElement::one().num_bits(), 1);
    assert_eq!(field_from_u128(255).num_bits(), 8);
    assert_eq!(field_from_u128(256).num_bits(), 9);
}

#[test]
fn values_match_their_abi_types() {
    let field_val = InputValue::Field(field_from_u128(255));
    assert!(field_val.matches_abi(&AbiType::Field));
    assert!(field_val.matches_abi(&AbiType::Integer { sign: Sign::Unsigned, width: 8 }));
    assert!(!field_val.matches_abi(&AbiType::Integer { sign: Sign::Unsigned, width: 7 }));
    assert!(!field_val.matches_abi(&AbiType::Boolean));

    assert!(InputValue::Field(FieldElement::one()).matches_abi(&AbiType::Boolean));
    assert!(InputValue::Field(FieldElement::zero()).matches_abi(&AbiType::Boolean));

    let arr = InputValue::Vec(vec![
        InputValue::Field(FieldElement::one()),
        InputValue::Field(FieldElement::zero()),
    ]);
    let bool_pair = AbiType::Array { length: 2, typ: Box::new(AbiType::Boolean) };
    assert!(arr.matches_abi(&bool_pair));
    let bool_triple = AbiType::Array { length: 3, typ: Box::new(AbiType::Boolean) };
    assert!(!arr.matches_abi(&bool_triple));

    let hello = InputValue::String("hello".to_string());
    assert!(hello.matches_abi(&AbiType::String { length: 5 }));
    assert!(!hello.matches_abi(&AbiType::String { length: 4 }));

    // The declared string length counts UTF-8 bytes: one two-byte
    // character fills a length-2 string, not a length-1 one.
    let two_byte_char = String::from_utf8(vec![0xc3, 0xa9]).unwrap();
    assert_eq!(two_byte_char.chars().count(), 1);
    let accented = InputValue::String(two_byte_char);
    assert!(accented.matches_abi(&AbiType::String { length: 2 }));
    assert!(!accented.matches_abi(&AbiType::String { length: 1 }));

    let my_struct = InputValue::Struct(vec![
        ("field1".to_string(), InputValue::Field(field_from_u128(255))),
        ("field2".to_string(), arr),
    ]);
    let struct_type = AbiType::Struct {
        path: "MyStruct".to_string(),
        fields: vec![
            ("field1".to_string(), AbiType::Integer { sign: Sign::Unsigned, width: 8 }),
            ("field2".to_string(), AbiType::Array { length: 2, typ: Box::new(AbiType::Boolean) }),
        ],
    };
    assert!(my_struct.matches_abi(&struct_type));

    let missing_field = InputValue::Struct(vec![
        ("field1".to_string(), InputValue::Field(field_from_u128(255))),
        ("wrong".to_string(), InputValue::Field(FieldElement::zero())),
    ]);
    assert!(!missing_field.matches_abi(&struct_type));

    let tuple = InputValue::Vec(vec![
        InputValue::Field(FieldElement::one()),
        InputValue::String("ab".to_string()),
    ]);
    let tuple_type = AbiType::Tuple {
        fields: vec![AbiType::Field, AbiType::String { length: 2 }],
    };
    assert!(tuple.matches_abi(&tuple_type));
    assert!(!tuple.matches_abi(&AbiType::Tuple { fields: vec![AbiType::Field] }));
}

#[test]
fn duplicate_struct_field_names_keep_the_last_type() {
    // Two declared fields under one name act as a map that keeps the last
    // entry: a plain field value matches the later Field type even though
    // the earlier entry under the same name is Boolean.
    let dup_type = AbiType::Struct {
        path: "Dup".to_string(),
        fields: vec![
            ("a".to_string(), AbiType::Boolean),
            ("a".to_string(), AbiType::Field),
        ],
    };
    let value = InputValue::Struct(vec![
        ("a".to_string(), InputValue::Field(field_from_u128(255))),
        ("a".to_string(), InputValue::Field(field_from_u128(300))),
    ]);
    assert!(value.matches_abi(&dup_type));
}

#[test]
fn hex_form_round_trips() {
    let f = field_from_u128(0xdeadbeef);
    let hex = f.to_hex();
    assert_eq!(hex.len(), 64);
    assert!(hex.ends_with("deadbeef"));
    let round = parse_str_to_field(&format!("0x{}", hex)).unwrap();
    assert_eq!(round, f);
}
