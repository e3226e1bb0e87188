//! Tests for the structural value decoder.

use p4runtime_client::utils::de::{
    clone_value, decode, decode_batch, parse_bool, parse_bytes, parse_i16, parse_i32, parse_i64,
    parse_i8, parse_u16, parse_u32, parse_u64, parse_u8, Decoded, DeserializeP4DataError, Schema,
    TypedValue,
};

#[test]
fn deserialize_struct() {
    let value = TypedValue::Record(vec![
        TypedValue::Bitstring(vec![0, 0, 0, 0, 0, 0, 0, 1]),
        TypedValue::Bitstring(vec![0, 1]),
        TypedValue::Bitstring(vec![0, 0, 0, 0, 0, 0, 0, 2]),
    ]);
    let schema = Schema::Record(vec![Schema::U64, Schema::U16, Schema::U64]);

    let result = decode(&value, &schema).unwrap();
    match result {
        Decoded::Record(fields) => {
            assert_eq!(fields[0], Decoded::U64(1));
            assert_eq!(fields[1], Decoded::U16(1));
            assert_eq!(fields[2], Decoded::U64(2));
        }
        other => panic!("expected a record, got {:?}", other),
    }
}

#[test]
fn record_members_feed_fields_positionally() {
    // Names play no part: the members feed dst, port, src in member order.
    let value = TypedValue::Record(vec![
        TypedValue::Bitstring(vec![0, 0, 0, 0, 0, 0, 0, 1]),
        TypedValue::Bitstring(vec![0, 1]),
        TypedValue::Bitstring(vec![0, 0, 0, 0, 0, 0, 0, 2]),
    ]);
    let schema = Schema::Record(vec![Schema::U64, Schema::U16, Schema::U64]);
    let dst: u64 = 1;
    let port: u16 = 1;
    let src: u64 = 2;
    assert_eq!(
        decode(&value, &schema),
        Ok(Decoded::Record(vec![
            Decoded::U64(dst),
            Decoded::U16(port),
            Decoded::U64(src),
        ]))
    );
}

#[test]
fn short_source_is_right_aligned() {
    // A single byte 0x01 as a 4-byte unsigned integer is 1, not 0x01000000.
    assert_eq!(parse_u32(&TypedValue::Bitstring(vec![0x01])), Ok(1));
    assert_eq!(parse_u16(&TypedValue::Bitstring(vec![0x30, 0x64])), Ok(12388));
    assert_eq!(parse_u64(&TypedValue::Bitstring(vec![0x01, 0x00])), Ok(256));
    assert_eq!(parse_u32(&TypedValue::Bitstring(vec![])), Ok(0));
    assert_eq!(parse_u8(&TypedValue::Bitstring(vec![])), Ok(0));
    assert_eq!(
        parse_u64(&TypedValue::Bitstring(vec![0xff, 0xff, 0xff, 0xff, 0xff, 0xff, 0xff, 0xff])),
        Ok(u64::MAX)
    );
}

#[test]
fn overlong_source_fails_with_expected_int() {
    assert_eq!(
        parse_u8(&TypedValue::Bitstring(vec![0, 1])),
        Err(DeserializeP4DataError::ExpectedU8)
    );
    assert_eq!(
        parse_u16(&TypedValue::Bitstring(vec![0, 0, 1])),
        Err(DeserializeP4DataError::ExpectedU16)
    );
    assert_eq!(
        parse_u32(&TypedValue::Bitstring(vec![0, 0, 0, 0, 1])),
        Err(DeserializeP4DataError::ExpectedU32)
    );
    assert_eq!(
        parse_u64(&TypedValue::Bitstring(vec![0, 0, 0, 0, 0, 0, 0, 0, 1])),
        Err(DeserializeP4DataError::ExpectedU64)
    );
    assert_eq!(
        parse_i8(&TypedValue::Bitstring(vec![0, 1])),
        Err(DeserializeP4DataError::ExpectedI8)
    );
    assert_eq!(
        parse_i16(&TypedValue::Bitstring(vec![0, 0, 1])),
        Err(DeserializeP4DataError::ExpectedI16)
    );
    assert_eq!(
        parse_i32(&TypedValue::Bitstring(vec![0, 0, 0, 0, 1])),
        Err(DeserializeP4DataError::ExpectedI32)
    );
    assert_eq!(
        parse_i64(&TypedValue::Bitstring(vec![0, 0, 0, 0, 0, 0, 0, 0, 1])),
        Err(DeserializeP4DataError::ExpectedI64)
    );
}

#[test]
fn signed_targets_reinterpret_bytes() {
    // No sign extension: the raw bytes are reinterpreted as two's complement.
    assert_eq!(parse_i8(&TypedValue::Bitstring(vec![0x9d])), Ok(-99));
    assert_eq!(parse_i16(&TypedValue::Bitstring(vec![0xfd, 0x1d])), Ok(-739));
    assert_eq!(parse_i16(&TypedValue::Bitstring(vec![0x9d])), Ok(0x9d));
    assert_eq!(parse_i32(&TypedValue::Bitstring(vec![0x80, 0, 0, 0])), Ok(i32::MIN));
    assert_eq!(
        parse_i64(&TypedValue::Bitstring(vec![0xff, 0xff, 0xff, 0xff, 0xff, 0xff, 0xff, 0xff])),
        Ok(-1)
    );
}

#[test]
fn varbit_uses_declared_width() {
    // Declared width within the target: the stored bytes are used verbatim.
    assert_eq!(parse_u16(&TypedValue::VarWidthBits(vec![0x03], 10)), Ok(3));
    assert_eq!(parse_u32(&TypedValue::VarWidthBits(vec![0x30, 0x64], 14)), Ok(12388));
    // Declared width beyond the target: the matching shape error.
    assert_eq!(
        parse_u8(&TypedValue::VarWidthBits(vec![0x03], 9)),
        Err(DeserializeP4DataError::ExpectedU8)
    );
    assert_eq!(
        parse_i32(&TypedValue::VarWidthBits(vec![0, 0, 0, 0, 1], 33)),
        Err(DeserializeP4DataError::ExpectedI32)
    );
}

#[test]
fn bool_and_bytes_sources() {
    assert_eq!(parse_bool(&TypedValue::Boolean(true)), Ok(true));
    assert_eq!(
        parse_bool(&TypedValue::Bitstring(vec![1])),
        Err(DeserializeP4DataError::ExpectedBool)
    );
    assert_eq!(parse_bytes(&TypedValue::Bitstring(vec![1, 2, 3])), Ok(vec![1, 2, 3]));
    // A width-tagged bitstring is not a valid raw byte-payload source.
    assert_eq!(
        parse_bytes(&TypedValue::VarWidthBits(vec![1], 4)),
        Err(DeserializeP4DataError::ExpectedBytes)
    );
    assert_eq!(
        parse_bytes(&TypedValue::Boolean(false)),
        Err(DeserializeP4DataError::ExpectedBytes)
    );
}

#[test]
fn tuple_never_coerces_into_scalar_targets() {
    let tuple = TypedValue::Tuple(vec![TypedValue::Boolean(true)]);
    assert_eq!(decode(&tuple, &Schema::Bytes), Err(DeserializeP4DataError::ExpectedBytes));
    assert_eq!(decode(&tuple, &Schema::Bool), Err(DeserializeP4DataError::ExpectedBool));
    assert_eq!(decode(&tuple, &Schema::U32), Err(DeserializeP4DataError::ExpectedU32));
}

#[test]
fn aggregate_shape_errors() {
    // A non-tuple source for a tuple target.
    assert_eq!(
        decode(&TypedValue::Bitstring(vec![1, 2]), &Schema::Tuple(vec![Schema::U8, Schema::U8])),
        Err(DeserializeP4DataError::ExpectedTuple)
    );
    // A non-record source for a record target.
    assert_eq!(
        decode(
            &TypedValue::Tuple(vec![TypedValue::Boolean(true)]),
            &Schema::Record(vec![Schema::Bool]),
        ),
        Err(DeserializeP4DataError::ExpectedStruct)
    );
    // Too few members for the target's arity.
    let r = decode(
        &TypedValue::Record(vec![TypedValue::Boolean(true)]),
        &Schema::Record(vec![Schema::Bool, Schema::Bool]),
    );
    assert!(matches!(r, Err(DeserializeP4DataError::Custom(_))));
    let r = decode(
        &TypedValue::Tuple(vec![]),
        &Schema::Tuple(vec![Schema::U8]),
    );
    assert!(matches!(r, Err(DeserializeP4DataError::Custom(_))));
}

#[test]
fn extra_members_are_ignored() {
    let value = TypedValue::Tuple(vec![
        TypedValue::Bitstring(vec![1]),
        TypedValue::Bitstring(vec![2]),
        TypedValue::Bitstring(vec![3]),
    ]);
    let schema = Schema::Tuple(vec![Schema::U8, Schema::U8]);
    assert_eq!(
        decode(&value, &schema),
        Ok(Decoded::Tuple(vec![Decoded::U8(1), Decoded::U8(2)]))
    );
}

#[test]
fn nested_aggregates_decode_recursively() {
    let value = TypedValue::Record(vec![
        TypedValue::Tuple(vec![
            TypedValue::Bitstring(vec![0x0a]),
            TypedValue::Bitstring(vec![0x0b]),
        ]),
        TypedValue::Boolean(false),
    ]);
    let schema = Schema::Record(vec![
        Schema::Tuple(vec![Schema::U8, Schema::U8]),
        Schema::Bool,
    ]);
    assert_eq!(
        decode(&value, &schema),
        Ok(Decoded::Record(vec![
            Decoded::Tuple(vec![Decoded::U8(0x0a), Decoded::U8(0x0b)]),
            Decoded::Bool(false),
        ]))
    );
}

#[test]
fn optional_targets() {
    // An absent value decodes to nothing under an optional target.
    assert_eq!(
        decode(&TypedValue::Absent, &Schema::Optional(Box::new(Schema::U8))),
        Ok(Decoded::Nothing)
    );
    // A present value decodes as the wrapped type.
    assert_eq!(
        decode(&TypedValue::Bitstring(vec![7]), &Schema::Optional(Box::new(Schema::U8))),
        Ok(Decoded::U8(7))
    );
    // An absent value under a plain target is a shape error.
    assert_eq!(
        decode(&TypedValue::Absent, &Schema::U8),
        Err(DeserializeP4DataError::ExpectedU8)
    );
}

#[test]
fn decode_is_pure_and_idempotent() {
    let value = TypedValue::Record(vec![
        TypedValue::Bitstring(vec![0x30, 0x64]),
        TypedValue::Boolean(true),
        TypedValue::Tuple(vec![TypedValue::Bitstring(vec![5])]),
    ]);
    let schema = Schema::Record(vec![
        Schema::U16,
        Schema::Bool,
        Schema::Tuple(vec![Schema::U8]),
    ]);
    let first = decode(&value, &schema);
    let second = decode(&value, &schema);
    assert_eq!(first, second);
    let bad = TypedValue::Tuple(vec![]);
    assert_eq!(decode(&bad, &Schema::Bool), decode(&bad, &Schema::Bool));
}

#[test]
fn deep_copy_denotes_the_same_value() {
    let value = TypedValue::Record(vec![
        TypedValue::Tuple(vec![TypedValue::Bitstring(vec![0x30, 0x64])]),
        TypedValue::VarWidthBits(vec![0x05], 3),
    ]);
    let schema = Schema::Record(vec![
        Schema::Tuple(vec![Schema::U16]),
        Schema::U8,
    ]);
    let copy = clone_value(&value);
    assert_eq!(decode(&copy, &schema), decode(&value, &schema));
    assert_eq!(
        decode(&copy, &schema),
        Ok(Decoded::Record(vec![
            Decoded::Tuple(vec![Decoded::U16(12388)]),
            Decoded::U8(5),
        ]))
    );
}

#[test]
fn batch_decodes_in_arrival_order() {
    let values = vec![
        TypedValue::Bitstring(vec![1]),
        TypedValue::Bitstring(vec![2]),
        TypedValue::Bitstring(vec![3]),
    ];
    assert_eq!(
        decode_batch(&values, &Schema::U8),
        Ok(vec![Decoded::U8(1), Decoded::U8(2), Decoded::U8(3)])
    );
    // The first failing value's error is returned.
    let mixed = vec![
        TypedValue::Bitstring(vec![1]),
        TypedValue::Boolean(true),
        TypedValue::Bitstring(vec![0, 0, 1]),
    ];
    assert_eq!(decode_batch(&mixed, &Schema::U8), Err(DeserializeP4DataError::ExpectedU8));
}
