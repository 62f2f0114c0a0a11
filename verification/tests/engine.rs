use neon_serde::de::{from_value, from_value_opt};
use neon_serde::errors::ErrorKind;
use neon_serde::num::JsNumber;
use neon_serde::ser::to_value;
use neon_serde::value::{DynValue, Field, Schema, StructValue, Variant};

fn dbg_eq(a: &StructValue, b: &StructValue) {
    assert_eq!(format!("{:?}", a), format!("{:?}", b));
}

fn round_trip(s: StructValue, t: &Schema) {
    let d = to_value(&s).expect("serialization should succeed");
    let back = from_value(t, &d).expect("deserialization should succeed");
    dbg_eq(&s, &back);
}

#[test]
fn test_it_compiles() {
    let arg = DynValue::Null;
    let unit = from_value(&Schema::Unit, &arg).unwrap();
    assert!(matches!(unit, StructValue::Unit));
    let back = to_value(&unit).unwrap();
    assert!(matches!(back, DynValue::Null));
}

#[test]
fn test_it_compiles_2() {
    let unit = from_value_opt(&Schema::Unit, None).unwrap();
    assert!(matches!(unit, StructValue::Unit));
    let back = to_value(&unit).unwrap();
    assert!(matches!(back, DynValue::Null));
}

#[test]
fn round_trip_primitives() {
    round_trip(StructValue::Bool(true), &Schema::Bool);
    round_trip(StructValue::I8(-5), &Schema::I8);
    round_trip(StructValue::I16(-300), &Schema::I16);
    round_trip(StructValue::I32(70000), &Schema::I32);
    round_trip(StructValue::I64(-9007199254740992), &Schema::I64);
    round_trip(StructValue::U8(255), &Schema::U8);
    round_trip(StructValue::U16(65535), &Schema::U16);
    round_trip(StructValue::U32(4294967295), &Schema::U32);
    round_trip(StructValue::U64(9007199254740992), &Schema::U64);
    round_trip(StructValue::Char('x'), &Schema::Char);
    round_trip(StructValue::Str(String::from("hello")), &Schema::Str);
    round_trip(StructValue::Bytes(vec![0, 1, 2, 255]), &Schema::Bytes);
    round_trip(StructValue::Unit, &Schema::Unit);
    round_trip(StructValue::UnitStruct, &Schema::UnitStruct);
    round_trip(
        StructValue::Float(JsNumber::Bits(0x3FF8000000000000)),
        &Schema::Float,
    );
}

#[test]
fn round_trip_composites() {
    round_trip(
        StructValue::List(vec![StructValue::U8(1), StructValue::U8(2)]),
        &Schema::List(Box::new(Schema::U8)),
    );
    round_trip(
        StructValue::Tuple(vec![StructValue::Bool(false), StructValue::Str(String::from("t"))]),
        &Schema::Tuple(vec![Schema::Bool, Schema::Str]),
    );
    round_trip(
        StructValue::MapOf(vec![
            (StructValue::Str(String::from("a")), StructValue::U32(1)),
            (StructValue::Str(String::from("b")), StructValue::U32(2)),
        ]),
        &Schema::MapOf(Box::new(Schema::Str), Box::new(Schema::U32)),
    );
    round_trip(
        StructValue::Struct(vec![
            (String::from("a"), StructValue::U32(1)),
            (String::from("c"), StructValue::Str(String::from("a string"))),
        ]),
        &Schema::Struct(vec![
            Field { name: String::from("a"), schema: Schema::U32, dflt: None },
            Field { name: String::from("c"), schema: Schema::Str, dflt: None },
        ]),
    );
    round_trip(
        StructValue::OptSome(Box::new(StructValue::I32(7))),
        &Schema::Opt(Box::new(Schema::I32)),
    );
    round_trip(StructValue::OptNone, &Schema::Opt(Box::new(Schema::I32)));
    round_trip(
        StructValue::NewtypeStruct(Box::new(StructValue::U8(9))),
        &Schema::NewtypeStruct(Box::new(Schema::U8)),
    );
}

fn sample_enum_schema() -> Schema {
    Schema::Enum(vec![
        Variant::Unit(String::from("A")),
        Variant::Newtype(String::from("B"), Box::new(Schema::U32)),
        Variant::Tuple(String::from("C"), vec![Schema::Bool, Schema::U8]),
        Variant::Struct(
            String::from("D"),
            vec![Field { name: String::from("x"), schema: Schema::I64, dflt: None }],
        ),
    ])
}

#[test]
fn enum_round_trip_all_shapes() {
    let t = sample_enum_schema();
    round_trip(StructValue::UnitVariant(String::from("A")), &t);
    round_trip(
        StructValue::NewtypeVariant(String::from("B"), Box::new(StructValue::U32(5))),
        &t,
    );
    round_trip(
        StructValue::TupleVariant(
            String::from("C"),
            vec![StructValue::Bool(true), StructValue::U8(3)],
        ),
        &t,
    );
    round_trip(
        StructValue::StructVariant(
            String::from("D"),
            vec![(String::from("x"), StructValue::I64(-1))],
        ),
        &t,
    );
}

#[test]
fn enum_documented_shapes() {
    let a = to_value(&StructValue::UnitVariant(String::from("A"))).unwrap();
    match a {
        DynValue::Str(s) => assert_eq!(s, "A"),
        other => panic!("unit variant should serialize to a string, got {:?}", other),
    }
    let b = to_value(&StructValue::NewtypeVariant(
        String::from("B"),
        Box::new(StructValue::U32(5)),
    ))
    .unwrap();
    match b {
        DynValue::Obj(props) => {
            assert_eq!(props.len(), 1);
            assert_eq!(props[0].0, "B");
            assert!(matches!(props[0].1, DynValue::Num(JsNumber::Int(5))));
        },
        other => panic!("newtype variant should serialize to an object, got {:?}", other),
    }
}

#[test]
fn numeric_boundary() {
    let ok = to_value(&StructValue::I64(9007199254740992)).unwrap();
    assert!(matches!(ok, DynValue::Num(JsNumber::Int(9007199254740992))));
    let err = to_value(&StructValue::I64(9007199254740993)).unwrap_err();
    assert!(matches!(err.kind(), ErrorKind::NumericCastFailure));
    let err2 = to_value(&StructValue::U64(9007199254740993)).unwrap_err();
    assert!(matches!(err2.kind(), ErrorKind::NumericCastFailure));
    let err3 = to_value(&StructValue::I64(-9007199254740993)).unwrap_err();
    assert!(matches!(err3.kind(), ErrorKind::NumericCastFailure));
}

#[test]
fn option_collapsing() {
    let t = Schema::Opt(Box::new(Schema::Bool));
    let none1 = from_value(&t, &DynValue::Null).unwrap();
    assert!(matches!(none1, StructValue::OptNone));
    let none2 = from_value(&t, &DynValue::Undefined).unwrap();
    assert!(matches!(none2, StructValue::OptNone));
    let some = from_value(&t, &DynValue::Bool(true)).unwrap();
    match some {
        StructValue::OptSome(inner) => assert!(matches!(*inner, StructValue::Bool(true))),
        other => panic!("expected some, got {:?}", other),
    }
    let err = from_value(&t, &DynValue::Num(JsNumber::Int(1))).unwrap_err();
    assert!(matches!(err.kind(), ErrorKind::UnableToCoerce(_)));
}

#[test]
fn char_decoding() {
    let empty = from_value(&Schema::Char, &DynValue::Str(String::new())).unwrap_err();
    assert!(matches!(empty.kind(), ErrorKind::EmptyString));
    let long = from_value(&Schema::Char, &DynValue::Str(String::from("ab"))).unwrap_err();
    assert!(matches!(long.kind(), ErrorKind::StringTooLongForChar(2)));
    let one = from_value(&Schema::Char, &DynValue::Str(String::from("a"))).unwrap();
    assert!(matches!(one, StructValue::Char('a')));
    let wrong = from_value(&Schema::Char, &DynValue::Bool(true)).unwrap_err();
    assert!(matches!(wrong.kind(), ErrorKind::UnableToCoerce(_)));
}

#[test]
fn map_key_rejection() {
    let bad = StructValue::MapOf(vec![(StructValue::Bool(true), StructValue::U32(1))]);
    let err = to_value(&bad).unwrap_err();
    match err.kind() {
        ErrorKind::InvalidKeyType(kind) => assert_eq!(kind, "boolean"),
        other => panic!("expected InvalidKeyType, got {:?}", other),
    }
}

#[test]
fn map_char_keys_are_strings() {
    let m = StructValue::MapOf(vec![(StructValue::Char('k'), StructValue::U8(1))]);
    let d = to_value(&m).unwrap();
    match &d {
        DynValue::Obj(props) => {
            assert_eq!(props.len(), 1);
            assert_eq!(props[0].0, "k");
        },
        other => panic!("expected object, got {:?}", other),
    }
    let t = Schema::MapOf(Box::new(Schema::Char), Box::new(Schema::U8));
    let back = from_value(&t, &d).unwrap();
    dbg_eq(&m, &back);
}

#[test]
fn map_duplicate_keys_overwrite_in_place() {
    let m = StructValue::MapOf(vec![
        (StructValue::Str(String::from("a")), StructValue::U8(1)),
        (StructValue::Str(String::from("b")), StructValue::U8(2)),
        (StructValue::Str(String::from("a")), StructValue::U8(3)),
    ]);
    let d = to_value(&m).unwrap();
    match d {
        DynValue::Obj(props) => {
            assert_eq!(props.len(), 2);
            assert_eq!(props[0].0, "a");
            assert!(matches!(props[0].1, DynValue::Num(JsNumber::Int(3))));
            assert_eq!(props[1].0, "b");
        },
        other => panic!("expected object, got {:?}", other),
    }
}

#[test]
fn struct_missing_field_uses_default() {
    let t = Schema::Struct(vec![
        Field { name: String::from("a"), schema: Schema::U32, dflt: None },
        Field {
            name: String::from("b"),
            schema: Schema::U32,
            dflt: Some(StructValue::U32(42)),
        },
    ]);
    let d = DynValue::Obj(vec![(String::from("a"), DynValue::Num(JsNumber::Int(1)))]);
    let r = from_value(&t, &d).unwrap();
    let expected = StructValue::Struct(vec![
        (String::from("a"), StructValue::U32(1)),
        (String::from("b"), StructValue::U32(42)),
    ]);
    dbg_eq(&expected, &r);
}

#[test]
fn struct_missing_field_without_default_fails() {
    let t = Schema::Struct(vec![Field {
        name: String::from("a"),
        schema: Schema::U32,
        dflt: None,
    }]);
    let d = DynValue::Obj(vec![]);
    let err = from_value(&t, &d).unwrap_err();
    match err.kind() {
        ErrorKind::Custom(name) => assert_eq!(name, "a"),
        other => panic!("expected Custom, got {:?}", other),
    }
}

#[test]
fn struct_unknown_properties_are_ignored() {
    let t = Schema::Struct(vec![Field {
        name: String::from("a"),
        schema: Schema::U32,
        dflt: None,
    }]);
    let d = DynValue::Obj(vec![
        (String::from("zzz"), DynValue::Bool(true)),
        (String::from("a"), DynValue::Num(JsNumber::Int(7))),
        (String::from("extra"), DynValue::Null),
    ]);
    let r = from_value(&t, &d).unwrap();
    let expected = StructValue::Struct(vec![(String::from("a"), StructValue::U32(7))]);
    dbg_eq(&expected, &r);
}

#[test]
fn tuple_arity_mismatch() {
    let t = Schema::Tuple(vec![Schema::Bool, Schema::Bool]);
    let d = DynValue::Arr(vec![
        DynValue::Bool(true),
        DynValue::Bool(false),
        DynValue::Bool(true),
    ]);
    let err = from_value(&t, &d).unwrap_err();
    assert!(matches!(err.kind(), ErrorKind::ArrayIndexOutOfBounds(2, 3)));
    let short = DynValue::Arr(vec![DynValue::Bool(true)]);
    let err2 = from_value(&t, &short).unwrap_err();
    assert!(matches!(err2.kind(), ErrorKind::ArrayIndexOutOfBounds(2, 1)));
}

#[test]
fn unit_from_wrong_kind_expects_null() {
    let err = from_value(&Schema::Unit, &DynValue::Bool(true)).unwrap_err();
    assert!(matches!(err.kind(), ErrorKind::ExpectingNull));
}

#[test]
fn integer_narrowing_bounds() {
    let big = DynValue::Num(JsNumber::Int(300));
    let err = from_value(&Schema::U8, &big).unwrap_err();
    match err.kind() {
        ErrorKind::UnableToCoerce(name) => assert_eq!(name, "u8"),
        other => panic!("expected UnableToCoerce, got {:?}", other),
    }
    let neg = DynValue::Num(JsNumber::Int(-1));
    assert!(from_value(&Schema::U64, &neg).is_err());
    let frac = DynValue::Num(JsNumber::Bits(0x3FF8000000000000));
    assert!(from_value(&Schema::I32, &frac).is_err());
    let fits = from_value(&Schema::I8, &DynValue::Num(JsNumber::Int(-128))).unwrap();
    assert!(matches!(fits, StructValue::I8(-128)));
}

#[test]
fn enum_decoding_failures() {
    let t = sample_enum_schema();
    let unknown = from_value(&t, &DynValue::Str(String::from("Nope"))).unwrap_err();
    match unknown.kind() {
        ErrorKind::Custom(name) => assert_eq!(name, "Nope"),
        other => panic!("expected Custom, got {:?}", other),
    }
    let empty_obj = from_value(&t, &DynValue::Obj(vec![])).unwrap_err();
    match empty_obj.kind() {
        ErrorKind::InvalidKeyType(k) => assert_eq!(k, ""),
        other => panic!("expected InvalidKeyType, got {:?}", other),
    }
    let two_props = from_value(
        &t,
        &DynValue::Obj(vec![
            (String::from("A"), DynValue::Null),
            (String::from("B"), DynValue::Null),
        ]),
    )
    .unwrap_err();
    match two_props.kind() {
        ErrorKind::InvalidKeyType(k) => assert_eq!(k, "B"),
        other => panic!("expected InvalidKeyType, got {:?}", other),
    }
    let not_enum = from_value(&t, &DynValue::Num(JsNumber::Int(3))).unwrap_err();
    assert!(matches!(not_enum.kind(), ErrorKind::UnableToCoerce(_)));
}

#[test]
fn unit_variant_accepts_null_payload_object() {
    let t = sample_enum_schema();
    let d = DynValue::Obj(vec![(String::from("A"), DynValue::Null)]);
    let r = from_value(&t, &d).unwrap();
    match r {
        StructValue::UnitVariant(n) => assert_eq!(n, "A"),
        other => panic!("expected unit variant, got {:?}", other),
    }
    let bad = DynValue::Obj(vec![(String::from("A"), DynValue::Bool(true))]);
    let err = from_value(&t, &bad).unwrap_err();
    assert!(matches!(err.kind(), ErrorKind::ExpectingNull));
}

#[test]
fn char_serializes_to_one_character_string() {
    let d = to_value(&StructValue::Char('q')).unwrap();
    match d {
        DynValue::Str(s) => assert_eq!(s, "q"),
        other => panic!("expected string, got {:?}", other),
    }
}

#[test]
fn bytes_serialize_as_number_array() {
    let d = to_value(&StructValue::Bytes(vec![7, 255])).unwrap();
    match &d {
        DynValue::Arr(es) => {
            assert_eq!(es.len(), 2);
            assert!(matches!(es[0], DynValue::Num(JsNumber::Int(7))));
            assert!(matches!(es[1], DynValue::Num(JsNumber::Int(255))));
        },
        other => panic!("expected array, got {:?}", other),
    }
    let bad = DynValue::Arr(vec![DynValue::Num(JsNumber::Int(256))]);
    assert!(from_value(&Schema::Bytes, &bad).is_err());
}

#[test]
fn from_value_opt_absent_needs_option_or_unit() {
    let some = from_value_opt(&Schema::Opt(Box::new(Schema::Bool)), None).unwrap();
    assert!(matches!(some, StructValue::OptNone));
    let err = from_value_opt(&Schema::Bool, None).unwrap_err();
    assert!(matches!(err.kind(), ErrorKind::UnableToCoerce(_)));
    let present = from_value_opt(&Schema::Bool, Some(&DynValue::Bool(false))).unwrap();
    assert!(matches!(present, StructValue::Bool(false)));
}
