//! End-to-end decode scenarios against the shape-directed driver.

use serde_dynamodb::{
    from_hashmap, AttributeValue, Deserializer, Error, ErrorKind, Index, MapAccess, SeqAccess,
    Shape, Source, Value,
};

fn s(text: &str) -> String {
    text.to_string()
}

fn field(name: &str, shape: Shape) -> (String, Shape) {
    (s(name), shape)
}

fn entry(name: &str, av: AttributeValue) -> (String, AttributeValue) {
    (s(name), av)
}

fn dbg(v: &Value) -> String {
    format!("{:?}", v)
}

fn decode_one(av: AttributeValue, shape: Shape) -> Result<Value, Error> {
    from_hashmap(vec![entry("x", av)], &Shape::Record(vec![field("x", shape)]))
}

fn unwrap_single(v: Value) -> Value {
    match v {
        Value::Record(mut fields) => {
            assert_eq!(fields.len(), 1);
            fields.pop().unwrap().1
        }
        other => panic!("expected a record, got {:?}", other),
    }
}

#[test]
fn boolean_decodes_exactly() {
    let got = unwrap_single(decode_one(AttributeValue::Boolean(true), Shape::Bool).unwrap());
    assert!(matches!(got, Value::Bool(true)));
}

#[test]
fn numeric_text_decodes_at_every_width() {
    let cases: Vec<(AttributeValue, Shape, Value)> = vec![
        (AttributeValue::NumericText(s("-128")), Shape::I8, Value::I8(-128)),
        (AttributeValue::NumericText(s("-32768")), Shape::I16, Value::I16(-32768)),
        (AttributeValue::NumericText(s("42")), Shape::I32, Value::I32(42)),
        (
            AttributeValue::NumericText(s("-9223372036854775808")),
            Shape::I64,
            Value::I64(i64::MIN),
        ),
        (AttributeValue::NumericText(s("255")), Shape::U8, Value::U8(255)),
        (AttributeValue::NumericText(s("65535")), Shape::U16, Value::U16(65535)),
        (AttributeValue::NumericText(s("+7")), Shape::U32, Value::U32(7)),
        (
            AttributeValue::NumericText(s("18446744073709551615")),
            Shape::U64,
            Value::U64(u64::MAX),
        ),
    ];
    for (av, shape, expected) in cases {
        let got = unwrap_single(decode_one(av, shape).unwrap());
        assert_eq!(format!("{:?}", got), format!("{:?}", expected));
    }
}

#[test]
fn text_decodes_to_string_and_char() {
    let got = unwrap_single(decode_one(AttributeValue::Text(s("hello")), Shape::Str).unwrap());
    assert!(matches!(got, Value::Str(ref t) if t == "hello"));
    let got = unwrap_single(decode_one(AttributeValue::Text(s("h")), Shape::Char).unwrap());
    assert!(matches!(got, Value::Char('h')));
}

#[test]
fn char_needs_exactly_one_character() {
    let err = decode_one(AttributeValue::Text(s("hi")), Shape::Char).unwrap_err();
    assert_eq!(err.kind, ErrorKind::ParseFailure);
    let err = decode_one(AttributeValue::Text(s("")), Shape::Char).unwrap_err();
    assert_eq!(err.kind, ErrorKind::ParseFailure);
}

#[test]
fn numeric_parse_failures() {
    for bad in ["", "+", "-", "abc", "1.5", " 1", "1 ", "--1", "+-1"] {
        let err = decode_one(AttributeValue::NumericText(s(bad)), Shape::I32).unwrap_err();
        assert_eq!(err.kind, ErrorKind::ParseFailure, "input {:?}", bad);
    }
    let err = decode_one(AttributeValue::NumericText(s("128")), Shape::I8).unwrap_err();
    assert_eq!(err.kind, ErrorKind::ParseFailure);
    let err = decode_one(AttributeValue::NumericText(s("-1")), Shape::U64).unwrap_err();
    assert_eq!(err.kind, ErrorKind::ParseFailure);
    let err =
        decode_one(AttributeValue::NumericText(s("18446744073709551616")), Shape::U64).unwrap_err();
    assert_eq!(err.kind, ErrorKind::ParseFailure);
    let err =
        decode_one(AttributeValue::NumericText(s("9223372036854775808")), Shape::I64).unwrap_err();
    assert_eq!(err.kind, ErrorKind::ParseFailure);
}

#[test]
fn absent_required_primitive_fails() {
    for shape in [Shape::Bool, Shape::I32, Shape::U64, Shape::Char] {
        let item = vec![entry("present", AttributeValue::Boolean(true))];
        let err = from_hashmap(item, &Shape::Record(vec![field("gone", shape)])).unwrap_err();
        assert_eq!(err.kind, ErrorKind::MissingValue);
        assert!(matches!(err.at, Index::Name(ref n) if n == "gone"));
    }
}

#[test]
fn absent_string_decodes_to_empty() {
    let item = vec![entry("present", AttributeValue::Boolean(true))];
    let got = unwrap_single(
        from_hashmap(item, &Shape::Record(vec![field("gone", Shape::Str)])).unwrap(),
    );
    assert!(matches!(got, Value::Str(ref t) if t.is_empty()));
}

#[test]
fn optional_is_none_when_absent_and_when_null() {
    let shape = Shape::Record(vec![field("x", Shape::Optional(Box::new(Shape::I32)))]);
    let got = unwrap_single(from_hashmap(vec![], &shape).unwrap());
    assert!(matches!(got, Value::Opt(None)));
    let got = unwrap_single(
        from_hashmap(vec![entry("x", AttributeValue::Null(true))], &shape).unwrap(),
    );
    assert!(matches!(got, Value::Opt(None)));
}

#[test]
fn optional_recurses_when_present() {
    let shape = Shape::Record(vec![field("x", Shape::Optional(Box::new(Shape::I32)))]);
    let got = unwrap_single(
        from_hashmap(vec![entry("x", AttributeValue::NumericText(s("9")))], &shape).unwrap(),
    );
    match got {
        Value::Opt(Some(inner)) => assert!(matches!(*inner, Value::I32(9))),
        other => panic!("expected present optional, got {:?}", other),
    }
    let err = from_hashmap(vec![entry("x", AttributeValue::Null(false))], &shape).unwrap_err();
    assert_eq!(err.kind, ErrorKind::TypeMismatch);
}

#[test]
fn list_round_trips_in_order() {
    let items: Vec<AttributeValue> =
        (0..5).map(|i| AttributeValue::NumericText(format!("{}", i * 10))).collect();
    let got = unwrap_single(
        decode_one(AttributeValue::List(items), Shape::List(Box::new(Shape::U32))).unwrap(),
    );
    match got {
        Value::List(vs) => {
            assert_eq!(vs.len(), 5);
            for (i, v) in vs.iter().enumerate() {
                assert!(matches!(v, Value::U32(x) if *x == (i as u32) * 10));
            }
        }
        other => panic!("expected a list, got {:?}", other),
    }
}

#[test]
fn empty_list_decodes_empty() {
    let got = unwrap_single(
        decode_one(AttributeValue::List(vec![]), Shape::List(Box::new(Shape::Str))).unwrap(),
    );
    assert!(matches!(got, Value::List(ref vs) if vs.is_empty()));
}

#[test]
fn list_fails_on_first_bad_element() {
    let items = vec![
        AttributeValue::NumericText(s("1")),
        AttributeValue::Text(s("oops")),
        AttributeValue::NumericText(s("3")),
    ];
    let err =
        decode_one(AttributeValue::List(items), Shape::List(Box::new(Shape::U32))).unwrap_err();
    assert_eq!(err.kind, ErrorKind::TypeMismatch);
    assert!(matches!(err.at, Index::Position(1)));
}

#[test]
fn type_mismatch_identifies_the_field() {
    let err = from_hashmap(
        vec![entry("active", AttributeValue::Text(s("yes")))],
        &Shape::Record(vec![field("active", Shape::Bool)]),
    )
    .unwrap_err();
    assert_eq!(err.kind, ErrorKind::TypeMismatch);
    assert!(matches!(err.at, Index::Name(ref n) if n == "active"));
}

fn three_level_shape() -> Shape {
    Shape::Record(vec![field(
        "rows",
        Shape::List(Box::new(Shape::Record(vec![
            field("name", Shape::Str),
            field(
                "inner",
                Shape::Record(vec![field("a", Shape::I32), field("b", Shape::Bool)]),
            ),
        ]))),
    )])
}

fn three_level_item(reorder: bool) -> Vec<(String, AttributeValue)> {
    let inner = |a: &str, b: bool| {
        let mut m = vec![
            entry("a", AttributeValue::NumericText(s(a))),
            entry("b", AttributeValue::Boolean(b)),
        ];
        if reorder {
            m.reverse();
        }
        AttributeValue::Mapping(m)
    };
    let row = |name: &str, a: &str, b: bool| {
        let mut m = vec![entry("name", AttributeValue::Text(s(name))), entry("inner", inner(a, b))];
        if reorder {
            m.reverse();
        }
        AttributeValue::Mapping(m)
    };
    vec![entry(
        "rows",
        AttributeValue::List(vec![row("first", "1", true), row("second", "2", false)]),
    )]
}

#[test]
fn nested_records_follow_declared_names_not_source_order() {
    let shape = three_level_shape();
    let plain = from_hashmap(three_level_item(false), &shape).unwrap();
    let shuffled = from_hashmap(three_level_item(true), &shape).unwrap();
    assert_eq!(dbg(&plain), dbg(&shuffled));
    match unwrap_single(plain) {
        Value::List(rows) => {
            assert_eq!(rows.len(), 2);
            match &rows[0] {
                Value::Record(fields) => {
                    assert_eq!(fields[0].0, "name");
                    assert!(matches!(fields[0].1, Value::Str(ref t) if t == "first"));
                    match &fields[1].1 {
                        Value::Record(inner) => {
                            assert!(matches!(inner[0].1, Value::I32(1)));
                            assert!(matches!(inner[1].1, Value::Bool(true)));
                        }
                        other => panic!("expected inner record, got {:?}", other),
                    }
                }
                other => panic!("expected row record, got {:?}", other),
            }
        }
        other => panic!("expected row list, got {:?}", other),
    }
}

#[test]
fn concrete_item_scenario() {
    let item = vec![
        entry("id", AttributeValue::Text(s("u1"))),
        entry("age", AttributeValue::NumericText(s("30"))),
        entry("active", AttributeValue::Boolean(true)),
        entry(
            "tags",
            AttributeValue::List(vec![
                AttributeValue::Text(s("a")),
                AttributeValue::Text(s("b")),
            ]),
        ),
    ];
    let shape = Shape::Record(vec![
        field("id", Shape::Str),
        field("age", Shape::U32),
        field("active", Shape::Bool),
        field("tags", Shape::List(Box::new(Shape::Str))),
    ]);
    let got = from_hashmap(item, &shape).unwrap();
    let expected = Value::Record(vec![
        (s("id"), Value::Str(s("u1"))),
        (s("age"), Value::U32(30)),
        (s("active"), Value::Bool(true)),
        (
            s("tags"),
            Value::List(vec![Value::Str(s("a")), Value::Str(s("b"))]),
        ),
    ]);
    assert_eq!(dbg(&got), dbg(&expected));
}

#[test]
fn deserializer_primitives_work_at_a_named_cursor() {
    let src = Source::Keyed(vec![
        entry("n", AttributeValue::NumericText(s("-5"))),
        entry("t", AttributeValue::Text(s("ok"))),
    ]);
    let mut de = Deserializer::new(src);
    de.current_field = Index::Name(s("n"));
    assert_eq!(de.deserialize_i8().unwrap(), -5);
    assert_eq!(de.deserialize_i64().unwrap(), -5);
    assert_eq!(de.deserialize_u8().unwrap_err().kind, ErrorKind::ParseFailure);
    de.current_field = Index::Name(s("t"));
    assert_eq!(de.deserialize_str().unwrap(), "ok");
    assert_eq!(de.deserialize_string().unwrap(), "ok");
    let id = de.deserialize_identifier().unwrap();
    assert_eq!(id, "t");
    de.current_field = Index::Root;
    assert_eq!(de.deserialize_identifier().unwrap_err().kind, ErrorKind::BadIdentifier);
    assert!(de.deserialize_ignored_any().is_ok());
}

#[test]
fn seq_access_stops_at_first_absent_position() {
    let src = Source::Positional(vec![
        AttributeValue::NumericText(s("1")),
        AttributeValue::NumericText(s("2")),
    ]);
    let mut de = Deserializer::new(src);
    let mut sa = SeqAccess::new();
    assert!(sa.next_index(&mut de));
    assert_eq!(de.deserialize_u16().unwrap(), 1);
    assert!(sa.next_index(&mut de));
    assert_eq!(de.deserialize_u16().unwrap(), 2);
    assert!(!sa.next_index(&mut de));
    assert_eq!(sa.current, 2);
}

#[test]
fn map_access_walks_the_declared_keys() {
    let src = Source::Keyed(vec![
        entry("b", AttributeValue::Boolean(false)),
        entry("a", AttributeValue::Boolean(true)),
    ]);
    let mut de = Deserializer::new(src);
    let mut ma = MapAccess::new(vec![s("a"), s("b")]);
    let k = ma.next_key(&mut de).unwrap();
    assert_eq!(k, "a");
    assert!(de.deserialize_bool().unwrap());
    let k = ma.next_key(&mut de).unwrap();
    assert_eq!(k, "b");
    assert!(!de.deserialize_bool().unwrap());
    assert!(ma.next_key(&mut de).is_none());
}

#[test]
fn wrong_cursor_kind_resolves_to_absent() {
    let keyed = Source::Keyed(vec![entry("k", AttributeValue::Boolean(true))]);
    assert!(keyed.get_attribute_value(&Index::Position(0)).is_none());
    assert!(keyed.get_attribute_value(&Index::Root).is_none());
    let positional = Source::Positional(vec![AttributeValue::Boolean(true)]);
    assert!(positional.get_attribute_value(&Index::Name(s("k"))).is_none());
    assert!(positional.get_attribute_value(&Index::Root).is_none());
}

#[test]
fn duplicate_keys_resolve_to_the_first_entry() {
    let src = Source::Keyed(vec![
        entry("k", AttributeValue::NumericText(s("1"))),
        entry("k", AttributeValue::NumericText(s("2"))),
    ]);
    let mut de = Deserializer::new(src);
    de.current_field = Index::Name(s("k"));
    assert_eq!(de.deserialize_u8().unwrap(), 1);
}

#[test]
fn non_text_value_under_string_shape_is_a_mismatch() {
    let err = decode_one(AttributeValue::Boolean(true), Shape::Str).unwrap_err();
    assert_eq!(err.kind, ErrorKind::TypeMismatch);
}

#[test]
fn missing_list_and_record_fail() {
    let err = from_hashmap(
        vec![],
        &Shape::Record(vec![field("xs", Shape::List(Box::new(Shape::I8)))]),
    )
    .unwrap_err();
    assert_eq!(err.kind, ErrorKind::MissingValue);
    let err = from_hashmap(
        vec![],
        &Shape::Record(vec![field("m", Shape::Record(vec![field("a", Shape::Bool)]))]),
    )
    .unwrap_err();
    assert_eq!(err.kind, ErrorKind::MissingValue);
}
