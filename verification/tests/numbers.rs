use convex_model::decode::Expected;
use convex_model::encode::encode;
use convex_model::model::ConvexField;
use convex_model::numeric::{f64_bits_trunc_to_i64, i64_to_f64_bits};
use convex_model::values::{ConvexValue, JsonValue, ModelValue};

fn nobj(entries: Vec<(&str, ConvexValue)>) -> ConvexValue {
    ConvexValue::Object(entries.into_iter().map(|(k, v)| (k.to_string(), v)).collect())
}

fn njson(entries: Vec<(&str, JsonValue)>) -> JsonValue {
    JsonValue::Object(entries.into_iter().map(|(k, v)| (k.to_string(), v)).collect())
}

fn nget<'a>(m: &'a ModelValue, key: &str) -> &'a ModelValue {
    match m {
        ModelValue::Record(entries) => &entries.iter().find(|e| e.0 == key).expect("no such field").1,
        _ => panic!("not a record"),
    }
}

#[test]
fn int_to_double_bits_matches_the_numeric_cast() {
    let samples: Vec<i64> = vec![
        0,
        1,
        -1,
        2,
        10,
        -37,
        4096,
        (1 << 52) - 1,
        1 << 52,
        (1 << 53) - 1,
        1 << 53,
        (1 << 53) + 1,
        (1 << 53) + 2,
        (1 << 53) + 3,
        -((1 << 53) + 1),
        (1 << 60) + 12345,
        i64::MAX,
        i64::MAX - 1,
        i64::MIN,
        i64::MIN + 1,
        7_777_777_777_777_777,
    ];
    for i in samples {
        assert_eq!((i as f64).to_bits(), i64_to_f64_bits(i), "converting {}", i);
    }
}

#[test]
fn double_bits_truncation_matches_the_numeric_cast() {
    let samples: Vec<f64> = vec![
        0.0,
        -0.0,
        0.5,
        -0.5,
        1.0,
        -1.0,
        3.5,
        -3.5,
        10.0,
        1e15,
        -1e15,
        1e300,
        -1e300,
        9.223372036854776e18,
        -9.223372036854776e18,
        f64::INFINITY,
        f64::NEG_INFINITY,
        f64::NAN,
        f64::MIN_POSITIVE,
        4503599627370495.5,
        9007199254740993.0,
    ];
    for f in samples {
        assert_eq!(f as i64, f64_bits_trunc_to_i64(f.to_bits()), "truncating {}", f);
    }
}

#[test]
fn number_field_coerces_both_tags() {
    let schema = ConvexField::parse("M { a: v.number() }").expect("schema should parse");

    let model = schema
        .from_convex_value(&nobj(vec![("a", ConvexValue::Int64(42))]))
        .expect("an integer-tagged value is accepted");
    assert_eq!(&ModelValue::Float(42.0f64.to_bits()), nget(&model, "a"));
    assert_eq!(njson(vec![("a", JsonValue::Float(42.0f64.to_bits()))]), encode(&model));

    let model = schema
        .from_convex_value(&nobj(vec![("a", ConvexValue::Float64(3.5f64.to_bits()))]))
        .expect("a float-tagged value is accepted");
    assert_eq!(njson(vec![("a", JsonValue::Float(3.5f64.to_bits()))]), encode(&model));

    let err = schema
        .from_convex_value(&nobj(vec![("a", ConvexValue::Str("42".to_string()))]))
        .expect_err("a string is not a number");
    assert_eq!(Expected::Number, err.expected);
}

#[test]
fn int_field_truncates_floats_and_encodes_integers() {
    let schema = ConvexField::parse("M { a: v.int64() }").expect("schema should parse");

    let model = schema
        .from_convex_value(&nobj(vec![("a", ConvexValue::Float64(3.5f64.to_bits()))]))
        .expect("a float-tagged value is accepted");
    assert_eq!(&ModelValue::Int(3), nget(&model, "a"));
    assert_eq!(njson(vec![("a", JsonValue::Int(3))]), encode(&model));

    let err = schema
        .from_convex_value(&nobj(vec![("a", ConvexValue::Boolean(true))]))
        .expect_err("a boolean is not an integer");
    assert_eq!(Expected::Int, err.expected);
    assert_eq!(vec!["M".to_string(), "a".to_string()], err.path);
}

#[test]
fn primitive_round_trip() {
    let schema = ConvexField::parse(
        "M {
            a: v.string(),
            b: v.boolean(),
            c: v.int64(),
            d: v.number(),
            e: v.null(),
            f: v.literal(\"x\"),
            g: v.literal(true),
            h: v.literal(7),
        }",
    )
    .expect("schema should parse");

    let input = nobj(vec![
        ("a", ConvexValue::Str("text".to_string())),
        ("b", ConvexValue::Boolean(false)),
        ("c", ConvexValue::Int64(-12)),
        ("d", ConvexValue::Float64(0.25f64.to_bits())),
        ("e", ConvexValue::Null),
        ("f", ConvexValue::Str("x".to_string())),
        ("g", ConvexValue::Boolean(true)),
        ("h", ConvexValue::Int64(7)),
    ]);
    let expected = njson(vec![
        ("a", JsonValue::Str("text".to_string())),
        ("b", JsonValue::Bool(false)),
        ("c", JsonValue::Int(-12)),
        ("d", JsonValue::Float(0.25f64.to_bits())),
        ("e", JsonValue::Null),
        ("f", JsonValue::Str("x".to_string())),
        ("g", JsonValue::Bool(true)),
        ("h", JsonValue::Int(7)),
    ]);

    let model = schema.from_convex_value(&input).expect("should decode");
    assert_eq!(expected, encode(&model));
}

#[test]
fn literal_mismatch_and_kind_mismatch_differ() {
    let schema = ConvexField::parse("M { a: v.literal(\"seven\") }").expect("schema should parse");

    let wrong_value = schema
        .from_convex_value(&nobj(vec![("a", ConvexValue::Str("eight".to_string()))]))
        .expect_err("the wrong string is rejected");
    assert_eq!(Expected::StrLit("seven".to_string()), wrong_value.expected);

    let wrong_kind = schema
        .from_convex_value(&nobj(vec![("a", ConvexValue::Int64(7))]))
        .expect_err("a non-string is rejected");
    assert_eq!(Expected::StrLitKind, wrong_kind.expected);

    assert_ne!(wrong_value.expected, wrong_kind.expected);

    let int_lit = ConvexField::parse("M { a: v.literal(9) }").expect("schema should parse");
    let err = int_lit
        .from_convex_value(&nobj(vec![("a", ConvexValue::Int64(8))]))
        .expect_err("the wrong integer is rejected");
    assert_eq!(Expected::IntLit(9), err.expected);
    let ok = int_lit
        .from_convex_value(&nobj(vec![("a", ConvexValue::Float64(9.0f64.to_bits()))]))
        .expect("an integral float matching the literal is accepted");
    assert_eq!(&ModelValue::Int(9), nget(&ok, "a"));

    let bool_lit = ConvexField::parse("M { a: v.literal(false) }").expect("schema should parse");
    let err = bool_lit
        .from_convex_value(&nobj(vec![("a", ConvexValue::Boolean(true))]))
        .expect_err("the wrong boolean is rejected");
    assert_eq!(Expected::BoolLit(false), err.expected);
    let err = bool_lit
        .from_convex_value(&nobj(vec![("a", ConvexValue::Null)]))
        .expect_err("a non-boolean is rejected");
    assert_eq!(Expected::BoolLitKind, err.expected);
}

#[test]
fn kind_mismatch_errors() {
    let schema = ConvexField::parse("M { a: v.null(), b: v.boolean(), c: v.literal(9) }")
        .expect("schema should parse");

    let err = schema
        .from_convex_value(&nobj(vec![
            ("a", ConvexValue::Int64(0)),
            ("b", ConvexValue::Boolean(true)),
            ("c", ConvexValue::Int64(9)),
        ]))
        .expect_err("a non-null value fails a null field");
    assert_eq!(Expected::Null, err.expected);

    let err = schema
        .from_convex_value(&nobj(vec![
            ("a", ConvexValue::Null),
            ("b", ConvexValue::Str("yes".to_string())),
            ("c", ConvexValue::Int64(9)),
        ]))
        .expect_err("a non-boolean value fails a boolean field");
    assert_eq!(Expected::Bool, err.expected);

    let err = schema
        .from_convex_value(&nobj(vec![
            ("a", ConvexValue::Null),
            ("b", ConvexValue::Boolean(true)),
            ("c", ConvexValue::Str("9".to_string())),
        ]))
        .expect_err("a non-integer value fails an integer literal field");
    assert_eq!(Expected::IntLitKind, err.expected);
}

#[test]
fn optional_inner_failures_propagate() {
    let schema = ConvexField::parse("M { a: v.optional(v.int64()) }").expect("schema should parse");

    let model = schema.from_convex_value(&nobj(vec![])).expect("a missing key is absent");
    assert_eq!(&ModelValue::Absent, nget(&model, "a"));

    let err = schema
        .from_convex_value(&nobj(vec![("a", ConvexValue::Str("nope".to_string()))]))
        .expect_err("a present value of the wrong kind still fails");
    assert_eq!(Expected::Int, err.expected);
}

#[test]
fn object_decode_is_fail_fast() {
    let schema = ConvexField::parse("M { a: v.string(), b: v.int64(), c: v.boolean() }")
        .expect("schema should parse");

    let err = schema
        .from_convex_value(&nobj(vec![
            ("a", ConvexValue::Str("ok".to_string())),
            ("c", ConvexValue::Boolean(true)),
        ]))
        .expect_err("a missing required field fails the whole object");
    assert_eq!(vec!["M".to_string(), "b".to_string()], err.path);
    assert_eq!(Expected::Int, err.expected);

    let err = schema
        .from_convex_value(&nobj(vec![
            ("a", ConvexValue::Int64(1)),
            ("b", ConvexValue::Str("bad".to_string())),
            ("c", ConvexValue::Int64(2)),
        ]))
        .expect_err("the first wrong-typed field reports");
    assert_eq!(vec!["M".to_string(), "a".to_string()], err.path);
    assert_eq!(Expected::Str, err.expected);

    let err = schema
        .from_convex_value(&ConvexValue::Int64(5))
        .expect_err("a non-object input fails");
    assert_eq!(Expected::Object, err.expected);

    let nested = ConvexField::parse("M { o: v.object({ x: v.null() }) }")
        .expect("schema should parse");
    let err = nested
        .from_convex_value(&nobj(vec![]))
        .expect_err("a missing object field fails");
    assert_eq!(Expected::Object, err.expected);
    assert_eq!(vec!["M".to_string(), "o".to_string()], err.path);

    let union_schema = ConvexField::parse("M { u: v.union(v.null(), v.boolean()) }")
        .expect("schema should parse");
    let err = union_schema
        .from_convex_value(&nobj(vec![]))
        .expect_err("a missing union field fails");
    assert_eq!(Expected::Union, err.expected);
}
