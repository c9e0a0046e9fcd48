use convex_model::decode::DecodeError;
use convex_model::encode::encode;
use convex_model::model::ConvexField;
use convex_model::values::{ConvexValue, JsonValue, ModelValue};

fn mk_obj(entries: Vec<(&str, ConvexValue)>) -> ConvexValue {
    ConvexValue::Object(entries.into_iter().map(|(k, v)| (k.to_string(), v)).collect())
}

fn mk_json_obj(entries: Vec<(&str, JsonValue)>) -> JsonValue {
    JsonValue::Object(entries.into_iter().map(|(k, v)| (k.to_string(), v)).collect())
}

fn get_entry<'a>(m: &'a ModelValue, key: &str) -> &'a ModelValue {
    match m {
        ModelValue::Record(entries) => &entries.iter().find(|e| e.0 == key).expect("no such field").1,
        _ => panic!("not a record"),
    }
}

fn get_schema_field<'a>(schema: &'a ConvexField, id: &str) -> &'a ConvexField {
    match &schema.t {
        convex_model::model::ConvexType::Object(fields) => {
            fields.iter().find(|f| f.name.id == id).expect("no such schema field")
        },
        _ => panic!("schema root is not an object"),
    }
}

fn decode(schema: &ConvexField, v: &ConvexValue) -> Result<ModelValue, DecodeError> {
    schema.from_convex_value(v)
}

#[test]
fn example() {
    let schema = ConvexField::parse(
        "Example {
            one: v.id(\"table\"),
            two: v.null(),
            three: v.int64(),
            four: v.number(),
            five: v.boolean(),
            six: v.string(),
            seven: v.literal(\"seven\"),
            eight: v.literal(false),
            nine: v.literal(9),
            ten: v.union(v.string(), v.number()),
        }",
    )
    .expect("schema should parse");

    let convex_data = mk_obj(vec![
        ("one", ConvexValue::Str("123fakeid".to_string())),
        ("two", ConvexValue::Null),
        ("three", ConvexValue::Int64(42)),
        ("four", ConvexValue::Float64(3.5f64.to_bits())),
        ("five", ConvexValue::Boolean(true)),
        ("six", ConvexValue::Str("Hello World".to_string())),
        ("seven", ConvexValue::Str("seven".to_string())),
        ("eight", ConvexValue::Boolean(false)),
        ("nine", ConvexValue::Int64(9)),
        ("ten", ConvexValue::Float64(10.0f64.to_bits())),
    ]);

    let model = decode(&schema, &convex_data).expect("Model should parse data");

    assert_eq!(&ModelValue::Str("123fakeid".to_string()), get_entry(&model, "one"));
    assert_eq!(&ModelValue::Int(42), get_entry(&model, "three"));
    match get_entry(&model, "four") {
        ModelValue::Float(bits) => assert_eq!(3.5, f64::from_bits(*bits)),
        _ => panic!("expected a float"),
    }
    assert_eq!(&ModelValue::Bool(true), get_entry(&model, "five"));
    assert_eq!(&ModelValue::Str("Hello World".to_string()), get_entry(&model, "six"));
    assert_eq!(&ModelValue::Str("seven".to_string()), get_entry(&model, "seven"));
    assert_eq!(&ModelValue::Bool(false), get_entry(&model, "eight"));
    assert_eq!(&ModelValue::Int(9), get_entry(&model, "nine"));

    match get_entry(&model, "ten") {
        ModelValue::Variant(2, payload) => {
            match payload.as_ref() {
                ModelValue::Float(bits) => assert_eq!(10.0, f64::from_bits(*bits)),
                _ => panic!("Expected 10"),
            }
        },
        _ => panic!("Expected 10"),
    }

    let expected_json_data = mk_json_obj(vec![
        ("one", JsonValue::Str("123fakeid".to_string())),
        ("two", JsonValue::Null),
        ("three", JsonValue::Int(42)),
        ("four", JsonValue::Float(3.5f64.to_bits())),
        ("five", JsonValue::Bool(true)),
        ("six", JsonValue::Str("Hello World".to_string())),
        ("seven", JsonValue::Str("seven".to_string())),
        ("eight", JsonValue::Bool(false)),
        ("nine", JsonValue::Int(9)),
        ("ten", JsonValue::Float(10.0f64.to_bits())),
    ]);

    let actual_json_data = encode(&model);
    assert_eq!(expected_json_data, actual_json_data);
}

#[test]
fn example2() {
    let schema = ConvexField::parse("BasicUnion { value: v.union(v.string(), v.number()) }")
        .expect("schema should parse");

    let convex_data = mk_obj(vec![("value", ConvexValue::Str("hi".to_string()))]);

    let model = decode(&schema, &convex_data).expect("Model should parse data");

    match get_entry(&model, "value") {
        ModelValue::Variant(1, payload) => {
            assert_eq!(&ModelValue::Str("hi".to_string()), payload.as_ref());
        },
        _ => panic!("Expected 10.0"),
    }

    let expected_json_data = mk_json_obj(vec![("value", JsonValue::Str("hi".to_string()))]);

    let actual_json_data = encode(&model);
    assert_eq!(expected_json_data, actual_json_data);
}

#[test]
fn example3() {
    let schema = ConvexField::parse("NullUnion { value: v.union(v.string(), v.null()) }")
        .expect("schema should parse");

    let convex_data = mk_obj(vec![("value", ConvexValue::Null)]);

    let model = decode(&schema, &convex_data).expect("Model should parse data");

    match get_entry(&model, "value") {
        ModelValue::Variant(2, payload) => {
            assert_eq!(&ModelValue::Unit, payload.as_ref());
        },
        _ => panic!("Expected Unit"),
    }

    let expected_json_data = mk_json_obj(vec![("value", JsonValue::Null)]);

    let actual_json_data = encode(&model);
    assert_eq!(expected_json_data, actual_json_data);
}

#[test]
fn readme() {
    let schema = ConvexField::parse(
        "User {
            _id: v.id(\"users\"),
            name: v.string(),
            age: v.optional(v.int64()),
            platform: v.union(
                v.object({
                    platform: v.literal(\"google\"),
                    verified: v.boolean(),
                }),
                v.object({
                    platform: v.literal(\"github\"),
                    username: v.string(),
                }),
            ),
        }",
    )
    .expect("schema should parse");

    let user = decode(
        &schema,
        &mk_obj(vec![
            ("_id", ConvexValue::Str("1234".to_string())),
            ("name", ConvexValue::Str("Alice".to_string())),
            ("age", ConvexValue::Int64(42)),
            (
                "platform",
                mk_obj(vec![
                    ("platform", ConvexValue::Str("github".to_string())),
                    ("username", ConvexValue::Str("alicecodes".to_string())),
                ]),
            ),
        ]),
    )
    .expect("it should parse");

    assert_eq!(&ModelValue::Str("1234".to_string()), get_entry(&user, "_id"));

    let platform_field = get_schema_field(&schema, "platform");
    let payload = platform_field
        .as_variant(get_entry(&user, "platform"), 2)
        .expect("should be the second variant");
    assert_eq!(&ModelValue::Str("alicecodes".to_string()), get_entry(payload, "username"));

    let expected = mk_json_obj(vec![
        ("_id", JsonValue::Str("1234".to_string())),
        ("name", JsonValue::Str("Alice".to_string())),
        ("age", JsonValue::Int(42)),
        (
            "platform",
            mk_json_obj(vec![
                ("platform", JsonValue::Str("github".to_string())),
                ("username", JsonValue::Str("alicecodes".to_string())),
            ]),
        ),
    ]);
    assert_eq!(expected, encode(&user));
}
