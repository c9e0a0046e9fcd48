use convex_model::encode::encode;
use convex_model::model::ConvexField;
use convex_model::values::{ConvexValue, JsonValue, ModelValue};

fn sobj(entries: Vec<(&str, ConvexValue)>) -> ConvexValue {
    ConvexValue::Object(entries.into_iter().map(|(k, v)| (k.to_string(), v)).collect())
}

fn sjson(entries: Vec<(&str, JsonValue)>) -> JsonValue {
    JsonValue::Object(entries.into_iter().map(|(k, v)| (k.to_string(), v)).collect())
}

fn sget<'a>(m: &'a ModelValue, key: &str) -> &'a ModelValue {
    match m {
        ModelValue::Record(entries) => &entries.iter().find(|e| e.0 == key).expect("no such field").1,
        _ => panic!("not a record"),
    }
}

#[test]
fn basic_string() {
    let schema = ConvexField::parse("Model { a: v.string() }").expect("schema should parse");
    let convex_data = sobj(vec![("a", ConvexValue::Str("apple".to_string()))]);
    let json_data = sjson(vec![("a", JsonValue::Str("apple".to_string()))]);

    let model = schema.from_convex_value(&convex_data);
    assert!(model.is_ok());
    let model = model.unwrap();
    assert_eq!(&ModelValue::Str("apple".to_string()), sget(&model, "a"));
    assert_eq!(json_data, encode(&model));
}

#[test]
fn basic_string_negative() {
    let schema = ConvexField::parse("Model { a: v.string() }").expect("schema should parse");

    let model = schema.from_convex_value(&sobj(vec![("a", ConvexValue::Int64(42))]));
    assert!(model.is_err());

    let model = schema.from_convex_value(&sobj(vec![("b", ConvexValue::Str("apple".to_string()))]));
    assert!(model.is_err());
}

#[test]
fn basic_id() {
    let schema = ConvexField::parse("Model { a: v.id(\"apples\") }").expect("schema should parse");
    let convex_data = sobj(vec![("a", ConvexValue::Str("1234".to_string()))]);
    let json_data = sjson(vec![("a", JsonValue::Str("1234".to_string()))]);

    let model = schema.from_convex_value(&convex_data);
    assert!(model.is_ok());
    let model = model.unwrap();
    assert_eq!(&ModelValue::Str("1234".to_string()), sget(&model, "a"));
    assert_eq!(json_data, encode(&model));
}

#[test]
fn basic_id_negative() {
    let schema = ConvexField::parse("Model { a: v.id(\"apples\") }").expect("schema should parse");

    let model = schema.from_convex_value(&sobj(vec![("a", ConvexValue::Int64(42))]));
    assert!(model.is_err());

    let model = schema.from_convex_value(&sobj(vec![("b", ConvexValue::Str("apple".to_string()))]));
    assert!(model.is_err());
}

#[test]
fn basic_string_literal() {
    let schema = ConvexField::parse("Model { a: v.literal(\"apples\") }")
        .expect("schema should parse");
    let convex_data = sobj(vec![("a", ConvexValue::Str("apples".to_string()))]);
    let json_data = sjson(vec![("a", JsonValue::Str("apples".to_string()))]);

    let model = schema.from_convex_value(&convex_data);
    assert!(model.is_ok());
    let model = model.unwrap();
    assert_eq!(&ModelValue::Str("apples".to_string()), sget(&model, "a"));
    assert_eq!(json_data, encode(&model));
}

#[test]
fn basic_string_literal_negative() {
    let schema = ConvexField::parse("Model { a: v.literal(\"apples\") }")
        .expect("schema should parse");

    let model = schema.from_convex_value(&sobj(vec![
        ("a", ConvexValue::Str("not-apple".to_string())),
    ]));
    assert!(model.is_err());

    let model = schema.from_convex_value(&sobj(vec![("a", ConvexValue::Int64(42))]));
    assert!(model.is_err());

    let model = schema.from_convex_value(&sobj(vec![("b", ConvexValue::Str("apple".to_string()))]));
    assert!(model.is_err());
}

#[test]
fn basic_optional_string() {
    let schema = ConvexField::parse("Model { a: v.optional(v.string()) }")
        .expect("schema should parse");

    let convex_data = sobj(vec![("a", ConvexValue::Str("apples".to_string()))]);
    let json_data = sjson(vec![("a", JsonValue::Str("apples".to_string()))]);

    let model = schema.from_convex_value(&convex_data);
    assert!(model.is_ok());
    let model = model.unwrap();
    assert_eq!(
        &ModelValue::Present(Box::new(ModelValue::Str("apples".to_string()))),
        sget(&model, "a"),
    );
    assert_eq!(json_data, encode(&model));

    let convex_data = sobj(vec![("a", ConvexValue::Null)]);
    let json_data = sjson(vec![("a", JsonValue::Null)]);

    let model = schema.from_convex_value(&convex_data);
    assert!(model.is_ok());
    let model = model.unwrap();
    assert_eq!(&ModelValue::Absent, sget(&model, "a"));
    assert_eq!(json_data, encode(&model));
}

#[test]
fn basic_string_union() {
    let schema = ConvexField::parse(
        "Model { a: v.union(v.literal(\"apples\"), v.literal(\"banana\")) }",
    )
    .expect("schema should parse");

    let convex_data = sobj(vec![("a", ConvexValue::Str("apples".to_string()))]);
    let json_data = sjson(vec![("a", JsonValue::Str("apples".to_string()))]);

    let model = schema.from_convex_value(&convex_data);
    assert!(model.is_ok());
    let model = model.unwrap();
    assert_eq!(
        &ModelValue::Variant(1, Box::new(ModelValue::Str("apples".to_string()))),
        sget(&model, "a"),
    );
    assert_eq!(json_data, encode(&model));

    let convex_data = sobj(vec![("a", ConvexValue::Str("banana".to_string()))]);
    let json_data = sjson(vec![("a", JsonValue::Str("banana".to_string()))]);

    let model = schema.from_convex_value(&convex_data);
    assert!(model.is_ok());
    let model = model.unwrap();
    assert_eq!(
        &ModelValue::Variant(2, Box::new(ModelValue::Str("banana".to_string()))),
        sget(&model, "a"),
    );
    assert_eq!(json_data, encode(&model));
}
