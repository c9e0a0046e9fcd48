use convex_model::encode::encode;
use convex_model::model::{ConvexField, ConvexType};
use convex_model::values::{ConvexValue, JsonValue, ModelValue};

fn uobj(entries: Vec<(&str, ConvexValue)>) -> ConvexValue {
    ConvexValue::Object(entries.into_iter().map(|(k, v)| (k.to_string(), v)).collect())
}

fn ujson(entries: Vec<(&str, JsonValue)>) -> JsonValue {
    JsonValue::Object(entries.into_iter().map(|(k, v)| (k.to_string(), v)).collect())
}

fn uget<'a>(m: &'a ModelValue, key: &str) -> &'a ModelValue {
    match m {
        ModelValue::Record(entries) => &entries.iter().find(|e| e.0 == key).expect("no such field").1,
        _ => panic!("not a record"),
    }
}

fn uschema_field<'a>(schema: &'a ConvexField, id: &str) -> &'a ConvexField {
    match &schema.t {
        ConvexType::Object(fields) => {
            fields.iter().find(|f| f.name.id == id).expect("no such schema field")
        },
        _ => panic!("schema root is not an object"),
    }
}

#[test]
fn basic_discriminated() {
    let schema = ConvexField::parse(
        "Model {
            a: v.union(
                v.object({
                    t: v.literal(\"one\"),
                    value: v.int64(),
                }),
                v.object({
                    t: v.literal(\"two\"),
                    value: v.string(),
                }),
            ),
        }",
    )
    .expect("schema should parse");
    let a_field = uschema_field(&schema, "a");

    let convex_data = uobj(vec![(
        "a",
        uobj(vec![
            ("t", ConvexValue::Str("one".to_string())),
            ("value", ConvexValue::Int64(42)),
        ]),
    )]);
    let json_data = ujson(vec![(
        "a",
        ujson(vec![
            ("t", JsonValue::Str("one".to_string())),
            ("value", JsonValue::Int(42)),
        ]),
    )]);

    let model = schema.from_convex_value(&convex_data);
    assert!(model.is_ok());
    let model = model.unwrap();
    let a = a_field.as_variant(uget(&model, "a"), 1).unwrap();
    assert_eq!(&ModelValue::Str("one".to_string()), uget(a, "t"));
    assert_eq!(&ModelValue::Int(42), uget(a, "value"));
    assert_eq!(json_data, encode(&model));

    let convex_data = uobj(vec![(
        "a",
        uobj(vec![
            ("t", ConvexValue::Str("two".to_string())),
            ("value", ConvexValue::Str("something".to_string())),
        ]),
    )]);
    let json_data = ujson(vec![(
        "a",
        ujson(vec![
            ("t", JsonValue::Str("two".to_string())),
            ("value", JsonValue::Str("something".to_string())),
        ]),
    )]);

    let model = schema.from_convex_value(&convex_data);
    assert!(model.is_ok());
    let model = model.unwrap();
    let a = a_field.as_variant(uget(&model, "a"), 2).unwrap();
    assert_eq!(&ModelValue::Str("two".to_string()), uget(a, "t"));
    assert_eq!(&ModelValue::Str("something".to_string()), uget(a, "value"));
    assert_eq!(json_data, encode(&model));
}

#[test]
fn wrong_variant_accessor() {
    let schema = ConvexField::parse(
        "Model {
            a: v.union(
                v.object({
                    t: v.literal(\"one\"),
                    value: v.int64(),
                }),
                v.object({
                    t: v.literal(\"two\"),
                    value: v.string(),
                }),
            ),
        }",
    )
    .expect("schema should parse");
    let a_field = uschema_field(&schema, "a");

    let convex_data = uobj(vec![(
        "a",
        uobj(vec![
            ("t", ConvexValue::Str("one".to_string())),
            ("value", ConvexValue::Int64(42)),
        ]),
    )]);
    let model = schema.from_convex_value(&convex_data).expect("should decode");
    let a = uget(&model, "a");

    assert!(a_field.as_variant(a, 1).is_ok());
    let err = a_field.as_variant(a, 2).expect_err("wrong variant must fail");
    assert_eq!("ModelA", err.union_name);
    assert_eq!(2, err.variant);
}

#[test]
fn union_no_branch_matched() {
    let schema = ConvexField::parse("Model { a: v.union(v.string(), v.boolean()) }")
        .expect("schema should parse");

    let model = schema.from_convex_value(&uobj(vec![("a", ConvexValue::Null)]));
    let err = model.expect_err("no branch accepts null here");
    assert_eq!(vec!["Model".to_string(), "a".to_string()], err.path);
    assert_eq!(convex_model::decode::Expected::UnionMatch, err.expected);
}

#[test]
fn union_branch_order_wins() {
    let schema = ConvexField::parse("Model { a: v.union(v.int64(), v.number()) }")
        .expect("schema should parse");

    let model = schema
        .from_convex_value(&uobj(vec![("a", ConvexValue::Float64(3.5f64.to_bits()))]))
        .expect("should decode");
    assert_eq!(
        &ModelValue::Variant(1, Box::new(ModelValue::Int(3))),
        uget(&model, "a"),
    );
}
