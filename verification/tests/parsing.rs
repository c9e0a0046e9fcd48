use convex_model::model::{ConvexField, ConvexName, ConvexType};
use convex_model::names::capitalize_first_char;
use convex_model::parse::ParseErrorKind;

fn kind_of(input: &str) -> ParseErrorKind {
    ConvexField::parse(input).expect_err("input should be rejected").kind
}

#[test]
fn parse_builds_the_type_model() {
    let schema = ConvexField::parse(
        "User { _id: v.id(\"users\"), age: v.optional(v.int64()) }",
    )
    .expect("schema should parse");

    assert_eq!("User", schema.name.id);
    assert!(schema.name.path.is_empty());
    match &schema.t {
        ConvexType::Object(fields) => {
            assert_eq!(2, fields.len());
            assert_eq!("_id", fields[0].name.id);
            assert_eq!(vec!["User".to_string()], fields[0].name.path);
            match &fields[0].t {
                ConvexType::Id(table) => assert_eq!("users", table),
                _ => panic!("expected an id type"),
            }
            match &fields[1].t {
                ConvexType::Optional(inner) => {
                    assert_eq!("age", inner.name.id);
                    assert!(matches!(inner.t, ConvexType::Int64));
                },
                _ => panic!("expected an optional type"),
            }
        },
        _ => panic!("root must be an object"),
    }
}

#[test]
fn parse_rejects_malformed_schemas() {
    assert_eq!(ParseErrorKind::UnionArity, kind_of("M { a: v.union(v.string()) }"));
    assert_eq!(
        ParseErrorKind::BadUnionBranch,
        kind_of("M { a: v.union(v.optional(v.string()), v.null()) }"),
    );
    assert_eq!(
        ParseErrorKind::BadUnionBranch,
        kind_of("M { a: v.union(v.union(v.string(), v.null()), v.null()) }"),
    );
    assert_eq!(ParseErrorKind::UnknownMethod, kind_of("M { a: v.float() }"));
    assert_eq!(ParseErrorKind::ExpectedStringLit, kind_of("M { a: v.id(42) }"));
    assert_eq!(ParseErrorKind::UnsupportedLiteral, kind_of("M { a: v.literal(v) }"));
    assert_eq!(ParseErrorKind::ExpectedV, kind_of("M { a: w.string() }"));
    assert_eq!(ParseErrorKind::ExpectedColon, kind_of("M { a v.string() }"));
    assert_eq!(ParseErrorKind::ExpectedComma, kind_of("M { a: v.string() b: v.null() }"));
    assert_eq!(ParseErrorKind::UnexpectedEnd, kind_of("M { a: v.string()"));
    assert_eq!(ParseErrorKind::TrailingInput, kind_of("M { a: v.string() } extra"));
    assert_eq!(ParseErrorKind::BadChar, kind_of("M { a: v.string(); }"));
    assert_eq!(ParseErrorKind::UnterminatedString, kind_of("M { a: v.id(\"users) }"));
    assert_eq!(ParseErrorKind::IntOutOfRange, kind_of("M { a: v.literal(99999999999999999999) }"));
    assert_eq!(ParseErrorKind::ExpectedIdent, kind_of("{ a: v.string() }"));
    assert_eq!(ParseErrorKind::ExpectedDot, kind_of("M { a: v string() }"));
    assert_eq!(ParseErrorKind::ExpectedLParen, kind_of("M { a: v.string{} }"));
    assert_eq!(ParseErrorKind::ExpectedRParen, kind_of("M { a: v.string(42) }"));
    assert_eq!(ParseErrorKind::ExpectedLBrace, kind_of("M ( a: v.string() )"));
    assert_eq!(ParseErrorKind::BadEscape, kind_of("M { a: v.literal(\"x\\qy\") }"));
}

#[test]
fn string_literal_escapes() {
    let schema = ConvexField::parse("M { a: v.literal(\"say \\\"hi\\\"\\n\") }")
        .expect("escaped quotes and newlines parse");
    match &schema.t {
        ConvexType::Object(fields) => match &fields[0].t {
            ConvexType::StringLiteral(lit) => assert_eq!("say \"hi\"\n", lit),
            _ => panic!("expected a string literal"),
        },
        _ => panic!("root must be an object"),
    }
}

#[test]
fn unicode_identifiers_and_capitalization() {
    assert_eq!("Épée", capitalize_first_char("épée"));
    assert_eq!("SSail", capitalize_first_char("ßail"));

    let schema = ConvexField::parse("Modèle { prénom: v.string() }")
        .expect("non-ASCII identifiers parse");
    match &schema.t {
        ConvexType::Object(fields) => {
            assert_eq!("prénom", fields[0].name.id);
            assert_eq!("ModèlePrénom", fields[0].name.to_struct_name());
        },
        _ => panic!("root must be an object"),
    }
}

#[test]
fn parse_accepts_trailing_commas() {
    let schema = ConvexField::parse("M { a: v.string(), b: v.union(v.null(), v.boolean(),), }")
        .expect("trailing commas are allowed");
    match &schema.t {
        ConvexType::Object(fields) => assert_eq!(2, fields.len()),
        _ => panic!("root must be an object"),
    }
}

#[test]
fn name_resolution() {
    assert_eq!("Apple", capitalize_first_char("apple"));
    assert_eq!("Apple", capitalize_first_char("Apple"));
    assert_eq!("_id", capitalize_first_char("_id"));
    assert_eq!("", capitalize_first_char(""));

    let name = ConvexName {
        path: vec!["user".to_string(), "platform".to_string()],
        id: "username".to_string(),
    };
    assert_eq!(
        vec!["user".to_string(), "platform".to_string(), "username".to_string()],
        name.full_path(),
    );
    assert_eq!("UserPlatformUsername", name.to_struct_name());
    assert_eq!("username", name.to_field_name());

    let copy = name.duplicate();
    assert_eq!(name.to_struct_name(), copy.to_struct_name());
}

#[test]
fn nested_names_are_fully_qualified() {
    let schema = ConvexField::parse(
        "User { platform: v.union(v.object({ verified: v.boolean() }), v.null()) }",
    )
    .expect("schema should parse");
    match &schema.t {
        ConvexType::Object(fields) => {
            let platform = &fields[0];
            assert_eq!("UserPlatform", platform.name.to_struct_name());
            match &platform.t {
                ConvexType::Union(branches) => match &branches[0] {
                    ConvexType::Object(inner) => {
                        assert_eq!(
                            vec!["User".to_string(), "platform".to_string()],
                            inner[0].name.path,
                        );
                        assert_eq!("UserPlatformVerified", inner[0].name.to_struct_name());
                    },
                    _ => panic!("expected an object branch"),
                },
                _ => panic!("expected a union"),
            }
        },
        _ => panic!("root must be an object"),
    }
}
