use shape_schema::defs::Definitions;
use shape_schema::node::{Property, SchemaError, Type, TypeFormat, TypeOrTypes};
use shape_schema::schema;
use shape_schema::shape::{Def, NumberBits, ScalarAffinity, Shape, Signedness, StructKind, StructField};
use shape_schema::Schema;

fn scalar(name: &str, aff: ScalarAffinity) -> Shape {
    Shape { name: String::from(name), def: Def::Scalar(aff) }
}

fn int_shape(name: &str, bits: u32, sign: Signedness) -> Shape {
    scalar(name, ScalarAffinity::Number(NumberBits::Integer { bits, sign }))
}

fn string_shape() -> Shape {
    scalar("String", ScalarAffinity::String)
}

fn bool_shape() -> Shape {
    scalar("bool", ScalarAffinity::Boolean)
}

fn field(name: &str, shape: Shape) -> StructField {
    StructField { name: String::from(name), shape: Box::new(shape) }
}

fn plain_struct(name: &str, fields: Vec<StructField>) -> Shape {
    Shape { name: String::from(name), def: Def::Struct(StructKind::Struct, fields) }
}

fn option_of(name: &str, inner: Shape) -> Shape {
    Shape { name: String::from(name), def: Def::OptionOf(Box::new(inner)) }
}

fn leaf(t: Type, format: Option<TypeFormat>) -> Property {
    Property::Type {
        type_: TypeOrTypes::Type(t),
        format,
        required: vec![],
        properties: None,
        minimum: None,
        maximum: None,
    }
}

fn object_node(required: Vec<&str>, properties: Vec<(&str, Property)>) -> Property {
    Property::Type {
        type_: TypeOrTypes::Type(Type::Object),
        format: None,
        required: required.into_iter().map(String::from).collect(),
        properties: Some(
            properties.into_iter().map(|(n, p)| (String::from(n), p)).collect(),
        ),
        minimum: None,
        maximum: None,
    }
}

fn reference(name: &str) -> Property {
    Property::Ref { target: format!("#/definitions/{}", name) }
}

const SCHEMA_URI: &str = "http://json-schema.org/draft-07/schema#";

#[test]
fn test_simple_struct() {
    let shape = plain_struct(
        "WowSoTest",
        vec![
            field("much", string_shape()),
            field("tdd", bool_shape()),
            field("is", int_shape("i8", 8, Signedness::Signed)),
            field("happening", int_shape("usize", 64, Signedness::Unsigned)),
        ],
    );
    let expected = Schema {
        schema: SCHEMA_URI,
        title: String::from("WowSoTest"),
        root_property: object_node(
            vec!["much", "tdd", "is", "happening"],
            vec![
                ("much", leaf(Type::String, None)),
                ("tdd", leaf(Type::Boolean, None)),
                ("is", leaf(Type::Integer, Some(TypeFormat::Int8))),
                ("happening", leaf(Type::Integer, Some(TypeFormat::Uint64))),
            ],
        ),
        definitions: Definitions::new(),
    };
    assert_eq!(schema(&shape).unwrap(), expected);
}

#[test]
fn test_nested_struct() {
    let inner = plain_struct(
        "InnerWowSoTest",
        vec![field("payload", int_shape("i32", 32, Signedness::Signed))],
    );
    let shape = plain_struct(
        "WowSoTest",
        vec![field("outer", int_shape("i32", 32, Signedness::Signed)), field("inner", inner)],
    );
    let mut definitions = Definitions::new();
    definitions.insert(
        String::from("InnerWowSoTest"),
        object_node(
            vec!["payload"],
            vec![("payload", leaf(Type::Integer, Some(TypeFormat::Int32)))],
        ),
    );
    let expected = Schema {
        schema: SCHEMA_URI,
        title: String::from("WowSoTest"),
        root_property: object_node(
            vec!["outer", "inner"],
            vec![
                ("outer", leaf(Type::Integer, Some(TypeFormat::Int32))),
                ("inner", reference("InnerWowSoTest")),
            ],
        ),
        definitions,
    };
    assert_eq!(schema(&shape).unwrap(), expected);
}

#[test]
fn test_double_nested_struct() {
    let inner_inner = plain_struct(
        "InnerInnerWowSoTest",
        vec![field("payload2", int_shape("i32", 32, Signedness::Signed))],
    );
    let inner = plain_struct(
        "InnerWowSoTest",
        vec![
            field("payload", int_shape("i32", 32, Signedness::Signed)),
            field("subinner", inner_inner),
        ],
    );
    let shape = plain_struct(
        "WowSoTest",
        vec![field("outer", int_shape("i32", 32, Signedness::Signed)), field("inner", inner)],
    );
    let mut definitions = Definitions::new();
    definitions.insert(
        String::from("InnerWowSoTest"),
        object_node(
            vec!["payload", "subinner"],
            vec![
                ("payload", leaf(Type::Integer, Some(TypeFormat::Int32))),
                ("subinner", reference("InnerInnerWowSoTest")),
            ],
        ),
    );
    definitions.insert(
        String::from("InnerInnerWowSoTest"),
        object_node(
            vec!["payload2"],
            vec![("payload2", leaf(Type::Integer, Some(TypeFormat::Int32)))],
        ),
    );
    let expected = Schema {
        schema: SCHEMA_URI,
        title: String::from("WowSoTest"),
        root_property: object_node(
            vec!["outer", "inner"],
            vec![
                ("outer", leaf(Type::Integer, Some(TypeFormat::Int32))),
                ("inner", reference("InnerWowSoTest")),
            ],
        ),
        definitions,
    };
    assert_eq!(schema(&shape).unwrap(), expected);
}

#[test]
fn test_option_fields() {
    let inner_inner = plain_struct(
        "InnerInnerWowSoTest",
        vec![field("payload", int_shape("i32", 32, Signedness::Signed))],
    );
    let inner = plain_struct(
        "InnerWowSoTest",
        vec![field(
            "subinner",
            option_of("Option<InnerInnerWowSoTest>", inner_inner),
        )],
    );
    let shape = plain_struct(
        "WowSoTest",
        vec![
            field("needed", int_shape("i32", 32, Signedness::Signed)),
            field(
                "nice_to_have",
                option_of("Option<i32>", int_shape("i32", 32, Signedness::Signed)),
            ),
            field("nested", inner),
        ],
    );
    let subinner_union = Property::AnyOf {
        any_of: vec![reference("InnerInnerWowSoTest"), leaf(Type::Null, None)],
    };
    let mut definitions = Definitions::new();
    definitions.insert(
        String::from("InnerWowSoTest"),
        object_node(vec![], vec![("subinner", subinner_union)]),
    );
    definitions.insert(
        String::from("InnerInnerWowSoTest"),
        object_node(
            vec!["payload"],
            vec![("payload", leaf(Type::Integer, Some(TypeFormat::Int32)))],
        ),
    );
    let widened = Property::Type {
        type_: TypeOrTypes::Types(vec![Type::Integer, Type::Null]),
        format: Some(TypeFormat::Int32),
        required: vec![],
        properties: None,
        minimum: None,
        maximum: None,
    };
    let expected = Schema {
        schema: SCHEMA_URI,
        title: String::from("WowSoTest"),
        root_property: object_node(
            vec!["needed", "nested"],
            vec![
                ("needed", leaf(Type::Integer, Some(TypeFormat::Int32))),
                ("nice_to_have", widened),
                ("nested", reference("InnerWowSoTest")),
            ],
        ),
        definitions,
    };
    assert_eq!(schema(&shape).unwrap(), expected);
}

#[test]
fn required_lists_only_non_optional_fields() {
    let shape = plain_struct(
        "WowSoTest",
        vec![
            field("needed", int_shape("i32", 32, Signedness::Signed)),
            field(
                "maybe",
                option_of("Option<i32>", int_shape("i32", 32, Signedness::Signed)),
            ),
        ],
    );
    let doc = schema(&shape).unwrap();
    match doc.root_property {
        Property::Type { required, .. } => assert_eq!(required, vec![String::from("needed")]),
        _ => panic!("expected an object node"),
    }
}

#[test]
fn analysis_is_deterministic() {
    let make = || {
        plain_struct(
            "WowSoTest",
            vec![
                field("much", string_shape()),
                field(
                    "maybe",
                    option_of("Option<i32>", int_shape("i32", 32, Signedness::Signed)),
                ),
            ],
        )
    };
    let shape = make();
    let first = schema(&shape).unwrap();
    let second = schema(&shape).unwrap();
    assert_eq!(first, second);
    let rebuilt = make();
    assert_eq!(schema(&rebuilt).unwrap(), first);
}

#[test]
fn primitive_formats() {
    let cases: Vec<(Shape, Type, TypeFormat)> = vec![
        (int_shape("i8", 8, Signedness::Signed), Type::Integer, TypeFormat::Int8),
        (int_shape("u64", 64, Signedness::Unsigned), Type::Integer, TypeFormat::Uint64),
        (int_shape("i128", 128, Signedness::Signed), Type::Integer, TypeFormat::Int128),
        (int_shape("odd", 24, Signedness::Signed), Type::Integer, TypeFormat::Int),
        (int_shape("odd_u", 24, Signedness::Unsigned), Type::Integer, TypeFormat::Uint),
        (
            scalar(
                "f32",
                ScalarAffinity::Number(NumberBits::Float {
                    sign_bits: 1,
                    exponent_bits: 8,
                    mantissa_bits: 23,
                }),
            ),
            Type::Number,
            TypeFormat::Float,
        ),
        (
            scalar(
                "f64",
                ScalarAffinity::Number(NumberBits::Float {
                    sign_bits: 1,
                    exponent_bits: 11,
                    mantissa_bits: 52,
                }),
            ),
            Type::Number,
            TypeFormat::Double,
        ),
    ];
    for (shape, t, fmt) in cases {
        let doc = schema(&shape).unwrap();
        assert_eq!(doc.root_property, leaf(t, Some(fmt)));
    }
}

#[test]
fn option_over_scalar_widens() {
    let shape = option_of("Option<i32>", int_shape("i32", 32, Signedness::Signed));
    let doc = schema(&shape).unwrap();
    assert_eq!(
        doc.root_property,
        Property::Type {
            type_: TypeOrTypes::Types(vec![Type::Integer, Type::Null]),
            format: Some(TypeFormat::Int32),
            required: vec![],
            properties: None,
            minimum: None,
            maximum: None,
        },
    );
    assert!(doc.definitions.is_empty());
}

#[test]
fn option_over_option_deduplicates() {
    let shape = option_of(
        "Option<Option<i32>>",
        option_of("Option<i32>", int_shape("i32", 32, Signedness::Signed)),
    );
    let doc = schema(&shape).unwrap();
    assert_eq!(
        doc.root_property,
        Property::Type {
            type_: TypeOrTypes::Types(vec![Type::Integer, Type::Null]),
            format: Some(TypeFormat::Int32),
            required: vec![],
            properties: None,
            minimum: None,
            maximum: None,
        },
    );
}

#[test]
fn option_over_struct_promotes() {
    let inner = plain_struct(
        "InnerStruct",
        vec![field("payload", int_shape("i32", 32, Signedness::Signed))],
    );
    let shape = option_of("Option<InnerStruct>", inner);
    let doc = schema(&shape).unwrap();
    assert_eq!(
        doc.root_property,
        Property::AnyOf { any_of: vec![reference("InnerStruct"), leaf(Type::Null, None)] },
    );
    assert_eq!(doc.definitions.len(), 1);
    let registered = doc.definitions.get(&String::from("InnerStruct")).unwrap();
    assert_eq!(
        *registered,
        object_node(
            vec!["payload"],
            vec![("payload", leaf(Type::Integer, Some(TypeFormat::Int32)))],
        ),
    );
}

#[test]
fn empty_definitions_pool_is_reported_empty() {
    let shape = plain_struct(
        "WowSoTest",
        vec![field("much", string_shape()), field("tdd", bool_shape())],
    );
    let doc = schema(&shape).unwrap();
    assert!(doc.definitions.is_empty());
    assert_eq!(doc.definitions.len(), 0);
}

#[test]
fn list_and_map_are_coarse() {
    let list = Shape {
        name: String::from("Vec<i32>"),
        def: Def::ListOf(Box::new(int_shape("i32", 32, Signedness::Signed))),
    };
    let map = Shape {
        name: String::from("HashMap<String, i32>"),
        def: Def::MapOf(Box::new(int_shape("i32", 32, Signedness::Signed))),
    };
    assert_eq!(schema(&list).unwrap().root_property, leaf(Type::Array, None));
    assert_eq!(schema(&map).unwrap().root_property, leaf(Type::Object, None));
}

#[test]
fn unsupported_inputs_report_the_type() {
    let tuple_struct = Shape {
        name: String::from("Wrapper"),
        def: Def::Struct(
            StructKind::TupleStruct,
            vec![field("0", int_shape("i32", 32, Signedness::Signed))],
        ),
    };
    assert_eq!(
        schema(&tuple_struct).unwrap_err(),
        SchemaError::UnsupportedStructKind { name: String::from("Wrapper") },
    );

    let tuple = Shape {
        name: String::from("(i32, i32)"),
        def: Def::Struct(StructKind::Tuple, vec![]),
    };
    assert_eq!(
        schema(&tuple).unwrap_err(),
        SchemaError::UnsupportedStructKind { name: String::from("(i32, i32)") },
    );

    let enum_shape = Shape { name: String::from("Choice"), def: Def::Enum };
    assert_eq!(
        schema(&enum_shape).unwrap_err(),
        SchemaError::UnsupportedEnum { name: String::from("Choice") },
    );

    let fixed = scalar(
        "Fixed16",
        ScalarAffinity::Number(NumberBits::Fixed {
            sign_bits: 1,
            integer_bits: 7,
            fraction_bits: 8,
        }),
    );
    assert_eq!(
        schema(&fixed).unwrap_err(),
        SchemaError::UnsupportedNumber { name: String::from("Fixed16") },
    );

    let odd_float = scalar(
        "f16",
        ScalarAffinity::Number(NumberBits::Float {
            sign_bits: 1,
            exponent_bits: 5,
            mantissa_bits: 10,
        }),
    );
    assert_eq!(
        schema(&odd_float).unwrap_err(),
        SchemaError::UnsupportedNumber { name: String::from("f16") },
    );

    for (name, aff) in [
        ("()", ScalarAffinity::Empty),
        ("SocketAddr", ScalarAffinity::SocketAddr),
        ("IpAddr", ScalarAffinity::IpAddr),
        ("Opaque", ScalarAffinity::Opaque),
        ("Mystery", ScalarAffinity::Other),
    ] {
        assert_eq!(
            schema(&scalar(name, aff)).unwrap_err(),
            SchemaError::UnsupportedScalar { name: String::from(name) },
        );
    }
}

#[test]
fn error_in_a_field_aborts_the_whole_derivation() {
    let shape = plain_struct(
        "Holder",
        vec![
            field("fine", int_shape("i32", 32, Signedness::Signed)),
            field("bad", Shape { name: String::from("Choice"), def: Def::Enum }),
        ],
    );
    assert_eq!(
        schema(&shape).unwrap_err(),
        SchemaError::UnsupportedEnum { name: String::from("Choice") },
    );
}

#[test]
fn type_field_tag_list() {
    assert_eq!(TypeOrTypes::Type(Type::Integer).into_tags(), vec![Type::Integer]);
    assert_eq!(
        TypeOrTypes::Types(vec![Type::Integer, Type::Null]).into_tags(),
        vec![Type::Integer, Type::Null],
    );
}

#[test]
fn title_and_version_marker() {
    let doc = schema(&string_shape()).unwrap();
    assert_eq!(doc.schema, SCHEMA_URI);
    assert_eq!(doc.title, String::from("String"));
}
