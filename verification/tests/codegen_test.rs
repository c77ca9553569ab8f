use convex_typegen::codegen::{declare_all, generate_code, generate_rust_types};
use convex_typegen::declarations::{render, Body, Member, NamedType, TypeRef};
use convex_typegen::errors::ConvexTypeGeneratorError;
use convex_typegen::generate;
use convex_typegen::syntax::SourceFile;
use convex_typegen::types::{
    Field, FunctionArgSet, LiteralValue, RecordKey, ScalarKind, Schema, Table, TypeNode,
};

fn field(name: &str, ty: TypeNode) -> Field {
    let optional = matches!(ty, TypeNode::Optional(_));
    Field { name: name.to_string(), ty, optional }
}

fn table(name: &str, fields: Vec<Field>) -> Table {
    Table { name: name.to_string(), fields, has_system_fields: false }
}

fn scalar(kind: ScalarKind) -> TypeNode {
    TypeNode::Scalar(kind)
}

fn text(value: &str) -> TypeNode {
    TypeNode::Literal(LiteralValue::Text(value.to_string()))
}

fn number(value: &str) -> TypeNode {
    TypeNode::Literal(LiteralValue::Number(value.to_string()))
}

fn object(fields: Vec<Field>) -> TypeNode {
    TypeNode::Object(fields)
}

const ID: &str = "#[derive(Debug, Clone, PartialEq, Eq, Hash)]\n";
const PLAIN: &str = "#[derive(Debug, Clone)]\n";
const CONSTANTS: &str = "#[derive(Debug, Clone, Copy, PartialEq, Eq)]\n";

fn generated(source: &str) -> Result<String, ConvexTypeGeneratorError> {
    generate(Some(SourceFile { path: "schema.ts".to_string(), text: source.to_string() }), Vec::new())
        .map(|generated| generated.text)
}

#[test]
fn nothing_to_declare() {
    assert_eq!(generate_rust_types(&Vec::new()), "");
    assert_eq!(render(&Vec::new()), "");
}

#[test]
fn each_scalar_has_a_primitive_of_its_own() {
    let out = generate_rust_types(&vec![table(
        "t",
        vec![
            field("a", scalar(ScalarKind::String)),
            field("b", scalar(ScalarKind::Number)),
            field("c", scalar(ScalarKind::Boolean)),
            field("d", scalar(ScalarKind::Bytes)),
            field("e", scalar(ScalarKind::Null)),
            field("f", scalar(ScalarKind::Any)),
            field("g", scalar(ScalarKind::Int64)),
        ],
    )]);
    let expected = format!(
        "{ID}pub struct TId(pub String);\n\n{PLAIN}pub struct T {{\n    pub a: String,\n    pub b: f64,\n    pub c: bool,\n    pub d: Vec<u8>,\n    pub e: (),\n    pub f: serde_json::Value,\n    pub g: i64,\n}}\n\n"
    );
    assert_eq!(out, expected);
    let primitives = ["String", "f64", "bool", "Vec<u8>", "()", "serde_json::Value", "i64"];
    for (i, a) in primitives.iter().enumerate() {
        for b in primitives.iter().skip(i + 1) {
            assert_ne!(a, b);
        }
    }
}

#[test]
fn wrappers_and_single_literals_are_written_in_place() {
    let out = generate_rust_types(&vec![table(
        "t",
        vec![
            field("a", TypeNode::Optional(Box::new(TypeNode::Array(Box::new(scalar(ScalarKind::Number)))))),
            field("b", TypeNode::Array(Box::new(TypeNode::Optional(Box::new(scalar(ScalarKind::String)))))),
            field("c", text("fixed")),
            field("d", number("3")),
            field("e", TypeNode::Literal(LiteralValue::Boolean(false))),
        ],
    )]);
    let expected = format!(
        "{ID}pub struct TId(pub String);\n\n{PLAIN}pub struct T {{\n    pub a: Option<Vec<f64>>,\n    pub b: Vec<Option<String>>,\n    pub c: String,\n    pub d: f64,\n    pub e: bool,\n}}\n\n"
    );
    assert_eq!(out, expected);
}

#[test]
fn union_is_a_sum_over_its_variants() {
    let out = generate_rust_types(&vec![table(
        "t",
        vec![field(
            "k",
            TypeNode::Union(vec![
                scalar(ScalarKind::String),
                object(vec![field("a", scalar(ScalarKind::Boolean))]),
                text("x"),
            ]),
        )],
    )]);
    let expected = format!(
        "{ID}pub struct TId(pub String);\n\n{PLAIN}pub struct TKVariant2 {{\n    pub a: bool,\n}}\n\n{PLAIN}pub enum TK {{\n    Variant1(String),\n    Variant2(TKVariant2),\n    Variant3(String),\n}}\n\n{PLAIN}pub struct T {{\n    pub k: TK,\n}}\n\n"
    );
    assert_eq!(out, expected);
}

#[test]
fn literals_of_one_kind_are_constants() {
    let out = generate_rust_types(&vec![table(
        "t",
        vec![
            field("s", TypeNode::Union(vec![text("a"), text("A"), text("a-b"), text("9"), text("a")])),
            field("n", TypeNode::Union(vec![number("1.5"), number("-2"), number("1_5")])),
            field(
                "b",
                TypeNode::Union(vec![
                    TypeNode::Literal(LiteralValue::Boolean(true)),
                    TypeNode::Literal(LiteralValue::Boolean(false)),
                ]),
            ),
            field("m", TypeNode::Union(vec![text("a"), number("1")])),
        ],
    )]);
    let expected = format!(
        "{ID}pub struct TId(pub String);\n\n{CONSTANTS}pub enum TS {{\n    A,\n    A2,\n    AB,\n    T9,\n    A3,\n}}\n\n{CONSTANTS}pub enum TN {{\n    N1_5,\n    N_2,\n    N1_52,\n}}\n\n{CONSTANTS}pub enum TB {{\n    True,\n    False,\n}}\n\n{PLAIN}pub enum TM {{\n    Variant1(String),\n    Variant2(f64),\n}}\n\n{PLAIN}pub struct T {{\n    pub s: TS,\n    pub n: TN,\n    pub b: TB,\n    pub m: TM,\n}}\n\n"
    );
    assert_eq!(out, expected);
}

#[test]
fn three_string_literals_are_three_constants_in_order() {
    let out = generate_rust_types(&vec![table("t", vec![field("k", TypeNode::Union(vec![text("a"), text("b"), text("c")]))])]);
    assert!(out.contains(&format!("{CONSTANTS}pub enum TK {{\n    A,\n    B,\n    C,\n}}\n\n")));
    assert!(!out.contains("Variant"));
}

#[test]
fn records_are_mappings() {
    let out = generate_rust_types(&vec![
        table(
            "t",
            vec![
                field("a", TypeNode::Record(RecordKey::String, Box::new(scalar(ScalarKind::Number)))),
                field("b", TypeNode::Record(RecordKey::Number, Box::new(object(vec![])))),
                field("c", TypeNode::Record(RecordKey::Id("u".to_string()), Box::new(scalar(ScalarKind::Any)))),
                field("d", TypeNode::Record(RecordKey::Id("gone".to_string()), Box::new(scalar(ScalarKind::Any)))),
            ],
        ),
        table("u", vec![]),
    ]);
    let expected = format!(
        "{ID}pub struct TId(pub String);\n\npub type TA = std::collections::HashMap<String, f64>;\n\n{PLAIN}pub struct TBValue {{\n}}\n\npub type TB = std::collections::HashMap<f64, TBValue>;\n\npub type TC = std::collections::HashMap<UId, serde_json::Value>;\n\n{ID}pub struct GoneId(pub String);\n\npub type TD = std::collections::HashMap<GoneId, serde_json::Value>;\n\n{PLAIN}pub struct T {{\n    pub a: TA,\n    pub b: TB,\n    pub c: TC,\n    pub d: TD,\n}}\n\n{ID}pub struct UId(pub String);\n\n{PLAIN}pub struct U {{\n}}\n\n"
    );
    assert_eq!(out, expected);
}

#[test]
fn identifiers_of_different_tables_are_different_types() {
    let out = generate_rust_types(&vec![
        table("a", vec![field("own", TypeNode::Id("a".to_string())), field("later", TypeNode::Id("b".to_string())), field("far", TypeNode::Id("elsewhere".to_string()))]),
        table("b", vec![field("back", TypeNode::Optional(Box::new(TypeNode::Id("a".to_string()))))]),
    ]);
    let expected = format!(
        "{ID}pub struct AId(pub String);\n\n{ID}pub struct ElsewhereId(pub String);\n\n{PLAIN}pub struct A {{\n    pub own: AId,\n    pub later: BId,\n    pub far: ElsewhereId,\n}}\n\n{ID}pub struct BId(pub String);\n\n{PLAIN}pub struct B {{\n    pub back: Option<AId>,\n}}\n\n"
    );
    assert_eq!(out, expected);
}

#[test]
fn tables_that_are_not_declared_have_identifiers_of_their_own() {
    let functions = vec![FunctionArgSet {
        function_name: "f".to_string(),
        args_type: object(vec![
            field("g", TypeNode::Id("ghost".to_string())),
            field("o", TypeNode::Id("other".to_string())),
        ]),
    }];
    let schema = Schema {
        tables: vec![
            table(
                "t",
                vec![
                    field("a", TypeNode::Id("ghost".to_string())),
                    field("b", TypeNode::Array(Box::new(TypeNode::Id("Ghost".to_string())))),
                    field("c", TypeNode::Optional(Box::new(TypeNode::Id("ghost".to_string())))),
                ],
            ),
            table("ghostId", vec![]),
        ],
        unresolved: vec!["ghost".to_string(), "Ghost".to_string(), "ghost".to_string()],
    };
    let out = generate_code(&schema, &functions);
    let expected = format!(
        "{ID}pub struct TId(pub String);\n\n{ID}pub struct GhostId2(pub String);\n\n{ID}pub struct GhostId3(pub String);\n\n{PLAIN}pub struct T {{\n    pub a: GhostId2,\n    pub b: Vec<GhostId3>,\n    pub c: Option<GhostId2>,\n}}\n\n{ID}pub struct GhostIdId(pub String);\n\n{PLAIN}pub struct GhostId {{\n}}\n\n{ID}pub struct OtherId(pub String);\n\n{PLAIN}pub struct FArgs {{\n    pub g: GhostId2,\n    pub o: OtherId,\n}}\n\n"
    );
    assert_eq!(out, expected);
}

#[test]
fn nested_types_are_named_by_their_path_and_declared_first() {
    let out = generate_rust_types(&vec![table(
        "user_accounts",
        vec![field(
            "home_address",
            object(vec![
                field("geo", TypeNode::Array(Box::new(object(vec![field("lat", scalar(ScalarKind::Number))])))),
                field("street", scalar(ScalarKind::String)),
            ]),
        )],
    )]);
    let expected = format!(
        "{ID}pub struct UserAccountsId(pub String);\n\n{PLAIN}pub struct UserAccountsHomeAddressGeo {{\n    pub lat: f64,\n}}\n\n{PLAIN}pub struct UserAccountsHomeAddress {{\n    pub geo: Vec<UserAccountsHomeAddressGeo>,\n    pub street: String,\n}}\n\n{PLAIN}pub struct UserAccounts {{\n    pub home_address: UserAccountsHomeAddress,\n}}\n\n"
    );
    assert_eq!(out, expected);
}

#[test]
fn names_of_tables_and_functions_are_set_aside_first() {
    let schema = Schema {
        tables: vec![
            table("user", vec![field("profile", object(vec![]))]),
            table("userProfile", vec![]),
            table("user_profile", vec![]),
            table("getUserArgs", vec![]),
            table("string", vec![field("vec", object(vec![]))]),
        ],
        unresolved: Vec::new(),
    };
    let functions = vec![
        FunctionArgSet { function_name: "getUser".to_string(), args_type: object(vec![field("user", object(vec![]))]) },
        FunctionArgSet {
            function_name: "get_user".to_string(),
            args_type: TypeNode::Optional(Box::new(object(vec![field("id", TypeNode::Id("user".to_string()))]))),
        },
    ];
    let declarations = declare_all(&schema.tables, &functions);
    let names: Vec<&str> = declarations.iter().map(|d| d.name.as_str()).collect();
    assert_eq!(
        names,
        vec![
            "UserId",
            "UserProfile3",
            "User",
            "UserProfileId",
            "UserProfile",
            "UserProfile2Id",
            "UserProfile2",
            "GetUserArgsId",
            "GetUserArgs",
            "String2Id",
            "String2Vec",
            "String2",
            "GetUserArgs2User",
            "GetUserArgs2",
            "GetUserArgs3",
        ]
    );
    for (i, a) in names.iter().enumerate() {
        for b in names.iter().skip(i + 1) {
            assert_ne!(a, b);
        }
    }
    let out = generate_code(&schema, &functions);
    assert_eq!(out, render(&declarations));
    assert!(out.contains(&format!("{PLAIN}pub struct GetUserArgs3 {{\n    pub id: UserId,\n}}\n\n")));
    assert!(out.contains(&format!("{PLAIN}pub struct User {{\n    pub profile: UserProfile3,\n}}\n\n")));
}

#[test]
fn members_are_renamed_where_they_must_be() {
    let out = generate_rust_types(&vec![table(
        "t",
        vec![
            field("type", scalar(ScalarKind::String)),
            field("my-field", scalar(ScalarKind::String)),
            field("2nd", scalar(ScalarKind::String)),
            field("my_field", scalar(ScalarKind::Number)),
            field("my.field", scalar(ScalarKind::Boolean)),
            field("type_", scalar(ScalarKind::String)),
        ],
    )]);
    assert!(out.contains(
        "    pub type_: String,\n    pub my_field: String,\n    pub _2nd: String,\n    pub my_field2: f64,\n    pub my_field3: bool,\n    pub type_2: String,\n"
    ));
}

#[test]
fn declarations_are_rendered_as_they_are_given() {
    let declarations = vec![
        NamedType { name: "K".to_string(), body: Body::Identifier },
        NamedType {
            name: "R".to_string(),
            body: Body::Record(vec![Member {
                name: "a".to_string(),
                ty: TypeRef::Optional(Box::new(TypeRef::Name("K".to_string()))),
            }]),
        },
        NamedType { name: "S".to_string(), body: Body::Sum(vec![TypeRef::Scalar(ScalarKind::Int64)]) },
        NamedType { name: "C".to_string(), body: Body::Constants(vec!["One".to_string()]) },
        NamedType {
            name: "M".to_string(),
            body: Body::Mapping(TypeRef::Scalar(ScalarKind::String), TypeRef::Array(Box::new(TypeRef::Name("R".to_string())))),
        },
    ];
    let expected = format!(
        "{ID}pub struct K(pub String);\n\n{PLAIN}pub struct R {{\n    pub a: Option<K>,\n}}\n\n{PLAIN}pub enum S {{\n    Variant1(i64),\n}}\n\n{CONSTANTS}pub enum C {{\n    One,\n}}\n\npub type M = std::collections::HashMap<String, Vec<R>>;\n\n"
    );
    assert_eq!(render(&declarations), expected);
}

#[test]
fn table_record_has_one_member_for_each_field() {
    let out = generated(
        "export default defineSchema({ users: defineTable({ name: v.string(), age: v.optional(v.number()), tags: v.array(v.string()) }), logs: defineTable({ line: v.string() }).withoutSystemFields() });",
    )
    .unwrap();
    let members = |name: &str| -> usize {
        let start = out.find(&format!("pub struct {} {{\n", name)).unwrap();
        let body = &out[start..];
        let end = body.find("}\n").unwrap();
        body[..end].matches("    pub ").count()
    };
    assert_eq!(members("Users"), 3 + 2);
    assert_eq!(members("Logs"), 1);
}

#[test]
fn generating_twice_gives_the_same_text() {
    let source = "export default defineSchema({ a: defineTable({ x: v.object({ y: v.union(v.literal(\"p\"), v.literal(\"q\")) }), z: v.record(v.string(), v.object({})) }), b: defineTable({ x: v.object({}) }) });";
    let first = generated(source).unwrap();
    let second = generated(source).unwrap();
    assert_eq!(first, second);
    assert_eq!(first.as_bytes(), second.as_bytes());
}
