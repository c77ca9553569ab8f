use convex_typegen::convex::{body_of, object_entries};
use convex_typegen::errors::ConvexTypeGeneratorError;
use convex_typegen::expr::{read_expression, Expr, Property};
use convex_typegen::json::{get_value, Entry, Json};
use convex_typegen::syntax::{parse_json, parse_module, syntax_error, SyntaxIssue};
use convex_typegen::types::{Field, LiteralValue, RecordKey, ScalarKind, TypeNode};
use convex_typegen::validator::{describe_expression, interpret, interpret_node, scalar_for};

fn expression(source: &str) -> Expr {
    let text = format!("export default {};", source);
    let tree = parse_module(&text, "probe.ts").unwrap();
    let body = body_of(&tree).unwrap();
    let entries = object_entries(&body[0]).unwrap();
    read_expression(get_value(entries, "declaration").unwrap())
}

fn interpreted(source: &str) -> Result<TypeNode, ConvexTypeGeneratorError> {
    interpret(&expression(source))
}

fn unrecognized(path: &str) -> Result<TypeNode, ConvexTypeGeneratorError> {
    Err(ConvexTypeGeneratorError::UnrecognizedValidator { path: path.to_string() })
}

fn scalar(kind: ScalarKind) -> TypeNode {
    TypeNode::Scalar(kind)
}

fn field(name: &str, ty: TypeNode) -> Field {
    let optional = matches!(ty, TypeNode::Optional(_));
    Field { name: name.to_string(), ty, optional }
}

#[test]
fn json_text_is_read_into_a_document() {
    let doc = parse_json("{\"b\":[1,true,null,\"x\",2.5],\"a\":{}}").unwrap();
    match doc {
        Json::Object(entries) => {
            assert_eq!(entries.len(), 2);
            let a = entries.iter().find(|e| e.key == "a").unwrap();
            assert!(matches!(&a.value, Json::Object(inner) if inner.is_empty()));
            let b = entries.iter().find(|e| e.key == "b").unwrap();
            match &b.value {
                Json::Array(items) => {
                    assert_eq!(items.len(), 5);
                    assert!(matches!(&items[0], Json::Number(n) if n == "1"));
                    assert!(matches!(&items[1], Json::Bool(true)));
                    assert!(matches!(&items[2], Json::Null));
                    assert!(matches!(&items[3], Json::Text(t) if t == "x"));
                    assert!(matches!(&items[4], Json::Number(n) if n == "2.5"));
                }
                other => panic!("expected an array, got {:?}", other),
            }
        }
        other => panic!("expected an object, got {:?}", other),
    }
}

#[test]
fn text_that_is_no_json_is_no_document() {
    assert!(parse_json("{").is_none());
    assert!(parse_json("").is_none());
}

#[test]
fn get_value_takes_the_first_entry_of_a_key() {
    let entries = vec![
        Entry { key: "k".to_string(), value: Json::Bool(true) },
        Entry { key: "k".to_string(), value: Json::Bool(false) },
    ];
    assert!(matches!(get_value(&entries, "k"), Some(Json::Bool(true))));
    assert!(get_value(&entries, "other").is_none());
}

#[test]
fn unknown_extension_is_a_complaint_at_the_start() {
    let issues = parse_module("let a = 1;", "schema.txt").unwrap_err();
    assert_eq!(issues.len(), 1);
    assert_eq!(issues[0].position, 0);
    assert!(issues[0].message.contains("extension"));
}

#[test]
fn first_complaint_of_the_list_is_the_error() {
    let issues = vec![
        SyntaxIssue { position: 7, message: "first".to_string() },
        SyntaxIssue { position: 3, message: "second".to_string() },
    ];
    assert_eq!(
        syntax_error("a.ts", &issues),
        Some(ConvexTypeGeneratorError::SyntaxError {
            file: "a.ts".to_string(),
            position: 7,
            message: "first".to_string(),
        })
    );
    assert_eq!(syntax_error("a.ts", &Vec::new()), None);
}

#[test]
fn complaints_of_the_parser_carry_their_offsets() {
    let issues = parse_module("export default (", "dir/schema.ts").unwrap_err();
    assert!(!issues.is_empty());
    assert_eq!(issues[0].position, 16);
    assert_eq!(issues[0].message, "Expected `)` but found `EOF`");
}

#[test]
fn expressions_are_read_by_their_kind() {
    assert!(matches!(expression("abc"), Expr::Identifier(n) if n == "abc"));
    assert!(matches!(expression("\"abc\""), Expr::Text(t) if t == "abc"));
    assert!(matches!(expression("1.5"), Expr::Number(n) if n == "1.5"));
    assert!(matches!(expression("-3"), Expr::Number(n) if n == "-3"));
    assert!(matches!(expression("true"), Expr::Boolean(true)));
    assert!(matches!(expression("[1, 2]"), Expr::Array(items) if items.len() == 2));
    assert!(matches!(expression("a[0]"), Expr::Other(kind) if kind == "MemberExpression"));
    assert!(matches!(expression("null"), Expr::Other(kind) if kind == "Literal"));
    assert!(matches!(expression("!a"), Expr::Other(kind) if kind == "UnaryExpression"));
    assert!(matches!(expression("a + b"), Expr::Other(kind) if kind == "BinaryExpression"));
    match expression("a.b(1)") {
        Expr::Call { callee, arguments } => {
            assert_eq!(arguments.len(), 1);
            match *callee {
                Expr::Member { object, property } => {
                    assert_eq!(property, "b");
                    assert!(matches!(*object, Expr::Identifier(n) if n == "a"));
                }
                other => panic!("expected a member, got {:?}", other),
            }
        }
        other => panic!("expected a call, got {:?}", other),
    }
}

#[test]
fn properties_are_plain_where_their_name_can_be_read() {
    match expression("({ a: 1, \"b-c\": 2, [d]: 3, ...e, 4: 5 })") {
        Expr::Object(properties) => {
            let seen: Vec<(String, bool)> =
                properties.iter().map(|p: &Property| (p.name.clone(), p.plain)).collect();
            assert_eq!(
                seen,
                vec![
                    ("a".to_string(), true),
                    ("b-c".to_string(), true),
                    ("d".to_string(), false),
                    ("".to_string(), false),
                    ("".to_string(), false),
                ]
            );
        }
        other => panic!("expected an object literal, got {:?}", other),
    }
}

#[test]
fn describe_names_the_path() {
    assert_eq!(describe_expression(&expression("v.string()")), "v.string");
    assert_eq!(describe_expression(&expression("a.b.c(1).d")), "a.b.c.d");
    assert_eq!(describe_expression(&expression("f")), "f");
    assert_eq!(describe_expression(&expression("({})")), "object literal");
    assert_eq!(describe_expression(&expression("[1]")), "array literal");
    assert_eq!(describe_expression(&expression("\"s\"")), "string literal");
    assert_eq!(describe_expression(&expression("1")), "number literal");
    assert_eq!(describe_expression(&expression("false")), "boolean literal");
    assert_eq!(describe_expression(&expression("a + b")), "BinaryExpression");
}

#[test]
fn scalar_words() {
    assert_eq!(scalar_for("string"), Some(ScalarKind::String));
    assert_eq!(scalar_for("number"), Some(ScalarKind::Number));
    assert_eq!(scalar_for("float64"), Some(ScalarKind::Number));
    assert_eq!(scalar_for("boolean"), Some(ScalarKind::Boolean));
    assert_eq!(scalar_for("bytes"), Some(ScalarKind::Bytes));
    assert_eq!(scalar_for("null"), Some(ScalarKind::Null));
    assert_eq!(scalar_for("any"), Some(ScalarKind::Any));
    assert_eq!(scalar_for("int64"), Some(ScalarKind::Int64));
    assert_eq!(scalar_for("bigint"), Some(ScalarKind::Int64));
    assert_eq!(scalar_for("String"), None);
    assert_eq!(scalar_for("id"), None);
    assert_eq!(scalar_for(""), None);
}

#[test]
fn scalars_take_no_argument() {
    assert_eq!(interpreted("v.string()"), Ok(scalar(ScalarKind::String)));
    assert_eq!(interpreted("v.number()"), Ok(scalar(ScalarKind::Number)));
    assert_eq!(interpreted("v.float64()"), Ok(scalar(ScalarKind::Number)));
    assert_eq!(interpreted("v.boolean()"), Ok(scalar(ScalarKind::Boolean)));
    assert_eq!(interpreted("v.bytes()"), Ok(scalar(ScalarKind::Bytes)));
    assert_eq!(interpreted("v.null()"), Ok(scalar(ScalarKind::Null)));
    assert_eq!(interpreted("v.any()"), Ok(scalar(ScalarKind::Any)));
    assert_eq!(interpreted("v.int64()"), Ok(scalar(ScalarKind::Int64)));
    assert_eq!(interpreted("v.string(1)"), unrecognized("v.string"));
}

#[test]
fn id_takes_the_table_name_as_it_stands() {
    assert_eq!(interpreted("v.id(\"users\")"), Ok(TypeNode::Id("users".to_string())));
    assert_eq!(interpreted("v.id(\"Users_2\")"), Ok(TypeNode::Id("Users_2".to_string())));
    assert_eq!(interpreted("v.id()"), unrecognized("v.id"));
    assert_eq!(interpreted("v.id(1)"), unrecognized("v.id"));
    assert_eq!(interpreted("v.id(\"a\", \"b\")"), unrecognized("v.id"));
}

#[test]
fn optional_and_array_wrap() {
    assert_eq!(
        interpreted("v.optional(v.string())"),
        Ok(TypeNode::Optional(Box::new(scalar(ScalarKind::String))))
    );
    assert_eq!(
        interpreted("v.array(v.optional(v.number()))"),
        Ok(TypeNode::Array(Box::new(TypeNode::Optional(Box::new(scalar(ScalarKind::Number))))))
    );
    assert_eq!(interpreted("v.optional()"), unrecognized("v.optional"));
    assert_eq!(interpreted("v.array(v.string(), v.string())"), unrecognized("v.array"));
    assert_eq!(interpreted("v.array(v.nope())"), unrecognized("v.nope"));
}

#[test]
fn object_keeps_the_order_of_its_fields() {
    let expected = TypeNode::Object(vec![
        field("z", scalar(ScalarKind::String)),
        field("a", TypeNode::Optional(Box::new(scalar(ScalarKind::Number)))),
        field("m", TypeNode::Object(vec![field("inner", scalar(ScalarKind::Boolean))])),
    ]);
    let source = "v.object({ z: v.string(), a: v.optional(v.number()), m: v.object({ inner: v.boolean() }) })";
    assert_eq!(interpreted(source), Ok(expected));
}

#[test]
fn optional_fields_are_marked() {
    match interpreted("v.object({ a: v.optional(v.string()), b: v.array(v.optional(v.string())) })") {
        Ok(TypeNode::Object(fields)) => {
            assert!(fields[0].optional);
            assert!(!fields[1].optional);
        }
        other => panic!("expected an object, got {:?}", other),
    }
}

#[test]
fn object_literal_stands_for_an_object() {
    assert_eq!(
        interpreted("({ id: v.id(\"users\") })"),
        Ok(TypeNode::Object(vec![field("id", TypeNode::Id("users".to_string()))]))
    );
    assert_eq!(interpreted("({})"), Ok(TypeNode::Object(Vec::new())));
}

#[test]
fn object_needs_an_object_literal_of_plain_properties() {
    assert_eq!(interpreted("v.object()"), unrecognized("v.object"));
    assert_eq!(interpreted("v.object(1)"), unrecognized("v.object"));
    assert_eq!(interpreted("v.object({ ...rest })"), unrecognized("object literal"));
    assert_eq!(interpreted("v.object({ [k]: v.string() })"), unrecognized("object literal"));
    assert_eq!(interpreted("v.object({ a: v.string(), b: nope() })"), unrecognized("nope"));
}

#[test]
fn union_keeps_the_order_of_its_variants() {
    assert_eq!(
        interpreted("v.union(v.string(), v.number(), v.null())"),
        Ok(TypeNode::Union(vec![
            scalar(ScalarKind::String),
            scalar(ScalarKind::Number),
            scalar(ScalarKind::Null),
        ]))
    );
    assert_eq!(interpreted("v.union()"), unrecognized("v.union"));
    assert_eq!(interpreted("v.union(v.string(), v.bad(), v.worse())"), unrecognized("v.bad"));
}

#[test]
fn literals_of_each_kind() {
    assert_eq!(
        interpreted("v.literal(\"x\")"),
        Ok(TypeNode::Literal(LiteralValue::Text("x".to_string())))
    );
    assert_eq!(
        interpreted("v.literal(1.5)"),
        Ok(TypeNode::Literal(LiteralValue::Number("1.5".to_string())))
    );
    assert_eq!(
        interpreted("v.literal(-1)"),
        Ok(TypeNode::Literal(LiteralValue::Number("-1".to_string())))
    );
    assert_eq!(interpreted("v.literal(true)"), Ok(TypeNode::Literal(LiteralValue::Boolean(true))));
    assert_eq!(interpreted("v.literal()"), unrecognized("v.literal"));
    assert_eq!(interpreted("v.literal(v.string())"), unrecognized("v.literal"));
    assert_eq!(interpreted("v.literal(null)"), unrecognized("v.literal"));
}

#[test]
fn several_literals_are_their_union() {
    assert_eq!(
        interpreted("v.literal(\"a\", 2, false)"),
        Ok(TypeNode::Union(vec![
            TypeNode::Literal(LiteralValue::Text("a".to_string())),
            TypeNode::Literal(LiteralValue::Number("2".to_string())),
            TypeNode::Literal(LiteralValue::Boolean(false)),
        ]))
    );
    assert_eq!(interpreted("v.literal(\"a\", x)"), unrecognized("v.literal"));
}

#[test]
fn record_keys() {
    assert_eq!(
        interpreted("v.record(v.string(), v.number())"),
        Ok(TypeNode::Record(RecordKey::String, Box::new(scalar(ScalarKind::Number))))
    );
    assert_eq!(
        interpreted("v.record(v.number(), v.any())"),
        Ok(TypeNode::Record(RecordKey::Number, Box::new(scalar(ScalarKind::Any))))
    );
    assert_eq!(
        interpreted("v.record(v.id(\"t\"), v.string())"),
        Ok(TypeNode::Record(RecordKey::Id("t".to_string()), Box::new(scalar(ScalarKind::String))))
    );
}

#[test]
fn record_refuses_other_keys() {
    let invalid = |found: &str| -> Result<TypeNode, ConvexTypeGeneratorError> {
        Err(ConvexTypeGeneratorError::InvalidRecordKey { found: found.to_string() })
    };
    assert_eq!(interpreted("v.record(v.object({}), v.number())"), invalid("object"));
    assert_eq!(interpreted("v.record(v.boolean(), v.number())"), invalid("boolean"));
    assert_eq!(interpreted("v.record(v.int64(), v.number())"), invalid("int64"));
    assert_eq!(interpreted("v.record(v.optional(v.string()), v.number())"), invalid("optional"));
    assert_eq!(interpreted("v.record(v.array(v.string()), v.number())"), invalid("array"));
    assert_eq!(interpreted("v.record(v.union(v.string()), v.number())"), invalid("union"));
    assert_eq!(interpreted("v.record(v.literal(\"a\"), v.number())"), invalid("literal"));
    assert_eq!(interpreted("v.record(v.record(v.string(), v.any()), v.number())"), invalid("record"));
    // The key is looked at before the value is read.
    assert_eq!(interpreted("v.record(v.boolean(), v.bad())"), invalid("boolean"));
    assert_eq!(interpreted("v.record(v.bad(), v.boolean())"), unrecognized("v.bad"));
    assert_eq!(interpreted("v.record(v.string(), v.bad())"), unrecognized("v.bad"));
    assert_eq!(interpreted("v.record(v.string())"), unrecognized("v.record"));
}

#[test]
fn nodes_of_the_tree_are_interpreted() {
    let tree = parse_module("export default v.array(v.int64());", "probe.ts").unwrap();
    let body = body_of(&tree).unwrap();
    let entries = object_entries(&body[0]).unwrap();
    let node = get_value(entries, "declaration").unwrap();
    assert_eq!(interpret_node(node), Ok(TypeNode::Array(Box::new(scalar(ScalarKind::Int64)))));
    assert_eq!(interpret_node(&Json::Null), unrecognized(""));
    assert_eq!(interpret_node(&body[0]), unrecognized("ExportDefaultDeclaration"));
}

#[test]
fn what_is_no_validator_is_refused() {
    assert_eq!(interpreted("v.frobnicate()"), unrecognized("v.frobnicate"));
    assert_eq!(interpreted("w.string()"), unrecognized("w.string"));
    assert_eq!(interpreted("v.a.string()"), unrecognized("v.a.string"));
    assert_eq!(interpreted("string()"), unrecognized("string"));
    assert_eq!(interpreted("v.string"), unrecognized("v.string"));
    assert_eq!(interpreted("5"), unrecognized("number literal"));
    assert_eq!(interpreted("\"string\""), unrecognized("string literal"));
    assert_eq!(interpreted("[v.string()]"), unrecognized("array literal"));
    assert_eq!(interpreted("a ? b : c"), unrecognized("ConditionalExpression"));
}
