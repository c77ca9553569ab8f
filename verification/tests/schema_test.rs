use convex_typegen::convex::{build_table, body_of, object_entries, parse_schema_ast};
use convex_typegen::errors::{ConvexTypeGeneratorError, NameKind};
use convex_typegen::expr::{read_expression, Expr};
use convex_typegen::functions::parse_function_ast;
use convex_typegen::json::{get_value, Entry, Json};
use convex_typegen::syntax::parse_module;
use convex_typegen::types::{Field, FunctionArgSet, ScalarKind, Schema, TypeNode};

fn tree(source: &str) -> Json {
    parse_module(source, "convex/schema.ts").unwrap()
}

fn schema(source: &str) -> Result<Schema, ConvexTypeGeneratorError> {
    parse_schema_ast(&tree(source), "convex/schema.ts")
}

fn functions(sources: &[&str]) -> Result<Vec<FunctionArgSet>, ConvexTypeGeneratorError> {
    let trees: Vec<Json> = sources.iter().map(|s| tree(s)).collect();
    parse_function_ast(&trees)
}

fn expression(source: &str) -> Expr {
    let text = format!("export default {};", source);
    let tree = parse_module(&text, "probe.ts").unwrap();
    let body = body_of(&tree).unwrap();
    let entries = object_entries(&body[0]).unwrap();
    read_expression(get_value(entries, "declaration").unwrap())
}

fn unrecognized<T>(path: &str) -> Result<T, ConvexTypeGeneratorError> {
    Err(ConvexTypeGeneratorError::UnrecognizedValidator { path: path.to_string() })
}

fn field(name: &str, ty: TypeNode) -> Field {
    let optional = matches!(ty, TypeNode::Optional(_));
    Field { name: name.to_string(), ty, optional }
}

fn id_field(table: &str) -> Field {
    field("_id", TypeNode::Id(table.to_string()))
}

fn time_field() -> Field {
    field("_creationTime", TypeNode::Scalar(ScalarKind::Number))
}

#[test]
fn tables_carry_their_system_fields() {
    let built = schema(
        "export default defineSchema({ users: defineTable({ name: v.string(), age: v.optional(v.number()) }) });",
    )
    .unwrap();
    assert_eq!(built.tables.len(), 1);
    let users = &built.tables[0];
    assert_eq!(users.name, "users");
    assert!(users.has_system_fields);
    assert_eq!(
        users.fields,
        vec![
            id_field("users"),
            time_field(),
            field("name", TypeNode::Scalar(ScalarKind::String)),
            field("age", TypeNode::Optional(Box::new(TypeNode::Scalar(ScalarKind::Number)))),
        ]
    );
    assert!(built.unresolved.is_empty());
}

#[test]
fn table_has_two_fields_more_than_it_lists() {
    let with = build_table("t", &expression("defineTable({ a: v.string(), b: v.string(), c: v.string() })")).unwrap();
    assert_eq!(with.fields.len(), 3 + 2);
    let without = build_table(
        "t",
        &expression("defineTable({ a: v.string(), b: v.string(), c: v.string() }).withoutSystemFields()"),
    )
    .unwrap();
    assert_eq!(without.fields.len(), 3);
    assert!(!without.has_system_fields);
    let none = build_table("t", &expression("defineTable({})")).unwrap();
    assert_eq!(none.fields, vec![id_field("t"), time_field()]);
}

#[test]
fn chained_calls_on_a_table_are_passed_over() {
    let built = schema(
        "export default defineSchema({ t: defineTable({ a: v.string() }).index(\"by_a\", [\"a\"]).searchIndex(\"s\", { searchField: \"a\" }) });",
    )
    .unwrap();
    assert!(built.tables[0].has_system_fields);
    assert_eq!(built.tables[0].fields.len(), 3);
    let built = schema(
        "export default defineSchema({ t: defineTable({ a: v.string() }).withoutSystemFields().index(\"by_a\", [\"a\"]) });",
    )
    .unwrap();
    assert!(!built.tables[0].has_system_fields);
    assert_eq!(built.tables[0].fields, vec![field("a", TypeNode::Scalar(ScalarKind::String))]);
}

#[test]
fn table_may_be_defined_by_an_object_validator() {
    let built = schema("export default defineSchema({ t: defineTable(v.object({ a: v.string() })) });").unwrap();
    assert_eq!(built.tables[0].fields.len(), 3);
}

#[test]
fn tables_keep_the_order_of_the_source() {
    let built = schema(
        "export default defineSchema({ zebra: defineTable({}), apple: defineTable({}), mango: defineTable({}) });",
    )
    .unwrap();
    let names: Vec<&str> = built.tables.iter().map(|t| t.name.as_str()).collect();
    assert_eq!(names, vec!["zebra", "apple", "mango"]);
}

#[test]
fn schema_without_tables() {
    let built = schema("export default defineSchema({});").unwrap();
    assert!(built.tables.is_empty());
    assert!(built.unresolved.is_empty());
}

#[test]
fn references_to_tables_not_declared_are_listed() {
    let built = schema(
        "export default defineSchema({ a: defineTable({ own: v.id(\"a\"), later: v.id(\"b\"), far: v.array(v.id(\"elsewhere\")), map: v.record(v.id(\"other\"), v.optional(v.id(\"elsewhere\"))) }), b: defineTable({ u: v.union(v.id(\"a\"), v.object({ deep: v.id(\"third\") })) }) });",
    )
    .unwrap();
    assert_eq!(built.unresolved, vec!["elsewhere", "other", "elsewhere", "third"]);
}

#[test]
fn empty_tree_is_an_empty_file() {
    let empty = |file: &str| -> Result<Schema, ConvexTypeGeneratorError> {
        Err(ConvexTypeGeneratorError::EmptySchemaFile { file: file.to_string() })
    };
    assert_eq!(parse_schema_ast(&Json::Null, "a.ts"), empty("a.ts"));
    assert_eq!(parse_schema_ast(&Json::Object(Vec::new()), "b.ts"), empty("b.ts"));
    let no_statements = Json::Object(vec![Entry { key: "body".to_string(), value: Json::Array(Vec::new()) }]);
    assert_eq!(parse_schema_ast(&no_statements, "c.ts"), empty("c.ts"));
    assert_eq!(schema("/* only a comment */"), empty("convex/schema.ts"));
}

#[test]
fn missing_definition() {
    let missing: Result<Schema, ConvexTypeGeneratorError> =
        Err(ConvexTypeGeneratorError::MissingSchemaDefinition);
    assert_eq!(schema("export default 5;"), missing);
    assert_eq!(schema("export default somethingElse({});"), missing);
    assert_eq!(schema("const s = defineSchema({}); export const t = s;"), missing);
    assert_eq!(schema("defineSchema({});"), missing);
}

#[test]
fn definition_needs_an_object_literal() {
    assert_eq!(schema("export default defineSchema();"), unrecognized("defineSchema"));
    assert_eq!(schema("export default defineSchema(tables);"), unrecognized("defineSchema"));
    assert_eq!(schema("export default defineSchema({ ...tables });"), unrecognized("defineSchema"));
}

#[test]
fn definition_takes_one_argument() {
    assert_eq!(
        schema("export default defineSchema({ t: defineTable({}) }, { schemaValidation: false });"),
        unrecognized("defineSchema")
    );
}

#[test]
fn table_needs_a_definition_with_one_object() {
    assert_eq!(schema("export default defineSchema({ t: makeTable({}) });"), unrecognized("makeTable"));
    assert_eq!(schema("export default defineSchema({ t: 5 });"), unrecognized("number literal"));
    assert_eq!(schema("export default defineSchema({ t: defineTable() });"), unrecognized("defineTable"));
    assert_eq!(schema("export default defineSchema({ t: defineTable({}, {}) });"), unrecognized("defineTable"));
    assert_eq!(schema("export default defineSchema({ t: defineTable(v.string()) });"), unrecognized("defineTable"));
    assert_eq!(
        schema("export default defineSchema({ t: defineTable(v.string()).index(\"a\", []) });"),
        unrecognized("defineTable.index")
    );
    assert_eq!(schema("export default defineSchema({ t: defineTable({ a: v.what() }) });"), unrecognized("v.what"));
}

#[test]
fn duplicates_are_found_as_soon_as_they_are_met() {
    let twice = |kind: NameKind, name: &str| -> Result<Schema, ConvexTypeGeneratorError> {
        Err(ConvexTypeGeneratorError::DuplicateName { kind, name: name.to_string() })
    };
    assert_eq!(
        schema("export default defineSchema({ a: defineTable({}), b: defineTable({}), a: defineTable({ x: v.bad() }) });"),
        twice(NameKind::Table, "a")
    );
    assert_eq!(
        schema("export default defineSchema({ a: defineTable({ x: v.string(), y: v.string(), y: v.number(), x: v.number() }) });"),
        twice(NameKind::Field, "y")
    );
    assert_eq!(
        schema("export default defineSchema({ a: defineTable({ _creationTime: v.number() }) });"),
        twice(NameKind::Field, "_creationTime")
    );
    // Without its system fields a table may name a field as it likes.
    assert!(schema("export default defineSchema({ a: defineTable({ _id: v.string() }).withoutSystemFields() });").is_ok());
    // The first table's complaint comes first.
    assert_eq!(
        schema("export default defineSchema({ a: defineTable({ x: v.bad() }), a: defineTable({}) });"),
        unrecognized("v.bad")
    );
}

const GET_USER: &str = "export const getUser = query({ args: { id: v.id(\"users\") }, handler: async (ctx, args) => null });";

#[test]
fn exported_functions_are_extracted() {
    let sets = functions(&[GET_USER]).unwrap();
    assert_eq!(
        sets,
        vec![FunctionArgSet {
            function_name: "getUser".to_string(),
            args_type: TypeNode::Object(vec![field("id", TypeNode::Id("users".to_string()))]),
        }]
    );
}

#[test]
fn query_mutation_and_action_count() {
    let source = "export const a = query({ args: {} });\nexport const b = mutation({ args: {} });\nexport const c = action({ args: {} });\nexport const d = internalQuery({ args: {} });\nexport const e = internalMutation({ args: {} });\nexport const f = internalAction({ args: {} });\nexport const g = httpAction({ args: {} });\nexport const h = helper({ args: {} });";
    let sets = functions(&[source]).unwrap();
    let names: Vec<&str> = sets.iter().map(|s| s.function_name.as_str()).collect();
    assert_eq!(names, vec!["a", "b", "c"]);
}

#[test]
fn what_is_no_exported_function_adds_nothing() {
    let none = || -> Vec<FunctionArgSet> { Vec::new() };
    assert_eq!(functions(&[]), Ok(none()));
    assert_eq!(functions(&["", "// nothing"]), Ok(none()));
    assert_eq!(functions(&["const hidden = query({ args: {} });"]), Ok(none()));
    assert_eq!(functions(&["export const n = 5; export function f() {} export default query({ args: {} });"]), Ok(none()));
    assert_eq!(functions(&["export const noArgs = query({ handler: async () => 1 });"]), Ok(none()));
    assert_eq!(functions(&["export const notAnObject = query(handler);"]), Ok(none()));
    assert_eq!(functions(&["export const { a, b } = query({ args: {} });"]), Ok(none()));
    assert_eq!(parse_function_ast(&vec![Json::Null, Json::Bool(true)]), Ok(none()));
}

#[test]
fn functions_come_in_the_order_of_files_and_statements() {
    let first = "export const b = query({ args: {} }), a = mutation({ args: {} });\nexport const c = action({ args: {} });";
    let second = "export const z = query({ args: {} });";
    let sets = functions(&[first, second]).unwrap();
    let names: Vec<&str> = sets.iter().map(|s| s.function_name.as_str()).collect();
    assert_eq!(names, vec!["b", "a", "c", "z"]);
}

#[test]
fn arguments_are_an_object_or_an_optional_object() {
    let sets = functions(&["export const a = query({ args: v.object({ x: v.string() }) });\nexport const b = query({ args: v.optional(v.object({ y: v.number() })) });"]).unwrap();
    assert_eq!(sets[0].args_type, TypeNode::Object(vec![field("x", TypeNode::Scalar(ScalarKind::String))]));
    assert_eq!(
        sets[1].args_type,
        TypeNode::Optional(Box::new(TypeNode::Object(vec![field("y", TypeNode::Scalar(ScalarKind::Number))])))
    );
    assert_eq!(functions(&["export const a = query({ args: v.string() });"]), unrecognized("v.string"));
    assert_eq!(functions(&["export const a = query({ args: v.optional(v.string()) });"]), unrecognized("v.optional"));
    assert_eq!(functions(&["export const a = query({ args: v.array(v.object({})) });"]), unrecognized("v.array"));
}

#[test]
fn first_malformed_file_ends_the_extraction() {
    let good = "export const a = query({ args: {} });";
    let bad = "export const b = query({ args: { x: v.first() } });";
    let worse = "export const c = query({ args: { x: v.second() } });";
    assert_eq!(functions(&[good, bad, worse]), unrecognized("v.first"));
    assert_eq!(functions(&[worse, bad]), unrecognized("v.second"));
}
