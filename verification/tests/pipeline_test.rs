use convex_typegen::errors::{ConvexTypeGeneratorError, NameKind};
use convex_typegen::generate;
use convex_typegen::syntax::SourceFile;

fn file(path: &str, text: &str) -> SourceFile {
    SourceFile { path: path.to_string(), text: text.to_string() }
}

fn run(schema: Option<SourceFile>, functions: Vec<SourceFile>) -> Result<String, ConvexTypeGeneratorError> {
    generate(schema, functions).map(|generated| generated.text)
}

fn schema(text: &str) -> Result<String, ConvexTypeGeneratorError> {
    run(Some(file("convex/schema.ts", text)), Vec::new())
}

const USERS: &str = "import { defineSchema, defineTable } from \"convex/server\";\nimport { v } from \"convex/values\";\n\nexport default defineSchema({\n  users: defineTable({\n    name: v.string(),\n    age: v.optional(v.number()),\n  }),\n});\n";

const GET_USER: &str = "import { query } from \"./_generated/server\";\nimport { v } from \"convex/values\";\n\nexport const getUser = query({\n  args: { id: v.id(\"users\") },\n  handler: async (ctx, args) => {\n    return await ctx.db.get(args.id);\n  },\n});\n";

#[test]
fn users_and_get_user() {
    let out = run(Some(file("convex/schema.ts", USERS)), vec![file("convex/users.ts", GET_USER)]);
    let expected = "#[derive(Debug, Clone, PartialEq, Eq, Hash)]\npub struct UsersId(pub String);\n\n#[derive(Debug, Clone)]\npub struct Users {\n    pub _id: UsersId,\n    pub _creationTime: f64,\n    pub name: String,\n    pub age: Option<f64>,\n}\n\n#[derive(Debug, Clone)]\npub struct GetUserArgs {\n    pub id: UsersId,\n}\n\n";
    assert_eq!(out, Ok(expected.to_string()));
}

#[test]
fn whitespace_only_schema_is_empty() {
    let out = schema(" \n\t\r\n");
    assert_eq!(out, Err(ConvexTypeGeneratorError::EmptySchemaFile { file: "convex/schema.ts".to_string() }));
}

#[test]
fn comment_only_schema_is_empty() {
    let out = schema("// nothing here\n/* nor here */\n");
    assert_eq!(out, Err(ConvexTypeGeneratorError::EmptySchemaFile { file: "convex/schema.ts".to_string() }));
}

#[test]
fn schema_without_definition() {
    let out = schema("export const a = 1;\n");
    assert_eq!(out, Err(ConvexTypeGeneratorError::MissingSchemaDefinition));
}

#[test]
fn syntax_error_is_reported_with_file_and_position() {
    let out = schema("export default (");
    assert_eq!(
        out,
        Err(ConvexTypeGeneratorError::SyntaxError {
            file: "convex/schema.ts".to_string(),
            position: 16,
            message: "Expected `)` but found `EOF`".to_string(),
        })
    );
}

#[test]
fn syntax_error_in_function_file() {
    let out = run(Some(file("convex/schema.ts", USERS)), vec![file("convex/bad.ts", "export const = ;")]);
    match out {
        Err(ConvexTypeGeneratorError::SyntaxError { file, .. }) => assert_eq!(file, "convex/bad.ts"),
        other => panic!("expected a syntax error, got {:?}", other),
    }
}

#[test]
fn tree_too_deep_to_read_back_is_a_complaint() {
    let depth = 200;
    let text = format!("export default {}1{};", "(".repeat(depth), ")".repeat(depth));
    assert_eq!(
        schema(&text),
        Err(ConvexTypeGeneratorError::SyntaxError {
            file: "convex/schema.ts".to_string(),
            position: 0,
            message: "the syntax tree could not be read".to_string(),
        })
    );
}

#[test]
fn unknown_extension_is_reported_for_the_file() {
    let out = run(Some(file("convex/schema.txt", USERS)), Vec::new());
    match out {
        Err(ConvexTypeGeneratorError::SyntaxError { file, position, .. }) => {
            assert_eq!(file, "convex/schema.txt");
            assert_eq!(position, 0);
        }
        other => panic!("expected a syntax error, got {:?}", other),
    }
}

#[test]
fn javascript_files_are_read_too() {
    let out = run(Some(file("convex/schema.js", USERS)), vec![file("convex/users.mjs", GET_USER)]).unwrap();
    assert!(out.contains("pub struct Users {"));
    assert!(out.contains("pub struct GetUserArgs {"));
}

#[test]
fn schema_errors_come_before_function_errors() {
    let bad_function = file("convex/f.ts", "export const f = query({ args: { a: v.nope() } });");
    let out = run(
        Some(file("convex/schema.ts", "export default defineSchema({ t: defineTable({ a: v.what() }) });")),
        vec![bad_function],
    );
    assert_eq!(out, Err(ConvexTypeGeneratorError::UnrecognizedValidator { path: "v.what".to_string() }));
    // A file that cannot be parsed is found before any tree is read.
    let out = run(
        Some(file("convex/schema.ts", "export default defineSchema({ t: defineTable({ a: v.what() }) });")),
        vec![file("convex/broken.ts", "export const = ;")],
    );
    assert!(matches!(out, Err(ConvexTypeGeneratorError::SyntaxError { .. })));
}

#[test]
fn reference_to_a_table_that_is_not_declared_is_no_error() {
    let out = schema("export default defineSchema({ posts: defineTable({ author: v.id(\"ghost\"), title: v.string() }).withoutSystemFields() });");
    let expected = "#[derive(Debug, Clone, PartialEq, Eq, Hash)]\npub struct PostsId(pub String);\n\n#[derive(Debug, Clone, PartialEq, Eq, Hash)]\npub struct GhostId(pub String);\n\n#[derive(Debug, Clone)]\npub struct Posts {\n    pub author: GhostId,\n    pub title: String,\n}\n\n";
    assert_eq!(out, Ok(expected.to_string()));
}

#[test]
fn files_without_a_function_change_nothing() {
    let alone = run(Some(file("convex/schema.ts", USERS)), Vec::new()).unwrap();
    let with = run(
        Some(file("convex/schema.ts", USERS)),
        vec![
            file("convex/a.ts", "export const a = internalQuery({ args: {} });"),
            file("convex/b.ts", "export const b = internalMutation({ args: { x: v.string() } });\nexport const c = internalAction({ args: {} });"),
            file("convex/c.ts", "export const d = helper({ args: {} }); const e = query({ args: {} });"),
            file("convex/d.ts", ""),
        ],
    )
    .unwrap();
    assert_eq!(alone, with);
    assert_eq!(alone.as_bytes(), with.as_bytes());
}

#[test]
fn tables_not_declared_are_handed_back_as_warnings() {
    let source = "export default defineSchema({ posts: defineTable({ author: v.id(\"ghost\"), self: v.id(\"posts\"), tags: v.array(v.id(\"tag\")) }) });";
    let generated = generate(Some(file("convex/schema.ts", source)), Vec::new()).unwrap();
    assert_eq!(generated.unresolved, vec!["ghost", "tag"]);
    assert!(generated.text.contains("pub struct GhostId(pub String);"));
    assert!(generated.text.contains("pub struct TagId(pub String);"));
    let clean = generate(Some(file("convex/schema.ts", USERS)), Vec::new()).unwrap();
    assert!(clean.unresolved.is_empty());
}

#[test]
fn unknown_validator_is_refused() {
    let out = schema("export default defineSchema({ t: defineTable({ a: v.frobnicate() }) });");
    assert_eq!(out, Err(ConvexTypeGeneratorError::UnrecognizedValidator { path: "v.frobnicate".to_string() }));
}

#[test]
fn wrong_arity_is_refused() {
    let out = schema("export default defineSchema({ t: defineTable({ a: v.string(1) }) });");
    assert_eq!(out, Err(ConvexTypeGeneratorError::UnrecognizedValidator { path: "v.string".to_string() }));
    let out = schema("export default defineSchema({ t: defineTable({ a: v.array() }) });");
    assert_eq!(out, Err(ConvexTypeGeneratorError::UnrecognizedValidator { path: "v.array".to_string() }));
}

#[test]
fn foreign_namespace_is_refused() {
    let out = schema("export default defineSchema({ t: defineTable({ a: z.lib.string() }) });");
    assert_eq!(out, Err(ConvexTypeGeneratorError::UnrecognizedValidator { path: "z.lib.string".to_string() }));
}

#[test]
fn record_of_string_to_number() {
    let out = schema("export default defineSchema({ users: defineTable({ scores: v.record(v.string(), v.number()) }).withoutSystemFields() });");
    let expected = "#[derive(Debug, Clone, PartialEq, Eq, Hash)]\npub struct UsersId(pub String);\n\npub type UsersScores = std::collections::HashMap<String, f64>;\n\n#[derive(Debug, Clone)]\npub struct Users {\n    pub scores: UsersScores,\n}\n\n";
    assert_eq!(out, Ok(expected.to_string()));
}

#[test]
fn record_with_object_key_is_refused() {
    let out = schema("export default defineSchema({ users: defineTable({ scores: v.record(v.object({ a: v.string() }), v.number()) }) });");
    assert_eq!(out, Err(ConvexTypeGeneratorError::InvalidRecordKey { found: "object".to_string() }));
}

#[test]
fn union_of_string_literals_is_an_enumeration() {
    let out = schema("export default defineSchema({ t: defineTable({ kind: v.union(v.literal(\"a\"), v.literal(\"b\"), v.literal(\"c\")) }).withoutSystemFields() });");
    let expected = "#[derive(Debug, Clone, PartialEq, Eq, Hash)]\npub struct TId(pub String);\n\n#[derive(Debug, Clone, Copy, PartialEq, Eq)]\npub enum TKind {\n    A,\n    B,\n    C,\n}\n\n#[derive(Debug, Clone)]\npub struct T {\n    pub kind: TKind,\n}\n\n";
    assert_eq!(out, Ok(expected.to_string()));
}

#[test]
fn duplicate_table_and_field_names() {
    let out = schema("export default defineSchema({ a: defineTable({}), a: defineTable({}) });");
    assert_eq!(out, Err(ConvexTypeGeneratorError::DuplicateName { kind: NameKind::Table, name: "a".to_string() }));
    let out = schema("export default defineSchema({ a: defineTable({ x: v.string(), x: v.number() }) });");
    assert_eq!(out, Err(ConvexTypeGeneratorError::DuplicateName { kind: NameKind::Field, name: "x".to_string() }));
    let out = schema("export default defineSchema({ a: defineTable({ _id: v.string() }) });");
    assert_eq!(out, Err(ConvexTypeGeneratorError::DuplicateName { kind: NameKind::Field, name: "_id".to_string() }));
}

#[test]
fn colliding_nested_names_are_told_apart() {
    let out = schema("export default defineSchema({ user: defineTable({ profileAddress: v.object({ a: v.string() }) }).withoutSystemFields(), userProfile: defineTable({ address: v.object({ b: v.string() }) }).withoutSystemFields() });").unwrap();
    assert_eq!(out.matches("pub struct UserProfileAddress {").count(), 1);
    assert_eq!(out.matches("pub struct UserProfileAddress2 {").count(), 1);
    assert!(out.contains("pub profileAddress: UserProfileAddress,"));
    assert!(out.contains("pub address: UserProfileAddress2,"));
}
