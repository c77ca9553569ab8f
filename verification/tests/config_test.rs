use convex_typegen::errors::ConvexTypeGeneratorError;
use convex_typegen::syntax::SourceFile;
use convex_typegen::{generate, Configuration};
use std::path::PathBuf;

#[test]
fn test_configuration_default() {
    let config = Configuration::default();
    assert_eq!(PathBuf::from(&config.schema_path), PathBuf::from("convex/schema.ts"));
    assert_eq!(config.out_file, "src/convex_types.rs");
    assert!(config.function_paths.is_empty());
}

#[test]
fn test_missing_schema_file() {
    let config = Configuration { schema_path: "nonexistent.ts".to_string(), ..Default::default() };
    assert_eq!(config.schema_path, "nonexistent.ts");
    // The file does not exist, so there is no text to hand over.
    match generate(None, Vec::new()) {
        Err(ConvexTypeGeneratorError::MissingSchemaFile) => (),
        other => panic!("Expected MissingSchemaFile error, got {:?}", other),
    }
}

#[test]
fn test_empty_schema_file() {
    let schema = SourceFile { path: "schema.ts".to_string(), text: "".to_string() };
    match generate(Some(schema), Vec::new()) {
        Err(ConvexTypeGeneratorError::EmptySchemaFile { .. }) => (),
        other => panic!("Expected EmptySchemaFile error, got {:?}", other),
    }
}
