//! Generates Rust types from a Convex schema and from the arguments of
//! Convex functions.
//!
//! The source files are parsed into syntax trees, the trees are read into
//! a model of the schema and of the functions' arguments, and the model is
//! written out as Rust declarations.

use vstd::prelude::*;

pub mod closed;
pub mod codegen;
pub mod convex;
pub mod declarations;
pub mod errors;
pub mod expr;
pub mod functions;
pub mod hoist;
pub mod json;
pub mod laws;
pub mod names;
pub mod syntax;
pub mod text;
pub mod types;
pub mod unique;
pub mod validator;

use crate::codegen::{generate_code, generated_text};
use crate::convex::{parse_schema_ast, schema_of};
use crate::errors::{ConvexTypeGeneratorError, ErrorModel};
use crate::functions::{functions_from, parse_function_ast};
use crate::json::{items_model, Json, JsonModel};
use crate::syntax::{
    agrees, create_functions_ast, create_schema_ast, files_model, function_trees, schema_tree,
    FailureModel, FileModel, SourceFile,
};
use crate::text::blank;
use crate::types::texts_model;

verus! {

/// Where the generator reads from and writes to.
#[derive(Debug, Clone)]
pub struct Configuration {
    /// The path of the schema file.
    pub schema_path: String,
    /// The path of the file that the generated types are written to.
    pub out_file: String,
    /// The paths of the files that define functions.
    pub function_paths: Vec<String>,
}

impl Default for Configuration {
    /// The schema in `convex/schema.ts`, the types in `src/convex_types.rs`,
    /// and no function files.
    fn default() -> (r: Self)
        ensures
            r.schema_path@ == "convex/schema.ts"@,
            r.out_file@ == "src/convex_types.rs"@,
            r.function_paths@ == Seq::<String>::empty(),
    {
        Configuration {
            schema_path: String::from_str("convex/schema.ts"),
            out_file: String::from_str("src/convex_types.rs"),
            function_paths: Vec::new(),
        }
    }
}

/// What a generation hands back: the text of the generated file, and the
/// names of the tables that the schema refers to without declaring them,
/// which are warnings and no failures.
#[derive(Debug, PartialEq, Eq)]
pub struct Generated {
    pub text: String,
    pub unresolved: Vec<String>,
}

/// The mathematical value of a [`Generated`].
pub struct GeneratedModel {
    pub text: Seq<char>,
    pub unresolved: Seq<Seq<char>>,
}

impl View for Generated {
    type V = GeneratedModel;

    open spec fn view(&self) -> GeneratedModel {
        GeneratedModel { text: self.text@, unresolved: texts_model(self.unresolved@) }
    }
}

/// The mathematical value of the outcome of a generation.
pub open spec fn generated_outcome(r: Result<Generated, ConvexTypeGeneratorError>) -> Result<
    GeneratedModel,
    ErrorModel,
> {
    match r {
        Ok(generated) => Ok(generated@),
        Err(e) => Err(e@),
    }
}

/// What is generated from the syntax tree of the schema file `file` and
/// from the syntax trees of the function files: the schema is built first,
/// then the functions are extracted, and the first complaint ends the work.
pub open spec fn generation_from(tree: JsonModel, file: Seq<char>, trees: Seq<JsonModel>) -> Result<
    GeneratedModel,
    ErrorModel,
> {
    match schema_of(tree, file) {
        Err(err) => Err(err),
        Ok(schema) => match functions_from(trees, 0) {
            Err(err) => Err(err),
            Ok(sets) => Ok(
                GeneratedModel {
                    text: generated_text(schema.tables, sets),
                    unresolved: schema.unresolved,
                },
            ),
        },
    }
}

/// What is generated from the schema file and the function files, or why
/// nothing is. `None` stands for a schema file that does not exist. All
/// files are parsed, the schema file first, before anything is read from
/// their trees.
pub open spec fn generation(schema: Option<FileModel>, functions: Seq<FileModel>) -> Result<
    GeneratedModel,
    FailureModel,
> {
    match schema {
        None => Err(FailureModel::Error(ErrorModel::MissingSchemaFile)),
        Some(file) => match schema_tree(file) {
            Err(failure) => Err(failure),
            Ok(tree) => match function_trees(functions, 0) {
                Err(failure) => Err(failure),
                Ok(trees) => match generation_from(tree, file.path, trees) {
                    Ok(generated) => Ok(generated),
                    Err(err) => Err(FailureModel::Error(err)),
                },
            },
        },
    }
}

/// The mathematical value of an optional source file.
pub open spec fn optional_file(file: Option<SourceFile>) -> Option<FileModel> {
    match file {
        Some(file) => Some(file@),
        None => None,
    }
}

/// Generates the source text from syntax trees that are already parsed.
pub fn generate_from_trees(tree: &Json, file: &str, trees: &Vec<Json>) -> (r: Result<
    Generated,
    ConvexTypeGeneratorError,
>)
    ensures
        generated_outcome(r) == generation_from(tree@, file@, items_model(trees@)),
{
    let schema = match parse_schema_ast(tree, file) {
        Err(err) => {
            return Err(err);
        },
        Ok(schema) => schema,
    };
    let functions = match parse_function_ast(trees) {
        Err(err) => {
            return Err(err);
        },
        Ok(functions) => functions,
    };
    let text = generate_code(&schema, &functions);
    Ok(Generated { text, unresolved: schema.unresolved })
}

/// Generates Rust types from the schema file and the function files.
///
/// `schema` is `None` where the schema file does not exist. The result
/// holds the text of the generated file; nothing is generated unless every
/// file could be parsed and understood. A schema file that holds nothing
/// but white space is reported as empty. A table that is referred to and
/// not declared is no failure: its name is handed back as a warning. Where
/// the parser rejects a file, the error is one of its complaints about
/// that file.
pub fn generate(schema: Option<SourceFile>, functions: Vec<SourceFile>) -> (r: Result<
    Generated,
    ConvexTypeGeneratorError,
>)
    ensures
        agrees(generated_outcome(r), generation(optional_file(schema), files_model(functions@))),
        schema is None ==> r matches Err(ConvexTypeGeneratorError::MissingSchemaFile),
        schema matches Some(file) && blank(file.text@) ==> r matches Err(
            ConvexTypeGeneratorError::EmptySchemaFile { .. },
        ),
{
    let file = match schema {
        None => {
            return Err(ConvexTypeGeneratorError::MissingSchemaFile);
        },
        Some(file) => file,
    };
    let tree = match create_schema_ast(&file) {
        Err(err) => {
            return Err(err);
        },
        Ok(tree) => tree,
    };
    let trees = match create_functions_ast(&functions) {
        Err(err) => {
            return Err(err);
        },
        Ok(trees) => trees,
    };
    generate_from_trees(&tree, file.path.as_str(), &trees)
}

} // verus!
