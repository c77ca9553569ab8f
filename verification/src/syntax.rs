use vstd::multiset::Multiset;
use vstd::prelude::*;
use crate::errors::{ConvexTypeGeneratorError, ErrorModel};
use crate::json::{items_model, Entry, Json, JsonModel};
use crate::text::{blank, file_name, file_name_of, is_blank};
use crate::types::prepend;

verus! {

/// `serde_json::Value`, the document type that `serde_json` parses into.
/// Nothing is known of a value of it but what [`value_document`] names.
#[verifier::external_type_specification]
#[verifier::external_body]
pub struct ExValue(serde_json::Value);

/// One complaint of the parser as it comes from the parser: the offsets
/// into the source text of its labels, in their order, and the message.
#[derive(Debug)]
pub struct Diagnostic {
    pub offsets: Vec<usize>,
    pub message: String,
}

/// One complaint of the parser: where in the source text, and what.
#[derive(Debug)]
pub struct SyntaxIssue {
    pub position: usize,
    pub message: String,
}

/// The mathematical value of a [`Diagnostic`]: its offsets and its message.
pub open spec fn diagnostic_view(diagnostic: Diagnostic) -> (Seq<int>, Seq<char>) {
    (
        Seq::new(diagnostic.offsets@.len(), |i: int| diagnostic.offsets@[i] as int),
        diagnostic.message@,
    )
}

/// The mathematical values of a list of diagnostics.
pub open spec fn diagnostics_model(diagnostics: Seq<Diagnostic>) -> Seq<(Seq<int>, Seq<char>)> {
    Seq::new(diagnostics.len(), |i: int| diagnostic_view(diagnostics[i]))
}

/// The mathematical value of a [`SyntaxIssue`]: its position and its message.
pub open spec fn issue_view(issue: SyntaxIssue) -> (int, Seq<char>) {
    (issue.position as int, issue.message@)
}

/// The mathematical values of a list of issues.
pub open spec fn issues_model(issues: Seq<SyntaxIssue>) -> Seq<(int, Seq<char>)> {
    Seq::new(issues.len(), |i: int| issue_view(issues[i]))
}

/// The mathematical value of an optional text.
pub open spec fn optional_text(text: Option<String>) -> Option<Seq<char>> {
    match text {
        Some(text) => Some(text@),
        None => None,
    }
}

/// What `oxc` has against the extension of the file named `name`: its
/// message where it does not know the extension, and nothing where it does.
pub uninterp spec fn extension_complaint(name: Seq<char>) -> Option<Seq<char>>;

/// What the `oxc` parser makes of the source text `source` of a file named
/// `name`: the ESTree syntax tree as JSON text, and its complaints. The
/// complaints are named without their order, which the parser does not
/// fix.
pub uninterp spec fn estree_document(source: Seq<char>, path: Seq<char>) -> (
    Seq<char>,
    Multiset<(Seq<int>, Seq<char>)>,
);

/// The document that `serde_json` reads from `text`, if `text` is JSON.
pub uninterp spec fn json_document(text: Seq<char>) -> Option<JsonModel>;

/// The document that a `serde_json::Value` holds.
pub uninterp spec fn value_document(value: serde_json::Value) -> JsonModel;

/// Calls `oxc::span::SourceType::from_path` and hands back the message of
/// its error. The contract names the result.
#[verifier::external_body]
fn extension_check(path: &str) -> (r: Option<String>)
    ensures
        optional_text(r) == extension_complaint(path@),
{
    oxc::span::SourceType::from_path(path).err().map(|e| e.to_string())
}

/// Calls `oxc::parser::Parser::parse` with the source type that
/// `oxc::span::SourceType::from_path` gives, and
/// `oxc::ast::ast::Program::to_estree_ts_json` on the program. Each error of
/// the parser is handed back with its message and the offsets of its
/// labels. The contract names the text of the tree and the complaints, the
/// latter as a multiset: nothing is claimed of the order in which the
/// parser lists them. It asks for a path whose extension `oxc` knows, since
/// the source type is unwrapped.
#[verifier::external_body]
fn estree_json(source: &str, path: &str) -> (r: (String, Vec<Diagnostic>))
    requires
        extension_complaint(path@) is None,
    ensures
        (r.0@, diagnostics_model(r.1@).to_multiset()) == estree_document(source@, path@),
{
    let kind = oxc::span::SourceType::from_path(path).unwrap();
    let allocator = oxc::allocator::Allocator::default();
    let parsed = oxc::parser::Parser::new(&allocator, source, kind).parse();
    let diagnostics = parsed.errors.iter().map(|e| Diagnostic {
        offsets: e.labels.iter().flatten().map(|label| label.offset()).collect(),
        message: e.message.to_string(),
    }).collect();
    (parsed.program.to_estree_ts_json(false), diagnostics)
}

/// Calls `serde_json::from_str`. The contract names the document read and
/// says that it is the one the returned value holds.
#[verifier::external_body]
fn value_of_text(text: &str) -> (r: Option<serde_json::Value>)
    ensures
        match r {
            Some(value) => json_document(text@) == Some(value_document(value)),
            None => json_document(text@) is None,
        },
{
    serde_json::from_str::<serde_json::Value>(text).ok()
}

/// Tells the variants of `serde_json::Value` apart and moves what each holds
/// into a [`Json`]; a number is moved as the text that `serde_json` prints
/// for it. The contract says that the result is the document the value holds.
#[verifier::external_body]
fn json_of_value(value: &serde_json::Value) -> (r: Json)
    ensures
        r@ == value_document(*value),
{
    match value {
        serde_json::Value::Null => Json::Null,
        serde_json::Value::Bool(b) => Json::Bool(*b),
        serde_json::Value::Number(n) => Json::Number(n.to_string()),
        serde_json::Value::String(s) => Json::Text(s.clone()),
        serde_json::Value::Array(items) => Json::Array(items.iter().map(json_of_value).collect()),
        serde_json::Value::Object(map) => Json::Object(
            map.iter().map(|(k, v)| Entry { key: k.clone(), value: json_of_value(v) }).collect(),
        ),
    }
}

/// The mathematical value of an optional document.
pub open spec fn optional_document(doc: Option<Json>) -> Option<JsonModel> {
    match doc {
        Some(doc) => Some(doc@),
        None => None,
    }
}

/// Reads a JSON text into a document; `None` where the text is no JSON.
pub fn parse_json(text: &str) -> (r: Option<Json>)
    ensures
        optional_document(r) == json_document(text@),
{
    match value_of_text(text) {
        Some(value) => Some(json_of_value(&value)),
        None => None,
    }
}

/// The complaint that a diagnostic of the parser becomes: it stands at the
/// offset of the diagnostic's first label, and at the start of the text
/// where the diagnostic has no label.
pub open spec fn issue_of(diagnostic: (Seq<int>, Seq<char>)) -> (int, Seq<char>) {
    (
        if diagnostic.0.len() > 0 {
            diagnostic.0[0]
        } else {
            0
        },
        diagnostic.1,
    )
}

/// What comes of parsing a source file.
pub enum ParseModel {
    /// The syntax tree.
    Tree(JsonModel),
    /// One complaint that is known exactly: its position and its message.
    Complaint(int, Seq<char>),
    /// The complaints of the parser, in no order.
    Rejected(Multiset<(Seq<int>, Seq<char>)>),
}

/// What comes of parsing the source text `source` of the file at `path`.
///
/// The parser is told the name of the file without its directories, so
/// that what it makes of the name does not hang on how a platform parts a
/// path. A file whose extension the parser does not know has one
/// complaint, at the start of the text. A parse with complaints is no
/// parse. A tree that cannot be read back has one complaint, at the start
/// of the text.
pub open spec fn parsed_module(source: Seq<char>, path: Seq<char>) -> ParseModel {
    let name = file_name(path);
    match extension_complaint(name) {
        Some(message) => ParseModel::Complaint(0, message),
        None => {
            let (text, diagnostics) = estree_document(source, name);
            if diagnostics.len() > 0 {
                ParseModel::Rejected(diagnostics)
            } else {
                match json_document(text) {
                    Some(doc) => ParseModel::Tree(doc),
                    None => ParseModel::Complaint(0, "the syntax tree could not be read"@),
                }
            }
        },
    }
}

/// Whether a complaint is what one of the parser's diagnostics becomes.
pub open spec fn from_diagnostics(
    diagnostics: Multiset<(Seq<int>, Seq<char>)>,
    issue: (int, Seq<char>),
) -> bool {
    exists|d: (Seq<int>, Seq<char>)| #[trigger] diagnostics.count(d) > 0 && issue_of(d) == issue
}

/// Whether the outcome of a parse is what was to come of it: the tree, the
/// one complaint, or complaints that all come from diagnostics of the
/// parser, at least one.
pub open spec fn parse_agrees(outcome: Result<Json, Vec<SyntaxIssue>>, expected: ParseModel) -> bool {
    match expected {
        ParseModel::Tree(doc) => outcome matches Ok(tree) && tree@ == doc,
        ParseModel::Complaint(position, message) => outcome matches Err(issues) && issues_model(
            issues@,
        ) == seq![(position, message)],
        ParseModel::Rejected(diagnostics) => outcome matches Err(issues) && issues@.len() > 0
            && forall|i: int|
            0 <= i < issues@.len() ==> from_diagnostics(
                diagnostics,
                issue_view(#[trigger] issues@[i]),
            ),
    }
}

fn issues_of(diagnostics: Vec<Diagnostic>) -> (r: Vec<SyntaxIssue>)
    ensures
        r@.len() == diagnostics@.len(),
        issues_model(r@) == Seq::new(
            diagnostics@.len(),
            |i: int| issue_of(diagnostics_model(diagnostics@)[i]),
        ),
{
    let mut out: Vec<SyntaxIssue> = Vec::new();
    let mut i: usize = 0;
    while i < diagnostics.len()
        invariant
            i <= diagnostics@.len(),
            out@.len() == i,
            forall|j: int|
                0 <= j < i ==> issue_view(#[trigger] out@[j]) == issue_of(
                    diagnostic_view(diagnostics@[j]),
                ),
        decreases diagnostics@.len() - i,
    {
        let position = if diagnostics[i].offsets.len() > 0 {
            diagnostics[i].offsets[0]
        } else {
            0
        };
        out.push(SyntaxIssue { position, message: diagnostics[i].message.clone() });
        i += 1;
    }
    assert(issues_model(out@) =~= Seq::new(
        diagnostics@.len(),
        |i: int| issue_of(diagnostics_model(diagnostics@)[i]),
    ));
    out
}

/// Parses the source text of the file at `path` into its syntax tree.
pub fn parse_module(source: &str, path: &str) -> (r: Result<Json, Vec<SyntaxIssue>>)
    ensures
        parse_agrees(r, parsed_module(source@, path@)),
        r matches Err(issues) ==> issues@.len() > 0,
{
    let name = file_name_of(path);
    match extension_check(name.as_str()) {
        Some(message) => {
            let mut issues: Vec<SyntaxIssue> = Vec::new();
            issues.push(SyntaxIssue { position: 0, message });
            assert(issues_model(issues@) =~= seq![(0int, message@)]);
            return Err(issues);
        },
        None => {},
    }
    let (text, diagnostics) = estree_json(source, name.as_str());
    let ghost found = diagnostics_model(diagnostics@);
    proof {
        vstd::seq_lib::to_multiset_len(found);
    }
    if diagnostics.len() > 0 {
        let issues = issues_of(diagnostics);
        assert forall|i: int| 0 <= i < issues@.len() implies from_diagnostics(
            found.to_multiset(),
            issue_view(#[trigger] issues@[i]),
        ) by {
            assert(issues_model(issues@)[i] == issue_of(found[i]));
            assert(found.contains(found[i]));
            vstd::seq_lib::to_multiset_contains(found, found[i]);
        }
        return Err(issues);
    }
    match parse_json(text.as_str()) {
        Some(tree) => Ok(tree),
        None => {
            let message = String::from_str("the syntax tree could not be read");
            let mut issues: Vec<SyntaxIssue> = Vec::new();
            issues.push(SyntaxIssue { position: 0, message });
            assert(issues_model(issues@) =~= seq![(0int, "the syntax tree could not be read"@)]);
            Err(issues)
        },
    }
}

/// A source file: its path and the text that it holds.
#[derive(Debug, Clone, PartialEq, Eq)]
pub struct SourceFile {
    pub path: String,
    pub text: String,
}

/// The mathematical value of a [`SourceFile`].
pub struct FileModel {
    pub path: Seq<char>,
    pub text: Seq<char>,
}

impl View for SourceFile {
    type V = FileModel;

    open spec fn view(&self) -> FileModel {
        FileModel { path: self.path@, text: self.text@ }
    }
}

/// The mathematical values of a list of source files.
pub open spec fn files_model(files: Seq<SourceFile>) -> Seq<FileModel> {
    Seq::new(files.len(), |i: int| files[i]@)
}

/// Why no syntax tree could be had: a failure that is known exactly, or
/// the rejection of a file by the parser, with the parser's complaints in
/// no order.
pub enum FailureModel {
    Error(ErrorModel),
    Rejected { file: Seq<char>, diagnostics: Multiset<(Seq<int>, Seq<char>)> },
}

/// Whether an error is the failure that was to come: the very error, or,
/// for a file that the parser rejected, a syntax error for that file that
/// is one of the parser's complaints.
pub open spec fn failure_agrees(error: ErrorModel, expected: FailureModel) -> bool {
    match expected {
        FailureModel::Error(e) => error == e,
        FailureModel::Rejected { file, diagnostics } => error matches ErrorModel::SyntaxError {
            file: rejected,
            position,
            message,
        } && rejected == file && from_diagnostics(diagnostics, (position, message)),
    }
}

/// Whether an outcome is what was to come: the very value, or a failure
/// that agrees.
pub open spec fn agrees<T>(outcome: Result<T, ErrorModel>, expected: Result<T, FailureModel>) -> bool {
    match expected {
        Ok(value) => outcome == Ok::<T, ErrorModel>(value),
        Err(failure) => outcome matches Err(error) && failure_agrees(error, failure),
    }
}

/// The syntax tree of a file, or why there is none.
pub open spec fn tree_of(file: FileModel) -> Result<JsonModel, FailureModel> {
    match parsed_module(file.text, file.path) {
        ParseModel::Tree(tree) => Ok(tree),
        ParseModel::Complaint(position, message) => Err(
            FailureModel::Error(ErrorModel::SyntaxError { file: file.path, position, message }),
        ),
        ParseModel::Rejected(diagnostics) => Err(
            FailureModel::Rejected { file: file.path, diagnostics },
        ),
    }
}

/// The syntax tree of a schema file. A file that holds nothing but white
/// space is empty, whatever the parser would make of it.
pub open spec fn schema_tree(file: FileModel) -> Result<JsonModel, FailureModel> {
    if blank(file.text) {
        Err(FailureModel::Error(ErrorModel::EmptySchemaFile { file: file.path }))
    } else {
        tree_of(file)
    }
}

/// The syntax trees of the files from position `from` on, in their
/// order, or the failure of the first that has no tree.
pub open spec fn function_trees(files: Seq<FileModel>, from: int) -> Result<
    Seq<JsonModel>,
    FailureModel,
>
    decreases files.len() - from,
{
    if from < 0 || from >= files.len() {
        Ok(Seq::empty())
    } else {
        match tree_of(files[from]) {
            Err(failure) => Err(failure),
            Ok(tree) => prepend(seq![tree], function_trees(files, from + 1)),
        }
    }
}

/// The mathematical value of the outcome of reading one file.
pub open spec fn tree_outcome(r: Result<Json, ConvexTypeGeneratorError>) -> Result<
    JsonModel,
    ErrorModel,
> {
    match r {
        Ok(tree) => Ok(tree@),
        Err(e) => Err(e@),
    }
}

/// The mathematical value of the outcome of reading a list of files.
pub open spec fn trees_outcome(r: Result<Vec<Json>, ConvexTypeGeneratorError>) -> Result<
    Seq<JsonModel>,
    ErrorModel,
> {
    match r {
        Ok(trees) => Ok(items_model(trees@)),
        Err(e) => Err(e@),
    }
}

/// The syntax error that a complaint about a file is.
pub fn syntax_error_at(file: &str, issue: &SyntaxIssue) -> (r: ConvexTypeGeneratorError)
    ensures
        r@ == (ErrorModel::SyntaxError {
            file: file@,
            position: issue.position as int,
            message: issue.message@,
        }),
{
    ConvexTypeGeneratorError::SyntaxError {
        file: String::from_str(file),
        position: issue.position,
        message: issue.message.clone(),
    }
}

/// The error for a file with complaints: the syntax error that the first
/// complaint of the list is. None for an empty list.
pub fn syntax_error(file: &str, issues: &Vec<SyntaxIssue>) -> (r: Option<ConvexTypeGeneratorError>)
    ensures
        match r {
            Some(error) => issues@.len() > 0 && error@ == (ErrorModel::SyntaxError {
                file: file@,
                position: issues@[0].position as int,
                message: issues@[0].message@,
            }),
            None => issues@.len() == 0,
        },
{
    if issues.len() == 0 {
        None
    } else {
        Some(syntax_error_at(file, &issues[0]))
    }
}

/// Parses a file into its syntax tree. Where the parser rejects the file,
/// the first of its complaints, as it lists them, is the error.
pub fn create_ast(file: &SourceFile) -> (r: Result<Json, ConvexTypeGeneratorError>)
    ensures
        agrees(tree_outcome(r), tree_of(file@)),
{
    match parse_module(file.text.as_str(), file.path.as_str()) {
        Ok(tree) => Ok(tree),
        Err(issues) => {
            assert(issues_model(issues@)[0] == issue_view(issues@[0]));
            Err(syntax_error_at(file.path.as_str(), &issues[0]))
        },
    }
}

/// Parses the schema file into its syntax tree.
pub fn create_schema_ast(file: &SourceFile) -> (r: Result<Json, ConvexTypeGeneratorError>)
    ensures
        agrees(tree_outcome(r), schema_tree(file@)),
        blank(file.text@) ==> r matches Err(ConvexTypeGeneratorError::EmptySchemaFile { .. }),
{
    if is_blank(file.text.as_str()) {
        Err(ConvexTypeGeneratorError::EmptySchemaFile { file: file.path.clone() })
    } else {
        create_ast(file)
    }
}

/// Parses the function files into their syntax trees, in their order.
pub fn create_functions_ast(files: &Vec<SourceFile>) -> (r: Result<
    Vec<Json>,
    ConvexTypeGeneratorError,
>)
    ensures
        agrees(trees_outcome(r), function_trees(files_model(files@), 0)),
{
    let ghost models = files_model(files@);
    let mut out: Vec<Json> = Vec::new();
    let mut i: usize = 0;
    proof {
        assert(items_model(out@) =~= Seq::<JsonModel>::empty());
        if let Ok(all) = function_trees(models, 0) {
            assert(Seq::<JsonModel>::empty() + all =~= all);
        }
    }
    while i < files.len()
        invariant
            i <= files@.len(),
            models == files_model(files@),
            function_trees(models, 0) == prepend(
                items_model(out@),
                function_trees(models, i as int),
            ),
        decreases files@.len() - i,
    {
        match create_ast(&files[i]) {
            Err(err) => {
                return Err(err);
            },
            Ok(tree) => {
                let ghost before = items_model(out@);
                let ghost model = tree@;
                out.push(tree);
                proof {
                    assert(items_model(out@) =~= before + seq![model]);
                    if let Ok(tail) = function_trees(models, i + 1) {
                        assert(before + (seq![model] + tail) =~= items_model(out@) + tail);
                    }
                }
            },
        }
        i += 1;
    }
    assert(items_model(out@) + Seq::<JsonModel>::empty() =~= items_model(out@));
    Ok(out)
}

} // verus!
