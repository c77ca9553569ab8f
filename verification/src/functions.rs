use vstd::prelude::*;
use crate::convex::{body_of, object_entries};
use crate::errors::{ConvexTypeGeneratorError, ErrorModel};
use crate::expr::{
    child_expression, exprs_model, properties_model, read_child, Expr, ExprModel, Property,
    PropertyModel,
};
use crate::json::{
    entries_at, entries_of, get_entries, get_items, get_text, items_at, items_model, program_body,
    text_at, Json, JsonModel,
};
use crate::laws::lemma_functions_shape;
use crate::text::same_text;
use crate::types::{arg_sets_model, prepend, ArgSetModel, FunctionArgSet, TypeModel, TypeNode};
use crate::validator::{describe_expression, interpret, interpretation, unrecognized};

verus! {

/// Whether `name` is one of the builders that define a function: `query`,
/// `mutation` or `action`.
pub open spec fn function_kind(name: Seq<char>) -> bool {
    name == "query"@ || name == "mutation"@ || name == "action"@
}

fn is_function_kind(name: &str) -> (r: bool)
    ensures
        r == function_kind(name@),
{
    same_text(name, "query") || same_text(name, "mutation") || same_text(name, "action")
}

/// The value of the first plain property named `args` at or after
/// position `from`.
pub open spec fn args_property(properties: Seq<PropertyModel>, from: int) -> Option<ExprModel>
    decreases properties.len() - from,
{
    if from < 0 || from >= properties.len() {
        None
    } else if properties[from].plain && properties[from].name == "args"@ {
        Some(properties[from].value)
    } else {
        args_property(properties, from + 1)
    }
}

fn args_property_of(properties: &Vec<Property>) -> (r: Option<&Expr>)
    ensures
        match r {
            Some(value) => args_property(properties_model(properties@), 0) == Some(value@),
            None => args_property(properties_model(properties@), 0) is None,
        },
{
    let ghost models = properties_model(properties@);
    let mut i: usize = 0;
    while i < properties.len()
        invariant
            i <= properties@.len(),
            models == properties_model(properties@),
            args_property(models, 0) == args_property(models, i as int),
        decreases properties@.len() - i,
    {
        if properties[i].plain && same_text(properties[i].name.as_str(), "args") {
            return Some(&properties[i].value);
        }
        i += 1;
    }
    None
}

/// The validator of the arguments in the definition of a function: the
/// value of `args` in the object that a call of `query`, `mutation` or
/// `action` is given first. None where the expression is no such call, or
/// the object has no `args`.
pub open spec fn function_arguments(init: ExprModel) -> Option<ExprModel> {
    match init {
        ExprModel::Call { callee, arguments } => match *callee {
            ExprModel::Identifier(kind) => if function_kind(kind) && arguments.len() >= 1 {
                match arguments[0] {
                    ExprModel::Object(properties) => args_property(properties, 0),
                    _ => None,
                }
            } else {
                None
            },
            _ => None,
        },
        _ => None,
    }
}

fn function_arguments_of(init: &Expr) -> (r: Option<&Expr>)
    ensures
        match r {
            Some(value) => function_arguments(init@) == Some(value@),
            None => function_arguments(init@) is None,
        },
{
    match init {
        Expr::Call { callee, arguments } => match &**callee {
            Expr::Identifier(kind) => {
                assert((**callee)@ == ExprModel::Identifier(kind@));
                if is_function_kind(kind.as_str()) && arguments.len() >= 1 {
                    match &arguments[0] {
                        Expr::Object(properties) => {
                            assert(exprs_model(arguments@)[0] == ExprModel::Object(
                                properties_model(properties@),
                            ));
                            args_property_of(properties)
                        },
                        _ => {
                            assert(!(exprs_model(arguments@)[0] is Object));
                            None
                        },
                    }
                } else {
                    None
                }
            },
            _ => {
                assert(!((**callee)@ is Identifier));
                None
            },
        },
        _ => None,
    }
}

/// Whether a type can be the arguments of a function: an object, or an
/// optional object.
pub open spec fn is_args_shape(t: TypeModel) -> bool {
    match t {
        TypeModel::Object(_) => true,
        TypeModel::Optional(inner) => *inner is Object,
        _ => false,
    }
}

/// The type of the arguments that a validator describes; a complaint where
/// it describes anything but an object or an optional object.
pub open spec fn argument_type(value: ExprModel) -> Result<TypeModel, ErrorModel> {
    match interpretation(value) {
        Err(err) => Err(err),
        Ok(t) => if is_args_shape(t) {
            Ok(t)
        } else {
            Err(unrecognized(value))
        },
    }
}

/// The function that one declarator of an exported declaration defines, if
/// it defines one: its name is that of the binding.
pub open spec fn declarator_function(declarator: JsonModel) -> Result<
    Option<ArgSetModel>,
    ErrorModel,
> {
    let entries = entries_of(declarator);
    let id = entries_at(entries, "id"@);
    if text_at(id, "type"@) == "Identifier"@ {
        match function_arguments(child_expression(entries, "init"@)) {
            None => Ok(None),
            Some(value) => match argument_type(value) {
                Err(err) => Err(err),
                Ok(t) => Ok(Some(ArgSetModel { function_name: text_at(id, "name"@), args_type: t })),
            },
        }
    } else {
        Ok(None)
    }
}

/// The mathematical value of the outcome of reading one declarator.
pub open spec fn declarator_outcome(
    r: Result<Option<FunctionArgSet>, ConvexTypeGeneratorError>,
) -> Result<Option<ArgSetModel>, ErrorModel> {
    match r {
        Ok(Some(set)) => Ok(Some(set@)),
        Ok(None) => Ok(None),
        Err(e) => Err(e@),
    }
}

fn read_declarator(declarator: &Json) -> (r: Result<
    Option<FunctionArgSet>,
    ConvexTypeGeneratorError,
>)
    ensures
        declarator_outcome(r) == declarator_function(declarator@),
{
    proof {
        reveal_strlit("");
        reveal_strlit("Identifier");
    }
    assert(""@.len() == 0 && "Identifier"@.len() == 10);
    let entries = match object_entries(declarator) {
        Some(entries) => entries,
        None => {
            return Ok(None);
        },
    };
    let id = match get_entries(entries, "id") {
        Some(id) => id,
        None => {
            return Ok(None);
        },
    };
    if !same_text(get_text(id, "type"), "Identifier") {
        return Ok(None);
    }
    let init = read_child(entries, "init");
    let value = match function_arguments_of(&init) {
        None => {
            return Ok(None);
        },
        Some(value) => value,
    };
    match interpret(value) {
        Err(err) => Err(err),
        Ok(t) => {
            let fits = match &t {
                TypeNode::Object(_) => true,
                TypeNode::Optional(inner) => match &**inner {
                    TypeNode::Object(_) => true,
                    _ => false,
                },
                _ => false,
            };
            assert(fits == is_args_shape(t@)) by {
                if let TypeNode::Optional(inner) = t {
                    assert(((*inner)@ is Object) == (*inner is Object));
                }
            }
            if fits {
                Ok(
                    Some(
                        FunctionArgSet {
                            function_name: String::from_str(get_text(id, "name")),
                            args_type: t,
                        },
                    ),
                )
            } else {
                Err(
                    ConvexTypeGeneratorError::UnrecognizedValidator {
                        path: describe_expression(value),
                    },
                )
            }
        },
    }
}

/// The functions that the declarators from position `from` on define, in
/// their order.
pub open spec fn declarators_from(declarators: Seq<JsonModel>, from: int) -> Result<
    Seq<ArgSetModel>,
    ErrorModel,
>
    decreases declarators.len() - from,
{
    if from < 0 || from >= declarators.len() {
        Ok(Seq::empty())
    } else {
        match declarator_function(declarators[from]) {
            Err(err) => Err(err),
            Ok(None) => declarators_from(declarators, from + 1),
            Ok(Some(set)) => prepend(seq![set], declarators_from(declarators, from + 1)),
        }
    }
}

/// The functions that one statement exports: those of the declarators of
/// an exported variable declaration, and none for any other statement.
pub open spec fn statement_functions(statement: JsonModel) -> Result<Seq<ArgSetModel>, ErrorModel> {
    let entries = entries_of(statement);
    let declaration = entries_at(entries, "declaration"@);
    if text_at(entries, "type"@) == "ExportNamedDeclaration"@ && text_at(declaration, "type"@)
        == "VariableDeclaration"@ {
        declarators_from(items_at(declaration, "declarations"@), 0)
    } else {
        Ok(Seq::empty())
    }
}

/// The functions that the statements from position `from` on export.
pub open spec fn statements_from(body: Seq<JsonModel>, from: int) -> Result<
    Seq<ArgSetModel>,
    ErrorModel,
>
    decreases body.len() - from,
{
    if from < 0 || from >= body.len() {
        Ok(Seq::empty())
    } else {
        match statement_functions(body[from]) {
            Err(err) => Err(err),
            Ok(sets) => prepend(sets, statements_from(body, from + 1)),
        }
    }
}

/// The functions that the files from position `from` on export, file by
/// file; the complaint about the first file that cannot be read.
pub open spec fn functions_from(trees: Seq<JsonModel>, from: int) -> Result<
    Seq<ArgSetModel>,
    ErrorModel,
>
    decreases trees.len() - from,
{
    if from < 0 || from >= trees.len() {
        Ok(Seq::empty())
    } else {
        match statements_from(program_body(trees[from]), 0) {
            Err(err) => Err(err),
            Ok(sets) => prepend(sets, functions_from(trees, from + 1)),
        }
    }
}

/// The mathematical value of the outcome of extracting functions.
pub open spec fn sets_outcome(r: Result<Vec<FunctionArgSet>, ConvexTypeGeneratorError>) -> Result<
    Seq<ArgSetModel>,
    ErrorModel,
> {
    match r {
        Ok(sets) => Ok(arg_sets_model(sets@)),
        Err(e) => Err(e@),
    }
}

fn read_declarators(declarators: &Vec<Json>) -> (r: Result<
    Vec<FunctionArgSet>,
    ConvexTypeGeneratorError,
>)
    ensures
        sets_outcome(r) == declarators_from(items_model(declarators@), 0),
{
    let ghost models = items_model(declarators@);
    let mut out: Vec<FunctionArgSet> = Vec::new();
    let mut i: usize = 0;
    proof {
        assert(arg_sets_model(out@) =~= Seq::<ArgSetModel>::empty());
        if let Ok(all) = declarators_from(models, 0) {
            assert(Seq::<ArgSetModel>::empty() + all =~= all);
        }
    }
    while i < declarators.len()
        invariant
            i <= declarators@.len(),
            models == items_model(declarators@),
            declarators_from(models, 0) == prepend(
                arg_sets_model(out@),
                declarators_from(models, i as int),
            ),
        decreases declarators@.len() - i,
    {
        match read_declarator(&declarators[i]) {
            Err(err) => {
                return Err(err);
            },
            Ok(None) => {},
            Ok(Some(set)) => {
                let ghost before = arg_sets_model(out@);
                let ghost model = set@;
                out.push(set);
                proof {
                    assert(arg_sets_model(out@) =~= before + seq![model]);
                    if let Ok(tail) = declarators_from(models, i + 1) {
                        assert(before + (seq![model] + tail) =~= arg_sets_model(out@) + tail);
                    }
                }
            },
        }
        i += 1;
    }
    assert(arg_sets_model(out@) + Seq::<ArgSetModel>::empty() =~= arg_sets_model(out@));
    Ok(out)
}

fn read_statement(statement: &Json) -> (r: Result<Vec<FunctionArgSet>, ConvexTypeGeneratorError>)
    ensures
        sets_outcome(r) == statement_functions(statement@),
{
    proof {
        reveal_strlit("");
        reveal_strlit("ExportNamedDeclaration");
        reveal_strlit("VariableDeclaration");
    }
    assert(""@.len() == 0 && "ExportNamedDeclaration"@.len() == 22 && "VariableDeclaration"@.len()
        == 19);
    let none: Vec<FunctionArgSet> = Vec::new();
    assert(arg_sets_model(none@) =~= Seq::<ArgSetModel>::empty());
    let entries = match object_entries(statement) {
        Some(entries) => entries,
        None => {
            return Ok(none);
        },
    };
    if !same_text(get_text(entries, "type"), "ExportNamedDeclaration") {
        return Ok(none);
    }
    let declaration = match get_entries(entries, "declaration") {
        Some(declaration) => declaration,
        None => {
            return Ok(none);
        },
    };
    if !same_text(get_text(declaration, "type"), "VariableDeclaration") {
        return Ok(none);
    }
    match get_items(declaration, "declarations") {
        Some(declarators) => read_declarators(declarators),
        None => Ok(none),
    }
}

fn read_statements(body: &Vec<Json>) -> (r: Result<Vec<FunctionArgSet>, ConvexTypeGeneratorError>)
    ensures
        sets_outcome(r) == statements_from(items_model(body@), 0),
{
    let ghost models = items_model(body@);
    let mut out: Vec<FunctionArgSet> = Vec::new();
    let mut i: usize = 0;
    proof {
        assert(arg_sets_model(out@) =~= Seq::<ArgSetModel>::empty());
        if let Ok(all) = statements_from(models, 0) {
            assert(Seq::<ArgSetModel>::empty() + all =~= all);
        }
    }
    while i < body.len()
        invariant
            i <= body@.len(),
            models == items_model(body@),
            statements_from(models, 0) == prepend(
                arg_sets_model(out@),
                statements_from(models, i as int),
            ),
        decreases body@.len() - i,
    {
        match read_statement(&body[i]) {
            Err(err) => {
                return Err(err);
            },
            Ok(sets) => {
                let ghost before = arg_sets_model(out@);
                let ghost added = arg_sets_model(sets@);
                let mut sets = sets;
                out.append(&mut sets);
                proof {
                    assert(arg_sets_model(out@) =~= before + added);
                    if let Ok(tail) = statements_from(models, i + 1) {
                        assert(before + (added + tail) =~= arg_sets_model(out@) + tail);
                    }
                }
            },
        }
        i += 1;
    }
    assert(arg_sets_model(out@) + Seq::<ArgSetModel>::empty() =~= arg_sets_model(out@));
    Ok(out)
}

/// Extracts the exported functions of the given files, file by file.
///
/// A binding counts where it is exported and its initializer is a call of
/// `query`, `mutation` or `action` on an object with an `args` property. A
/// file without such a binding adds nothing.
pub fn parse_function_ast(trees: &Vec<Json>) -> (r: Result<
    Vec<FunctionArgSet>,
    ConvexTypeGeneratorError,
>)
    ensures
        sets_outcome(r) == functions_from(items_model(trees@), 0),
        r matches Ok(sets) ==> forall|j: int|
            0 <= j < sets@.len() ==> is_args_shape((#[trigger] sets@[j]).args_type@),
{
    let ghost models = items_model(trees@);
    let mut out: Vec<FunctionArgSet> = Vec::new();
    let mut i: usize = 0;
    proof {
        assert(arg_sets_model(out@) =~= Seq::<ArgSetModel>::empty());
        if let Ok(all) = functions_from(models, 0) {
            assert(Seq::<ArgSetModel>::empty() + all =~= all);
        }
    }
    while i < trees.len()
        invariant
            i <= trees@.len(),
            models == items_model(trees@),
            functions_from(models, 0) == prepend(
                arg_sets_model(out@),
                functions_from(models, i as int),
            ),
        decreases trees@.len() - i,
    {
        let found = match body_of(&trees[i]) {
            Some(body) => read_statements(body),
            None => {
                let none: Vec<FunctionArgSet> = Vec::new();
                assert(arg_sets_model(none@) =~= Seq::<ArgSetModel>::empty());
                Ok(none)
            },
        };
        match found {
            Err(err) => {
                return Err(err);
            },
            Ok(sets) => {
                let ghost before = arg_sets_model(out@);
                let ghost added = arg_sets_model(sets@);
                let mut sets = sets;
                out.append(&mut sets);
                proof {
                    assert(arg_sets_model(out@) =~= before + added);
                    if let Ok(tail) = functions_from(models, i + 1) {
                        assert(before + (added + tail) =~= arg_sets_model(out@) + tail);
                    }
                }
            },
        }
        i += 1;
    }
    assert(arg_sets_model(out@) + Seq::<ArgSetModel>::empty() =~= arg_sets_model(out@));
    proof {
        lemma_functions_shape(models, 0);
        assert forall|j: int| 0 <= j < out@.len() implies is_args_shape(
            (#[trigger] out@[j]).args_type@,
        ) by {
            assert(arg_sets_model(out@)[j] == out@[j]@);
        }
    }
    Ok(out)
}

} // verus!
