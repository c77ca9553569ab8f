use vstd::prelude::*;
use crate::json::{
    bool_at, entries_at, entries_model, get_bool, get_entries, get_items, get_text, get_value,
    items_model, text_at, value_at, Entry, EntryModel, Json, JsonModel,
};
use crate::text::same_text;

verus! {

/// One property of an object literal. `plain` says that it is an ordinary
/// `name: value` property whose name could be read.
#[derive(Debug)]
pub struct Property {
    pub name: String,
    pub plain: bool,
    pub value: Expr,
}

/// An expression of the source language, as far as declarations of schemas
/// and functions use it. Whatever else the syntax tree holds is `Other`,
/// with the kind of the node. An expression in parentheses is the
/// expression inside them.
#[derive(Debug)]
pub enum Expr {
    Call { callee: Box<Expr>, arguments: Vec<Expr> },
    Member { object: Box<Expr>, property: String },
    Identifier(String),
    Object(Vec<Property>),
    Array(Vec<Expr>),
    Text(String),
    Number(String),
    Boolean(bool),
    Other(String),
}

/// The mathematical value of a [`Property`].
pub struct PropertyModel {
    pub name: Seq<char>,
    pub plain: bool,
    pub value: ExprModel,
}

/// The mathematical value of an [`Expr`].
pub enum ExprModel {
    Call { callee: Box<ExprModel>, arguments: Seq<ExprModel> },
    Member { object: Box<ExprModel>, property: Seq<char> },
    Identifier(Seq<char>),
    Object(Seq<PropertyModel>),
    Array(Seq<ExprModel>),
    Text(Seq<char>),
    Number(Seq<char>),
    Boolean(bool),
    Other(Seq<char>),
}

/// The mathematical values of a list of expressions.
pub open spec fn exprs_model(exprs: Seq<Expr>) -> Seq<ExprModel>
    decreases exprs,
{
    Seq::new(
        exprs.len(),
        |i: int|
            if 0 <= i < exprs.len() {
                exprs[i]@
            } else {
                ExprModel::Other(Seq::empty())
            },
    )
}

/// The mathematical values of a list of properties.
pub open spec fn properties_model(properties: Seq<Property>) -> Seq<PropertyModel>
    decreases properties,
{
    Seq::new(
        properties.len(),
        |i: int|
            if 0 <= i < properties.len() {
                PropertyModel {
                    name: properties[i].name@,
                    plain: properties[i].plain,
                    value: properties[i].value@,
                }
            } else {
                PropertyModel {
                    name: Seq::empty(),
                    plain: false,
                    value: ExprModel::Other(Seq::empty()),
                }
            },
    )
}

impl View for Expr {
    type V = ExprModel;

    open spec fn view(&self) -> ExprModel
        decreases self,
    {
        match self {
            Expr::Call { callee, arguments } => ExprModel::Call {
                callee: Box::new((**callee)@),
                arguments: exprs_model(arguments@),
            },
            Expr::Member { object, property } => ExprModel::Member {
                object: Box::new((**object)@),
                property: property@,
            },
            Expr::Identifier(name) => ExprModel::Identifier(name@),
            Expr::Object(properties) => ExprModel::Object(properties_model(properties@)),
            Expr::Array(items) => ExprModel::Array(exprs_model(items@)),
            Expr::Text(t) => ExprModel::Text(t@),
            Expr::Number(n) => ExprModel::Number(n@),
            Expr::Boolean(b) => ExprModel::Boolean(*b),
            Expr::Other(kind) => ExprModel::Other(kind@),
        }
    }
}

/// What a `Literal` node stands for, by the value it holds.
pub open spec fn literal_of(value: Option<JsonModel>) -> ExprModel {
    match value {
        Some(JsonModel::Text(t)) => ExprModel::Text(t),
        Some(JsonModel::Number(n)) => ExprModel::Number(n),
        Some(JsonModel::Bool(b)) => ExprModel::Boolean(b),
        _ => ExprModel::Other("Literal"@),
    }
}

/// What a `UnaryExpression` node stands for: a negative number where it is
/// `-` before a number, and nothing this library reads otherwise.
pub open spec fn negation_of(entries: Seq<EntryModel>) -> ExprModel {
    let argument = entries_at(entries, "argument"@);
    if text_at(entries, "operator"@) == "-"@ && text_at(argument, "type"@) == "Literal"@ {
        match value_at(argument, "value"@) {
            Some(JsonModel::Number(n)) => ExprModel::Number("-"@ + n),
            _ => ExprModel::Other("UnaryExpression"@),
        }
    } else {
        ExprModel::Other("UnaryExpression"@)
    }
}

/// The name that the key of a property gives: that of an identifier, or
/// the text of a literal.
pub open spec fn key_name(key: Seq<EntryModel>) -> Seq<char> {
    if text_at(key, "type"@) == "Identifier"@ {
        text_at(key, "name"@)
    } else {
        text_at(key, "value"@)
    }
}

/// Whether the key of a property can be read as a name: an identifier, or
/// a literal that holds a text.
pub open spec fn key_readable(key: Seq<EntryModel>) -> bool {
    text_at(key, "type"@) == "Identifier"@ || (text_at(key, "type"@) == "Literal"@ && (value_at(
        key,
        "value"@,
    ) matches Some(JsonModel::Text(_))))
}

/// The expression that a node of the syntax tree stands for.
pub open spec fn expression_of(node: JsonModel) -> ExprModel
    decreases node,
{
    match node {
        JsonModel::Object(entries) => {
            let kind = text_at(entries, "type"@);
            if kind == "CallExpression"@ {
                ExprModel::Call {
                    callee: Box::new(child_expression(entries, "callee"@)),
                    arguments: child_expressions(entries, "arguments"@),
                }
            } else if kind == "MemberExpression"@ {
                if bool_at(entries, "computed"@) == Some(false) {
                    ExprModel::Member {
                        object: Box::new(child_expression(entries, "object"@)),
                        property: text_at(entries_at(entries, "property"@), "name"@),
                    }
                } else {
                    ExprModel::Other(kind)
                }
            } else if kind == "Identifier"@ {
                ExprModel::Identifier(text_at(entries, "name"@))
            } else if kind == "ObjectExpression"@ {
                ExprModel::Object(child_properties(entries, "properties"@))
            } else if kind == "ArrayExpression"@ {
                ExprModel::Array(child_expressions(entries, "elements"@))
            } else if kind == "Literal"@ {
                literal_of(value_at(entries, "value"@))
            } else if kind == "UnaryExpression"@ {
                negation_of(entries)
            } else if kind == "ParenthesizedExpression"@ {
                child_expression(entries, "expression"@)
            } else {
                ExprModel::Other(kind)
            }
        },
        _ => ExprModel::Other(""@),
    }
}

/// The expression under `key`; where the key is missing, an expression of
/// no kind.
pub open spec fn child_expression(entries: Seq<EntryModel>, key: Seq<char>) -> ExprModel
    decreases entries,
{
    match value_at(entries, key) {
        Some(node) => expression_of(node),
        None => ExprModel::Other(""@),
    }
}

/// The expressions of the array under `key`; none where the key holds no
/// array.
pub open spec fn child_expressions(entries: Seq<EntryModel>, key: Seq<char>) -> Seq<ExprModel>
    decreases entries,
{
    match value_at(entries, key) {
        Some(JsonModel::Array(items)) => expressions_of(items),
        _ => Seq::empty(),
    }
}

/// The properties of the array under `key`; none where the key holds no
/// array.
pub open spec fn child_properties(entries: Seq<EntryModel>, key: Seq<char>) -> Seq<
    PropertyModel,
>
    decreases entries,
{
    match value_at(entries, key) {
        Some(JsonModel::Array(items)) => properties_of(items),
        _ => Seq::empty(),
    }
}

/// The expressions that the nodes of a list stand for.
pub open spec fn expressions_of(items: Seq<JsonModel>) -> Seq<ExprModel>
    decreases items,
{
    Seq::new(
        items.len(),
        |i: int|
            if 0 <= i < items.len() {
                expression_of(items[i])
            } else {
                ExprModel::Other(Seq::empty())
            },
    )
}

/// The properties that the nodes of a list stand for.
pub open spec fn properties_of(items: Seq<JsonModel>) -> Seq<PropertyModel>
    decreases items,
{
    Seq::new(
        items.len(),
        |i: int|
            if 0 <= i < items.len() {
                property_of(items[i])
            } else {
                PropertyModel {
                    name: Seq::empty(),
                    plain: false,
                    value: ExprModel::Other(Seq::empty()),
                }
            },
    )
}

/// The property that a node inside an object literal stands for.
pub open spec fn property_of(node: JsonModel) -> PropertyModel
    decreases node,
{
    match node {
        JsonModel::Object(entries) => {
            let key = entries_at(entries, "key"@);
            PropertyModel {
                name: key_name(key),
                plain: text_at(entries, "type"@) == "Property"@ && bool_at(entries, "computed"@)
                    == Some(false) && key_readable(key),
                value: child_expression(entries, "value"@),
            }
        },
        _ => PropertyModel { name: ""@, plain: false, value: ExprModel::Other(""@) },
    }
}

fn read_literal(entries: &Vec<Entry>) -> (r: Expr)
    ensures
        r@ == literal_of(value_at(entries_model(entries@), "value"@)),
{
    match get_value(entries, "value") {
        Some(Json::Text(t)) => Expr::Text(t.clone()),
        Some(Json::Number(n)) => Expr::Number(n.clone()),
        Some(Json::Bool(b)) => Expr::Boolean(*b),
        _ => Expr::Other(String::from_str("Literal")),
    }
}

fn read_negation(entries: &Vec<Entry>) -> (r: Expr)
    ensures
        r@ == negation_of(entries_model(entries@)),
{
    if !same_text(get_text(entries, "operator"), "-") {
        return Expr::Other(String::from_str("UnaryExpression"));
    }
    match get_entries(entries, "argument") {
        Some(argument) => {
            if same_text(get_text(argument, "type"), "Literal") {
                match get_value(argument, "value") {
                    Some(Json::Number(n)) => Expr::Number(String::from_str("-").concat(n.as_str())),
                    _ => Expr::Other(String::from_str("UnaryExpression")),
                }
            } else {
                Expr::Other(String::from_str("UnaryExpression"))
            }
        },
        None => Expr::Other(String::from_str("UnaryExpression")),
    }
}

/// Reads the expression that a node of the syntax tree stands for.
pub fn read_expression(node: &Json) -> (r: Expr)
    ensures
        r@ == expression_of(node@),
    decreases node,
{
    match node {
        Json::Object(entries) => {
            let kind = get_text(entries, "type");
            if same_text(kind, "CallExpression") {
                let callee = read_child(entries, "callee");
                let arguments = read_children(entries, "arguments");
                Expr::Call { callee: Box::new(callee), arguments }
            } else if same_text(kind, "MemberExpression") {
                match get_bool(entries, "computed") {
                    Some(false) => {
                        let object = read_child(entries, "object");
                        let property = match get_entries(entries, "property") {
                            Some(inner) => String::from_str(get_text(inner, "name")),
                            None => String::from_str(""),
                        };
                        Expr::Member { object: Box::new(object), property }
                    },
                    _ => Expr::Other(String::from_str(kind)),
                }
            } else if same_text(kind, "Identifier") {
                Expr::Identifier(String::from_str(get_text(entries, "name")))
            } else if same_text(kind, "ObjectExpression") {
                Expr::Object(read_properties(entries, "properties"))
            } else if same_text(kind, "ArrayExpression") {
                Expr::Array(read_children(entries, "elements"))
            } else if same_text(kind, "Literal") {
                read_literal(entries)
            } else if same_text(kind, "UnaryExpression") {
                read_negation(entries)
            } else if same_text(kind, "ParenthesizedExpression") {
                read_child(entries, "expression")
            } else {
                Expr::Other(String::from_str(kind))
            }
        },
        _ => Expr::Other(String::from_str("")),
    }
}

/// Reads the expression under `key`.
pub fn read_child(entries: &Vec<Entry>, key: &str) -> (r: Expr)
    ensures
        r@ == child_expression(entries_model(entries@), key@),
    decreases entries,
{
    match get_value(entries, key) {
        Some(node) => read_expression(node),
        None => Expr::Other(String::from_str("")),
    }
}

fn read_children(entries: &Vec<Entry>, key: &str) -> (r: Vec<Expr>)
    ensures
        exprs_model(r@) == child_expressions(entries_model(entries@), key@),
    decreases entries,
{
    match get_items(entries, key) {
        Some(items) => {
            let mut out: Vec<Expr> = Vec::new();
            let mut i: usize = 0;
            while i < items.len()
                invariant
                    i <= items@.len(),
                    out@.len() == i,
                    decreases_to!(entries => items),
                    forall|j: int|
                        0 <= j < i ==> (#[trigger] out@[j])@ == expression_of(items@[j]@),
                decreases items@.len() - i,
            {
                let e = read_expression(&items[i]);
                out.push(e);
                i += 1;
            }
            assert(exprs_model(out@) =~= expressions_of(items_model(items@)));
            out
        },
        None => {
            let out: Vec<Expr> = Vec::new();
            assert(exprs_model(out@) =~= Seq::<ExprModel>::empty());
            out
        },
    }
}

fn read_properties(entries: &Vec<Entry>, key: &str) -> (r: Vec<Property>)
    ensures
        properties_model(r@) == child_properties(entries_model(entries@), key@),
    decreases entries,
{
    match get_items(entries, key) {
        Some(items) => {
            let mut out: Vec<Property> = Vec::new();
            let mut i: usize = 0;
            while i < items.len()
                invariant
                    i <= items@.len(),
                    out@.len() == i,
                    decreases_to!(entries => items),
                    forall|j: int|
                        0 <= j < i ==> (PropertyModel {
                            name: (#[trigger] out@[j]).name@,
                            plain: out@[j].plain,
                            value: out@[j].value@,
                        }) == property_of(items@[j]@),
                decreases items@.len() - i,
            {
                let p = read_property(&items[i]);
                out.push(p);
                i += 1;
            }
            assert(properties_model(out@) =~= properties_of(items_model(items@)));
            out
        },
        None => {
            let out: Vec<Property> = Vec::new();
            assert(properties_model(out@) =~= Seq::<PropertyModel>::empty());
            out
        },
    }
}

fn read_property(node: &Json) -> (r: Property)
    ensures
        (PropertyModel { name: r.name@, plain: r.plain, value: r.value@ }) == property_of(node@),
    decreases node,
{
    match node {
        Json::Object(entries) => {
            let ghost model = entries_model(entries@);
            let value = read_child(entries, "value");
            let is_property = same_text(get_text(entries, "type"), "Property");
            let fixed = match get_bool(entries, "computed") {
                Some(computed) => !computed,
                None => false,
            };
            assert(fixed == (bool_at(model, "computed"@) == Some(false)));
            match get_entries(entries, "key") {
                Some(key) => {
                    let key_kind = get_text(key, "type");
                    let named = same_text(key_kind, "Identifier");
                    let name = if named {
                        String::from_str(get_text(key, "name"))
                    } else {
                        String::from_str(get_text(key, "value"))
                    };
                    let holds_text = match get_value(key, "value") {
                        Some(Json::Text(_)) => true,
                        _ => false,
                    };
                    assert(holds_text == (value_at(entries_model(key@), "value"@) matches Some(
                        JsonModel::Text(_),
                    )));
                    let readable = named || (same_text(key_kind, "Literal") && holds_text);
                    assert(readable == key_readable(entries_at(model, "key"@)));
                    Property { name, plain: is_property && fixed && readable, value }
                },
                None => {
                    proof {
                        reveal_strlit("");
                        reveal_strlit("Identifier");
                        reveal_strlit("Literal");
                    }
                    assert(entries_at(model, "key"@) == Seq::<EntryModel>::empty());
                    assert(""@.len() == 0 && "Identifier"@.len() == 10 && "Literal"@.len() == 7);
                    Property { name: String::from_str(""), plain: false, value }
                },
            }
        },
        _ => Property {
            name: String::from_str(""),
            plain: false,
            value: Expr::Other(String::from_str("")),
        },
    }
}

} // verus!
