use vstd::prelude::*;
use crate::errors::{ConvexTypeGeneratorError, ErrorModel};
use crate::expr::{
    expression_of, exprs_model, properties_model, read_expression, Expr, ExprModel, Property,
    PropertyModel,
};
use crate::json::Json;
use crate::laws::{flagged, lemma_interpretation_flagged};
use crate::text::same_text;
use crate::types::{
    fields_model, prepend, types_model, Field, FieldModel, KeyModel, LiteralModel, LiteralValue,
    RecordKey, ScalarKind, TypeModel, TypeNode,
};

verus! {

/// The dotted path by which an expression is named in a complaint: the
/// path of what a call calls, the members of an access joined by dots, the
/// name of an identifier, and a word for anything else.
pub open spec fn describe(e: ExprModel) -> Seq<char>
    decreases e,
{
    match e {
        ExprModel::Call { callee, arguments } => describe(*callee),
        ExprModel::Member { object, property } => describe(*object) + "."@ + property,
        ExprModel::Identifier(name) => name,
        ExprModel::Object(_) => "object literal"@,
        ExprModel::Array(_) => "array literal"@,
        ExprModel::Text(_) => "string literal"@,
        ExprModel::Number(_) => "number literal"@,
        ExprModel::Boolean(_) => "boolean literal"@,
        ExprModel::Other(kind) => kind,
    }
}

/// Names an expression for a complaint.
pub fn describe_expression(e: &Expr) -> (r: String)
    ensures
        r@ == describe(e@),
    decreases e,
{
    match e {
        Expr::Call { callee, arguments: _ } => describe_expression(&**callee),
        Expr::Member { object, property } => {
            let base = describe_expression(&**object);
            base.concat(".").concat(property.as_str())
        },
        Expr::Identifier(name) => name.clone(),
        Expr::Object(_) => String::from_str("object literal"),
        Expr::Array(_) => String::from_str("array literal"),
        Expr::Text(_) => String::from_str("string literal"),
        Expr::Number(_) => String::from_str("number literal"),
        Expr::Boolean(_) => String::from_str("boolean literal"),
        Expr::Other(kind) => kind.clone(),
    }
}

/// The complaint that an expression is no validator this library knows.
pub open spec fn unrecognized(e: ExprModel) -> ErrorModel {
    ErrorModel::UnrecognizedValidator { path: describe(e) }
}

fn reject(e: &Expr) -> (r: ConvexTypeGeneratorError)
    ensures
        r@ == unrecognized(e@),
{
    ConvexTypeGeneratorError::UnrecognizedValidator { path: describe_expression(e) }
}

/// The scalar kind that a word of the validator vocabulary stands for.
pub open spec fn scalar_named(word: Seq<char>) -> Option<ScalarKind> {
    if word == "string"@ {
        Some(ScalarKind::String)
    } else if word == "number"@ || word == "float64"@ {
        Some(ScalarKind::Number)
    } else if word == "boolean"@ {
        Some(ScalarKind::Boolean)
    } else if word == "bytes"@ {
        Some(ScalarKind::Bytes)
    } else if word == "null"@ {
        Some(ScalarKind::Null)
    } else if word == "any"@ {
        Some(ScalarKind::Any)
    } else if word == "int64"@ || word == "bigint"@ {
        Some(ScalarKind::Int64)
    } else {
        None
    }
}

/// Finds the scalar kind that a word of the validator vocabulary stands for.
pub fn scalar_for(word: &str) -> (r: Option<ScalarKind>)
    ensures
        r == scalar_named(word@),
{
    if same_text(word, "string") {
        Some(ScalarKind::String)
    } else if same_text(word, "number") || same_text(word, "float64") {
        Some(ScalarKind::Number)
    } else if same_text(word, "boolean") {
        Some(ScalarKind::Boolean)
    } else if same_text(word, "bytes") {
        Some(ScalarKind::Bytes)
    } else if same_text(word, "null") {
        Some(ScalarKind::Null)
    } else if same_text(word, "any") {
        Some(ScalarKind::Any)
    } else if same_text(word, "int64") || same_text(word, "bigint") {
        Some(ScalarKind::Int64)
    } else {
        None
    }
}

/// The word of the validator vocabulary for a scalar kind.
pub open spec fn scalar_word(kind: ScalarKind) -> Seq<char> {
    match kind {
        ScalarKind::String => "string"@,
        ScalarKind::Number => "number"@,
        ScalarKind::Boolean => "boolean"@,
        ScalarKind::Bytes => "bytes"@,
        ScalarKind::Null => "null"@,
        ScalarKind::Any => "any"@,
        ScalarKind::Int64 => "int64"@,
    }
}

/// The word of the validator vocabulary that builds a type of this shape.
pub open spec fn kind_word(t: TypeModel) -> Seq<char> {
    match t {
        TypeModel::Scalar(kind) => scalar_word(kind),
        TypeModel::Id(_) => "id"@,
        TypeModel::Optional(_) => "optional"@,
        TypeModel::Array(_) => "array"@,
        TypeModel::Object(_) => "object"@,
        TypeModel::Union(_) => "union"@,
        TypeModel::Literal(_) => "literal"@,
        TypeModel::Record(_, _) => "record"@,
    }
}

fn kind_word_of(t: &TypeNode) -> (r: String)
    ensures
        r@ == kind_word(t@),
{
    match t {
        TypeNode::Scalar(ScalarKind::String) => String::from_str("string"),
        TypeNode::Scalar(ScalarKind::Number) => String::from_str("number"),
        TypeNode::Scalar(ScalarKind::Boolean) => String::from_str("boolean"),
        TypeNode::Scalar(ScalarKind::Bytes) => String::from_str("bytes"),
        TypeNode::Scalar(ScalarKind::Null) => String::from_str("null"),
        TypeNode::Scalar(ScalarKind::Any) => String::from_str("any"),
        TypeNode::Scalar(ScalarKind::Int64) => String::from_str("int64"),
        TypeNode::Id(_) => String::from_str("id"),
        TypeNode::Optional(_) => String::from_str("optional"),
        TypeNode::Array(_) => String::from_str("array"),
        TypeNode::Object(_) => String::from_str("object"),
        TypeNode::Union(_) => String::from_str("union"),
        TypeNode::Literal(_) => String::from_str("literal"),
        TypeNode::Record(_, _) => String::from_str("record"),
    }
}

/// The key that a type can be in a record: a string, a number or the
/// identifier of a table; none for any other type.
pub open spec fn record_key(t: TypeModel) -> Option<KeyModel> {
    match t {
        TypeModel::Scalar(ScalarKind::String) => Some(KeyModel::String),
        TypeModel::Scalar(ScalarKind::Number) => Some(KeyModel::Number),
        TypeModel::Id(table) => Some(KeyModel::Id(table)),
        _ => None,
    }
}

/// The word after `v.` where an expression is `v.word`; none for any other
/// expression.
pub open spec fn validator_word(callee: ExprModel) -> Option<Seq<char>> {
    match callee {
        ExprModel::Member { object, property } => if *object == ExprModel::Identifier("v"@) {
            Some(property)
        } else {
            None
        },
        _ => None,
    }
}

fn validator_word_of(callee: &Expr) -> (r: Option<&String>)
    ensures
        match r {
            Some(word) => validator_word(callee@) == Some(word@),
            None => validator_word(callee@) is None,
        },
{
    match callee {
        Expr::Member { object, property } => match &**object {
            Expr::Identifier(name) => if same_text(name.as_str(), "v") {
                assert((**object)@ == ExprModel::Identifier(name@));
                Some(property)
            } else {
                None
            },
            _ => None,
        },
        _ => None,
    }
}

/// The fixed value that a literal expression holds.
pub open spec fn literal_value(e: ExprModel) -> Option<LiteralModel> {
    match e {
        ExprModel::Text(t) => Some(LiteralModel::Text(t)),
        ExprModel::Number(n) => Some(LiteralModel::Number(n)),
        ExprModel::Boolean(b) => Some(LiteralModel::Boolean(b)),
        _ => None,
    }
}

fn literal_value_of(e: &Expr) -> (r: Option<LiteralValue>)
    ensures
        match r {
            Some(value) => literal_value(e@) == Some(value@),
            None => literal_value(e@) is None,
        },
{
    match e {
        Expr::Text(t) => Some(LiteralValue::Text(t.clone())),
        Expr::Number(n) => Some(LiteralValue::Number(n.clone())),
        Expr::Boolean(b) => Some(LiteralValue::Boolean(*b)),
        _ => None,
    }
}

/// The literal types of the expressions from position `from` on; the
/// complaint about `whole` where one of them is no literal.
pub open spec fn literal_types(exprs: Seq<ExprModel>, from: int, whole: ExprModel) -> Result<
    Seq<TypeModel>,
    ErrorModel,
>
    decreases exprs.len() - from,
{
    if from < 0 || from >= exprs.len() {
        Ok(Seq::empty())
    } else {
        match literal_value(exprs[from]) {
            None => Err(unrecognized(whole)),
            Some(value) => prepend(
                seq![TypeModel::Literal(value)],
                literal_types(exprs, from + 1, whole),
            ),
        }
    }
}

/// The mathematical value of the outcome of an interpretation.
pub open spec fn type_outcome(r: Result<TypeNode, ConvexTypeGeneratorError>) -> Result<
    TypeModel,
    ErrorModel,
> {
    match r {
        Ok(t) => Ok(t@),
        Err(e) => Err(e@),
    }
}

/// The mathematical value of the outcome of interpreting a list.
pub open spec fn types_outcome(r: Result<Vec<TypeNode>, ConvexTypeGeneratorError>) -> Result<
    Seq<TypeModel>,
    ErrorModel,
> {
    match r {
        Ok(types) => Ok(types_model(types@)),
        Err(e) => Err(e@),
    }
}

/// The mathematical value of the outcome of interpreting the properties of
/// an object literal.
pub open spec fn fields_outcome(r: Result<Vec<Field>, ConvexTypeGeneratorError>) -> Result<
    Seq<FieldModel>,
    ErrorModel,
> {
    match r {
        Ok(fields) => Ok(fields_model(fields@)),
        Err(e) => Err(e@),
    }
}

/// The type that a validator expression describes, or the complaint about
/// the first part of it that is not understood.
///
/// A validator is a call `v.word(..)` of the vocabulary, or an object
/// literal, which stands for the object of its properties.
pub open spec fn interpretation(e: ExprModel) -> Result<TypeModel, ErrorModel>
    decreases e, 0int,
{
    match e {
        ExprModel::Call { callee, arguments } => match validator_word(*callee) {
            None => Err(unrecognized(e)),
            Some(word) => application(word, arguments, e),
        },
        ExprModel::Object(properties) => object_of(properties),
        _ => Err(unrecognized(e)),
    }
}

/// What the call `v.word(arguments)` describes; `whole` is the call, for
/// the complaint.
pub open spec fn application(word: Seq<char>, arguments: Seq<ExprModel>, whole: ExprModel) -> Result<
    TypeModel,
    ErrorModel,
>
    decreases arguments, arguments.len() + 2,
{
    if scalar_named(word) is Some {
        scalar_application(scalar_named(word)->0, arguments, whole)
    } else if word == "id"@ {
        id_application(arguments, whole)
    } else if word == "optional"@ {
        optional_application(arguments, whole)
    } else if word == "array"@ {
        array_application(arguments, whole)
    } else if word == "object"@ {
        object_application(arguments, whole)
    } else if word == "union"@ {
        union_application(arguments, whole)
    } else if word == "literal"@ {
        literal_application(arguments, whole)
    } else if word == "record"@ {
        record_application(arguments, whole)
    } else {
        Err(unrecognized(whole))
    }
}

/// A scalar: a call without arguments.
pub open spec fn scalar_application(
    kind: ScalarKind,
    arguments: Seq<ExprModel>,
    whole: ExprModel,
) -> Result<TypeModel, ErrorModel> {
    if arguments.len() == 0 {
        Ok(TypeModel::Scalar(kind))
    } else {
        Err(unrecognized(whole))
    }
}

/// `id(table)`: the one argument is the table's name, taken as it stands.
pub open spec fn id_application(arguments: Seq<ExprModel>, whole: ExprModel) -> Result<
    TypeModel,
    ErrorModel,
> {
    if arguments.len() == 1 {
        match arguments[0] {
            ExprModel::Text(table) => Ok(TypeModel::Id(table)),
            _ => Err(unrecognized(whole)),
        }
    } else {
        Err(unrecognized(whole))
    }
}

/// `literal(value)` is the literal; `literal(a, b, ..)` is the union of
/// the literals, in their order.
pub open spec fn literal_application(arguments: Seq<ExprModel>, whole: ExprModel) -> Result<
    TypeModel,
    ErrorModel,
> {
    if arguments.len() == 1 {
        match literal_value(arguments[0]) {
            Some(value) => Ok(TypeModel::Literal(value)),
            None => Err(unrecognized(whole)),
        }
    } else if arguments.len() >= 2 {
        match literal_types(arguments, 0, whole) {
            Ok(variants) => Ok(TypeModel::Union(variants)),
            Err(err) => Err(err),
        }
    } else {
        Err(unrecognized(whole))
    }
}

/// `optional(inner)`.
pub open spec fn optional_application(arguments: Seq<ExprModel>, whole: ExprModel) -> Result<
    TypeModel,
    ErrorModel,
>
    decreases arguments, arguments.len() + 1,
{
    if arguments.len() == 1 {
        match interpretation(arguments[0]) {
            Ok(inner) => Ok(TypeModel::Optional(Box::new(inner))),
            Err(err) => Err(err),
        }
    } else {
        Err(unrecognized(whole))
    }
}

/// `array(element)`.
pub open spec fn array_application(arguments: Seq<ExprModel>, whole: ExprModel) -> Result<
    TypeModel,
    ErrorModel,
>
    decreases arguments, arguments.len() + 1,
{
    if arguments.len() == 1 {
        match interpretation(arguments[0]) {
            Ok(element) => Ok(TypeModel::Array(Box::new(element))),
            Err(err) => Err(err),
        }
    } else {
        Err(unrecognized(whole))
    }
}

/// `object({..})`: the one argument is an object literal.
pub open spec fn object_application(arguments: Seq<ExprModel>, whole: ExprModel) -> Result<
    TypeModel,
    ErrorModel,
>
    decreases arguments, arguments.len() + 1,
{
    if arguments.len() == 1 {
        match arguments[0] {
            ExprModel::Object(properties) => object_of(properties),
            _ => Err(unrecognized(whole)),
        }
    } else {
        Err(unrecognized(whole))
    }
}

/// The object whose fields the properties describe.
pub open spec fn object_of(properties: Seq<PropertyModel>) -> Result<TypeModel, ErrorModel>
    decreases properties, properties.len() + 1,
{
    match field_interpretations(properties, 0) {
        Ok(fields) => Ok(TypeModel::Object(fields)),
        Err(err) => Err(err),
    }
}

/// `union(a, b, ..)`: at least one variant.
pub open spec fn union_application(arguments: Seq<ExprModel>, whole: ExprModel) -> Result<
    TypeModel,
    ErrorModel,
>
    decreases arguments, arguments.len() + 1,
{
    if arguments.len() >= 1 {
        match interpretations(arguments, 0) {
            Ok(variants) => Ok(TypeModel::Union(variants)),
            Err(err) => Err(err),
        }
    } else {
        Err(unrecognized(whole))
    }
}

/// `record(key, value)`: the key is interpreted first and must be a
/// string, a number or the identifier of a table.
pub open spec fn record_application(arguments: Seq<ExprModel>, whole: ExprModel) -> Result<
    TypeModel,
    ErrorModel,
>
    decreases arguments, arguments.len() + 1,
{
    if arguments.len() == 2 {
        match interpretation(arguments[0]) {
            Err(err) => Err(err),
            Ok(key_type) => match record_key(key_type) {
                None => Err(ErrorModel::InvalidRecordKey { found: kind_word(key_type) }),
                Some(key) => match interpretation(arguments[1]) {
                    Ok(value) => Ok(TypeModel::Record(key, Box::new(value))),
                    Err(err) => Err(err),
                },
            },
        }
    } else {
        Err(unrecognized(whole))
    }
}

/// The types that the expressions from position `from` on describe, in
/// their order, or the complaint about the first that is not understood.
pub open spec fn interpretations(exprs: Seq<ExprModel>, from: int) -> Result<
    Seq<TypeModel>,
    ErrorModel,
>
    decreases exprs, exprs.len() - from,
{
    if from < 0 || from >= exprs.len() {
        Ok(Seq::empty())
    } else {
        match interpretation(exprs[from]) {
            Err(err) => Err(err),
            Ok(t) => prepend(seq![t], interpretations(exprs, from + 1)),
        }
    }
}

/// The fields that the properties from position `from` on describe, in
/// their order, or the complaint about the first that is not understood. A
/// property that is no plain `name: value` is not understood.
pub open spec fn field_interpretations(properties: Seq<PropertyModel>, from: int) -> Result<
    Seq<FieldModel>,
    ErrorModel,
>
    decreases properties, properties.len() - from,
{
    if from < 0 || from >= properties.len() {
        Ok(Seq::empty())
    } else if !properties[from].plain {
        Err(ErrorModel::UnrecognizedValidator { path: "object literal"@ })
    } else {
        match interpretation(properties[from].value) {
            Err(err) => Err(err),
            Ok(t) => prepend(
                seq![FieldModel { name: properties[from].name, ty: t, optional: t is Optional }],
                field_interpretations(properties, from + 1),
            ),
        }
    }
}

fn interpret_literals(arguments: &Vec<Expr>, whole: &Expr) -> (r: Result<
    Vec<TypeNode>,
    ConvexTypeGeneratorError,
>)
    ensures
        types_outcome(r) == literal_types(exprs_model(arguments@), 0, whole@),
{
    let ghost exprs = exprs_model(arguments@);
    let mut out: Vec<TypeNode> = Vec::new();
    let mut i: usize = 0;
    while i < arguments.len()
        invariant
            i <= arguments@.len(),
            exprs == exprs_model(arguments@),
            literal_types(exprs, 0, whole@) == prepend(
                types_model(out@),
                literal_types(exprs, i as int, whole@),
            ),
        decreases arguments@.len() - i,
    {
        match literal_value_of(&arguments[i]) {
            None => {
                return Err(reject(whole));
            },
            Some(value) => {
                let ghost before = types_model(out@);
                out.push(TypeNode::Literal(value));
                proof {
                    let rest = literal_types(exprs, i + 1, whole@);
                    assert(types_model(out@) =~= before + seq![TypeModel::Literal(value@)]);
                    if let Ok(tail) = rest {
                        assert(before + (seq![TypeModel::Literal(value@)] + tail) =~= types_model(
                            out@,
                        ) + tail);
                    }
                }
            },
        }
        i += 1;
    }
    assert(types_model(out@) + Seq::<TypeModel>::empty() =~= types_model(out@));
    Ok(out)
}

/// Interprets a validator expression.
pub fn interpret(e: &Expr) -> (r: Result<TypeNode, ConvexTypeGeneratorError>)
    ensures
        type_outcome(r) == interpretation(e@),
        r matches Ok(t) ==> flagged(t@),
    decreases e, 0int,
{
    proof {
        if interpretation(e@) is Ok {
            lemma_interpretation_flagged(e@);
        }
    }
    match e {
        Expr::Call { callee, arguments } => match validator_word_of(&**callee) {
            None => Err(reject(e)),
            Some(word) => apply(word.as_str(), arguments, e),
        },
        Expr::Object(properties) => interpret_object(properties),
        _ => Err(reject(e)),
    }
}

/// Interprets the validator that a node of the syntax tree stands for.
pub fn interpret_node(node: &Json) -> (r: Result<TypeNode, ConvexTypeGeneratorError>)
    ensures
        type_outcome(r) == interpretation(expression_of(node@)),
{
    let e = read_expression(node);
    interpret(&e)
}

fn apply(word: &str, arguments: &Vec<Expr>, whole: &Expr) -> (r: Result<
    TypeNode,
    ConvexTypeGeneratorError,
>)
    ensures
        type_outcome(r) == application(word@, exprs_model(arguments@), whole@),
    decreases arguments, arguments@.len() + 2,
{
    match scalar_for(word) {
        Some(kind) => {
            if arguments.len() == 0 {
                Ok(TypeNode::Scalar(kind))
            } else {
                Err(reject(whole))
            }
        },
        None => if same_text(word, "id") {
            apply_id(arguments, whole)
        } else if same_text(word, "optional") {
            apply_optional(arguments, whole)
        } else if same_text(word, "array") {
            apply_array(arguments, whole)
        } else if same_text(word, "object") {
            apply_object(arguments, whole)
        } else if same_text(word, "union") {
            apply_union(arguments, whole)
        } else if same_text(word, "literal") {
            apply_literal(arguments, whole)
        } else if same_text(word, "record") {
            apply_record(arguments, whole)
        } else {
            Err(reject(whole))
        },
    }
}

fn apply_id(arguments: &Vec<Expr>, whole: &Expr) -> (r: Result<TypeNode, ConvexTypeGeneratorError>)
    ensures
        type_outcome(r) == id_application(exprs_model(arguments@), whole@),
{
    if arguments.len() == 1 {
        match &arguments[0] {
            Expr::Text(table) => Ok(TypeNode::Id(table.clone())),
            _ => Err(reject(whole)),
        }
    } else {
        Err(reject(whole))
    }
}

fn apply_literal(arguments: &Vec<Expr>, whole: &Expr) -> (r: Result<
    TypeNode,
    ConvexTypeGeneratorError,
>)
    ensures
        type_outcome(r) == literal_application(exprs_model(arguments@), whole@),
{
    if arguments.len() == 1 {
        match literal_value_of(&arguments[0]) {
            Some(value) => Ok(TypeNode::Literal(value)),
            None => Err(reject(whole)),
        }
    } else if arguments.len() >= 2 {
        match interpret_literals(arguments, whole) {
            Ok(variants) => Ok(TypeNode::Union(variants)),
            Err(err) => Err(err),
        }
    } else {
        Err(reject(whole))
    }
}

fn apply_optional(arguments: &Vec<Expr>, whole: &Expr) -> (r: Result<
    TypeNode,
    ConvexTypeGeneratorError,
>)
    ensures
        type_outcome(r) == optional_application(exprs_model(arguments@), whole@),
    decreases arguments, arguments@.len() + 1,
{
    if arguments.len() == 1 {
        match interpret(&arguments[0]) {
            Ok(inner) => Ok(TypeNode::Optional(Box::new(inner))),
            Err(err) => Err(err),
        }
    } else {
        Err(reject(whole))
    }
}

fn apply_array(arguments: &Vec<Expr>, whole: &Expr) -> (r: Result<
    TypeNode,
    ConvexTypeGeneratorError,
>)
    ensures
        type_outcome(r) == array_application(exprs_model(arguments@), whole@),
    decreases arguments, arguments@.len() + 1,
{
    if arguments.len() == 1 {
        match interpret(&arguments[0]) {
            Ok(element) => Ok(TypeNode::Array(Box::new(element))),
            Err(err) => Err(err),
        }
    } else {
        Err(reject(whole))
    }
}

fn apply_object(arguments: &Vec<Expr>, whole: &Expr) -> (r: Result<
    TypeNode,
    ConvexTypeGeneratorError,
>)
    ensures
        type_outcome(r) == object_application(exprs_model(arguments@), whole@),
    decreases arguments, arguments@.len() + 1,
{
    if arguments.len() == 1 {
        match &arguments[0] {
            Expr::Object(properties) => interpret_object(properties),
            _ => Err(reject(whole)),
        }
    } else {
        Err(reject(whole))
    }
}

fn interpret_object(properties: &Vec<Property>) -> (r: Result<
    TypeNode,
    ConvexTypeGeneratorError,
>)
    ensures
        type_outcome(r) == object_of(properties_model(properties@)),
    decreases properties, properties@.len() + 1,
{
    match interpret_fields(properties) {
        Ok(fields) => Ok(TypeNode::Object(fields)),
        Err(err) => Err(err),
    }
}

fn apply_union(arguments: &Vec<Expr>, whole: &Expr) -> (r: Result<
    TypeNode,
    ConvexTypeGeneratorError,
>)
    ensures
        type_outcome(r) == union_application(exprs_model(arguments@), whole@),
    decreases arguments, arguments@.len() + 1,
{
    if arguments.len() >= 1 {
        match interpret_all(arguments) {
            Ok(variants) => Ok(TypeNode::Union(variants)),
            Err(err) => Err(err),
        }
    } else {
        Err(reject(whole))
    }
}

fn apply_record(arguments: &Vec<Expr>, whole: &Expr) -> (r: Result<
    TypeNode,
    ConvexTypeGeneratorError,
>)
    ensures
        type_outcome(r) == record_application(exprs_model(arguments@), whole@),
    decreases arguments, arguments@.len() + 1,
{
    if arguments.len() != 2 {
        return Err(reject(whole));
    }
    let key_type = match interpret(&arguments[0]) {
        Err(err) => {
            return Err(err);
        },
        Ok(key_type) => key_type,
    };
    let key = match key_type {
        TypeNode::Scalar(ScalarKind::String) => RecordKey::String,
        TypeNode::Scalar(ScalarKind::Number) => RecordKey::Number,
        TypeNode::Id(table) => RecordKey::Id(table),
        other => {
            return Err(
                ConvexTypeGeneratorError::InvalidRecordKey { found: kind_word_of(&other) },
            );
        },
    };
    match interpret(&arguments[1]) {
        Ok(value) => Ok(TypeNode::Record(key, Box::new(value))),
        Err(err) => Err(err),
    }
}

/// Interprets a list of validator expressions, in their order.
pub fn interpret_all(exprs: &Vec<Expr>) -> (r: Result<Vec<TypeNode>, ConvexTypeGeneratorError>)
    ensures
        types_outcome(r) == interpretations(exprs_model(exprs@), 0),
    decreases exprs, exprs@.len(),
{
    let ghost models = exprs_model(exprs@);
    let mut out: Vec<TypeNode> = Vec::new();
    let mut i: usize = 0;
    while i < exprs.len()
        invariant
            i <= exprs@.len(),
            models == exprs_model(exprs@),
            interpretations(models, 0) == prepend(
                types_model(out@),
                interpretations(models, i as int),
            ),
        decreases exprs@.len() - i,
    {
        match interpret(&exprs[i]) {
            Err(err) => {
                return Err(err);
            },
            Ok(t) => {
                let ghost before = types_model(out@);
                let ghost model = t@;
                out.push(t);
                proof {
                    let rest = interpretations(models, i + 1);
                    assert(types_model(out@) =~= before + seq![model]);
                    if let Ok(tail) = rest {
                        assert(before + (seq![model] + tail) =~= types_model(out@) + tail);
                    }
                }
            },
        }
        i += 1;
    }
    assert(types_model(out@) + Seq::<TypeModel>::empty() =~= types_model(out@));
    Ok(out)
}

/// Interprets the properties of an object literal as fields, in their
/// order.
pub fn interpret_fields(properties: &Vec<Property>) -> (r: Result<
    Vec<Field>,
    ConvexTypeGeneratorError,
>)
    ensures
        fields_outcome(r) == field_interpretations(properties_model(properties@), 0),
    decreases properties, properties@.len(),
{
    let ghost models = properties_model(properties@);
    let mut out: Vec<Field> = Vec::new();
    let mut i: usize = 0;
    while i < properties.len()
        invariant
            i <= properties@.len(),
            models == properties_model(properties@),
            field_interpretations(models, 0) == prepend(
                fields_model(out@),
                field_interpretations(models, i as int),
            ),
        decreases properties@.len() - i,
    {
        if !properties[i].plain {
            return Err(
                ConvexTypeGeneratorError::UnrecognizedValidator {
                    path: String::from_str("object literal"),
                },
            );
        }
        match interpret(&properties[i].value) {
            Err(err) => {
                return Err(err);
            },
            Ok(t) => {
                let optional = match &t {
                    TypeNode::Optional(_) => true,
                    _ => false,
                };
                let field = Field { name: properties[i].name.clone(), ty: t, optional };
                let ghost before = fields_model(out@);
                let ghost model = field@;
                out.push(field);
                proof {
                    let rest = field_interpretations(models, i + 1);
                    assert(fields_model(out@) =~= before + seq![model]);
                    if let Ok(tail) = rest {
                        assert(before + (seq![model] + tail) =~= fields_model(out@) + tail);
                    }
                }
            },
        }
        i += 1;
    }
    assert(fields_model(out@) + Seq::<FieldModel>::empty() =~= fields_model(out@));
    Ok(out)
}

} // verus!
