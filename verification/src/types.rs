use vstd::prelude::*;

verus! {

/// The kinds of value that have no parts.
#[derive(Debug, Clone, Copy, PartialEq, Eq)]
pub enum ScalarKind {
    String,
    Number,
    Boolean,
    Bytes,
    Null,
    Any,
    Int64,
}

/// A single fixed value. A number is kept as its decimal text.
#[derive(Debug, Clone, PartialEq, Eq)]
pub enum LiteralValue {
    Text(String),
    Number(String),
    Boolean(bool),
}

/// The kinds of key that a record may have.
#[derive(Debug, Clone, PartialEq, Eq)]
pub enum RecordKey {
    String,
    Number,
    Id(String),
}

/// A named member of an object. `optional` says whether `ty` is an
/// `Optional`.
#[derive(Debug, PartialEq, Eq)]
pub struct Field {
    pub name: String,
    pub ty: TypeNode,
    pub optional: bool,
}

/// A type of the schema language.
#[derive(Debug, PartialEq, Eq)]
pub enum TypeNode {
    Scalar(ScalarKind),
    Id(String),
    Optional(Box<TypeNode>),
    Array(Box<TypeNode>),
    Object(Vec<Field>),
    Union(Vec<TypeNode>),
    Literal(LiteralValue),
    Record(RecordKey, Box<TypeNode>),
}

/// A table of the schema. Where `has_system_fields` holds, `fields` begins
/// with the two fields that every table carries.
#[derive(Debug, PartialEq, Eq)]
pub struct Table {
    pub name: String,
    pub fields: Vec<Field>,
    pub has_system_fields: bool,
}

/// The tables of a schema, in the order of the source, and the names of
/// tables that it refers to without declaring them.
#[derive(Debug, PartialEq, Eq)]
pub struct Schema {
    pub tables: Vec<Table>,
    pub unresolved: Vec<String>,
}

/// The arguments that an exported function takes.
#[derive(Debug, PartialEq, Eq)]
pub struct FunctionArgSet {
    pub function_name: String,
    pub args_type: TypeNode,
}

/// The mathematical value of a [`LiteralValue`].
pub enum LiteralModel {
    Text(Seq<char>),
    Number(Seq<char>),
    Boolean(bool),
}

/// The mathematical value of a [`RecordKey`].
pub enum KeyModel {
    String,
    Number,
    Id(Seq<char>),
}

/// The mathematical value of a [`Field`].
pub struct FieldModel {
    pub name: Seq<char>,
    pub ty: TypeModel,
    pub optional: bool,
}

/// The mathematical value of a [`TypeNode`].
pub enum TypeModel {
    Scalar(ScalarKind),
    Id(Seq<char>),
    Optional(Box<TypeModel>),
    Array(Box<TypeModel>),
    Object(Seq<FieldModel>),
    Union(Seq<TypeModel>),
    Literal(LiteralModel),
    Record(KeyModel, Box<TypeModel>),
}

/// The mathematical value of a [`Table`].
pub struct TableModel {
    pub name: Seq<char>,
    pub fields: Seq<FieldModel>,
    pub has_system_fields: bool,
}

/// The mathematical value of a [`Schema`].
pub struct SchemaModel {
    pub tables: Seq<TableModel>,
    pub unresolved: Seq<Seq<char>>,
}

/// The mathematical value of a [`FunctionArgSet`].
pub struct ArgSetModel {
    pub function_name: Seq<char>,
    pub args_type: TypeModel,
}

impl View for LiteralValue {
    type V = LiteralModel;

    open spec fn view(&self) -> LiteralModel {
        match self {
            LiteralValue::Text(t) => LiteralModel::Text(t@),
            LiteralValue::Number(n) => LiteralModel::Number(n@),
            LiteralValue::Boolean(b) => LiteralModel::Boolean(*b),
        }
    }
}

impl View for RecordKey {
    type V = KeyModel;

    open spec fn view(&self) -> KeyModel {
        match self {
            RecordKey::String => KeyModel::String,
            RecordKey::Number => KeyModel::Number,
            RecordKey::Id(table) => KeyModel::Id(table@),
        }
    }
}

/// The mathematical values of a list of texts.
pub open spec fn texts_model(texts: Seq<String>) -> Seq<Seq<char>> {
    Seq::new(texts.len(), |i: int| texts[i]@)
}

/// The mathematical values of a list of fields.
pub open spec fn fields_model(fields: Seq<Field>) -> Seq<FieldModel>
    decreases fields,
{
    Seq::new(
        fields.len(),
        |i: int|
            if 0 <= i < fields.len() {
                fields[i]@
            } else {
                FieldModel {
                    name: Seq::empty(),
                    ty: TypeModel::Scalar(ScalarKind::Null),
                    optional: false,
                }
            },
    )
}

/// The mathematical values of a list of types.
pub open spec fn types_model(types: Seq<TypeNode>) -> Seq<TypeModel>
    decreases types,
{
    Seq::new(
        types.len(),
        |i: int|
            if 0 <= i < types.len() {
                types[i]@
            } else {
                TypeModel::Scalar(ScalarKind::Null)
            },
    )
}

impl View for Field {
    type V = FieldModel;

    open spec fn view(&self) -> FieldModel
        decreases self,
    {
        FieldModel { name: self.name@, ty: self.ty@, optional: self.optional }
    }
}

impl View for TypeNode {
    type V = TypeModel;

    open spec fn view(&self) -> TypeModel
        decreases self,
    {
        match self {
            TypeNode::Scalar(kind) => TypeModel::Scalar(*kind),
            TypeNode::Id(table) => TypeModel::Id(table@),
            TypeNode::Optional(inner) => TypeModel::Optional(Box::new((**inner)@)),
            TypeNode::Array(element) => TypeModel::Array(Box::new((**element)@)),
            TypeNode::Object(fields) => TypeModel::Object(fields_model(fields@)),
            TypeNode::Union(variants) => TypeModel::Union(types_model(variants@)),
            TypeNode::Literal(value) => TypeModel::Literal(value@),
            TypeNode::Record(key, value) => TypeModel::Record(key@, Box::new((**value)@)),
        }
    }
}

impl View for Table {
    type V = TableModel;

    open spec fn view(&self) -> TableModel {
        TableModel {
            name: self.name@,
            fields: fields_model(self.fields@),
            has_system_fields: self.has_system_fields,
        }
    }
}

/// The mathematical values of a list of tables.
pub open spec fn tables_model(tables: Seq<Table>) -> Seq<TableModel> {
    Seq::new(tables.len(), |i: int| tables[i]@)
}

impl View for Schema {
    type V = SchemaModel;

    open spec fn view(&self) -> SchemaModel {
        SchemaModel {
            tables: tables_model(self.tables@),
            unresolved: texts_model(self.unresolved@),
        }
    }
}

impl View for FunctionArgSet {
    type V = ArgSetModel;

    open spec fn view(&self) -> ArgSetModel {
        ArgSetModel { function_name: self.function_name@, args_type: self.args_type@ }
    }
}

/// The mathematical values of a list of argument sets.
pub open spec fn arg_sets_model(sets: Seq<FunctionArgSet>) -> Seq<ArgSetModel> {
    Seq::new(sets.len(), |i: int| sets[i]@)
}

/// A list with `prefix` put before what `rest` holds; the failure of `rest`
/// where it has failed.
pub open spec fn prepend<T, E>(prefix: Seq<T>, rest: Result<Seq<T>, E>) -> Result<Seq<T>, E> {
    match rest {
        Ok(items) => Ok(prefix + items),
        Err(e) => Err(e),
    }
}

} // verus!
