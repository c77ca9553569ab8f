use vstd::prelude::*;
use crate::errors::{ConvexTypeGeneratorError, ErrorModel, NameKind};
use crate::expr::{
    child_expression, exprs_model, properties_model, read_child, Expr, ExprModel, Property,
    PropertyModel,
};
use crate::json::{
    entries_model, entries_of, get_items, get_text, items_model, program_body, text_at, Entry,
    Json, JsonModel,
};
use crate::laws::{lemma_schema_well_formed, well_formed};
use crate::text::same_text;
use crate::types::{
    fields_model, prepend, tables_model, texts_model, types_model, Field, FieldModel, KeyModel,
    RecordKey, ScalarKind, Schema, SchemaModel, Table, TableModel, TypeModel, TypeNode,
};
use crate::validator::{interpret, interpretation, describe_expression, unrecognized};

verus! {

/// The arguments of the call `defineSchema(..)` that a statement exports
/// by default; none where the statement is anything else.
pub open spec fn schema_definition(statement: JsonModel) -> Option<Seq<ExprModel>> {
    let entries = entries_of(statement);
    if text_at(entries, "type"@) == "ExportDefaultDeclaration"@ {
        match child_expression(entries, "declaration"@) {
            ExprModel::Call { callee, arguments } => if *callee == ExprModel::Identifier(
                "defineSchema"@,
            ) {
                Some(arguments)
            } else {
                None
            },
            _ => None,
        }
    } else {
        None
    }
}

/// The arguments of the first schema definition among the statements from
/// position `from` on.
pub open spec fn find_definition(body: Seq<JsonModel>, from: int) -> Option<Seq<ExprModel>>
    decreases body.len() - from,
{
    if from < 0 || from >= body.len() {
        None
    } else {
        match schema_definition(body[from]) {
            Some(arguments) => Some(arguments),
            None => find_definition(body, from + 1),
        }
    }
}

/// What a table definition holds: the arguments of `defineTable(..)`, and
/// whether the table keeps its system fields. Calls chained onto the
/// definition are passed over; `withoutSystemFields` among them gives the
/// system fields up.
pub open spec fn table_definition(e: ExprModel) -> Option<(Seq<ExprModel>, bool)>
    decreases e,
{
    match e {
        ExprModel::Call { callee, arguments } => match *callee {
            ExprModel::Identifier(name) => if name == "defineTable"@ {
                Some((arguments, true))
            } else {
                None
            },
            ExprModel::Member { object, property } => match table_definition(*object) {
                Some((inner, system)) => Some(
                    (inner, system && property != "withoutSystemFields"@),
                ),
                None => None,
            },
            _ => None,
        },
        _ => None,
    }
}

/// The two fields that every table carries unless it gives them up: its
/// identifier and the time of its creation.
pub open spec fn system_fields(table: Seq<char>) -> Seq<FieldModel> {
    seq![
        FieldModel { name: "_id"@, ty: TypeModel::Id(table), optional: false },
        FieldModel {
            name: "_creationTime"@,
            ty: TypeModel::Scalar(ScalarKind::Number),
            optional: false,
        },
    ]
}

/// The names of a list of fields.
pub open spec fn field_names(fields: Seq<FieldModel>) -> Seq<Seq<char>> {
    Seq::new(fields.len(), |i: int| fields[i].name)
}

/// The names of a list of tables.
pub open spec fn table_names(tables: Seq<TableModel>) -> Seq<Seq<char>> {
    Seq::new(tables.len(), |i: int| tables[i].name)
}

/// The first name at or after position `from` that also stands before its
/// own position.
pub open spec fn duplicate_from(names: Seq<Seq<char>>, from: int) -> Option<Seq<char>>
    decreases names.len() - from,
{
    if from < 0 || from >= names.len() {
        None
    } else if names.subrange(0, from).contains(names[from]) {
        Some(names[from])
    } else {
        duplicate_from(names, from + 1)
    }
}

/// The table named `name` that the expression `e` defines.
pub open spec fn table_of(name: Seq<char>, e: ExprModel) -> Result<TableModel, ErrorModel> {
    match table_definition(e) {
        None => Err(unrecognized(e)),
        Some((arguments, system)) => if arguments.len() != 1 {
            Err(unrecognized(e))
        } else {
            match interpretation(arguments[0]) {
                Err(err) => Err(err),
                Ok(TypeModel::Object(fields)) => {
                    let all = if system {
                        system_fields(name) + fields
                    } else {
                        fields
                    };
                    match duplicate_from(field_names(all), 0) {
                        Some(twice) => Err(
                            ErrorModel::DuplicateName { kind: NameKind::Field, name: twice },
                        ),
                        None => Ok(TableModel { name, fields: all, has_system_fields: system }),
                    }
                },
                Ok(_) => Err(unrecognized(e)),
            }
        },
    }
}

/// The tables that the properties from position `from` on define, in their
/// order; `seen` holds the names of the tables before them. A name is
/// looked up in `seen` before its definition is read.
pub open spec fn tables_from(properties: Seq<PropertyModel>, from: int, seen: Seq<Seq<char>>) -> Result<
    Seq<TableModel>,
    ErrorModel,
>
    decreases properties.len() - from,
{
    if from < 0 || from >= properties.len() {
        Ok(Seq::empty())
    } else if !properties[from].plain {
        Err(ErrorModel::UnrecognizedValidator { path: "defineSchema"@ })
    } else if seen.contains(properties[from].name) {
        Err(ErrorModel::DuplicateName { kind: NameKind::Table, name: properties[from].name })
    } else {
        match table_of(properties[from].name, properties[from].value) {
            Err(err) => Err(err),
            Ok(table) => prepend(
                seq![table],
                tables_from(properties, from + 1, seen.push(properties[from].name)),
            ),
        }
    }
}

/// The names of the tables whose identifiers a type refers to, in the
/// order in which they stand in it.
pub open spec fn referenced(t: TypeModel) -> Seq<Seq<char>>
    decreases t, 0int,
{
    match t {
        TypeModel::Scalar(_) => Seq::empty(),
        TypeModel::Literal(_) => Seq::empty(),
        TypeModel::Id(table) => seq![table],
        TypeModel::Optional(inner) => referenced(*inner),
        TypeModel::Array(element) => referenced(*element),
        TypeModel::Object(fields) => fields_referenced(fields, 0),
        TypeModel::Union(variants) => types_referenced(variants, 0),
        TypeModel::Record(key, value) => key_referenced(key) + referenced(*value),
    }
}

/// The table that the key of a record refers to, if it is an identifier.
pub open spec fn key_referenced(key: KeyModel) -> Seq<Seq<char>> {
    match key {
        KeyModel::Id(table) => seq![table],
        _ => Seq::empty(),
    }
}

/// The names that the fields from position `from` on refer to.
pub open spec fn fields_referenced(fields: Seq<FieldModel>, from: int) -> Seq<Seq<char>>
    decreases fields, fields.len() - from,
{
    if from < 0 || from >= fields.len() {
        Seq::empty()
    } else {
        referenced(fields[from].ty) + fields_referenced(fields, from + 1)
    }
}

/// The names that the types from position `from` on refer to.
pub open spec fn types_referenced(types: Seq<TypeModel>, from: int) -> Seq<Seq<char>>
    decreases types, types.len() - from,
{
    if from < 0 || from >= types.len() {
        Seq::empty()
    } else {
        referenced(types[from]) + types_referenced(types, from + 1)
    }
}

/// The names that the tables from position `from` on refer to.
pub open spec fn tables_referenced(tables: Seq<TableModel>, from: int) -> Seq<Seq<char>>
    decreases tables.len() - from,
{
    if from < 0 || from >= tables.len() {
        Seq::empty()
    } else {
        fields_referenced(tables[from].fields, 0) + tables_referenced(tables, from + 1)
    }
}

/// Those of `names` that are not among `declared`, in their order.
pub open spec fn undeclared(names: Seq<Seq<char>>, declared: Seq<Seq<char>>) -> Seq<Seq<char>> {
    names.filter(|name: Seq<char>| !declared.contains(name))
}

/// The schema that a syntax tree defines. `file` names the file for the
/// complaint about an empty one. The definition takes one argument, an
/// object literal of tables; any other shape is refused.
pub open spec fn schema_of(tree: JsonModel, file: Seq<char>) -> Result<SchemaModel, ErrorModel> {
    let body = program_body(tree);
    if body.len() == 0 {
        Err(ErrorModel::EmptySchemaFile { file })
    } else {
        match find_definition(body, 0) {
            None => Err(ErrorModel::MissingSchemaDefinition),
            Some(arguments) => if arguments.len() == 1 {
                match arguments[0] {
                    ExprModel::Object(properties) => match tables_from(
                        properties,
                        0,
                        Seq::empty(),
                    ) {
                        Err(err) => Err(err),
                        Ok(tables) => Ok(
                            SchemaModel {
                                tables,
                                unresolved: undeclared(
                                    tables_referenced(tables, 0),
                                    table_names(tables),
                                ),
                            },
                        ),
                    },
                    _ => Err(ErrorModel::UnrecognizedValidator { path: "defineSchema"@ }),
                }
            } else {
                Err(ErrorModel::UnrecognizedValidator { path: "defineSchema"@ })
            },
        }
    }
}

/// The entries of a document that is an object.
pub fn object_entries(node: &Json) -> (r: Option<&Vec<Entry>>)
    ensures
        match r {
            Some(entries) => node@ == JsonModel::Object(entries_model(entries@)),
            None => !(node@ is Object),
        },
{
    match node {
        Json::Object(entries) => Some(entries),
        _ => None,
    }
}

/// The statements of a program, if it has any list of them.
pub fn body_of(tree: &Json) -> (r: Option<&Vec<Json>>)
    ensures
        match r {
            Some(body) => program_body(tree@) == items_model(body@),
            None => program_body(tree@) == Seq::<JsonModel>::empty(),
        },
{
    match object_entries(tree) {
        Some(entries) => get_items(entries, "body"),
        None => None,
    }
}

fn schema_definition_of(statement: &Json) -> (r: Option<Vec<Expr>>)
    ensures
        match r {
            Some(arguments) => schema_definition(statement@) == Some(exprs_model(arguments@)),
            None => schema_definition(statement@) is None,
        },
{
    let entries = match object_entries(statement) {
        Some(entries) => entries,
        None => {
            assert(""@.len() == 0 && "ExportDefaultDeclaration"@.len() == 24) by {
                reveal_strlit("");
                reveal_strlit("ExportDefaultDeclaration");
            }
            return None;
        },
    };
    if !same_text(get_text(entries, "type"), "ExportDefaultDeclaration") {
        return None;
    }
    let declaration = read_child(entries, "declaration");
    let defines = match &declaration {
        Expr::Call { callee, arguments: _ } => match &**callee {
            Expr::Identifier(name) => {
                assert((**callee)@ == ExprModel::Identifier(name@));
                same_text(name.as_str(), "defineSchema")
            },
            _ => {
                assert(!((**callee)@ is Identifier));
                false
            },
        },
        _ => false,
    };
    if !defines {
        return None;
    }
    match declaration {
        Expr::Call { callee: _, arguments } => Some(arguments),
        _ => None,
    }
}

fn find_definition_in(body: &Vec<Json>) -> (r: Option<Vec<Expr>>)
    ensures
        match r {
            Some(arguments) => find_definition(items_model(body@), 0) == Some(
                exprs_model(arguments@),
            ),
            None => find_definition(items_model(body@), 0) is None,
        },
{
    let ghost model = items_model(body@);
    let mut i: usize = 0;
    while i < body.len()
        invariant
            i <= body@.len(),
            model == items_model(body@),
            find_definition(model, 0) == find_definition(model, i as int),
        decreases body@.len() - i,
    {
        match schema_definition_of(&body[i]) {
            Some(arguments) => {
                return Some(arguments);
            },
            None => {},
        }
        i += 1;
    }
    None
}

fn table_definition_of(e: &Expr) -> (r: Option<(&Vec<Expr>, bool)>)
    ensures
        match r {
            Some((arguments, system)) => table_definition(e@) == Some(
                (exprs_model(arguments@), system),
            ),
            None => table_definition(e@) is None,
        },
    decreases e,
{
    match e {
        Expr::Call { callee, arguments } => match &**callee {
            Expr::Identifier(name) => if same_text(name.as_str(), "defineTable") {
                assert((**callee)@ == ExprModel::Identifier(name@));
                Some((arguments, true))
            } else {
                None
            },
            Expr::Member { object, property } => {
                assert((**callee)@ == ExprModel::Member {
                    object: Box::new((**object)@),
                    property: property@,
                });
                match table_definition_of(&**object) {
                    Some((inner, system)) => Some(
                        (inner, system && !same_text(property.as_str(), "withoutSystemFields")),
                    ),
                    None => None,
                }
            },
            _ => None,
        },
        _ => None,
    }
}

/// Whether the name of the field at position `at` also stands before it.
fn named_before(fields: &Vec<Field>, at: usize) -> (r: bool)
    requires
        at < fields@.len(),
    ensures
        r == field_names(fields_model(fields@)).subrange(0, at as int).contains(
            fields@[at as int].name@,
        ),
{
    let ghost names = field_names(fields_model(fields@));
    let mut i: usize = 0;
    while i < at
        invariant
            i <= at < fields@.len(),
            names == field_names(fields_model(fields@)),
            !names.subrange(0, i as int).contains(fields@[at as int].name@),
        decreases at - i,
    {
        if same_text(fields[i].name.as_str(), fields[at].name.as_str()) {
            assert(names.subrange(0, at as int)[i as int] == fields@[at as int].name@);
            return true;
        }
        assert(names.subrange(0, i + 1) =~= names.subrange(0, i as int).push(names[i as int]));
        i += 1;
    }
    false
}

/// The position of the first field whose name also stands before it.
fn first_duplicate(fields: &Vec<Field>) -> (r: Option<usize>)
    ensures
        match r {
            Some(at) => at < fields@.len() && duplicate_from(
                field_names(fields_model(fields@)),
                0,
            ) == Some(fields@[at as int].name@),
            None => duplicate_from(field_names(fields_model(fields@)), 0) is None,
        },
{
    let ghost names = field_names(fields_model(fields@));
    let mut i: usize = 0;
    while i < fields.len()
        invariant
            i <= fields@.len(),
            names == field_names(fields_model(fields@)),
            duplicate_from(names, 0) == duplicate_from(names, i as int),
        decreases fields@.len() - i,
    {
        if named_before(fields, i) {
            return Some(i);
        }
        i += 1;
    }
    None
}

/// The mathematical value of the outcome of building a table.
pub open spec fn table_outcome(r: Result<Table, ConvexTypeGeneratorError>) -> Result<
    TableModel,
    ErrorModel,
> {
    match r {
        Ok(table) => Ok(table@),
        Err(e) => Err(e@),
    }
}

/// Builds the table named `name` from the expression that defines it.
///
/// A table that keeps its system fields has two fields more than its
/// definition lists.
pub fn build_table(name: &str, e: &Expr) -> (r: Result<Table, ConvexTypeGeneratorError>)
    ensures
        table_outcome(r) == table_of(name@, e@),
        r matches Ok(table) ==> (table_definition(e@) matches Some((arguments, system))
            && arguments.len() == 1 && (interpretation(arguments[0]) matches Ok(
            TypeModel::Object(listed),
        ) && table.has_system_fields == system && table.fields@.len() == listed.len() + (if system {
            2int
        } else {
            0int
        }))),
{
    let (arguments, system) = match table_definition_of(e) {
        None => {
            return Err(
                ConvexTypeGeneratorError::UnrecognizedValidator { path: describe_expression(e) },
            );
        },
        Some(found) => found,
    };
    if arguments.len() != 1 {
        return Err(
            ConvexTypeGeneratorError::UnrecognizedValidator { path: describe_expression(e) },
        );
    }
    let listed = match interpret(&arguments[0]) {
        Err(err) => {
            return Err(err);
        },
        Ok(TypeNode::Object(fields)) => fields,
        Ok(_) => {
            return Err(
                ConvexTypeGeneratorError::UnrecognizedValidator { path: describe_expression(e) },
            );
        },
    };
    let ghost listed_model = fields_model(listed@);
    let mut fields: Vec<Field> = Vec::new();
    if system {
        fields.push(
            Field { name: String::from_str("_id"), ty: TypeNode::Id(String::from_str(name)), optional: false },
        );
        fields.push(
            Field {
                name: String::from_str("_creationTime"),
                ty: TypeNode::Scalar(ScalarKind::Number),
                optional: false,
            },
        );
        assert(fields_model(fields@) =~= system_fields(name@));
    } else {
        assert(fields_model(fields@) =~= Seq::<FieldModel>::empty());
    }
    let ghost head = fields_model(fields@);
    let mut listed = listed;
    let ghost tail = fields_model(listed@);
    fields.append(&mut listed);
    assert(fields_model(fields@) =~= head + tail);
    assert(Seq::<FieldModel>::empty() + tail =~= tail);
    match first_duplicate(&fields) {
        Some(at) => Err(
            ConvexTypeGeneratorError::DuplicateName {
                kind: NameKind::Field,
                name: fields[at].name.clone(),
            },
        ),
        None => Ok(Table { name: String::from_str(name), fields, has_system_fields: system }),
    }
}

/// Whether a table of this name is among `tables`.
fn declared(tables: &Vec<Table>, name: &str) -> (r: bool)
    ensures
        r == table_names(tables_model(tables@)).contains(name@),
{
    let ghost names = table_names(tables_model(tables@));
    let mut i: usize = 0;
    while i < tables.len()
        invariant
            i <= tables@.len(),
            names == table_names(tables_model(tables@)),
            !names.subrange(0, i as int).contains(name@),
        decreases tables@.len() - i,
    {
        if same_text(tables[i].name.as_str(), name) {
            assert(names[i as int] == name@);
            return true;
        }
        assert(names.subrange(0, i + 1) =~= names.subrange(0, i as int).push(names[i as int]));
        i += 1;
    }
    assert(names.subrange(0, names.len() as int) =~= names);
    false
}

/// The mathematical value of the outcome of building the tables.
pub open spec fn tables_outcome(r: Result<Vec<Table>, ConvexTypeGeneratorError>) -> Result<
    Seq<TableModel>,
    ErrorModel,
> {
    match r {
        Ok(tables) => Ok(tables_model(tables@)),
        Err(e) => Err(e@),
    }
}

/// Builds the tables that the properties of a schema definition define.
pub fn build_tables(properties: &Vec<Property>) -> (r: Result<
    Vec<Table>,
    ConvexTypeGeneratorError,
>)
    ensures
        tables_outcome(r) == tables_from(properties_model(properties@), 0, Seq::empty()),
{
    let ghost models = properties_model(properties@);
    let mut out: Vec<Table> = Vec::new();
    let mut i: usize = 0;
    assert(table_names(tables_model(out@)) =~= Seq::<Seq<char>>::empty());
    assert(tables_model(out@) =~= Seq::<TableModel>::empty());
    assert(tables_from(models, 0, Seq::empty()) == prepend(
        tables_model(out@),
        tables_from(models, 0, table_names(tables_model(out@))),
    )) by {
        let whole = tables_from(models, 0, Seq::empty());
        if let Ok(tables) = whole {
            assert(Seq::<TableModel>::empty() + tables =~= tables);
        }
    }
    while i < properties.len()
        invariant
            i <= properties@.len(),
            models == properties_model(properties@),
            tables_from(models, 0, Seq::empty()) == prepend(
                tables_model(out@),
                tables_from(models, i as int, table_names(tables_model(out@))),
            ),
        decreases properties@.len() - i,
    {
        let property = &properties[i];
        if !property.plain {
            return Err(
                ConvexTypeGeneratorError::UnrecognizedValidator {
                    path: String::from_str("defineSchema"),
                },
            );
        }
        if declared(&out, property.name.as_str()) {
            return Err(
                ConvexTypeGeneratorError::DuplicateName {
                    kind: NameKind::Table,
                    name: property.name.clone(),
                },
            );
        }
        match build_table(property.name.as_str(), &property.value) {
            Err(err) => {
                return Err(err);
            },
            Ok(table) => {
                let ghost before = tables_model(out@);
                let ghost seen = table_names(before);
                let ghost model = table@;
                out.push(table);
                proof {
                    assert(tables_model(out@) =~= before + seq![model]);
                    assert(table_names(tables_model(out@)) =~= seen.push(models[i as int].name));
                    let rest = tables_from(models, i + 1, seen.push(models[i as int].name));
                    if let Ok(tail) = rest {
                        assert(before + (seq![model] + tail) =~= tables_model(out@) + tail);
                    }
                }
            },
        }
        i += 1;
    }
    assert(tables_model(out@) + Seq::<TableModel>::empty() =~= tables_model(out@));
    Ok(out)
}

/// Appends to `out` the names of the tables that the type refers to.
pub fn collect_referenced(t: &TypeNode, out: &mut Vec<String>)
    ensures
        texts_model(final(out)@) == texts_model(old(out)@) + referenced(t@),
    decreases t, 0int,
{
    let ghost start = texts_model(out@);
    match t {
        TypeNode::Scalar(_) => {
            assert(start + Seq::<Seq<char>>::empty() =~= start);
        },
        TypeNode::Literal(_) => {
            assert(start + Seq::<Seq<char>>::empty() =~= start);
        },
        TypeNode::Id(table) => {
            out.push(table.clone());
            assert(texts_model(out@) =~= start + seq![table@]);
        },
        TypeNode::Optional(inner) => {
            collect_referenced(&**inner, out);
        },
        TypeNode::Array(element) => {
            collect_referenced(&**element, out);
        },
        TypeNode::Object(fields) => {
            collect_fields_referenced(fields, out);
        },
        TypeNode::Union(variants) => {
            collect_types_referenced(variants, out);
        },
        TypeNode::Record(key, value) => {
            match key {
                RecordKey::Id(table) => {
                    out.push(table.clone());
                    assert(texts_model(out@) =~= start + seq![table@]);
                },
                _ => {
                    assert(start + Seq::<Seq<char>>::empty() =~= start);
                },
            }
            let ghost middle = texts_model(out@);
            collect_referenced(&**value, out);
            assert(texts_model(out@) =~= start + (key_referenced(key@) + referenced((**value)@)));
        },
    }
}

/// Appends to `out` the names of the tables that the fields refer to.
pub fn collect_fields_referenced(fields: &Vec<Field>, out: &mut Vec<String>)
    ensures
        texts_model(final(out)@) == texts_model(old(out)@) + fields_referenced(
            fields_model(fields@),
            0,
        ),
    decreases fields, fields@.len(),
{
    let ghost start = texts_model(out@);
    let ghost models = fields_model(fields@);
    let mut i: usize = 0;
    while i < fields.len()
        invariant
            i <= fields@.len(),
            models == fields_model(fields@),
            start + fields_referenced(models, 0) == texts_model(out@) + fields_referenced(
                models,
                i as int,
            ),
        decreases fields@.len() - i,
    {
        let ghost before = texts_model(out@);
        collect_referenced(&fields[i].ty, out);
        assert(before + (referenced(models[i as int].ty) + fields_referenced(models, i + 1))
            =~= texts_model(out@) + fields_referenced(models, i + 1));
        i += 1;
    }
    assert(texts_model(out@) + Seq::<Seq<char>>::empty() =~= texts_model(out@));
}

/// Appends to `out` the names of the tables that the types refer to.
pub fn collect_types_referenced(types: &Vec<TypeNode>, out: &mut Vec<String>)
    ensures
        texts_model(final(out)@) == texts_model(old(out)@) + types_referenced(
            types_model(types@),
            0,
        ),
    decreases types, types@.len(),
{
    let ghost start = texts_model(out@);
    let ghost models = types_model(types@);
    let mut i: usize = 0;
    while i < types.len()
        invariant
            i <= types@.len(),
            models == types_model(types@),
            start + types_referenced(models, 0) == texts_model(out@) + types_referenced(
                models,
                i as int,
            ),
        decreases types@.len() - i,
    {
        let ghost before = texts_model(out@);
        collect_referenced(&types[i], out);
        assert(before + (referenced(models[i as int]) + types_referenced(models, i + 1))
            =~= texts_model(out@) + types_referenced(models, i + 1));
        i += 1;
    }
    assert(texts_model(out@) + Seq::<Seq<char>>::empty() =~= texts_model(out@));
}

/// The names of the tables that the tables refer to, in their order.
pub fn referenced_tables(tables: &Vec<Table>) -> (r: Vec<String>)
    ensures
        texts_model(r@) == tables_referenced(tables_model(tables@), 0),
{
    let ghost models = tables_model(tables@);
    let mut out: Vec<String> = Vec::new();
    let mut i: usize = 0;
    assert(texts_model(out@) =~= Seq::<Seq<char>>::empty());
    assert(Seq::<Seq<char>>::empty() + tables_referenced(models, 0) =~= tables_referenced(
        models,
        0,
    ));
    while i < tables.len()
        invariant
            i <= tables@.len(),
            models == tables_model(tables@),
            tables_referenced(models, 0) == texts_model(out@) + tables_referenced(
                models,
                i as int,
            ),
        decreases tables@.len() - i,
    {
        let ghost before = texts_model(out@);
        collect_fields_referenced(&tables[i].fields, &mut out);
        assert(before + (fields_referenced(models[i as int].fields, 0) + tables_referenced(
            models,
            i + 1,
        )) =~= texts_model(out@) + tables_referenced(models, i + 1));
        i += 1;
    }
    assert(texts_model(out@) + Seq::<Seq<char>>::empty() =~= texts_model(out@));
    out
}

/// Those of `names` that name no table of `tables`, in their order.
pub fn keep_undeclared(names: &Vec<String>, tables: &Vec<Table>) -> (r: Vec<String>)
    ensures
        texts_model(r@) == undeclared(texts_model(names@), table_names(tables_model(tables@))),
{
    let ghost all = texts_model(names@);
    let ghost known = table_names(tables_model(tables@));
    let ghost unknown = |name: Seq<char>| !known.contains(name);
    let mut out: Vec<String> = Vec::new();
    let mut i: usize = 0;
    proof {
        reveal(Seq::filter);
        assert(all.subrange(0, 0) =~= Seq::<Seq<char>>::empty());
        assert(texts_model(out@) =~= Seq::<Seq<char>>::empty());
    }
    while i < names.len()
        invariant
            i <= names@.len(),
            all == texts_model(names@),
            known == table_names(tables_model(tables@)),
            unknown == (|name: Seq<char>| !known.contains(name)),
            texts_model(out@) == all.subrange(0, i as int).filter(unknown),
        decreases names@.len() - i,
    {
        let ghost before = texts_model(out@);
        let keep = !declared(tables, names[i].as_str());
        if keep {
            out.push(names[i].clone());
            assert(texts_model(out@) =~= before.push(all[i as int]));
        }
        proof {
            reveal(Seq::filter);
            let next = all.subrange(0, i + 1);
            assert(next.drop_last() =~= all.subrange(0, i as int));
            assert(next.last() == all[i as int]);
        }
        i += 1;
    }
    assert(all.subrange(0, all.len() as int) =~= all);
    out
}

/// The mathematical value of the outcome of building a schema.
pub open spec fn schema_outcome(r: Result<Schema, ConvexTypeGeneratorError>) -> Result<
    SchemaModel,
    ErrorModel,
> {
    match r {
        Ok(schema) => Ok(schema@),
        Err(e) => Err(e@),
    }
}

/// Builds the schema that the syntax tree of a schema file defines.
///
/// A tree without statements is an empty file; one without a schema
/// definition among its default exports lacks the definition. Tables are
/// built in the order of the source, and the first complaint ends the work.
/// Tables that are referred to and not declared are listed, not refused.
pub fn parse_schema_ast(tree: &Json, file: &str) -> (r: Result<Schema, ConvexTypeGeneratorError>)
    ensures
        schema_outcome(r) == schema_of(tree@, file@),
        r matches Ok(schema) ==> well_formed(schema@),
{
    proof {
        if schema_of(tree@, file@) is Ok {
            lemma_schema_well_formed(tree@, file@);
        }
    }
    let body = match body_of(tree) {
        Some(body) => body,
        None => {
            return Err(ConvexTypeGeneratorError::EmptySchemaFile { file: String::from_str(file) });
        },
    };
    if body.len() == 0 {
        return Err(ConvexTypeGeneratorError::EmptySchemaFile { file: String::from_str(file) });
    }
    let arguments = match find_definition_in(body) {
        None => {
            return Err(ConvexTypeGeneratorError::MissingSchemaDefinition);
        },
        Some(arguments) => arguments,
    };
    if arguments.len() != 1 {
        return Err(
            ConvexTypeGeneratorError::UnrecognizedValidator {
                path: String::from_str("defineSchema"),
            },
        );
    }
    match &arguments[0] {
        Expr::Object(properties) => match build_tables(properties) {
            Err(err) => Err(err),
            Ok(tables) => {
                let names = referenced_tables(&tables);
                let unresolved = keep_undeclared(&names, &tables);
                Ok(Schema { tables, unresolved })
            },
        },
        _ => Err(
            ConvexTypeGeneratorError::UnrecognizedValidator {
                path: String::from_str("defineSchema"),
            },
        ),
    }
}

} // verus!
