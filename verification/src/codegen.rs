use vstd::prelude::*;
use crate::declarations::{
    declarations_text, named_model, render, Body, BodyModel, NamedModel, NamedType,
};
use crate::hoist::{
    declare, hoist_fields, hoisted_fields, ids_model, reserved_model, ContextModel, HoistContext,
    IdName, IdNameModel, TableNames, TableNamesModel,
};
use crate::names::{fresh, fresh_name};
use crate::text::{declared_name, make_declared_name};
use crate::closed::closed;
use crate::convex::tables_referenced;
use crate::unique::{
    covers, declared_names, functions_referenced, has_identifier, has_record,
    lemma_generated_declarations,
};
use crate::types::{
    arg_sets_model, fields_model, tables_model, texts_model, ArgSetModel, Field, FieldModel,
    FunctionArgSet, Schema, Table, TableModel, TypeModel, TypeNode,
};

verus! {

/// A list of reserved names with `prefix` put before those of `rest`.
pub open spec fn join_reserved(
    prefix: Seq<TableNamesModel>,
    rest: (Seq<TableNamesModel>, Seq<Seq<char>>),
) -> (Seq<TableNamesModel>, Seq<Seq<char>>) {
    (prefix + rest.0, rest.1)
}

/// A list of names with `prefix` put before those of `rest`.
pub open spec fn join_names(prefix: Seq<Seq<char>>, rest: (Seq<Seq<char>>, Seq<Seq<char>>)) -> (
    Seq<Seq<char>>,
    Seq<Seq<char>>,
) {
    (prefix + rest.0, rest.1)
}

/// The names set aside for the tables from position `from` on, and the
/// names in use after that. A table's record is named by the table's name
/// in Pascal case, and its identifier by that name with `Id` behind it.
pub open spec fn reserved_tables(tables: Seq<TableModel>, from: int, used: Seq<Seq<char>>) -> (
    Seq<TableNamesModel>,
    Seq<Seq<char>>,
)
    decreases tables.len() - from,
{
    if from < 0 || from >= tables.len() {
        (Seq::empty(), used)
    } else {
        let record = fresh_name(used, declared_name(tables[from].name));
        let id = fresh_name(used.push(record), record + "Id"@);
        join_reserved(
            seq![TableNamesModel { table: tables[from].name, record, id }],
            reserved_tables(tables, from + 1, used.push(record).push(id)),
        )
    }
}

/// The names set aside for the arguments of the functions from position
/// `from` on, and the names in use after that: the function's name in
/// Pascal case with `Args` behind it.
pub open spec fn reserved_functions(functions: Seq<ArgSetModel>, from: int, used: Seq<Seq<char>>) -> (
    Seq<Seq<char>>,
    Seq<Seq<char>>,
)
    decreases functions.len() - from,
{
    if from < 0 || from >= functions.len() {
        (Seq::empty(), used)
    } else {
        let name = fresh_name(used, declared_name(functions[from].function_name) + "Args"@);
        join_names(seq![name], reserved_functions(functions, from + 1, used.push(name)))
    }
}

/// The names of the identifiers of the tables, as they were set aside.
pub open spec fn table_ids(reserved: Seq<TableNamesModel>) -> Seq<IdNameModel> {
    Seq::new(
        reserved.len(),
        |i: int| IdNameModel { table: reserved[i].table, id: reserved[i].id },
    )
}

/// The context after a table is declared: first its identifier, then the
/// types nested in its fields, then its record.
pub open spec fn table_declared(table: TableModel, names: TableNamesModel, ctx: ContextModel) -> ContextModel {
    let with_id = declare(ctx, NamedModel { name: names.id, body: BodyModel::Identifier });
    let (members, after) = hoisted_fields(table.fields, 0, names.record, with_id, Seq::empty());
    declare(after, NamedModel { name: names.record, body: BodyModel::Record(members) })
}

/// The context after the tables from position `from` on are declared.
pub open spec fn tables_declared(
    tables: Seq<TableModel>,
    from: int,
    reserved: Seq<TableNamesModel>,
    ctx: ContextModel,
) -> ContextModel
    decreases tables.len() - from,
{
    if from < 0 || from >= tables.len() || from >= reserved.len() {
        ctx
    } else {
        tables_declared(
            tables,
            from + 1,
            reserved,
            table_declared(tables[from], reserved[from], ctx),
        )
    }
}

/// The fields of the arguments of a function: those of the object, also
/// where the object is optional.
pub open spec fn args_fields(t: TypeModel) -> Seq<FieldModel> {
    match t {
        TypeModel::Object(fields) => fields,
        TypeModel::Optional(inner) => match *inner {
            TypeModel::Object(fields) => fields,
            _ => Seq::empty(),
        },
        _ => Seq::empty(),
    }
}

/// The context after the arguments of a function are declared under the
/// name `name`: first the types nested in them, then their record.
pub open spec fn function_declared(set: ArgSetModel, name: Seq<char>, ctx: ContextModel) -> ContextModel {
    let (members, after) = hoisted_fields(args_fields(set.args_type), 0, name, ctx, Seq::empty());
    declare(after, NamedModel { name, body: BodyModel::Record(members) })
}

/// The context after the functions from position `from` on are declared.
pub open spec fn functions_declared(
    functions: Seq<ArgSetModel>,
    from: int,
    names: Seq<Seq<char>>,
    ctx: ContextModel,
) -> ContextModel
    decreases functions.len() - from,
{
    if from < 0 || from >= functions.len() || from >= names.len() {
        ctx
    } else {
        functions_declared(
            functions,
            from + 1,
            names,
            function_declared(functions[from], names[from], ctx),
        )
    }
}

/// The names that the generated text itself relies on; no declaration may
/// take one of them.
pub open spec fn builtin_names() -> Seq<Seq<char>> {
    seq!["String"@, "Option"@, "Vec"@, "Self"@]
}

/// The context at the end of a generation for the tables of a schema and
/// the arguments of the functions.
///
/// All names of tables, of their identifiers and of functions are set aside
/// first, so that no nested type takes one of them; then the bodies are
/// declared, table by table and function by function. The identifier of a
/// table that is referred to and not declared is declared where it is first
/// met.
pub open spec fn generated_context(tables: Seq<TableModel>, functions: Seq<ArgSetModel>) -> ContextModel {
    let (reserved, used) = reserved_tables(tables, 0, builtin_names());
    let (names, all) = reserved_functions(functions, 0, used);
    let start = ContextModel { used: all, declarations: Seq::empty(), ids: table_ids(reserved) };
    let ctx = tables_declared(tables, 0, reserved, start);
    functions_declared(functions, 0, names, ctx)
}

/// The declarations that are generated for the tables of a schema and the
/// arguments of the functions, in the order in which they are written.
pub open spec fn generated_declarations(tables: Seq<TableModel>, functions: Seq<ArgSetModel>) -> Seq<
    NamedModel,
> {
    generated_context(tables, functions).declarations
}

/// The source text that is generated for the tables of a schema and the
/// arguments of the functions.
pub open spec fn generated_text(tables: Seq<TableModel>, functions: Seq<ArgSetModel>) -> Seq<char> {
    declarations_text(generated_declarations(tables, functions), 0)
}

/// Sets names aside for the tables.
pub fn reserve_tables(tables: &Vec<Table>, used: &mut Vec<String>) -> (r: Vec<TableNames>)
    ensures
        (reserved_model(r@), texts_model(final(used)@)) == reserved_tables(
            tables_model(tables@),
            0,
            texts_model(old(used)@),
        ),
        r@.len() == tables@.len(),
{
    let ghost models = tables_model(tables@);
    let ghost start = texts_model(used@);
    let mut out: Vec<TableNames> = Vec::new();
    let mut i: usize = 0;
    proof {
        assert(reserved_model(out@) =~= Seq::<TableNamesModel>::empty());
        let all = reserved_tables(models, 0, start);
        assert(Seq::<TableNamesModel>::empty() + all.0 =~= all.0);
    }
    while i < tables.len()
        invariant
            i <= tables@.len(),
            out@.len() == i,
            models == tables_model(tables@),
            reserved_tables(models, 0, start) == join_reserved(
                reserved_model(out@),
                reserved_tables(models, i as int, texts_model(used@)),
            ),
        decreases tables@.len() - i,
    {
        let ghost before = reserved_model(out@);
        let ghost taken = texts_model(used@);
        let base = make_declared_name(tables[i].name.as_str());
        let record = fresh(used, base.as_str());
        used.push(record.clone());
        assert(texts_model(used@) =~= taken.push(record@));
        let id_base = record.clone().concat("Id");
        let id = fresh(used, id_base.as_str());
        used.push(id.clone());
        assert(texts_model(used@) =~= taken.push(record@).push(id@));
        let names = TableNames { table: tables[i].name.clone(), record, id };
        let ghost model = names@;
        out.push(names);
        proof {
            assert(reserved_model(out@) =~= before + seq![model]);
            let rest = reserved_tables(models, i + 1, texts_model(used@));
            assert(before + (seq![model] + rest.0) =~= reserved_model(out@) + rest.0);
        }
        i += 1;
    }
    assert(reserved_model(out@) + Seq::<TableNamesModel>::empty() =~= reserved_model(out@));
    out
}

/// Sets names aside for the arguments of the functions.
pub fn reserve_functions(functions: &Vec<FunctionArgSet>, used: &mut Vec<String>) -> (r: Vec<
    String,
>)
    ensures
        (texts_model(r@), texts_model(final(used)@)) == reserved_functions(
            arg_sets_model(functions@),
            0,
            texts_model(old(used)@),
        ),
        r@.len() == functions@.len(),
{
    let ghost models = arg_sets_model(functions@);
    let ghost start = texts_model(used@);
    let mut out: Vec<String> = Vec::new();
    let mut i: usize = 0;
    proof {
        assert(texts_model(out@) =~= Seq::<Seq<char>>::empty());
        let all = reserved_functions(models, 0, start);
        assert(Seq::<Seq<char>>::empty() + all.0 =~= all.0);
    }
    while i < functions.len()
        invariant
            i <= functions@.len(),
            out@.len() == i,
            models == arg_sets_model(functions@),
            reserved_functions(models, 0, start) == join_names(
                texts_model(out@),
                reserved_functions(models, i as int, texts_model(used@)),
            ),
        decreases functions@.len() - i,
    {
        let ghost before = texts_model(out@);
        let ghost taken = texts_model(used@);
        let base = make_declared_name(functions[i].function_name.as_str()).concat("Args");
        let name = fresh(used, base.as_str());
        used.push(name.clone());
        assert(texts_model(used@) =~= taken.push(name@));
        let ghost model = name@;
        out.push(name);
        proof {
            assert(texts_model(out@) =~= before + seq![model]);
            let rest = reserved_functions(models, i + 1, texts_model(used@));
            assert(before + (seq![model] + rest.0) =~= texts_model(out@) + rest.0);
        }
        i += 1;
    }
    assert(texts_model(out@) + Seq::<Seq<char>>::empty() =~= texts_model(out@));
    out
}

/// Declares a table: its identifier, the types nested in its fields, and
/// its record, which has one member for each field of the table.
pub fn declare_table(table: &Table, names: &TableNames, ctx: &mut HoistContext)
    ensures
        final(ctx)@ == table_declared(table@, names@, old(ctx)@),
        final(ctx)@.declarations.len() > 0,
        final(ctx)@.declarations.last().name == names.record@,
        final(ctx)@.declarations.last().body matches BodyModel::Record(members) && members.len()
            == table.fields@.len(),
{
    ctx.add(NamedType { name: names.id.clone(), body: Body::Identifier });
    let members = hoist_fields(&table.fields, names.record.as_str(), ctx);
    ctx.add(NamedType { name: names.record.clone(), body: Body::Record(members) });
}

/// The fields of the arguments of a function.
pub fn args_fields_of(t: &TypeNode) -> (r: Option<&Vec<Field>>)
    ensures
        match r {
            Some(fields) => args_fields(t@) == fields_model(fields@),
            None => args_fields(t@) == Seq::<FieldModel>::empty(),
        },
{
    match t {
        TypeNode::Object(fields) => Some(fields),
        TypeNode::Optional(inner) => match &**inner {
            TypeNode::Object(fields) => {
                assert((**inner)@ == TypeModel::Object(fields_model(fields@)));
                Some(fields)
            },
            _ => {
                assert(!((**inner)@ is Object));
                None
            },
        },
        _ => None,
    }
}

/// Declares the arguments of a function under the name `name`: the types
/// nested in them, and their record.
pub fn declare_function(set: &FunctionArgSet, name: &str, ctx: &mut HoistContext)
    ensures
        final(ctx)@ == function_declared(set@, name@, old(ctx)@),
{
    let none: Vec<Field> = Vec::new();
    assert(fields_model(none@) =~= Seq::<FieldModel>::empty());
    let fields = match args_fields_of(&set.args_type) {
        Some(fields) => fields,
        None => &none,
    };
    let members = hoist_fields(fields, name, ctx);
    ctx.add(NamedType { name: String::from_str(name), body: Body::Record(members) });
}

/// The names of the identifiers of the tables, as they were set aside.
pub fn ids_of_tables(reserved: &Vec<TableNames>) -> (r: Vec<IdName>)
    ensures
        ids_model(r@) == table_ids(reserved_model(reserved@)),
{
    let mut out: Vec<IdName> = Vec::new();
    let mut i: usize = 0;
    while i < reserved.len()
        invariant
            i <= reserved@.len(),
            out@.len() == i,
            forall|j: int|
                0 <= j < i ==> (#[trigger] out@[j])@ == (IdNameModel {
                    table: reserved@[j].table@,
                    id: reserved@[j].id@,
                }),
        decreases reserved@.len() - i,
    {
        out.push(IdName { table: reserved[i].table.clone(), id: reserved[i].id.clone() });
        i += 1;
    }
    assert(ids_model(out@) =~= table_ids(reserved_model(reserved@)));
    out
}

/// Makes the declarations for the tables and for the arguments of the
/// functions, in the order in which they are written.
///
/// No two declarations have the same name. Each table has a record with
/// one member for each of its fields, and each function one with a member
/// for each field of its arguments. Every table that is referred to,
/// declared or not, has an identifier of its own among the declarations,
/// and every name that a declaration is written with is declared.
pub fn declare_all(tables: &Vec<Table>, functions: &Vec<FunctionArgSet>) -> (r: Vec<NamedType>)
    ensures
        named_model(r@) == generated_declarations(
            tables_model(tables@),
            arg_sets_model(functions@),
        ),
        declared_names(named_model(r@)).no_duplicates(),
        forall|i: int|
            0 <= i < tables@.len() ==> has_record(
                named_model(r@),
                (#[trigger] reserved_tables(tables_model(tables@), 0, builtin_names()).0[i]).record,
                tables@[i].fields@.len() as nat,
            ),
        forall|j: int|
            0 <= j < functions@.len() ==> has_record(
                named_model(r@),
                #[trigger] reserved_functions(
                    arg_sets_model(functions@),
                    0,
                    reserved_tables(tables_model(tables@), 0, builtin_names()).1,
                ).0[j],
                args_fields(functions@[j].args_type@).len(),
            ),
        forall|k: int|
            0 <= k < generated_context(
                tables_model(tables@),
                arg_sets_model(functions@),
            ).ids.len() ==> has_identifier(
                named_model(r@),
                (#[trigger] generated_context(
                    tables_model(tables@),
                    arg_sets_model(functions@),
                ).ids[k]).id,
            ),
        covers(
            generated_context(tables_model(tables@), arg_sets_model(functions@)).ids,
            tables_referenced(tables_model(tables@), 0),
        ),
        covers(
            generated_context(tables_model(tables@), arg_sets_model(functions@)).ids,
            functions_referenced(arg_sets_model(functions@), 0),
        ),
        closed(
            generated_context(tables_model(tables@), arg_sets_model(functions@)),
            Set::empty(),
        ),
{
    let ghost table_models = tables_model(tables@);
    proof {
        lemma_generated_declarations(table_models, arg_sets_model(functions@));
    }
    let ghost function_models = arg_sets_model(functions@);
    let mut used: Vec<String> = Vec::new();
    used.push(String::from_str("String"));
    used.push(String::from_str("Option"));
    used.push(String::from_str("Vec"));
    used.push(String::from_str("Self"));
    assert(texts_model(used@) =~= builtin_names());
    let reserved = reserve_tables(tables, &mut used);
    let names = reserve_functions(functions, &mut used);
    let ids = ids_of_tables(&reserved);
    let mut ctx = HoistContext { used, declarations: Vec::new(), ids };
    assert(named_model(ctx.declarations@) =~= Seq::<NamedModel>::empty());
    let ghost start = ctx@;
    let ghost reserved_models = reserved_model(reserved@);
    let ghost name_models = texts_model(names@);
    let mut i: usize = 0;
    while i < tables.len()
        invariant
            i <= tables@.len(),
            reserved@.len() == tables@.len(),
            table_models == tables_model(tables@),
            reserved_models == reserved_model(reserved@),
            tables_declared(table_models, 0, reserved_models, start) == tables_declared(
                table_models,
                i as int,
                reserved_models,
                ctx@,
            ),
        decreases tables@.len() - i,
    {
        declare_table(&tables[i], &reserved[i], &mut ctx);
        i += 1;
    }
    let ghost middle = ctx@;
    let mut j: usize = 0;
    while j < functions.len()
        invariant
            j <= functions@.len(),
            names@.len() == functions@.len(),
            function_models == arg_sets_model(functions@),
            reserved_models == reserved_model(reserved@),
            name_models == texts_model(names@),
            functions_declared(function_models, 0, name_models, middle) == functions_declared(
                function_models,
                j as int,
                name_models,
                ctx@,
            ),
        decreases functions@.len() - j,
    {
        declare_function(&functions[j], names[j].as_str(), &mut ctx);
        j += 1;
    }
    ctx.declarations
}

/// Generates the source text for a schema and the arguments of the
/// functions: one declaration for each table and each function, and one
/// for each type nested in them.
pub fn generate_code(schema: &Schema, functions: &Vec<FunctionArgSet>) -> (r: String)
    ensures
        r@ == generated_text(schema@.tables, arg_sets_model(functions@)),
{
    let declarations = declare_all(&schema.tables, functions);
    render(&declarations)
}

/// Generates the source text for the tables alone.
pub fn generate_rust_types(tables: &Vec<Table>) -> (r: String)
    ensures
        r@ == generated_text(tables_model(tables@), Seq::empty()),
{
    let none: Vec<FunctionArgSet> = Vec::new();
    assert(arg_sets_model(none@) =~= Seq::<ArgSetModel>::empty());
    let declarations = declare_all(tables, &none);
    render(&declarations)
}

} // verus!
