use vstd::prelude::*;
use crate::codegen::generated_text;
use crate::convex::{
    duplicate_from, field_names, schema_of, system_fields, table_definition, table_names, table_of,
    tables_from, tables_referenced,
};
use crate::errors::ErrorModel;
use crate::expr::{ExprModel, PropertyModel};
use crate::functions::{
    declarator_function, declarators_from, functions_from, is_args_shape, statement_functions,
    statements_from,
};
use crate::json::{program_body, JsonModel};
use crate::types::{ArgSetModel, FieldModel, SchemaModel, TableModel, TypeModel};
use crate::validator::{
    application, array_application, field_interpretations, interpretation, interpretations,
    literal_types, object_application, optional_application, record_application, union_application,
    validator_word,
};

verus! {

/// What holds of every schema that is built: no two tables have the same
/// name, no two fields of a table have the same name, and every table that
/// a field refers to is either declared or listed as unresolved.
pub open spec fn well_formed(schema: SchemaModel) -> bool {
    &&& table_names(schema.tables).no_duplicates()
    &&& forall|i: int|
        0 <= i < schema.tables.len() ==> field_names(
            #[trigger] schema.tables[i].fields,
        ).no_duplicates()
    &&& forall|k: int|
        0 <= k < tables_referenced(schema.tables, 0).len() ==> table_names(
            schema.tables,
        ).contains(#[trigger] tables_referenced(schema.tables, 0)[k])
            || schema.unresolved.contains(tables_referenced(schema.tables, 0)[k])
}

/// Names among which no name stands before its own position are all
/// different.
pub proof fn lemma_no_duplicate_found(names: Seq<Seq<char>>, from: int)
    requires
        0 <= from <= names.len(),
        duplicate_from(names, from) is None,
    ensures
        forall|j: int|
            from <= j < names.len() ==> !names.subrange(0, j).contains(#[trigger] names[j]),
    decreases names.len() - from,
{
    if from < names.len() {
        lemma_no_duplicate_found(names, from + 1);
    }
}

/// Names without a duplicate are pairwise different.
pub proof fn lemma_names_differ(names: Seq<Seq<char>>)
    requires
        duplicate_from(names, 0) is None,
    ensures
        names.no_duplicates(),
{
    lemma_no_duplicate_found(names, 0);
    assert forall|i: int, j: int| 0 <= i < names.len() && 0 <= j < names.len() && i != j implies
        names[i] != names[j] by {
        if i < j {
            assert(!names.subrange(0, j).contains(names[j]));
            assert(names.subrange(0, j)[i] == names[i]);
        } else {
            assert(!names.subrange(0, i).contains(names[i]));
            assert(names.subrange(0, i)[j] == names[j]);
        }
    }
}

/// A table that is built bears the name it was defined under, and no two
/// of its fields have the same name.
pub proof fn lemma_table_built(name: Seq<char>, e: ExprModel)
    requires
        table_of(name, e) is Ok,
    ensures
        table_of(name, e)->Ok_0.name == name,
        field_names(table_of(name, e)->Ok_0.fields).no_duplicates(),
{
    lemma_names_differ(field_names(table_of(name, e)->Ok_0.fields));
}

/// The tables that are built from a list of definitions have names that
/// differ from each other and from the names seen before them, and each
/// has fields of different names.
pub proof fn lemma_tables_built(properties: Seq<PropertyModel>, from: int, seen: Seq<Seq<char>>)
    requires
        0 <= from <= properties.len(),
        tables_from(properties, from, seen) is Ok,
    ensures
        table_names(tables_from(properties, from, seen)->Ok_0).no_duplicates(),
        forall|i: int|
            0 <= i < tables_from(properties, from, seen)->Ok_0.len() ==> !seen.contains(
                (#[trigger] tables_from(properties, from, seen)->Ok_0[i]).name,
            ),
        forall|i: int|
            0 <= i < tables_from(properties, from, seen)->Ok_0.len() ==> field_names(
                (#[trigger] tables_from(properties, from, seen)->Ok_0[i]).fields,
            ).no_duplicates(),
    decreases properties.len() - from,
{
    if from < properties.len() {
        let name = properties[from].name;
        let table = table_of(name, properties[from].value)->Ok_0;
        let later = seen.push(name);
        let rest = tables_from(properties, from + 1, later)->Ok_0;
        let all = tables_from(properties, from, seen)->Ok_0;
        lemma_table_built(name, properties[from].value);
        lemma_tables_built(properties, from + 1, later);
        assert(all == seq![table] + rest);
        assert forall|i: int| 0 <= i < all.len() implies !seen.contains((#[trigger] all[i]).name)
            && field_names(all[i].fields).no_duplicates() by {
            if i > 0 {
                assert(all[i] == rest[i - 1]);
                assert(!later.contains(rest[i - 1].name));
                if seen.contains(rest[i - 1].name) {
                    let at = choose|at: int| 0 <= at < seen.len() && seen[at] == rest[i - 1].name;
                    assert(later[at] == rest[i - 1].name);
                }
            }
        }
        let names = table_names(all);
        assert forall|i: int, j: int| 0 <= i < names.len() && 0 <= j < names.len() && i
            != j implies names[i] != names[j] by {
            let rest_names = table_names(rest);
            if i > 0 && j > 0 {
                assert(all[i] == rest[i - 1] && all[j] == rest[j - 1]);
                assert(rest_names[i - 1] != rest_names[j - 1]);
            } else {
                let other = if i > 0 {
                    i
                } else {
                    j
                };
                assert(all[other] == rest[other - 1]);
                assert(!later.contains(rest[other - 1].name));
                assert(later[seen.len() as int] == name);
            }
        }
    }
}

/// Every schema that is built is well formed.
pub proof fn lemma_schema_well_formed(tree: JsonModel, file: Seq<char>)
    requires
        schema_of(tree, file) is Ok,
    ensures
        well_formed(schema_of(tree, file)->Ok_0),
{
    let schema = schema_of(tree, file)->Ok_0;
    let tables = schema.tables;
    let names = tables_referenced(tables, 0);
    let known = table_names(tables);
    let properties = choose|properties: Seq<PropertyModel>|
        tables_from(properties, 0, Seq::empty()) == Ok::<Seq<TableModel>, ErrorModel>(tables);
    lemma_tables_built(properties, 0, Seq::empty());
    assert forall|k: int| 0 <= k < names.len() implies known.contains(#[trigger] names[k])
        || schema.unresolved.contains(names[k]) by {
        if !known.contains(names[k]) {
            let unknown = |name: Seq<char>| !known.contains(name);
            assert(unknown(names[k]));
            names.lemma_filter_contains(unknown, k);
        }
    }
}

/// The generated text depends on nothing but the schema and the functions:
/// generating twice from equal inputs gives the same text, character for
/// character.
pub proof fn lemma_generation_repeats(
    first_tables: Seq<TableModel>,
    first_functions: Seq<ArgSetModel>,
    second_tables: Seq<TableModel>,
    second_functions: Seq<ArgSetModel>,
)
    requires
        first_tables == second_tables,
        first_functions == second_functions,
    ensures
        generated_text(first_tables, first_functions) == generated_text(
            second_tables,
            second_functions,
        ),
{
}

/// Whether each field of a list is marked optional exactly where its type
/// is an optional one.
pub open spec fn marked(fields: Seq<FieldModel>) -> bool {
    forall|i: int|
        0 <= i < fields.len() ==> (#[trigger] fields[i]).optional == (fields[i].ty is Optional)
}

/// The fields read from the properties of an object literal are as many as
/// the properties, and each is marked optional exactly where its type is.
pub proof fn lemma_fields_read(properties: Seq<PropertyModel>, from: int)
    requires
        0 <= from <= properties.len(),
        field_interpretations(properties, from) is Ok,
    ensures
        field_interpretations(properties, from)->Ok_0.len() == properties.len() - from,
        marked(field_interpretations(properties, from)->Ok_0),
    decreases properties.len() - from,
{
    if from < properties.len() {
        lemma_fields_read(properties, from + 1);
        let rest = field_interpretations(properties, from + 1)->Ok_0;
        let all = field_interpretations(properties, from)->Ok_0;
        assert forall|i: int| 0 <= i < all.len() implies (#[trigger] all[i]).optional == (
        all[i].ty is Optional) by {
            if i > 0 {
                assert(all[i] == rest[i - 1]);
            }
        }
    }
}

/// A table that is built has the fields that its definition lists, and
/// the two system fields before them unless it gave them up.
pub proof fn lemma_table_fields(name: Seq<char>, e: ExprModel)
    requires
        table_of(name, e) is Ok,
    ensures
        table_definition(e) matches Some((arguments, system)) && arguments.len() == 1 && (
        interpretation(arguments[0]) matches Ok(TypeModel::Object(listed)) && {
            let table = table_of(name, e)->Ok_0;
            &&& table.has_system_fields == system
            &&& table.fields == if system {
                system_fields(name) + listed
            } else {
                listed
            }
            &&& table.fields.len() == listed.len() + if system {
                2int
            } else {
                0int
            }
        }),
{
}

/// The arguments of every function that one declarator defines are an
/// object or an optional object.
pub proof fn lemma_declarators_shape(declarators: Seq<JsonModel>, from: int)
    requires
        0 <= from <= declarators.len(),
        declarators_from(declarators, from) is Ok,
    ensures
        forall|j: int|
            0 <= j < declarators_from(declarators, from)->Ok_0.len() ==> is_args_shape(
                (#[trigger] declarators_from(declarators, from)->Ok_0[j]).args_type,
            ),
    decreases declarators.len() - from,
{
    if from < declarators.len() {
        lemma_declarators_shape(declarators, from + 1);
        let all = declarators_from(declarators, from)->Ok_0;
        let rest = declarators_from(declarators, from + 1)->Ok_0;
        assert forall|j: int| 0 <= j < all.len() implies is_args_shape(
            (#[trigger] all[j]).args_type,
        ) by {
            if declarator_function(declarators[from]) matches Ok(Some(set)) {
                if j > 0 {
                    assert(all[j] == rest[j - 1]);
                }
            }
        }
    }
}

/// The arguments of every function that the statements of a file export
/// are an object or an optional object.
pub proof fn lemma_statements_shape(body: Seq<JsonModel>, from: int)
    requires
        0 <= from <= body.len(),
        statements_from(body, from) is Ok,
    ensures
        forall|j: int|
            0 <= j < statements_from(body, from)->Ok_0.len() ==> is_args_shape(
                (#[trigger] statements_from(body, from)->Ok_0[j]).args_type,
            ),
    decreases body.len() - from,
{
    if from < body.len() {
        lemma_statements_shape(body, from + 1);
        let first = statement_functions(body[from])->Ok_0;
        let rest = statements_from(body, from + 1)->Ok_0;
        let all = statements_from(body, from)->Ok_0;
        assert(all == first + rest);
        assert forall|j: int| 0 <= j < first.len() implies is_args_shape(
            (#[trigger] first[j]).args_type,
        ) by {
            if first.len() > 0 {
                let declarators = choose|declarators: Seq<JsonModel>|
                    declarators_from(declarators, 0) == Ok::<Seq<ArgSetModel>, ErrorModel>(first);
                lemma_declarators_shape(declarators, 0);
            }
        }
        assert forall|j: int| 0 <= j < all.len() implies is_args_shape(
            (#[trigger] all[j]).args_type,
        ) by {
            if j < first.len() {
                assert(all[j] == first[j]);
            } else {
                assert(all[j] == rest[j - first.len()]);
            }
        }
    }
}

/// The arguments of every function that is extracted are an object or an
/// optional object.
pub proof fn lemma_functions_shape(trees: Seq<JsonModel>, from: int)
    requires
        0 <= from <= trees.len(),
        functions_from(trees, from) is Ok,
    ensures
        forall|j: int|
            0 <= j < functions_from(trees, from)->Ok_0.len() ==> is_args_shape(
                (#[trigger] functions_from(trees, from)->Ok_0[j]).args_type,
            ),
    decreases trees.len() - from,
{
    if from < trees.len() {
        lemma_functions_shape(trees, from + 1);
        lemma_statements_shape(program_body(trees[from]), 0);
        let first = statements_from(program_body(trees[from]), 0)->Ok_0;
        let rest = functions_from(trees, from + 1)->Ok_0;
        let all = functions_from(trees, from)->Ok_0;
        assert(all == first + rest);
        assert forall|j: int| 0 <= j < all.len() implies is_args_shape(
            (#[trigger] all[j]).args_type,
        ) by {
            if j < first.len() {
                assert(all[j] == first[j]);
            } else {
                assert(all[j] == rest[j - first.len()]);
            }
        }
    }
}

/// Whether every field in a type, at any depth, is marked optional exactly
/// where its type is an optional one.
pub open spec fn flagged(t: TypeModel) -> bool
    decreases t,
{
    match t {
        TypeModel::Object(fields) => forall|i: int|
            0 <= i < fields.len() ==> (#[trigger] fields[i]).optional == (fields[i].ty is Optional)
                && flagged(fields[i].ty),
        TypeModel::Union(variants) => forall|i: int|
            0 <= i < variants.len() ==> flagged(#[trigger] variants[i]),
        TypeModel::Optional(inner) => flagged(*inner),
        TypeModel::Array(element) => flagged(*element),
        TypeModel::Record(_, value) => flagged(*value),
        _ => true,
    }
}

/// Every type that is interpreted has its fields marked as they should be.
pub proof fn lemma_interpretation_flagged(e: ExprModel)
    requires
        interpretation(e) is Ok,
    ensures
        flagged(interpretation(e)->Ok_0),
    decreases e, 0int,
{
    match e {
        ExprModel::Call { callee, arguments } => {
            let word = validator_word(*callee)->0;
            lemma_application_flagged(word, arguments, e);
        },
        ExprModel::Object(properties) => {
            lemma_fields_flagged(properties, 0);
        },
        _ => {},
    }
}

/// Every type that a call of the vocabulary describes has its fields
/// marked as they should be.
pub proof fn lemma_application_flagged(word: Seq<char>, arguments: Seq<ExprModel>, whole: ExprModel)
    requires
        application(word, arguments, whole) is Ok,
    ensures
        flagged(application(word, arguments, whole)->Ok_0),
    decreases arguments, arguments.len() + 2,
{
    let outcome = application(word, arguments, whole);
    if outcome == optional_application(arguments, whole) && arguments.len() == 1 {
        lemma_interpretation_flagged(arguments[0]);
    }
    if outcome == array_application(arguments, whole) && arguments.len() == 1 {
        lemma_interpretation_flagged(arguments[0]);
    }
    if outcome == object_application(arguments, whole) && arguments.len() == 1 {
        if let ExprModel::Object(properties) = arguments[0] {
            lemma_fields_flagged(properties, 0);
        }
    }
    if outcome == union_application(arguments, whole) && arguments.len() >= 1 {
        lemma_all_flagged(arguments, 0);
    }
    if outcome == record_application(arguments, whole) && arguments.len() == 2 {
        lemma_interpretation_flagged(arguments[0]);
        if interpretation(arguments[1]) is Ok {
            lemma_interpretation_flagged(arguments[1]);
        }
    }
    if arguments.len() >= 2 && literal_types(arguments, 0, whole) is Ok {
        lemma_literals_flagged(arguments, 0, whole);
    }
}

/// The literal types of a list of fixed values have no fields to mark.
pub proof fn lemma_literals_flagged(exprs: Seq<ExprModel>, from: int, whole: ExprModel)
    requires
        0 <= from <= exprs.len(),
        literal_types(exprs, from, whole) is Ok,
    ensures
        forall|i: int|
            0 <= i < literal_types(exprs, from, whole)->Ok_0.len() ==> flagged(
                #[trigger] literal_types(exprs, from, whole)->Ok_0[i],
            ),
    decreases exprs.len() - from,
{
    if from < exprs.len() {
        lemma_literals_flagged(exprs, from + 1, whole);
        let all = literal_types(exprs, from, whole)->Ok_0;
        let rest = literal_types(exprs, from + 1, whole)->Ok_0;
        assert forall|i: int| 0 <= i < all.len() implies flagged(#[trigger] all[i]) by {
            if i > 0 {
                assert(all[i] == rest[i - 1]);
            }
        }
    }
}

/// The types that are interpreted from a list have their fields marked as
/// they should be.
pub proof fn lemma_all_flagged(exprs: Seq<ExprModel>, from: int)
    requires
        0 <= from <= exprs.len(),
        interpretations(exprs, from) is Ok,
    ensures
        forall|i: int|
            0 <= i < interpretations(exprs, from)->Ok_0.len() ==> flagged(
                #[trigger] interpretations(exprs, from)->Ok_0[i],
            ),
    decreases exprs, exprs.len() - from,
{
    if from < exprs.len() {
        lemma_interpretation_flagged(exprs[from]);
        lemma_all_flagged(exprs, from + 1);
        let all = interpretations(exprs, from)->Ok_0;
        let rest = interpretations(exprs, from + 1)->Ok_0;
        assert forall|i: int| 0 <= i < all.len() implies flagged(#[trigger] all[i]) by {
            if i > 0 {
                assert(all[i] == rest[i - 1]);
            }
        }
    }
}

/// The fields that are interpreted from the properties of an object
/// literal are marked as they should be, and so are the fields inside
/// their types.
pub proof fn lemma_fields_flagged(properties: Seq<PropertyModel>, from: int)
    requires
        0 <= from <= properties.len(),
        field_interpretations(properties, from) is Ok,
    ensures
        forall|i: int|
            0 <= i < field_interpretations(properties, from)->Ok_0.len() ==> (
            #[trigger] field_interpretations(properties, from)->Ok_0[i]).optional == (
            field_interpretations(properties, from)->Ok_0[i].ty is Optional) && flagged(
                field_interpretations(properties, from)->Ok_0[i].ty,
            ),
    decreases properties, properties.len() - from,
{
    if from < properties.len() {
        lemma_interpretation_flagged(properties[from].value);
        lemma_fields_flagged(properties, from + 1);
        let all = field_interpretations(properties, from)->Ok_0;
        let rest = field_interpretations(properties, from + 1)->Ok_0;
        assert forall|i: int| 0 <= i < all.len() implies (#[trigger] all[i]).optional == (
        all[i].ty is Optional) && flagged(all[i].ty) by {
            if i > 0 {
                assert(all[i] == rest[i - 1]);
            }
        }
    }
}

} // verus!
