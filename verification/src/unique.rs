use vstd::prelude::*;
use crate::closed::{
    awaited, closed, lemma_declare_closed, lemma_fields_closed,
};
use crate::codegen::{
    args_fields, builtin_names, function_declared, functions_declared, generated_context,
    generated_declarations, reserved_functions, reserved_tables, table_declared, table_ids,
    tables_declared,
};
use crate::convex::{
    fields_referenced, key_referenced, referenced, tables_referenced, types_referenced,
};
use crate::declarations::{BodyModel, MemberModel, NamedModel, RefModel};
use crate::hoist::{
    all_constants, constant_names, declare, hoisted, hoisted_fields, hoisted_variants,
    id_position, id_written, identified, key_written, known_id, member_names, reserve,
    ContextModel, IdNameModel, TableNamesModel,
};
use crate::names::{fresh_name, lemma_fresh_is_new};
use crate::text::{decimal, declared_name, member_name, pascal};
use crate::types::{ArgSetModel, FieldModel, KeyModel, TableModel, TypeModel};

verus! {

/// The names of a list of declarations.
pub open spec fn declared_names(declarations: Seq<NamedModel>) -> Seq<Seq<char>> {
    Seq::new(declarations.len(), |i: int| declarations[i].name)
}

/// Whether the list `longer` begins with the list `shorter`.
pub open spec fn extends(shorter: Seq<NamedModel>, longer: Seq<NamedModel>) -> bool {
    shorter.len() <= longer.len() && forall|i: int|
        0 <= i < shorter.len() ==> #[trigger] longer[i] == shorter[i]
}

/// Whether the list of identifier names `longer` begins with `shorter`.
pub open spec fn ids_extend(shorter: Seq<IdNameModel>, longer: Seq<IdNameModel>) -> bool {
    shorter.len() <= longer.len() && forall|i: int|
        0 <= i < shorter.len() ==> #[trigger] longer[i] == shorter[i]
}

/// Whether an identifier named `name` is among the declarations.
pub open spec fn has_identifier(declarations: Seq<NamedModel>, name: Seq<char>) -> bool {
    exists|k: int|
        0 <= k < declarations.len() && (#[trigger] declarations[k]).name == name
            && declarations[k].body is Identifier
}

/// Whether a record named `name` with `count` members is among the
/// declarations.
pub open spec fn has_record(declarations: Seq<NamedModel>, name: Seq<char>, count: nat) -> bool {
    exists|k: int|
        0 <= k < declarations.len() && (#[trigger] declarations[k]).name == name && (
        declarations[k].body matches BodyModel::Record(members) && members.len() == count)
}

/// Whether the identifier of each of the tables named in `names` has a
/// name.
pub open spec fn covers(ids: Seq<IdNameModel>, names: Seq<Seq<char>>) -> bool {
    forall|i: int| 0 <= i < names.len() ==> known_id(ids, #[trigger] names[i]) is Some
}

/// What holds of the context all through a generation. `pending` holds the
/// names that are taken and whose declarations are still to come: no name
/// is in use twice, no two declarations have the same name, every
/// declaration bears a name that is in use and not pending, and every
/// pending name is in use.
pub open spec fn orderly(ctx: ContextModel, pending: Set<Seq<char>>) -> bool {
    &&& ctx.used.no_duplicates()
    &&& declared_names(ctx.declarations).no_duplicates()
    &&& forall|i: int|
        0 <= i < ctx.declarations.len() ==> ctx.used.contains(
            (#[trigger] ctx.declarations[i]).name,
        ) && !pending.contains(ctx.declarations[i].name)
    &&& forall|name: Seq<char>| #[trigger] pending.contains(name) ==> ctx.used.contains(name)
}

/// What holds of the names of the identifiers all through a generation:
/// each is a name in use, no two of them are the same, and each is the name
/// of a declared identifier, but for those at the positions from `lo` up to
/// `hi`, whose declarations are still to come.
pub open spec fn sound(ctx: ContextModel, lo: int, hi: int) -> bool {
    &&& forall|k: int| 0 <= k < ctx.ids.len() ==> ctx.used.contains((#[trigger] ctx.ids[k]).id)
    &&& forall|j: int, k: int|
        0 <= j < ctx.ids.len() && 0 <= k < ctx.ids.len() && j != k ==> (#[trigger] ctx.ids[j]).id
            != (#[trigger] ctx.ids[k]).id
    &&& forall|k: int|
        0 <= k < ctx.ids.len() && !(lo <= k < hi) ==> has_identifier(
            ctx.declarations,
            (#[trigger] ctx.ids[k]).id,
        )
}

/// A name that is in a list is in the list with one more name behind it.
pub proof fn lemma_contains_pushed(names: Seq<Seq<char>>, name: Seq<char>, other: Seq<char>)
    requires
        names.contains(other),
    ensures
        names.push(name).contains(other),
{
    let at = choose|at: int| 0 <= at < names.len() && names[at] == other;
    assert(names.push(name)[at] == other);
}

/// An identifier that is among the declarations is among every list that
/// begins with them.
pub proof fn lemma_identifier_stays(
    shorter: Seq<NamedModel>,
    longer: Seq<NamedModel>,
    name: Seq<char>,
)
    requires
        extends(shorter, longer),
        has_identifier(shorter, name),
    ensures
        has_identifier(longer, name),
{
    let k = choose|k: int|
        0 <= k < shorter.len() && (#[trigger] shorter[k]).name == name
            && shorter[k].body is Identifier;
    assert(longer[k] == shorter[k]);
}

/// A record that is among the declarations is among every list that begins
/// with them.
pub proof fn lemma_record_stays(
    shorter: Seq<NamedModel>,
    longer: Seq<NamedModel>,
    name: Seq<char>,
    count: nat,
)
    requires
        extends(shorter, longer),
        has_record(shorter, name, count),
    ensures
        has_record(longer, name, count),
{
    let k = choose|k: int|
        0 <= k < shorter.len() && (#[trigger] shorter[k]).name == name && (
        shorter[k].body matches BodyModel::Record(members) && members.len() == count);
    assert(longer[k] == shorter[k]);
}

/// Taking a new name into use keeps the context orderly; the name is
/// pending from then on.
pub proof fn lemma_reserve(ctx: ContextModel, pending: Set<Seq<char>>, name: Seq<char>)
    requires
        orderly(ctx, pending),
        !ctx.used.contains(name),
    ensures
        orderly(reserve(ctx, name), pending.insert(name)),
        !pending.contains(name),
{
    let after = reserve(ctx, name);
    assert forall|i: int, j: int|
        0 <= i < after.used.len() && 0 <= j < after.used.len() && i != j implies after.used[i]
        != after.used[j] by {
        if i < ctx.used.len() {
            assert(ctx.used[i] == after.used[i]);
        }
        if j < ctx.used.len() {
            assert(ctx.used[j] == after.used[j]);
        }
    }
    assert forall|other: Seq<char>| ctx.used.contains(other) implies after.used.contains(
        other,
    ) by {
        lemma_contains_pushed(ctx.used, name, other);
    }
    assert(after.used[ctx.used.len() as int] == name);
    assert forall|i: int| 0 <= i < after.declarations.len() implies after.used.contains(
        (#[trigger] after.declarations[i]).name,
    ) && !pending.insert(name).contains(after.declarations[i].name) by {
        assert(ctx.used.contains(ctx.declarations[i].name));
    }
}

/// Taking a new name into use changes nothing for the identifiers.
pub proof fn lemma_reserve_sound(ctx: ContextModel, name: Seq<char>, lo: int, hi: int)
    requires
        sound(ctx, lo, hi),
    ensures
        sound(reserve(ctx, name), lo, hi),
{
    let after = reserve(ctx, name);
    assert forall|k: int| 0 <= k < after.ids.len() implies after.used.contains(
        (#[trigger] after.ids[k]).id,
    ) by {
        lemma_contains_pushed(ctx.used, name, ctx.ids[k].id);
    }
}

/// Declaring a pending name keeps the context orderly; the name is no
/// longer pending.
pub proof fn lemma_declare(
    ctx: ContextModel,
    pending: Set<Seq<char>>,
    declaration: NamedModel,
)
    requires
        orderly(ctx, pending),
        pending.contains(declaration.name),
    ensures
        orderly(declare(ctx, declaration), pending.remove(declaration.name)),
        extends(ctx.declarations, declare(ctx, declaration).declarations),
{
    let after = declare(ctx, declaration);
    let names = declared_names(after.declarations);
    let before = declared_names(ctx.declarations);
    assert forall|i: int, j: int| 0 <= i < names.len() && 0 <= j < names.len() && i != j implies
        names[i] != names[j] by {
        if i < before.len() && j < before.len() {
            assert(before[i] != before[j]);
        } else if i < before.len() {
            assert(!pending.contains(ctx.declarations[i].name));
        } else {
            assert(!pending.contains(ctx.declarations[j].name));
        }
    }
    assert forall|i: int| 0 <= i < after.declarations.len() implies after.used.contains(
        (#[trigger] after.declarations[i]).name,
    ) && !pending.remove(declaration.name).contains(after.declarations[i].name) by {
        if i < ctx.declarations.len() {
            assert(after.declarations[i] == ctx.declarations[i]);
        }
    }
}

/// A declaration more leaves every identifier that was declared declared.
pub proof fn lemma_declare_sound(ctx: ContextModel, declaration: NamedModel, lo: int, hi: int)
    requires
        sound(ctx, lo, hi),
    ensures
        sound(declare(ctx, declaration), lo, hi),
{
    let after = declare(ctx, declaration);
    assert(extends(ctx.declarations, after.declarations));
    assert forall|k: int| 0 <= k < after.ids.len() && !(lo <= k < hi) implies has_identifier(
        after.declarations,
        (#[trigger] after.ids[k]).id,
    ) by {
        lemma_identifier_stays(ctx.declarations, after.declarations, ctx.ids[k].id);
    }
}

/// Where the search for a table ends: at an entry for the table, or behind
/// all entries, none of which is for the table.
pub proof fn lemma_id_position(ids: Seq<IdNameModel>, table: Seq<char>, from: int)
    requires
        0 <= from <= ids.len(),
    ensures
        from <= id_position(ids, table, from) <= ids.len(),
        id_position(ids, table, from) < ids.len() ==> ids[id_position(ids, table, from)].table
            == table,
        forall|j: int|
            from <= j < id_position(ids, table, from) ==> (#[trigger] ids[j]).table != table,
    decreases ids.len() - from,
{
    if from < ids.len() && ids[from].table != table {
        lemma_id_position(ids, table, from + 1);
    }
}

/// A table that has a name for its identifier keeps it when more names are
/// added.
pub proof fn lemma_known_stays(
    shorter: Seq<IdNameModel>,
    longer: Seq<IdNameModel>,
    table: Seq<char>,
)
    requires
        ids_extend(shorter, longer),
        known_id(shorter, table) is Some,
    ensures
        known_id(longer, table) == known_id(shorter, table),
{
    lemma_id_position(shorter, table, 0);
    lemma_id_position(longer, table, 0);
    let at = id_position(shorter, table, 0);
    let other = id_position(longer, table, 0);
    assert(longer[at] == shorter[at]);
    if other < at {
        assert(longer[other] == shorter[other]);
    }
}

/// Tables that have names for their identifiers keep them when more names
/// are added.
pub proof fn lemma_covers_stays(
    shorter: Seq<IdNameModel>,
    longer: Seq<IdNameModel>,
    names: Seq<Seq<char>>,
)
    requires
        ids_extend(shorter, longer),
        covers(shorter, names),
    ensures
        covers(longer, names),
{
    assert forall|i: int| 0 <= i < names.len() implies known_id(longer, #[trigger] names[i])
        is Some by {
        lemma_known_stays(shorter, longer, names[i]);
    }
}

/// Tables of two lists that all have names for their identifiers.
pub proof fn lemma_covers_both(
    ids: Seq<IdNameModel>,
    first: Seq<Seq<char>>,
    second: Seq<Seq<char>>,
)
    requires
        covers(ids, first),
        covers(ids, second),
    ensures
        covers(ids, first + second),
{
    let both = first + second;
    assert forall|i: int| 0 <= i < both.len() implies known_id(ids, #[trigger] both[i])
        is Some by {
        if i < first.len() {
            assert(both[i] == first[i]);
        } else {
            assert(both[i] == second[i - first.len()]);
        }
    }
}

/// The identifier of a table is always written by a name, and that name is
/// the one the table has from then on. Writing it keeps the context
/// orderly and the identifiers sound.
pub proof fn lemma_id_written(
    table: Seq<char>,
    ctx: ContextModel,
    pending: Set<Seq<char>>,
    lo: int,
    hi: int,
)
    requires
        orderly(ctx, pending),
        sound(ctx, lo, hi),
        hi <= ctx.ids.len(),
    ensures
        id_written(table, ctx).0 is Name,
        known_id(id_written(table, ctx).1.ids, table) == Some(id_written(table, ctx).0->Name_0),
        orderly(id_written(table, ctx).1, pending),
        sound(id_written(table, ctx).1, lo, hi),
        extends(ctx.declarations, id_written(table, ctx).1.declarations),
        ids_extend(ctx.ids, id_written(table, ctx).1.ids),
{
    lemma_id_position(ctx.ids, table, 0);
    if known_id(ctx.ids, table) is None {
        let base = declared_name(table) + "Id"@;
        let name = fresh_name(ctx.used, base);
        lemma_fresh_is_new(ctx.used, base);
        let declaration = NamedModel { name, body: BodyModel::Identifier };
        let taken = reserve(ctx, name);
        let declared = declare(taken, declaration);
        let after = identified(ctx, table, name);
        lemma_reserve(ctx, pending, name);
        lemma_declare(taken, pending.insert(name), declaration);
        assert(pending.insert(name).remove(name) =~= pending);
        assert(after.used == declared.used && after.declarations == declared.declarations);
        assert(orderly(after, pending));
        lemma_reserve_sound(ctx, name, lo, hi);
        lemma_declare_sound(taken, declaration, lo, hi);
        let entry = IdNameModel { table, id: name };
        assert(after.ids == ctx.ids.push(entry));
        assert(after.used[ctx.used.len() as int] == name);
        assert(after.declarations[ctx.declarations.len() as int] == declaration);
        assert forall|k: int| 0 <= k < after.ids.len() implies after.used.contains(
            (#[trigger] after.ids[k]).id,
        ) by {
            if k < ctx.ids.len() {
                assert(after.ids[k] == ctx.ids[k]);
                assert(declared.used.contains(ctx.ids[k].id));
            }
        }
        assert forall|j: int, k: int|
            0 <= j < after.ids.len() && 0 <= k < after.ids.len() && j != k implies (
        #[trigger] after.ids[j]).id != (#[trigger] after.ids[k]).id by {
            if j < ctx.ids.len() {
                assert(after.ids[j] == ctx.ids[j]);
                assert(ctx.used.contains(ctx.ids[j].id));
            }
            if k < ctx.ids.len() {
                assert(after.ids[k] == ctx.ids[k]);
                assert(ctx.used.contains(ctx.ids[k].id));
            }
        }
        assert forall|k: int| 0 <= k < after.ids.len() && !(lo <= k < hi) implies has_identifier(
            after.declarations,
            (#[trigger] after.ids[k]).id,
        ) by {
            if k < ctx.ids.len() {
                assert(after.ids[k] == ctx.ids[k]);
                assert(declared.ids[k] == ctx.ids[k]);
                assert(has_identifier(declared.declarations, ctx.ids[k].id));
            }
        }
        lemma_id_position(after.ids, table, 0);
        let at = id_position(after.ids, table, 0);
        assert(after.ids[ctx.ids.len() as int] == entry);
        if at < ctx.ids.len() {
            assert(after.ids[at] == ctx.ids[at]);
        }
        assert(at == ctx.ids.len());
    }
}

/// The key of a record is written with the context kept orderly and the
/// identifiers sound, and the table it refers to has a name from then on.
pub proof fn lemma_key_written(
    key: KeyModel,
    ctx: ContextModel,
    pending: Set<Seq<char>>,
    lo: int,
    hi: int,
)
    requires
        orderly(ctx, pending),
        sound(ctx, lo, hi),
        hi <= ctx.ids.len(),
    ensures
        orderly(key_written(key, ctx).1, pending),
        sound(key_written(key, ctx).1, lo, hi),
        extends(ctx.declarations, key_written(key, ctx).1.declarations),
        ids_extend(ctx.ids, key_written(key, ctx).1.ids),
        covers(key_written(key, ctx).1.ids, key_referenced(key)),
{
    if let KeyModel::Id(table) = key {
        lemma_id_written(table, ctx, pending, lo, hi);
    }
}

/// Hoisting a type keeps the context orderly and the identifiers sound,
/// keeps the declarations made before it where they are, and leaves every
/// table that the type refers to with a name for its identifier.
pub proof fn lemma_hoisted(
    t: TypeModel,
    path: Seq<char>,
    ctx: ContextModel,
    pending: Set<Seq<char>>,
    lo: int,
    hi: int,
)
    requires
        orderly(ctx, pending),
        sound(ctx, lo, hi),
        hi <= ctx.ids.len(),
    ensures
        orderly(hoisted(t, path, ctx).1, pending),
        sound(hoisted(t, path, ctx).1, lo, hi),
        extends(ctx.declarations, hoisted(t, path, ctx).1.declarations),
        ids_extend(ctx.ids, hoisted(t, path, ctx).1.ids),
        covers(hoisted(t, path, ctx).1.ids, referenced(t)),
    decreases t, 0int,
{
    match t {
        TypeModel::Scalar(_) => {},
        TypeModel::Literal(_) => {},
        TypeModel::Id(table) => {
            lemma_id_written(table, ctx, pending, lo, hi);
        },
        TypeModel::Optional(inner) => {
            lemma_hoisted(*inner, path, ctx, pending, lo, hi);
        },
        TypeModel::Array(element) => {
            lemma_hoisted(*element, path, ctx, pending, lo, hi);
        },
        TypeModel::Object(fields) => {
            let name = fresh_name(ctx.used, path);
            lemma_fresh_is_new(ctx.used, path);
            lemma_reserve(ctx, pending, name);
            lemma_reserve_sound(ctx, name, lo, hi);
            let held = pending.insert(name);
            let none = Seq::<Seq<char>>::empty();
            let (members, after) = hoisted_fields(fields, 0, name, reserve(ctx, name), none);
            lemma_hoisted_fields(fields, 0, name, reserve(ctx, name), none, held, lo, hi);
            let declaration = NamedModel { name, body: BodyModel::Record(members) };
            lemma_declare(after, held, declaration);
            lemma_declare_sound(after, declaration, lo, hi);
            assert(held.remove(name) =~= pending);
        },
        TypeModel::Union(variants) => {
            let name = fresh_name(ctx.used, path);
            lemma_fresh_is_new(ctx.used, path);
            lemma_reserve(ctx, pending, name);
            lemma_reserve_sound(ctx, name, lo, hi);
            let held = pending.insert(name);
            assert(held.remove(name) =~= pending);
            if all_constants(variants) {
                let declaration = NamedModel {
                    name,
                    body: BodyModel::Constants(constant_names(variants, 0, Seq::empty())),
                };
                lemma_declare(reserve(ctx, name), held, declaration);
                lemma_declare_sound(reserve(ctx, name), declaration, lo, hi);
                lemma_constants_refer_to_nothing(variants, 0);
            } else {
                let (refs, after) = hoisted_variants(variants, 0, name, reserve(ctx, name));
                lemma_hoisted_variants(variants, 0, name, reserve(ctx, name), held, lo, hi);
                let declaration = NamedModel { name, body: BodyModel::Sum(refs) };
                lemma_declare(after, held, declaration);
                lemma_declare_sound(after, declaration, lo, hi);
            }
        },
        TypeModel::Record(key, value) => {
            let name = fresh_name(ctx.used, path);
            lemma_fresh_is_new(ctx.used, path);
            lemma_reserve(ctx, pending, name);
            lemma_reserve_sound(ctx, name, lo, hi);
            let held = pending.insert(name);
            assert(held.remove(name) =~= pending);
            let (k, keyed) = key_written(key, reserve(ctx, name));
            lemma_key_written(key, reserve(ctx, name), held, lo, hi);
            let (r, after) = hoisted(*value, name + "Value"@, keyed);
            lemma_hoisted(*value, name + "Value"@, keyed, held, lo, hi);
            let declaration = NamedModel { name, body: BodyModel::Mapping(k, r) };
            lemma_declare(after, held, declaration);
            lemma_declare_sound(after, declaration, lo, hi);
            lemma_covers_stays(keyed.ids, after.ids, key_referenced(key));
            lemma_covers_both(after.ids, key_referenced(key), referenced(*value));
        },
    }
}

/// Fixed values refer to no table.
pub proof fn lemma_constants_refer_to_nothing(variants: Seq<TypeModel>, from: int)
    requires
        all_constants(variants),
        0 <= from <= variants.len(),
    ensures
        types_referenced(variants, from) == Seq::<Seq<char>>::empty(),
    decreases variants.len() - from,
{
    if from < variants.len() {
        lemma_constants_refer_to_nothing(variants, from + 1);
        assert(variants[from] is Literal);
        assert(referenced(variants[from]) + types_referenced(variants, from + 1) =~= Seq::<
            Seq<char>,
        >::empty());
    }
}

/// Hoisting the fields of a type keeps the context orderly and the
/// identifiers sound, keeps the declarations made before where they are,
/// makes one member for each field, and leaves every table that the fields
/// refer to with a name for its identifier.
pub proof fn lemma_hoisted_fields(
    fields: Seq<FieldModel>,
    from: int,
    owner: Seq<char>,
    ctx: ContextModel,
    taken: Seq<Seq<char>>,
    pending: Set<Seq<char>>,
    lo: int,
    hi: int,
)
    requires
        0 <= from <= fields.len(),
        orderly(ctx, pending),
        sound(ctx, lo, hi),
        hi <= ctx.ids.len(),
    ensures
        hoisted_fields(fields, from, owner, ctx, taken).0.len() == fields.len() - from,
        orderly(hoisted_fields(fields, from, owner, ctx, taken).1, pending),
        sound(hoisted_fields(fields, from, owner, ctx, taken).1, lo, hi),
        extends(ctx.declarations, hoisted_fields(fields, from, owner, ctx, taken).1.declarations),
        ids_extend(ctx.ids, hoisted_fields(fields, from, owner, ctx, taken).1.ids),
        covers(
            hoisted_fields(fields, from, owner, ctx, taken).1.ids,
            fields_referenced(fields, from),
        ),
    decreases fields, fields.len() - from,
{
    if from < fields.len() {
        let path = owner + pascal(fields[from].name);
        let (r, after) = hoisted(fields[from].ty, path, ctx);
        lemma_hoisted(fields[from].ty, path, ctx, pending, lo, hi);
        let name = fresh_name(taken, member_name(fields[from].name));
        lemma_hoisted_fields(fields, from + 1, owner, after, taken.push(name), pending, lo, hi);
        let last = hoisted_fields(fields, from + 1, owner, after, taken.push(name)).1;
        lemma_covers_stays(after.ids, last.ids, referenced(fields[from].ty));
        lemma_covers_both(
            last.ids,
            referenced(fields[from].ty),
            fields_referenced(fields, from + 1),
        );
    }
}

/// Hoisting the variants of a union keeps the context orderly and the
/// identifiers sound, keeps the declarations made before where they are,
/// and leaves every table that the variants refer to with a name for its
/// identifier.
pub proof fn lemma_hoisted_variants(
    variants: Seq<TypeModel>,
    from: int,
    owner: Seq<char>,
    ctx: ContextModel,
    pending: Set<Seq<char>>,
    lo: int,
    hi: int,
)
    requires
        0 <= from <= variants.len(),
        orderly(ctx, pending),
        sound(ctx, lo, hi),
        hi <= ctx.ids.len(),
    ensures
        hoisted_variants(variants, from, owner, ctx).0.len() == variants.len() - from,
        orderly(hoisted_variants(variants, from, owner, ctx).1, pending),
        sound(hoisted_variants(variants, from, owner, ctx).1, lo, hi),
        extends(ctx.declarations, hoisted_variants(variants, from, owner, ctx).1.declarations),
        ids_extend(ctx.ids, hoisted_variants(variants, from, owner, ctx).1.ids),
        covers(hoisted_variants(variants, from, owner, ctx).1.ids, types_referenced(variants, from)),
    decreases variants, variants.len() - from,
{
    if from < variants.len() {
        let path = owner + "Variant"@ + decimal((from + 1) as nat);
        let (r, after) = hoisted(variants[from], path, ctx);
        lemma_hoisted(variants[from], path, ctx, pending, lo, hi);
        lemma_hoisted_variants(variants, from + 1, owner, after, pending, lo, hi);
        let last = hoisted_variants(variants, from + 1, owner, after).1;
        lemma_covers_stays(after.ids, last.ids, referenced(variants[from]));
        lemma_covers_both(last.ids, referenced(variants[from]), types_referenced(variants, from + 1));
    }
}

/// The identifier of a table is written by a name, whatever the context,
/// and that name is the one the table has from then on.
pub proof fn lemma_id_is_named(table: Seq<char>, path: Seq<char>, ctx: ContextModel)
    ensures
        hoisted(TypeModel::Id(table), path, ctx).0 is Name,
        known_id(hoisted(TypeModel::Id(table), path, ctx).1.ids, table) == Some(
            hoisted(TypeModel::Id(table), path, ctx).0->Name_0,
        ),
{
    lemma_id_position(ctx.ids, table, 0);
    if known_id(ctx.ids, table) is None {
        let name = fresh_name(ctx.used, declared_name(table) + "Id"@);
        let after = identified(ctx, table, name);
        lemma_id_position(after.ids, table, 0);
        let at = id_position(after.ids, table, 0);
        assert(after.ids[ctx.ids.len() as int] == IdNameModel { table, id: name });
        if at < ctx.ids.len() {
            assert(after.ids[at] == ctx.ids[at]);
        }
        assert(at == ctx.ids.len());
    }
}

/// Two different tables have identifiers of different names.
pub proof fn lemma_different_tables(ctx: ContextModel, lo: int, hi: int, a: Seq<char>, b: Seq<char>)
    requires
        sound(ctx, lo, hi),
        known_id(ctx.ids, a) is Some,
        known_id(ctx.ids, b) is Some,
        a != b,
    ensures
        known_id(ctx.ids, a) != known_id(ctx.ids, b),
{
    lemma_id_position(ctx.ids, a, 0);
    lemma_id_position(ctx.ids, b, 0);
}

/// An object is written by a fresh name, and a record of that name with
/// one member for each field of the object is the last declaration made
/// for it.
pub proof fn lemma_object_declared(fields: Seq<FieldModel>, path: Seq<char>, ctx: ContextModel)
    ensures
        hoisted(TypeModel::Object(fields), path, ctx).0 == RefModel::Name(
            fresh_name(ctx.used, path),
        ),
        !ctx.used.contains(fresh_name(ctx.used, path)),
        has_record(
            hoisted(TypeModel::Object(fields), path, ctx).1.declarations,
            fresh_name(ctx.used, path),
            fields.len(),
        ),
{
    let name = fresh_name(ctx.used, path);
    lemma_fresh_is_new(ctx.used, path);
    let none = Seq::<Seq<char>>::empty();
    lemma_members_count(fields, 0, name, reserve(ctx, name), none);
    let (members, after) = hoisted_fields(fields, 0, name, reserve(ctx, name), none);
    let out = hoisted(TypeModel::Object(fields), path, ctx).1;
    assert(out.declarations[after.declarations.len() as int] == NamedModel {
        name,
        body: BodyModel::Record(members),
    });
}

/// An object that is hoisted beside a record that is already declared gets
/// a name of its own: both records are among the declarations afterwards,
/// under different names, and the object is written by the name of its own.
pub proof fn lemma_object_beside(
    fields: Seq<FieldModel>,
    path: Seq<char>,
    ctx: ContextModel,
    pending: Set<Seq<char>>,
    lo: int,
    hi: int,
    other: Seq<char>,
    count: nat,
)
    requires
        orderly(ctx, pending),
        sound(ctx, lo, hi),
        hi <= ctx.ids.len(),
        has_record(ctx.declarations, other, count),
    ensures
        hoisted(TypeModel::Object(fields), path, ctx).0 == RefModel::Name(
            fresh_name(ctx.used, path),
        ),
        fresh_name(ctx.used, path) != other,
        has_record(hoisted(TypeModel::Object(fields), path, ctx).1.declarations, other, count),
        has_record(
            hoisted(TypeModel::Object(fields), path, ctx).1.declarations,
            fresh_name(ctx.used, path),
            fields.len(),
        ),
{
    let t = TypeModel::Object(fields);
    lemma_object_declared(fields, path, ctx);
    lemma_hoisted(t, path, ctx, pending, lo, hi);
    lemma_record_stays(ctx.declarations, hoisted(t, path, ctx).1.declarations, other, count);
    let k = choose|k: int|
        0 <= k < ctx.declarations.len() && (#[trigger] ctx.declarations[k]).name == other && (
        ctx.declarations[k].body matches BodyModel::Record(members) && members.len() == count);
    assert(ctx.used.contains(ctx.declarations[k].name));
}

/// One member is made for each field.
pub proof fn lemma_members_count(
    fields: Seq<FieldModel>,
    from: int,
    owner: Seq<char>,
    ctx: ContextModel,
    taken: Seq<Seq<char>>,
)
    requires
        0 <= from <= fields.len(),
    ensures
        hoisted_fields(fields, from, owner, ctx, taken).0.len() == fields.len() - from,
    decreases fields.len() - from,
{
    if from < fields.len() {
        let (r, after) = hoisted(fields[from].ty, owner + pascal(fields[from].name), ctx);
        let name = fresh_name(taken, member_name(fields[from].name));
        lemma_members_count(fields, from + 1, owner, after, taken.push(name));
    }
}

/// The members made for the fields of a type have names that differ from
/// each other and from the names taken before them.
pub proof fn lemma_member_names(
    fields: Seq<FieldModel>,
    from: int,
    owner: Seq<char>,
    ctx: ContextModel,
    taken: Seq<Seq<char>>,
)
    requires
        0 <= from <= fields.len(),
    ensures
        member_names(hoisted_fields(fields, from, owner, ctx, taken).0).no_duplicates(),
        forall|i: int|
            0 <= i < hoisted_fields(fields, from, owner, ctx, taken).0.len() ==> !taken.contains(
                (#[trigger] hoisted_fields(fields, from, owner, ctx, taken).0[i]).name,
            ),
    decreases fields.len() - from,
{
    if from < fields.len() {
        let path = owner + pascal(fields[from].name);
        let (r, after) = hoisted(fields[from].ty, path, ctx);
        let name = fresh_name(taken, member_name(fields[from].name));
        lemma_fresh_is_new(taken, member_name(fields[from].name));
        let later = taken.push(name);
        lemma_member_names(fields, from + 1, owner, after, later);
        let rest = hoisted_fields(fields, from + 1, owner, after, later).0;
        let all = hoisted_fields(fields, from, owner, ctx, taken).0;
        assert(all == seq![MemberModel { name, ty: r }] + rest);
        assert(later[taken.len() as int] == name);
        assert forall|i: int| 0 <= i < all.len() implies !taken.contains(
            (#[trigger] all[i]).name,
        ) by {
            if i > 0 {
                assert(all[i] == rest[i - 1]);
                assert(!later.contains(rest[i - 1].name));
                if taken.contains(rest[i - 1].name) {
                    lemma_contains_pushed(taken, name, rest[i - 1].name);
                }
            }
        }
        let names = member_names(all);
        assert forall|i: int, j: int| 0 <= i < names.len() && 0 <= j < names.len() && i
            != j implies names[i] != names[j] by {
            let rest_names = member_names(rest);
            if i > 0 && j > 0 {
                assert(all[i] == rest[i - 1] && all[j] == rest[j - 1]);
                assert(rest_names[i - 1] != rest_names[j - 1]);
            } else {
                let other = if i > 0 {
                    i
                } else {
                    j
                };
                assert(all[other] == rest[other - 1]);
                assert(!later.contains(rest[other - 1].name));
            }
        }
    }
}

/// A list of different names stays one when a new name is put behind it.
pub proof fn lemma_push_new(names: Seq<Seq<char>>, name: Seq<char>)
    requires
        names.no_duplicates(),
        !names.contains(name),
    ensures
        names.push(name).no_duplicates(),
{
    let longer = names.push(name);
    assert forall|i: int, j: int| 0 <= i < longer.len() && 0 <= j < longer.len() && i
        != j implies longer[i] != longer[j] by {
        if i < names.len() {
            assert(names[i] == longer[i]);
        }
        if j < names.len() {
            assert(names[j] == longer[j]);
        }
    }
}

/// Where the names set aside for the tables stand among the names in use:
/// behind those that were in use before, the record and the identifier of
/// each table in turn; and all names in use are different.
pub proof fn lemma_reserved_tables(tables: Seq<TableModel>, from: int, used: Seq<Seq<char>>)
    requires
        0 <= from <= tables.len(),
        used.no_duplicates(),
    ensures
        ({
            let (names, all) = reserved_tables(tables, from, used);
            &&& names.len() == tables.len() - from
            &&& all.len() == used.len() + 2 * names.len()
            &&& all.no_duplicates()
            &&& forall|k: int| 0 <= k < used.len() ==> #[trigger] all[k] == used[k]
            &&& forall|i: int|
                0 <= i < names.len() ==> all[used.len() + 2 * i] == (#[trigger] names[i]).record
                    && all[used.len() + 2 * i + 1] == names[i].id
        }),
    decreases tables.len() - from,
{
    if from < tables.len() {
        let record = fresh_name(used, declared_name(tables[from].name));
        lemma_fresh_is_new(used, declared_name(tables[from].name));
        lemma_push_new(used, record);
        let id = fresh_name(used.push(record), record + "Id"@);
        lemma_fresh_is_new(used.push(record), record + "Id"@);
        lemma_push_new(used.push(record), id);
        let later = used.push(record).push(id);
        lemma_reserved_tables(tables, from + 1, later);
        let (rest, all) = reserved_tables(tables, from + 1, later);
        let (names, same) = reserved_tables(tables, from, used);
        assert(same == all);
        assert(names.len() == rest.len() + 1);
        assert forall|k: int| 0 <= k < used.len() implies #[trigger] all[k] == used[k] by {
            assert(all[k] == later[k]);
        }
        assert forall|i: int| 0 <= i < names.len() implies all[used.len() + 2 * i] == (
        #[trigger] names[i]).record && all[used.len() + 2 * i + 1] == names[i].id by {
            if i == 0 {
                assert(all[used.len() as int] == later[used.len() as int]);
                assert(all[used.len() as int + 1] == later[used.len() as int + 1]);
            } else {
                assert(names[i] == rest[i - 1]);
                assert(later.len() + 2 * (i - 1) == used.len() + 2 * i);
            }
        }
    }
}

/// Where the names set aside for the functions stand among the names in
/// use: behind those that were in use before, one for each function in
/// turn; and all names in use are different.
pub proof fn lemma_reserved_functions(
    functions: Seq<ArgSetModel>,
    from: int,
    used: Seq<Seq<char>>,
)
    requires
        0 <= from <= functions.len(),
        used.no_duplicates(),
    ensures
        ({
            let (names, all) = reserved_functions(functions, from, used);
            &&& names.len() == functions.len() - from
            &&& all.len() == used.len() + names.len()
            &&& all.no_duplicates()
            &&& forall|k: int| 0 <= k < used.len() ==> #[trigger] all[k] == used[k]
            &&& forall|j: int| 0 <= j < names.len() ==> all[used.len() + j] == #[trigger] names[j]
        }),
    decreases functions.len() - from,
{
    if from < functions.len() {
        let base = declared_name(functions[from].function_name) + "Args"@;
        let name = fresh_name(used, base);
        lemma_fresh_is_new(used, base);
        lemma_push_new(used, name);
        let later = used.push(name);
        lemma_reserved_functions(functions, from + 1, later);
        let (rest, all) = reserved_functions(functions, from + 1, later);
        let (names, same) = reserved_functions(functions, from, used);
        assert(same == all);
        assert(names.len() == rest.len() + 1);
        assert forall|k: int| 0 <= k < used.len() implies #[trigger] all[k] == used[k] by {
            assert(all[k] == later[k]);
        }
        assert forall|j: int| 0 <= j < names.len() implies all[used.len() + j]
            == #[trigger] names[j] by {
            if j == 0 {
                assert(all[used.len() as int] == later[used.len() as int]);
            } else {
                assert(names[j] == rest[j - 1]);
                assert(later.len() + (j - 1) == used.len() + j);
            }
        }
    }
}

/// The names of `all` from position `from` on.
pub open spec fn pending_from(all: Seq<Seq<char>>, from: int) -> Set<Seq<char>> {
    Set::new(|name: Seq<char>| exists|k: int| from <= k < all.len() && #[trigger] all[k] == name)
}

/// Leaving out the first of the names from a position on leaves the names
/// from the next position on.
pub proof fn lemma_pending_step(all: Seq<Seq<char>>, from: int)
    requires
        0 <= from < all.len(),
        all.no_duplicates(),
    ensures
        pending_from(all, from).contains(all[from]),
        pending_from(all, from).remove(all[from]) =~= pending_from(all, from + 1),
{
    let whole = pending_from(all, from);
    let less = pending_from(all, from + 1);
    assert forall|name: Seq<char>| whole.remove(all[from]).contains(name) <==> less.contains(
        name,
    ) by {
        if whole.contains(name) && name != all[from] {
            let k = choose|k: int| from <= k < all.len() && #[trigger] all[k] == name;
            assert(from + 1 <= k);
        }
        if less.contains(name) {
            let k = choose|k: int| from + 1 <= k < all.len() && #[trigger] all[k] == name;
            assert(all[k] != all[from]);
        }
    }
}

/// The names of the tables that the arguments of the functions from
/// position `from` on refer to.
pub open spec fn functions_referenced(functions: Seq<ArgSetModel>, from: int) -> Seq<Seq<char>>
    decreases functions.len() - from,
{
    if from < 0 || from >= functions.len() {
        Seq::empty()
    } else {
        fields_referenced(args_fields(functions[from].args_type), 0) + functions_referenced(
            functions,
            from + 1,
        )
    }
}

/// Declaring the tables from position `from` on keeps the context orderly,
/// declares the identifier of each and, under the name set aside for it, a
/// record with one member for each field of the table, and leaves every
/// table that they refer to with a name for its identifier.
pub proof fn lemma_tables_declared(
    tables: Seq<TableModel>,
    from: int,
    reserved: Seq<TableNamesModel>,
    ctx: ContextModel,
    all: Seq<Seq<char>>,
    base: int,
)
    requires
        0 <= from <= tables.len(),
        tables.len() == reserved.len(),
        all.no_duplicates(),
        0 <= base,
        base + 2 * tables.len() <= all.len(),
        forall|i: int|
            0 <= i < reserved.len() ==> all[base + 2 * i] == (#[trigger] reserved[i]).record
                && all[base + 2 * i + 1] == reserved[i].id,
        orderly(ctx, pending_from(all, base + 2 * from)),
        sound(ctx, from, tables.len() as int),
        ids_extend(table_ids(reserved), ctx.ids),
        closed(ctx, pending_from(all, base + 2 * from)),
        awaited(ctx, pending_from(all, base + 2 * from), from, tables.len() as int),
    ensures
        orderly(
            tables_declared(tables, from, reserved, ctx),
            pending_from(all, base + 2 * (tables.len() as int)),
        ),
        closed(
            tables_declared(tables, from, reserved, ctx),
            pending_from(all, base + 2 * (tables.len() as int)),
        ),
        sound(tables_declared(tables, from, reserved, ctx), 0, 0),
        extends(ctx.declarations, tables_declared(tables, from, reserved, ctx).declarations),
        ids_extend(ctx.ids, tables_declared(tables, from, reserved, ctx).ids),
        covers(tables_declared(tables, from, reserved, ctx).ids, tables_referenced(tables, from)),
        forall|i: int|
            from <= i < tables.len() ==> has_record(
                tables_declared(tables, from, reserved, ctx).declarations,
                (#[trigger] reserved[i]).record,
                tables[i].fields.len(),
            ),
    decreases tables.len() - from,
{
    let count = tables.len() as int;
    if from < tables.len() {
        let names = reserved[from];
        let table = tables[from];
        assert(all[base + 2 * from] == names.record && all[base + 2 * from + 1] == names.id);
        assert(ctx.ids[from] == table_ids(reserved)[from]);
        // The record's name stands first and is declared last.
        let both = pending_from(all, base + 2 * from);
        assert(both.contains(names.id)) by {
            assert(all[base + 2 * from + 1] == names.id);
        }
        let identifier = NamedModel { name: names.id, body: BodyModel::Identifier };
        lemma_declare(ctx, both, identifier);
        lemma_declare_sound(ctx, identifier, from, count);
        let with_id = declare(ctx, identifier);
        assert(sound(with_id, from + 1, count)) by {
            assert(with_id.declarations[ctx.declarations.len() as int] == identifier);
            assert(has_identifier(with_id.declarations, with_id.ids[from].id));
        }
        let held = both.remove(names.id);
        lemma_declare_closed(ctx, both, identifier);
        assert(awaited(with_id, held, from + 1, count)) by {
            assert forall|k: int| from + 1 <= k < count && 0 <= k < with_id.ids.len() implies held.contains(
                (#[trigger] with_id.ids[k]).id,
            ) by {
                assert(both.contains(ctx.ids[k].id));
                assert(ctx.ids[k].id != ctx.ids[from].id);
            }
        }
        let none = Seq::<Seq<char>>::empty();
        lemma_hoisted_fields(table.fields, 0, names.record, with_id, none, held, from + 1, count);
        lemma_fields_closed(table.fields, 0, names.record, with_id, none, held, from + 1, count);
        let (members, after) = hoisted_fields(table.fields, 0, names.record, with_id, none);
        assert(held.contains(names.record)) by {
            lemma_pending_step(all, base + 2 * from);
        }
        let record = NamedModel { name: names.record, body: BodyModel::Record(members) };
        lemma_declare(after, held, record);
        lemma_declare_sound(after, record, from + 1, count);
        lemma_declare_closed(after, held, record);
        let done = declare(after, record);
        assert(done == table_declared(table, names, ctx));
        let next = pending_from(all, base + 2 * (from + 1));
        assert(held.remove(names.record) =~= next) by {
            lemma_pending_step(all, base + 2 * from);
            lemma_pending_step(all, base + 2 * from + 1);
            assert(both.remove(names.id).remove(names.record) =~= both.remove(
                names.record,
            ).remove(names.id));
        }
        assert(awaited(done, next, from + 1, count)) by {
            assert forall|k: int| from + 1 <= k < count && 0 <= k < done.ids.len() implies next.contains(
                (#[trigger] done.ids[k]).id,
            ) by {
                assert(done.ids[k] == table_ids(reserved)[k]) by {
                    assert(with_id.ids[k] == ctx.ids[k]);
                    assert(after.ids[k] == with_id.ids[k]);
                }
                assert(all[base + 2 * k + 1] == reserved[k].id);
            }
        }
        lemma_tables_declared(tables, from + 1, reserved, done, all, base);
        let out = tables_declared(tables, from, reserved, ctx);
        assert(out == tables_declared(tables, from + 1, reserved, done));
        assert(has_record(done.declarations, names.record, table.fields.len())) by {
            assert(done.declarations[after.declarations.len() as int] == record);
        }
        lemma_record_stays(done.declarations, out.declarations, names.record, table.fields.len());
        lemma_covers_stays(done.ids, out.ids, fields_referenced(table.fields, 0));
        lemma_covers_both(
            out.ids,
            fields_referenced(table.fields, 0),
            tables_referenced(tables, from + 1),
        );
    } else {
        assert(sound(ctx, 0, 0));
    }
}

/// Declaring the arguments of the functions from position `from` on keeps
/// the context orderly, declares for each a record under the name set aside
/// for it, with one member for each field of the arguments, and leaves
/// every table that they refer to with a name for its identifier.
pub proof fn lemma_functions_declared(
    functions: Seq<ArgSetModel>,
    from: int,
    names: Seq<Seq<char>>,
    ctx: ContextModel,
    all: Seq<Seq<char>>,
    base: int,
)
    requires
        0 <= from <= functions.len(),
        functions.len() == names.len(),
        all.no_duplicates(),
        0 <= base,
        base + functions.len() <= all.len(),
        forall|j: int| 0 <= j < names.len() ==> all[base + j] == #[trigger] names[j],
        orderly(ctx, pending_from(all, base + from)),
        sound(ctx, 0, 0),
        closed(ctx, pending_from(all, base + from)),
    ensures
        orderly(
            functions_declared(functions, from, names, ctx),
            pending_from(all, base + functions.len()),
        ),
        closed(
            functions_declared(functions, from, names, ctx),
            pending_from(all, base + functions.len()),
        ),
        sound(functions_declared(functions, from, names, ctx), 0, 0),
        extends(ctx.declarations, functions_declared(functions, from, names, ctx).declarations),
        ids_extend(ctx.ids, functions_declared(functions, from, names, ctx).ids),
        covers(
            functions_declared(functions, from, names, ctx).ids,
            functions_referenced(functions, from),
        ),
        forall|j: int|
            from <= j < functions.len() ==> has_record(
                functions_declared(functions, from, names, ctx).declarations,
                #[trigger] names[j],
                args_fields(functions[j].args_type).len(),
            ),
    decreases functions.len() - from,
{
    if from < functions.len() {
        let name = names[from];
        assert(all[base + from] == name);
        let held = pending_from(all, base + from);
        let fields = args_fields(functions[from].args_type);
        let none = Seq::<Seq<char>>::empty();
        lemma_hoisted_fields(fields, 0, name, ctx, none, held, 0, 0);
        lemma_fields_closed(fields, 0, name, ctx, none, held, 0, 0);
        let (members, after) = hoisted_fields(fields, 0, name, ctx, none);
        lemma_pending_step(all, base + from);
        let record = NamedModel { name, body: BodyModel::Record(members) };
        lemma_declare(after, held, record);
        lemma_declare_sound(after, record, 0, 0);
        lemma_declare_closed(after, held, record);
        let done = declare(after, record);
        assert(done == function_declared(functions[from], name, ctx));
        lemma_functions_declared(functions, from + 1, names, done, all, base);
        let out = functions_declared(functions, from, names, ctx);
        assert(out == functions_declared(functions, from + 1, names, done));
        assert(has_record(done.declarations, name, fields.len())) by {
            assert(done.declarations[after.declarations.len() as int] == record);
        }
        lemma_record_stays(done.declarations, out.declarations, name, fields.len());
        lemma_covers_stays(done.ids, out.ids, fields_referenced(fields, 0));
        lemma_covers_both(
            out.ids,
            fields_referenced(fields, 0),
            functions_referenced(functions, from + 1),
        );
    }
}

/// What holds of the declarations that are generated.
///
/// No two of them have the same name. For each table there is a record
/// under the name set aside for it that has one member for each field of
/// the table, and for each function a record with one member for each field
/// of its arguments. Every table that the schema or the arguments of a
/// function refer to, declared or not, has a name for its identifier; every
/// such name is that of a declared identifier, and no two tables share one.
/// Every name that a declaration is written with is the name of a
/// declaration.
pub proof fn lemma_generated_declarations(tables: Seq<TableModel>, functions: Seq<ArgSetModel>)
    ensures
        declared_names(generated_declarations(tables, functions)).no_duplicates(),
        forall|i: int|
            0 <= i < tables.len() ==> has_record(
                generated_declarations(tables, functions),
                (#[trigger] reserved_tables(tables, 0, builtin_names()).0[i]).record,
                tables[i].fields.len(),
            ),
        forall|j: int|
            0 <= j < functions.len() ==> has_record(
                generated_declarations(tables, functions),
                #[trigger] reserved_functions(
                    functions,
                    0,
                    reserved_tables(tables, 0, builtin_names()).1,
                ).0[j],
                args_fields(functions[j].args_type).len(),
            ),
        sound(generated_context(tables, functions), 0, 0),
        covers(generated_context(tables, functions).ids, tables_referenced(tables, 0)),
        covers(generated_context(tables, functions).ids, functions_referenced(functions, 0)),
        closed(generated_context(tables, functions), Set::empty()),
{
    let given = builtin_names();
    assert(given.no_duplicates()) by {
        reveal_strlit("String");
        reveal_strlit("Option");
        reveal_strlit("Vec");
        reveal_strlit("Self");
        assert("String"@[1] == 't' && "Option"@[1] == 'p' && "Vec"@.len() == 3 && "Self"@.len()
            == 4 && "String"@.len() == 6 && "Option"@.len() == 6);
    }
    lemma_reserved_tables(tables, 0, given);
    let (reserved, used) = reserved_tables(tables, 0, given);
    lemma_reserved_functions(functions, 0, used);
    let (names, all) = reserved_functions(functions, 0, used);
    let count = tables.len() as int;
    let start = ContextModel { used: all, declarations: Seq::empty(), ids: table_ids(reserved) };
    assert forall|i: int| 0 <= i < reserved.len() implies all[4 + 2 * i] == (
    #[trigger] reserved[i]).record && all[4 + 2 * i + 1] == reserved[i].id by {
        assert(used[4 + 2 * i] == reserved[i].record && used[4 + 2 * i + 1] == reserved[i].id);
    }
    assert(orderly(start, pending_from(all, 4)));
    assert(sound(start, 0, count)) by {
        assert forall|k: int| 0 <= k < start.ids.len() implies start.ids[k].id == all[4 + 2 * k
            + 1] by {
            assert(start.ids[k].id == reserved[k].id);
        }
    }
    assert(awaited(start, pending_from(all, 4), 0, count)) by {
        assert forall|k: int| 0 <= k < count && 0 <= k < start.ids.len() implies pending_from(
            all,
            4,
        ).contains((#[trigger] start.ids[k]).id) by {
            assert(all[4 + 2 * k + 1] == reserved[k].id);
        }
    }
    lemma_tables_declared(tables, 0, reserved, start, all, 4);
    let ctx = tables_declared(tables, 0, reserved, start);
    lemma_functions_declared(functions, 0, names, ctx, all, 4 + 2 * count);
    let out = functions_declared(functions, 0, names, ctx);
    assert(out == generated_context(tables, functions));
    assert(pending_from(all, 4 + 2 * count + functions.len()) =~= Set::<Seq<char>>::empty());
    assert forall|i: int| 0 <= i < tables.len() implies has_record(
        out.declarations,
        (#[trigger] reserved[i]).record,
        tables[i].fields.len(),
    ) by {
        lemma_record_stays(
            ctx.declarations,
            out.declarations,
            reserved[i].record,
            tables[i].fields.len(),
        );
    }
    lemma_covers_stays(ctx.ids, out.ids, tables_referenced(tables, 0));
}

} // verus!
