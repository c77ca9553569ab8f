use vstd::prelude::*;

use crate::declarations::{BodyModel, MemberModel, NamedModel, RefModel};
use crate::hoist::{
    all_constants, constant_names, declare, hoisted, hoisted_fields, hoisted_variants, id_position,
    id_written, identified, key_written, known_id, reserve, ContextModel,
};
use crate::names::{fresh_name, lemma_fresh_is_new};
use crate::text::{decimal, declared_name, member_name, pascal};
use crate::types::{FieldModel, KeyModel, TypeModel};
use crate::unique::{
    declared_names, extends, has_identifier, lemma_hoisted, lemma_hoisted_fields,
    lemma_hoisted_variants, lemma_id_position, lemma_key_written, lemma_reserve,
    lemma_reserve_sound, orderly, sound,
};

verus! {

/// The name of the declared type that a type is written with, if it is
/// written with one.
pub open spec fn written_name(r: RefModel) -> Option<Seq<char>>
    decreases r,
{
    match r {
        RefModel::Scalar(_) => None,
        RefModel::Name(name) => Some(name),
        RefModel::Optional(inner) => written_name(*inner),
        RefModel::Array(element) => written_name(*element),
    }
}

/// Whether a name is that of a declaration, or of one that is still to
/// come.
pub open spec fn known_name(ctx: ContextModel, pending: Set<Seq<char>>, name: Seq<char>) -> bool {
    declared_names(ctx.declarations).contains(name) || pending.contains(name)
}

/// Whether the name that a type is written with is known.
pub open spec fn resolved(r: RefModel, ctx: ContextModel, pending: Set<Seq<char>>) -> bool {
    written_name(r) matches Some(name) ==> known_name(ctx, pending, name)
}

/// Whether every name in the body of a declaration is known.
pub open spec fn body_resolved(body: BodyModel, ctx: ContextModel, pending: Set<Seq<char>>) -> bool {
    match body {
        BodyModel::Record(members) => forall|i: int|
            0 <= i < members.len() ==> resolved((#[trigger] members[i]).ty, ctx, pending),
        BodyModel::Sum(variants) => forall|i: int|
            0 <= i < variants.len() ==> #[trigger] resolved(variants[i], ctx, pending),
        BodyModel::Mapping(key, value) => resolved(key, ctx, pending) && resolved(
            value,
            ctx,
            pending,
        ),
        BodyModel::Constants(_) => true,
        BodyModel::Identifier => true,
    }
}

/// Whether every name in the body of every declaration is known: no
/// declaration refers to a type that is neither declared nor still to come.
pub open spec fn closed(ctx: ContextModel, pending: Set<Seq<char>>) -> bool {
    forall|i: int|
        0 <= i < ctx.declarations.len() ==> body_resolved(
            (#[trigger] ctx.declarations[i]).body,
            ctx,
            pending,
        )
}

/// Whether the identifiers at the positions from `lo` up to `hi`, whose
/// declarations are still to come, have pending names.
pub open spec fn awaited(ctx: ContextModel, pending: Set<Seq<char>>, lo: int, hi: int) -> bool {
    forall|k: int|
        lo <= k < hi && 0 <= k < ctx.ids.len() ==> pending.contains((#[trigger] ctx.ids[k]).id)
}

/// Whether every name that is known in one context is known in a later
/// one.
pub open spec fn keeps(
    ctx: ContextModel,
    pending: Set<Seq<char>>,
    later: ContextModel,
    left: Set<Seq<char>>,
) -> bool {
    forall|name: Seq<char>| #[trigger]
        known_name(ctx, pending, name) ==> known_name(later, left, name)
}

/// A name that is declared is declared in every list that begins with the
/// declarations.
pub proof fn lemma_declared_stays(
    shorter: Seq<NamedModel>,
    longer: Seq<NamedModel>,
    name: Seq<char>,
)
    requires
        extends(shorter, longer),
        declared_names(shorter).contains(name),
    ensures
        declared_names(longer).contains(name),
{
    let at = choose|at: int|
        0 <= at < declared_names(shorter).len() && declared_names(shorter)[at] == name;
    assert(longer[at] == shorter[at]);
    assert(declared_names(longer)[at] == name);
}

/// Where the declarations only grow and every pending name stays pending
/// or gets declared, every known name stays known.
pub proof fn lemma_keeps(
    ctx: ContextModel,
    pending: Set<Seq<char>>,
    later: ContextModel,
    left: Set<Seq<char>>,
)
    requires
        extends(ctx.declarations, later.declarations),
        forall|name: Seq<char>| #[trigger]
            pending.contains(name) ==> left.contains(name) || declared_names(
                later.declarations,
            ).contains(name),
    ensures
        keeps(ctx, pending, later, left),
{
    assert forall|name: Seq<char>| #[trigger] known_name(ctx, pending, name) implies known_name(
        later,
        left,
        name,
    ) by {
        if declared_names(ctx.declarations).contains(name) {
            lemma_declared_stays(ctx.declarations, later.declarations, name);
        }
    }
}

/// A context whose old declarations were closed and whose new ones have
/// only known names in their bodies is closed.
pub proof fn lemma_closed_grows(
    ctx: ContextModel,
    pending: Set<Seq<char>>,
    later: ContextModel,
    left: Set<Seq<char>>,
)
    requires
        closed(ctx, pending),
        extends(ctx.declarations, later.declarations),
        keeps(ctx, pending, later, left),
        forall|i: int|
            ctx.declarations.len() <= i < later.declarations.len() ==> body_resolved(
                (#[trigger] later.declarations[i]).body,
                later,
                left,
            ),
    ensures
        closed(later, left),
{
    assert forall|i: int| 0 <= i < later.declarations.len() implies body_resolved(
        (#[trigger] later.declarations[i]).body,
        later,
        left,
    ) by {
        if i < ctx.declarations.len() {
            assert(later.declarations[i] == ctx.declarations[i]);
            let body = ctx.declarations[i].body;
            assert(body_resolved(body, ctx, pending));
            lemma_body_stays(body, ctx, pending, later, left);
        }
    }
}

/// A type that is written with a known name is written with a known name
/// in every later context.
pub proof fn lemma_resolved_stays(
    r: RefModel,
    ctx: ContextModel,
    pending: Set<Seq<char>>,
    later: ContextModel,
    left: Set<Seq<char>>,
)
    requires
        resolved(r, ctx, pending),
        keeps(ctx, pending, later, left),
    ensures
        resolved(r, later, left),
{
    if let Some(name) = written_name(r) {
        assert(known_name(ctx, pending, name));
    }
}

/// A body with known names only has known names only in every later
/// context.
pub proof fn lemma_body_stays(
    body: BodyModel,
    ctx: ContextModel,
    pending: Set<Seq<char>>,
    later: ContextModel,
    left: Set<Seq<char>>,
)
    requires
        body_resolved(body, ctx, pending),
        keeps(ctx, pending, later, left),
    ensures
        body_resolved(body, later, left),
{
    match body {
        BodyModel::Record(members) => {
            assert forall|i: int| 0 <= i < members.len() implies resolved(
                (#[trigger] members[i]).ty,
                later,
                left,
            ) by {
                lemma_resolved_stays(members[i].ty, ctx, pending, later, left);
            }
        },
        BodyModel::Sum(variants) => {
            assert forall|i: int| 0 <= i < variants.len() implies resolved(
                #[trigger] variants[i],
                later,
                left,
            ) by {
                lemma_resolved_stays(variants[i], ctx, pending, later, left);
            }
        },
        BodyModel::Mapping(key, value) => {
            lemma_resolved_stays(key, ctx, pending, later, left);
            lemma_resolved_stays(value, ctx, pending, later, left);
        },
        _ => {},
    }
}

/// Taking a name into use leaves a closed context closed.
pub proof fn lemma_reserve_closed(ctx: ContextModel, pending: Set<Seq<char>>, name: Seq<char>)
    requires
        closed(ctx, pending),
    ensures
        closed(reserve(ctx, name), pending.insert(name)),
        keeps(ctx, pending, reserve(ctx, name), pending.insert(name)),
{
    let later = reserve(ctx, name);
    lemma_keeps(ctx, pending, later, pending.insert(name));
    lemma_closed_grows(ctx, pending, later, pending.insert(name));
}

/// Declaring a pending name whose body has known names only leaves a
/// closed context closed, and the declared name known.
pub proof fn lemma_declare_closed(
    ctx: ContextModel,
    pending: Set<Seq<char>>,
    declaration: NamedModel,
)
    requires
        closed(ctx, pending),
        body_resolved(declaration.body, ctx, pending),
    ensures
        closed(declare(ctx, declaration), pending.remove(declaration.name)),
        keeps(ctx, pending, declare(ctx, declaration), pending.remove(declaration.name)),
        declared_names(declare(ctx, declaration).declarations).contains(declaration.name),
{
    let later = declare(ctx, declaration);
    let left = pending.remove(declaration.name);
    assert(declared_names(later.declarations)[ctx.declarations.len() as int] == declaration.name);
    lemma_keeps(ctx, pending, later, left);
    lemma_body_stays(declaration.body, ctx, pending, later, left);
    assert(later.declarations[ctx.declarations.len() as int] == declaration);
    lemma_closed_grows(ctx, pending, later, left);
}

/// The identifier of a table is written with a known name, and writing it
/// leaves a closed context closed.
pub proof fn lemma_id_closed(
    table: Seq<char>,
    ctx: ContextModel,
    pending: Set<Seq<char>>,
    lo: int,
    hi: int,
)
    requires
        orderly(ctx, pending),
        sound(ctx, lo, hi),
        hi <= ctx.ids.len(),
        closed(ctx, pending),
        awaited(ctx, pending, lo, hi),
    ensures
        closed(id_written(table, ctx).1, pending),
        keeps(ctx, pending, id_written(table, ctx).1, pending),
        resolved(id_written(table, ctx).0, id_written(table, ctx).1, pending),
        awaited(id_written(table, ctx).1, pending, lo, hi),
{
    lemma_id_position(ctx.ids, table, 0);
    let at = id_position(ctx.ids, table, 0);
    if known_id(ctx.ids, table) is Some {
        let name = ctx.ids[at].id;
        if !(lo <= at < hi) {
            assert(has_identifier(ctx.declarations, name));
            let k = choose|k: int|
                0 <= k < ctx.declarations.len() && (#[trigger] ctx.declarations[k]).name == name
                    && ctx.declarations[k].body is Identifier;
            assert(declared_names(ctx.declarations)[k] == name);
        }
        lemma_keeps(ctx, pending, ctx, pending);
    } else {
        let name = fresh_name(ctx.used, declared_name(table) + "Id"@);
        let after = identified(ctx, table, name);
        assert(extends(ctx.declarations, after.declarations));
        lemma_keeps(ctx, pending, after, pending);
        assert(after.declarations[ctx.declarations.len() as int] == NamedModel {
            name,
            body: BodyModel::Identifier,
        });
        lemma_closed_grows(ctx, pending, after, pending);
        assert(declared_names(after.declarations)[ctx.declarations.len() as int] == name);
        assert forall|k: int| lo <= k < hi && 0 <= k < after.ids.len() implies pending.contains(
            (#[trigger] after.ids[k]).id,
        ) by {
            assert(after.ids[k] == ctx.ids[k]);
        }
    }
}

/// Hoisting a type leaves a closed context closed, and the type is written
/// with a known name.
pub proof fn lemma_hoisted_closed(
    t: TypeModel,
    path: Seq<char>,
    ctx: ContextModel,
    pending: Set<Seq<char>>,
    lo: int,
    hi: int,
)
    requires
        orderly(ctx, pending),
        sound(ctx, lo, hi),
        hi <= ctx.ids.len(),
        closed(ctx, pending),
        awaited(ctx, pending, lo, hi),
    ensures
        closed(hoisted(t, path, ctx).1, pending),
        keeps(ctx, pending, hoisted(t, path, ctx).1, pending),
        resolved(hoisted(t, path, ctx).0, hoisted(t, path, ctx).1, pending),
        awaited(hoisted(t, path, ctx).1, pending, lo, hi),
    decreases t, 0int,
{
    match t {
        TypeModel::Scalar(_) => {
            lemma_keeps(ctx, pending, ctx, pending);
        },
        TypeModel::Literal(_) => {
            lemma_keeps(ctx, pending, ctx, pending);
        },
        TypeModel::Id(table) => {
            lemma_id_closed(table, ctx, pending, lo, hi);
        },
        TypeModel::Optional(inner) => {
            lemma_hoisted_closed(*inner, path, ctx, pending, lo, hi);
        },
        TypeModel::Array(element) => {
            lemma_hoisted_closed(*element, path, ctx, pending, lo, hi);
        },
        TypeModel::Object(fields) => {
            let name = fresh_name(ctx.used, path);
            lemma_fresh_is_new(ctx.used, path);
            let taken = reserve(ctx, name);
            let held = pending.insert(name);
            lemma_reserve(ctx, pending, name);
            lemma_reserve_sound(ctx, name, lo, hi);
            lemma_reserve_closed(ctx, pending, name);
            let none = Seq::<Seq<char>>::empty();
            let (members, after) = hoisted_fields(fields, 0, name, taken, none);
            lemma_hoisted_fields(fields, 0, name, taken, none, held, lo, hi);
            lemma_fields_closed(fields, 0, name, taken, none, held, lo, hi);
            let declaration = NamedModel { name, body: BodyModel::Record(members) };
            lemma_declare_closed(after, held, declaration);
            assert(held.remove(name) =~= pending);
            lemma_keeps_through(ctx, pending, taken, held, after, held);
            lemma_keeps_through(ctx, pending, after, held, declare(after, declaration), pending);
        },
        TypeModel::Union(variants) => {
            let name = fresh_name(ctx.used, path);
            lemma_fresh_is_new(ctx.used, path);
            let taken = reserve(ctx, name);
            let held = pending.insert(name);
            lemma_reserve(ctx, pending, name);
            lemma_reserve_sound(ctx, name, lo, hi);
            lemma_reserve_closed(ctx, pending, name);
            assert(held.remove(name) =~= pending);
            if all_constants(variants) {
                let declaration = NamedModel {
                    name,
                    body: BodyModel::Constants(constant_names(variants, 0, Seq::empty())),
                };
                lemma_declare_closed(taken, held, declaration);
                lemma_keeps_through(ctx, pending, taken, held, declare(taken, declaration), pending);
            } else {
                let (refs, after) = hoisted_variants(variants, 0, name, taken);
                lemma_hoisted_variants(variants, 0, name, taken, held, lo, hi);
                lemma_variants_closed(variants, 0, name, taken, held, lo, hi);
                let declaration = NamedModel { name, body: BodyModel::Sum(refs) };
                lemma_declare_closed(after, held, declaration);
                lemma_keeps_through(ctx, pending, taken, held, after, held);
                lemma_keeps_through(
                    ctx,
                    pending,
                    after,
                    held,
                    declare(after, declaration),
                    pending,
                );
            }
        },
        TypeModel::Record(key, value) => {
            let name = fresh_name(ctx.used, path);
            lemma_fresh_is_new(ctx.used, path);
            let taken = reserve(ctx, name);
            let held = pending.insert(name);
            lemma_reserve(ctx, pending, name);
            lemma_reserve_sound(ctx, name, lo, hi);
            lemma_reserve_closed(ctx, pending, name);
            assert(held.remove(name) =~= pending);
            let (k, keyed) = key_written(key, taken);
            lemma_key_written(key, taken, held, lo, hi);
            if let KeyModel::Id(table) = key {
                lemma_id_closed(table, taken, held, lo, hi);
            } else {
                lemma_keeps(taken, held, taken, held);
            }
            let (r, after) = hoisted(*value, name + "Value"@, keyed);
            lemma_hoisted(*value, name + "Value"@, keyed, held, lo, hi);
            lemma_hoisted_closed(*value, name + "Value"@, keyed, held, lo, hi);
            lemma_resolved_stays(k, keyed, held, after, held);
            let declaration = NamedModel { name, body: BodyModel::Mapping(k, r) };
            lemma_declare_closed(after, held, declaration);
            lemma_keeps_through(ctx, pending, taken, held, keyed, held);
            lemma_keeps_through(ctx, pending, keyed, held, after, held);
            lemma_keeps_through(ctx, pending, after, held, declare(after, declaration), pending);
        },
    }
}

/// What is kept from one context to a second and from the second to a
/// third is kept from the first to the third.
pub proof fn lemma_keeps_through(
    ctx: ContextModel,
    pending: Set<Seq<char>>,
    middle: ContextModel,
    held: Set<Seq<char>>,
    later: ContextModel,
    left: Set<Seq<char>>,
)
    requires
        keeps(ctx, pending, middle, held),
        keeps(middle, held, later, left),
    ensures
        keeps(ctx, pending, later, left),
{
    assert forall|name: Seq<char>| #[trigger] known_name(ctx, pending, name) implies known_name(
        later,
        left,
        name,
    ) by {
        assert(known_name(middle, held, name));
    }
}

/// Hoisting the fields of a type leaves a closed context closed, and every
/// member is written with a known name.
pub proof fn lemma_fields_closed(
    fields: Seq<FieldModel>,
    from: int,
    owner: Seq<char>,
    ctx: ContextModel,
    taken: Seq<Seq<char>>,
    pending: Set<Seq<char>>,
    lo: int,
    hi: int,
)
    requires
        0 <= from <= fields.len(),
        orderly(ctx, pending),
        sound(ctx, lo, hi),
        hi <= ctx.ids.len(),
        closed(ctx, pending),
        awaited(ctx, pending, lo, hi),
    ensures
        closed(hoisted_fields(fields, from, owner, ctx, taken).1, pending),
        keeps(ctx, pending, hoisted_fields(fields, from, owner, ctx, taken).1, pending),
        awaited(hoisted_fields(fields, from, owner, ctx, taken).1, pending, lo, hi),
        body_resolved(
            BodyModel::Record(hoisted_fields(fields, from, owner, ctx, taken).0),
            hoisted_fields(fields, from, owner, ctx, taken).1,
            pending,
        ),
    decreases fields, fields.len() - from,
{
    if from < fields.len() {
        let path = owner + pascal(fields[from].name);
        let (r, after) = hoisted(fields[from].ty, path, ctx);
        lemma_hoisted(fields[from].ty, path, ctx, pending, lo, hi);
        lemma_hoisted_closed(fields[from].ty, path, ctx, pending, lo, hi);
        let name = fresh_name(taken, member_name(fields[from].name));
        let (rest, last) = hoisted_fields(fields, from + 1, owner, after, taken.push(name));
        lemma_fields_closed(fields, from + 1, owner, after, taken.push(name), pending, lo, hi);
        lemma_keeps_through(ctx, pending, after, pending, last, pending);
        lemma_resolved_stays(r, after, pending, last, pending);
        let all = hoisted_fields(fields, from, owner, ctx, taken).0;
        assert(all == seq![MemberModel { name, ty: r }] + rest);
        assert forall|i: int| 0 <= i < all.len() implies resolved(
            (#[trigger] all[i]).ty,
            last,
            pending,
        ) by {
            if i > 0 {
                assert(all[i] == rest[i - 1]);
            }
        }
    } else {
        lemma_keeps(ctx, pending, ctx, pending);
    }
}

/// Each variant of a sum whose body has known names only is written with a
/// known name.
pub proof fn lemma_variant_resolved(
    variants: Seq<RefModel>,
    ctx: ContextModel,
    pending: Set<Seq<char>>,
    at: int,
)
    requires
        body_resolved(BodyModel::Sum(variants), ctx, pending),
        0 <= at < variants.len(),
    ensures
        resolved(variants[at], ctx, pending),
{
    let body = BodyModel::Sum(variants);
    assert(body->Sum_0 == variants);
}

/// Hoisting the variants of a union leaves a closed context closed, and
/// every variant is written with a known name.
pub proof fn lemma_variants_closed(
    variants: Seq<TypeModel>,
    from: int,
    owner: Seq<char>,
    ctx: ContextModel,
    pending: Set<Seq<char>>,
    lo: int,
    hi: int,
)
    requires
        0 <= from <= variants.len(),
        orderly(ctx, pending),
        sound(ctx, lo, hi),
        hi <= ctx.ids.len(),
        closed(ctx, pending),
        awaited(ctx, pending, lo, hi),
    ensures
        closed(hoisted_variants(variants, from, owner, ctx).1, pending),
        keeps(ctx, pending, hoisted_variants(variants, from, owner, ctx).1, pending),
        awaited(hoisted_variants(variants, from, owner, ctx).1, pending, lo, hi),
        body_resolved(
            BodyModel::Sum(hoisted_variants(variants, from, owner, ctx).0),
            hoisted_variants(variants, from, owner, ctx).1,
            pending,
        ),
    decreases variants, variants.len() - from,
{
    if from < variants.len() {
        let path = owner + "Variant"@ + decimal((from + 1) as nat);
        let (r, after) = hoisted(variants[from], path, ctx);
        lemma_hoisted(variants[from], path, ctx, pending, lo, hi);
        lemma_hoisted_closed(variants[from], path, ctx, pending, lo, hi);
        let (rest, last) = hoisted_variants(variants, from + 1, owner, after);
        lemma_variants_closed(variants, from + 1, owner, after, pending, lo, hi);
        lemma_keeps_through(ctx, pending, after, pending, last, pending);
        lemma_resolved_stays(r, after, pending, last, pending);
        let all = hoisted_variants(variants, from, owner, ctx).0;
        assert(all == seq![r] + rest);
        assert(all.len() == rest.len() + 1);
        assert forall|i: int| 0 <= i < all.len() implies resolved(
            #[trigger] all[i],
            last,
            pending,
        ) by {
            if i > 0 {
                let j = i - 1;
                assert(all[i] == rest[j]);
                lemma_variant_resolved(rest, last, pending, j);
            } else {
                assert(all[0] == r);
            }
        }
    } else {
        lemma_keeps(ctx, pending, ctx, pending);
    }
}

} // verus!
