use vstd::prelude::*;
use crate::declarations::{
    members_model, named_model, names_model, refs_model, Body, BodyModel, Member, MemberModel,
    NamedModel, NamedType, RefModel, TypeRef,
};
use crate::names::{fresh, fresh_name};
use crate::unique::{lemma_id_is_named, lemma_member_names};
use crate::text::{
    decimal, decimal_string, declared_name, make_declared_name, make_member_name, make_words,
    member_name, pascal, pascal_case, same_text, word_char,
};
use crate::types::{
    fields_model, texts_model, types_model, Field, FieldModel, KeyModel, LiteralModel,
    LiteralValue, RecordKey, ScalarKind, TypeModel, TypeNode,
};

verus! {

/// The names that were set aside for a table: that of its record and that
/// of its identifier.
#[derive(Debug, PartialEq, Eq)]
pub struct TableNames {
    pub table: String,
    pub record: String,
    pub id: String,
}

/// The mathematical value of a [`TableNames`].
pub struct TableNamesModel {
    pub table: Seq<char>,
    pub record: Seq<char>,
    pub id: Seq<char>,
}

impl View for TableNames {
    type V = TableNamesModel;

    open spec fn view(&self) -> TableNamesModel {
        TableNamesModel { table: self.table@, record: self.record@, id: self.id@ }
    }
}

/// The mathematical values of a list of [`TableNames`].
pub open spec fn reserved_model(reserved: Seq<TableNames>) -> Seq<TableNamesModel> {
    Seq::new(reserved.len(), |i: int| reserved[i]@)
}

/// The name under which the identifier of a table is declared.
#[derive(Debug, PartialEq, Eq)]
pub struct IdName {
    pub table: String,
    pub id: String,
}

/// The mathematical value of an [`IdName`].
pub struct IdNameModel {
    pub table: Seq<char>,
    pub id: Seq<char>,
}

impl View for IdName {
    type V = IdNameModel;

    open spec fn view(&self) -> IdNameModel {
        IdNameModel { table: self.table@, id: self.id@ }
    }
}

/// The mathematical values of a list of [`IdName`].
pub open spec fn ids_model(ids: Seq<IdName>) -> Seq<IdNameModel> {
    Seq::new(ids.len(), |i: int| ids[i]@)
}

/// The state of one generation: the names in use, in the order in which
/// they were taken, the declarations made so far, and the names of the
/// identifiers of the tables met so far.
pub struct HoistContext {
    pub used: Vec<String>,
    pub declarations: Vec<NamedType>,
    pub ids: Vec<IdName>,
}

/// The mathematical value of a [`HoistContext`].
pub struct ContextModel {
    pub used: Seq<Seq<char>>,
    pub declarations: Seq<NamedModel>,
    pub ids: Seq<IdNameModel>,
}

impl View for HoistContext {
    type V = ContextModel;

    open spec fn view(&self) -> ContextModel {
        ContextModel {
            used: texts_model(self.used@),
            declarations: named_model(self.declarations@),
            ids: ids_model(self.ids@),
        }
    }
}

/// The context with one more name in use.
pub open spec fn reserve(ctx: ContextModel, name: Seq<char>) -> ContextModel {
    ContextModel { used: ctx.used.push(name), declarations: ctx.declarations, ids: ctx.ids }
}

/// The context with one more declaration.
pub open spec fn declare(ctx: ContextModel, declaration: NamedModel) -> ContextModel {
    ContextModel {
        used: ctx.used,
        declarations: ctx.declarations.push(declaration),
        ids: ctx.ids,
    }
}

/// The context after the identifier of the table `table` is declared under
/// the new name `name`.
pub open spec fn identified(ctx: ContextModel, table: Seq<char>, name: Seq<char>) -> ContextModel {
    ContextModel {
        used: ctx.used.push(name),
        declarations: ctx.declarations.push(NamedModel { name, body: BodyModel::Identifier }),
        ids: ctx.ids.push(IdNameModel { table, id: name }),
    }
}

impl HoistContext {
    /// Takes the name `name` into use.
    pub fn take(&mut self, name: String)
        ensures
            final(self)@ == reserve(old(self)@, name@),
    {
        let ghost before = texts_model(self.used@);
        self.used.push(name);
        assert(texts_model(self.used@) =~= before.push(name@));
    }

    /// Adds a declaration.
    pub fn add(&mut self, declaration: NamedType)
        ensures
            final(self)@ == declare(old(self)@, declaration@),
    {
        let ghost before = named_model(self.declarations@);
        self.declarations.push(declaration);
        assert(named_model(self.declarations@) =~= before.push(declaration@));
    }
}

/// The position of the first entry at or after `from` that is for the
/// table `table`; the number of entries where there is none.
pub open spec fn id_position(ids: Seq<IdNameModel>, table: Seq<char>, from: int) -> int
    decreases ids.len() - from,
{
    if from < 0 || from >= ids.len() {
        ids.len() as int
    } else if ids[from].table == table {
        from
    } else {
        id_position(ids, table, from + 1)
    }
}

/// The name under which the identifier of the table `table` is declared,
/// if the table was met before.
pub open spec fn known_id(ids: Seq<IdNameModel>, table: Seq<char>) -> Option<Seq<char>> {
    let at = id_position(ids, table, 0);
    if 0 <= at < ids.len() {
        Some(ids[at].id)
    } else {
        None
    }
}

/// How the identifier of the table `table` is written, and the context
/// after that. It is always written by the name of a declared identifier:
/// by the name it has where the table was met before, and otherwise by a
/// fresh name made from the table's name with `Id` behind it, under which
/// the identifier is declared on the spot.
pub open spec fn id_written(table: Seq<char>, ctx: ContextModel) -> (RefModel, ContextModel) {
    match known_id(ctx.ids, table) {
        Some(name) => (RefModel::Name(name), ctx),
        None => {
            let name = fresh_name(ctx.used, declared_name(table) + "Id"@);
            (RefModel::Name(name), identified(ctx, table, name))
        },
    }
}

/// How the key of a record is written, and the context after that.
pub open spec fn key_written(key: KeyModel, ctx: ContextModel) -> (RefModel, ContextModel) {
    match key {
        KeyModel::String => (RefModel::Scalar(ScalarKind::String), ctx),
        KeyModel::Number => (RefModel::Scalar(ScalarKind::Number), ctx),
        KeyModel::Id(table) => id_written(table, ctx),
    }
}

/// The scalar kind of a fixed value.
pub open spec fn literal_kind(value: LiteralModel) -> ScalarKind {
    match value {
        LiteralModel::Text(_) => ScalarKind::String,
        LiteralModel::Number(_) => ScalarKind::Number,
        LiteralModel::Boolean(_) => ScalarKind::Boolean,
    }
}

/// Whether a type is a fixed value of the kind `kind`.
pub open spec fn is_constant(t: TypeModel, kind: ScalarKind) -> bool {
    t matches TypeModel::Literal(value) && literal_kind(value) == kind
}

/// Whether the variants of a union are fixed values of one kind, so that
/// the union is an enumeration of constants.
pub open spec fn all_constants(variants: Seq<TypeModel>) -> bool {
    variants.len() >= 1 && (variants[0] matches TypeModel::Literal(first) && forall|i: int|
        0 <= i < variants.len() ==> is_constant(#[trigger] variants[i], literal_kind(first)))
}

/// The name that a fixed value would have as a constant, before it is
/// made different from the names of the constants before it.
pub open spec fn constant_base(value: LiteralModel) -> Seq<char> {
    match value {
        LiteralModel::Text(t) => declared_name(t),
        LiteralModel::Number(n) => "N"@ + n.map_values(|c: char| word_char(c)),
        LiteralModel::Boolean(b) => if b {
            "True"@
        } else {
            "False"@
        },
    }
}

/// The names of the constants for the fixed values from position `from`
/// on, each different from those in `taken` and from those before it.
pub open spec fn constant_names(variants: Seq<TypeModel>, from: int, taken: Seq<Seq<char>>) -> Seq<
    Seq<char>,
>
    decreases variants.len() - from,
{
    if from < 0 || from >= variants.len() {
        Seq::empty()
    } else {
        match variants[from] {
            TypeModel::Literal(value) => {
                let name = fresh_name(taken, constant_base(value));
                seq![name] + constant_names(variants, from + 1, taken.push(name))
            },
            _ => constant_names(variants, from + 1, taken),
        }
    }
}

/// A list of members with `prefix` put before those of `rest`.
pub open spec fn join_members(prefix: Seq<MemberModel>, rest: (Seq<MemberModel>, ContextModel)) -> (
    Seq<MemberModel>,
    ContextModel,
) {
    (prefix + rest.0, rest.1)
}

/// A list of type references with `prefix` put before those of `rest`.
pub open spec fn join_refs(prefix: Seq<RefModel>, rest: (Seq<RefModel>, ContextModel)) -> (
    Seq<RefModel>,
    ContextModel,
) {
    (prefix + rest.0, rest.1)
}

/// How the type `t` is written where it is used, and the context after
/// the types nested in it are declared.
///
/// An object, a union and a record get a declaration of their own, under
/// a fresh name made from `path`, and are written by that name. The name is
/// taken before the types nested in them are named, and the declaration is
/// added after theirs. A fixed value is written as the primitive of its
/// kind, and the identifier of a table by the name of its declaration.
pub open spec fn hoisted(t: TypeModel, path: Seq<char>, ctx: ContextModel) -> (
    RefModel,
    ContextModel,
)
    decreases t, 0int,
{
    match t {
        TypeModel::Scalar(kind) => (RefModel::Scalar(kind), ctx),
        TypeModel::Literal(value) => (RefModel::Scalar(literal_kind(value)), ctx),
        TypeModel::Id(table) => id_written(table, ctx),
        TypeModel::Optional(inner) => {
            let (r, after) = hoisted(*inner, path, ctx);
            (RefModel::Optional(Box::new(r)), after)
        },
        TypeModel::Array(element) => {
            let (r, after) = hoisted(*element, path, ctx);
            (RefModel::Array(Box::new(r)), after)
        },
        TypeModel::Object(fields) => {
            let name = fresh_name(ctx.used, path);
            let (members, after) = hoisted_fields(
                fields,
                0,
                name,
                reserve(ctx, name),
                Seq::empty(),
            );
            (
                RefModel::Name(name),
                declare(after, NamedModel { name, body: BodyModel::Record(members) }),
            )
        },
        TypeModel::Union(variants) => {
            let name = fresh_name(ctx.used, path);
            if all_constants(variants) {
                (
                    RefModel::Name(name),
                    declare(
                        reserve(ctx, name),
                        NamedModel {
                            name,
                            body: BodyModel::Constants(constant_names(variants, 0, Seq::empty())),
                        },
                    ),
                )
            } else {
                let (refs, after) = hoisted_variants(variants, 0, name, reserve(ctx, name));
                (RefModel::Name(name), declare(after, NamedModel { name, body: BodyModel::Sum(refs) }))
            }
        },
        TypeModel::Record(key, value) => {
            let name = fresh_name(ctx.used, path);
            let (k, keyed) = key_written(key, reserve(ctx, name));
            let (r, after) = hoisted(*value, name + "Value"@, keyed);
            (
                RefModel::Name(name),
                declare(after, NamedModel { name, body: BodyModel::Mapping(k, r) }),
            )
        },
    }
}

/// The members for the fields from position `from` on of the type named
/// `owner`, and the context after them. The path of a field is the name of
/// its owner with the field's name in Pascal case behind it. A member is
/// named by its field, made into an identifier that differs from the names
/// in `taken`, which are those of the members before it.
pub open spec fn hoisted_fields(
    fields: Seq<FieldModel>,
    from: int,
    owner: Seq<char>,
    ctx: ContextModel,
    taken: Seq<Seq<char>>,
) -> (Seq<MemberModel>, ContextModel)
    decreases fields, fields.len() - from,
{
    if from < 0 || from >= fields.len() {
        (Seq::empty(), ctx)
    } else {
        let (r, after) = hoisted(fields[from].ty, owner + pascal(fields[from].name), ctx);
        let name = fresh_name(taken, member_name(fields[from].name));
        join_members(
            seq![MemberModel { name, ty: r }],
            hoisted_fields(fields, from + 1, owner, after, taken.push(name)),
        )
    }
}

/// The variants from position `from` on of the union named `owner`, and
/// the context after them. The path of the variant at position `i` is the
/// name of its owner with `Variant` and the number `i + 1` behind it.
pub open spec fn hoisted_variants(
    variants: Seq<TypeModel>,
    from: int,
    owner: Seq<char>,
    ctx: ContextModel,
) -> (Seq<RefModel>, ContextModel)
    decreases variants, variants.len() - from,
{
    if from < 0 || from >= variants.len() {
        (Seq::empty(), ctx)
    } else {
        let (r, after) = hoisted(
            variants[from],
            owner + "Variant"@ + decimal((from + 1) as nat),
            ctx,
        );
        join_refs(seq![r], hoisted_variants(variants, from + 1, owner, after))
    }
}

/// Writes the identifier of a table as it stands where it is used, and
/// declares it where the table is met for the first time.
pub fn refer_to_table(table: &str, ctx: &mut HoistContext) -> (r: TypeRef)
    ensures
        (r@, final(ctx)@) == id_written(table@, old(ctx)@),
        r is Name,
{
    let ghost models = ids_model(ctx.ids@);
    let mut i: usize = 0;
    while i < ctx.ids.len()
        invariant
            i <= ctx.ids@.len(),
            *ctx == *old(ctx),
            models == ids_model(ctx.ids@),
            id_position(models, table@, 0) == id_position(models, table@, i as int),
        decreases ctx.ids@.len() - i,
    {
        if same_text(ctx.ids[i].table.as_str(), table) {
            return TypeRef::Name(ctx.ids[i].id.clone());
        }
        i += 1;
    }
    let ghost before = ctx@;
    let base = make_declared_name(table).concat("Id");
    let name = fresh(&ctx.used, base.as_str());
    ctx.used.push(name.clone());
    ctx.declarations.push(NamedType { name: name.clone(), body: Body::Identifier });
    ctx.ids.push(IdName { table: String::from_str(table), id: name.clone() });
    proof {
        assert(texts_model(ctx.used@) =~= before.used.push(name@));
        assert(named_model(ctx.declarations@) =~= before.declarations.push(
            NamedModel { name: name@, body: BodyModel::Identifier },
        ));
        assert(ids_model(ctx.ids@) =~= before.ids.push(IdNameModel { table: table@, id: name@ }));
    }
    TypeRef::Name(name)
}

fn refer_to_key(key: &RecordKey, ctx: &mut HoistContext) -> (r: TypeRef)
    ensures
        (r@, final(ctx)@) == key_written(key@, old(ctx)@),
{
    match key {
        RecordKey::String => TypeRef::Scalar(ScalarKind::String),
        RecordKey::Number => TypeRef::Scalar(ScalarKind::Number),
        RecordKey::Id(table) => refer_to_table(table.as_str(), ctx),
    }
}

fn kind_of_literal(value: &LiteralValue) -> (r: ScalarKind)
    ensures
        r == literal_kind(value@),
{
    match value {
        LiteralValue::Text(_) => ScalarKind::String,
        LiteralValue::Number(_) => ScalarKind::Number,
        LiteralValue::Boolean(_) => ScalarKind::Boolean,
    }
}

fn same_kind(a: ScalarKind, b: ScalarKind) -> (r: bool)
    ensures
        r == (a == b),
{
    match (a, b) {
        (ScalarKind::String, ScalarKind::String) => true,
        (ScalarKind::Number, ScalarKind::Number) => true,
        (ScalarKind::Boolean, ScalarKind::Boolean) => true,
        (ScalarKind::Bytes, ScalarKind::Bytes) => true,
        (ScalarKind::Null, ScalarKind::Null) => true,
        (ScalarKind::Any, ScalarKind::Any) => true,
        (ScalarKind::Int64, ScalarKind::Int64) => true,
        _ => false,
    }
}

/// Tells whether the variants of a union are fixed values of one kind.
pub fn are_constants(variants: &Vec<TypeNode>) -> (r: bool)
    ensures
        r == all_constants(types_model(variants@)),
{
    if variants.len() == 0 {
        return false;
    }
    let ghost models = types_model(variants@);
    let kind = match &variants[0] {
        TypeNode::Literal(first) => kind_of_literal(first),
        _ => {
            return false;
        },
    };
    let mut i: usize = 0;
    while i < variants.len()
        invariant
            1 <= variants@.len(),
            i <= variants@.len(),
            models == types_model(variants@),
            models[0] matches TypeModel::Literal(first) && literal_kind(first) == kind,
            forall|j: int| 0 <= j < i ==> is_constant(#[trigger] models[j], kind),
        decreases variants@.len() - i,
    {
        let fits = match &variants[i] {
            TypeNode::Literal(value) => same_kind(kind_of_literal(value), kind),
            _ => false,
        };
        if !fits {
            assert(!is_constant(models[i as int], kind));
            return false;
        }
        i += 1;
    }
    true
}

fn constant_base_of(value: &LiteralValue) -> (r: String)
    ensures
        r@ == constant_base(value@),
{
    match value {
        LiteralValue::Text(t) => make_declared_name(t.as_str()),
        LiteralValue::Number(n) => String::from_str("N").concat(make_words(n.as_str()).as_str()),
        LiteralValue::Boolean(b) => if *b {
            String::from_str("True")
        } else {
            String::from_str("False")
        },
    }
}

/// Names the constants for the fixed values among the variants.
pub fn name_constants(variants: &Vec<TypeNode>) -> (r: Vec<String>)
    ensures
        names_model(r@) == constant_names(types_model(variants@), 0, Seq::empty()),
{
    let ghost models = types_model(variants@);
    let mut out: Vec<String> = Vec::new();
    let mut i: usize = 0;
    assert(texts_model(out@) =~= Seq::<Seq<char>>::empty());
    assert(names_model(out@) + constant_names(models, 0, texts_model(out@)) =~= constant_names(
        models,
        0,
        Seq::empty(),
    ));
    while i < variants.len()
        invariant
            i <= variants@.len(),
            models == types_model(variants@),
            names_model(out@) == texts_model(out@),
            constant_names(models, 0, Seq::empty()) == names_model(out@) + constant_names(
                models,
                i as int,
                texts_model(out@),
            ),
        decreases variants@.len() - i,
    {
        match &variants[i] {
            TypeNode::Literal(value) => {
                let base = constant_base_of(value);
                let name = fresh(&out, base.as_str());
                let ghost before = names_model(out@);
                let ghost chosen = name@;
                out.push(name);
                assert(names_model(out@) =~= before.push(chosen));
                assert(texts_model(out@) =~= before.push(chosen));
                assert(before + (seq![chosen] + constant_names(models, i + 1, before.push(chosen)))
                    =~= names_model(out@) + constant_names(models, i + 1, texts_model(out@)));
            },
            _ => {},
        }
        i += 1;
    }
    assert(names_model(out@) + Seq::<Seq<char>>::empty() =~= names_model(out@));
    out
}

/// Writes the type `t` as it stands where it is used, and declares the
/// types nested in it.
pub fn hoist(t: &TypeNode, path: &str, ctx: &mut HoistContext) -> (r: TypeRef)
    ensures
        (r@, final(ctx)@) == hoisted(t@, path@, old(ctx)@),
        t@ matches TypeModel::Id(table) ==> r@ is Name && known_id(final(ctx)@.ids, table) == Some(
            r@->Name_0,
        ),
    decreases t, 0int,
{
    proof {
        if let TypeModel::Id(table) = t@ {
            lemma_id_is_named(table, path@, ctx@);
        }
    }
    match t {
        TypeNode::Scalar(kind) => TypeRef::Scalar(*kind),
        TypeNode::Literal(value) => TypeRef::Scalar(kind_of_literal(value)),
        TypeNode::Id(table) => refer_to_table(table.as_str(), ctx),
        TypeNode::Optional(inner) => {
            let r = hoist(&**inner, path, ctx);
            TypeRef::Optional(Box::new(r))
        },
        TypeNode::Array(element) => {
            let r = hoist(&**element, path, ctx);
            TypeRef::Array(Box::new(r))
        },
        TypeNode::Object(fields) => {
            let name = fresh(&ctx.used, path);
            ctx.take(name.clone());
            let members = hoist_fields(fields, name.as_str(), ctx);
            ctx.add(NamedType { name: name.clone(), body: Body::Record(members) });
            TypeRef::Name(name)
        },
        TypeNode::Union(variants) => {
            let name = fresh(&ctx.used, path);
            ctx.take(name.clone());
            if are_constants(variants) {
                let constants = name_constants(variants);
                ctx.add(NamedType { name: name.clone(), body: Body::Constants(constants) });
            } else {
                let refs = hoist_variants(variants, name.as_str(), ctx);
                ctx.add(NamedType { name: name.clone(), body: Body::Sum(refs) });
            }
            TypeRef::Name(name)
        },
        TypeNode::Record(key, value) => {
            let name = fresh(&ctx.used, path);
            ctx.take(name.clone());
            let k = refer_to_key(key, ctx);
            let value_path = name.clone().concat("Value");
            let r = hoist(&**value, value_path.as_str(), ctx);
            ctx.add(NamedType { name: name.clone(), body: Body::Mapping(k, r) });
            TypeRef::Name(name)
        },
    }
}

/// The names of a list of members.
pub open spec fn member_names(members: Seq<MemberModel>) -> Seq<Seq<char>> {
    Seq::new(members.len(), |i: int| members[i].name)
}

/// Makes the members for the fields of the type named `owner`, and
/// declares the types nested in them.
pub fn hoist_fields(fields: &Vec<Field>, owner: &str, ctx: &mut HoistContext) -> (r: Vec<Member>)
    ensures
        (members_model(r@), final(ctx)@) == hoisted_fields(
            fields_model(fields@),
            0,
            owner@,
            old(ctx)@,
            Seq::empty(),
        ),
        r@.len() == fields@.len(),
        member_names(members_model(r@)).no_duplicates(),
    decreases fields, fields@.len(),
{
    let ghost models = fields_model(fields@);
    let ghost start = ctx@;
    proof {
        lemma_member_names(models, 0, owner@, start, Seq::empty());
    }
    let mut out: Vec<Member> = Vec::new();
    let mut taken: Vec<String> = Vec::new();
    let mut i: usize = 0;
    proof {
        assert(members_model(out@) =~= Seq::<MemberModel>::empty());
        assert(texts_model(taken@) =~= Seq::<Seq<char>>::empty());
        let all = hoisted_fields(models, 0, owner@, start, Seq::empty());
        assert(Seq::<MemberModel>::empty() + all.0 =~= all.0);
    }
    while i < fields.len()
        invariant
            i <= fields@.len(),
            out@.len() == i,
            models == fields_model(fields@),
            texts_model(taken@) == member_names(members_model(out@)),
            hoisted_fields(models, 0, owner@, start, Seq::empty()) == join_members(
                members_model(out@),
                hoisted_fields(models, i as int, owner@, ctx@, texts_model(taken@)),
            ),
        decreases fields@.len() - i,
    {
        let ghost before = members_model(out@);
        let ghost held = texts_model(taken@);
        let path = String::from_str(owner).concat(pascal_case(fields[i].name.as_str()).as_str());
        let r = hoist(&fields[i].ty, path.as_str(), ctx);
        let name = fresh(&taken, make_member_name(fields[i].name.as_str()).as_str());
        taken.push(name.clone());
        let member = Member { name, ty: r };
        let ghost model = member@;
        out.push(member);
        proof {
            assert(members_model(out@) =~= before + seq![model]);
            assert(texts_model(taken@) =~= held.push(model.name));
            assert(member_names(members_model(out@)) =~= held.push(model.name));
            let rest = hoisted_fields(models, i + 1, owner@, ctx@, texts_model(taken@));
            assert(before + (seq![model] + rest.0) =~= members_model(out@) + rest.0);
        }
        i += 1;
    }
    assert(members_model(out@) + Seq::<MemberModel>::empty() =~= members_model(out@));
    out
}

/// Writes the variants of the union named `owner` as they stand where they
/// are used, and declares the types nested in them.
pub fn hoist_variants(variants: &Vec<TypeNode>, owner: &str, ctx: &mut HoistContext) -> (r: Vec<
    TypeRef,
>)
    ensures
        (refs_model(r@), final(ctx)@) == hoisted_variants(
            types_model(variants@),
            0,
            owner@,
            old(ctx)@,
        ),
        r@.len() == variants@.len(),
    decreases variants, variants@.len(),
{
    let ghost models = types_model(variants@);
    let ghost start = ctx@;
    let mut out: Vec<TypeRef> = Vec::new();
    let mut i: usize = 0;
    proof {
        assert(refs_model(out@) =~= Seq::<RefModel>::empty());
        let all = hoisted_variants(models, 0, owner@, start);
        assert(Seq::<RefModel>::empty() + all.0 =~= all.0);
    }
    while i < variants.len()
        invariant
            i <= variants@.len(),
            out@.len() == i,
            models == types_model(variants@),
            hoisted_variants(models, 0, owner@, start) == join_refs(
                refs_model(out@),
                hoisted_variants(models, i as int, owner@, ctx@),
            ),
        decreases variants@.len() - i,
    {
        let ghost before = refs_model(out@);
        let number = decimal_string(i as u128 + 1);
        let path = String::from_str(owner).concat("Variant").concat(number.as_str());
        let r = hoist(&variants[i], path.as_str(), ctx);
        let ghost model = r@;
        out.push(r);
        proof {
            assert(refs_model(out@) =~= before + seq![model]);
            let rest = hoisted_variants(models, i + 1, owner@, ctx@);
            assert(before + (seq![model] + rest.0) =~= refs_model(out@) + rest.0);
        }
        i += 1;
    }
    assert(refs_model(out@) + Seq::<RefModel>::empty() =~= refs_model(out@));
    out
}

} // verus!
