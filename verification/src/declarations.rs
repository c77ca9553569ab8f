use vstd::prelude::*;
use crate::text::{decimal, decimal_string};
use crate::types::ScalarKind;

verus! {

/// The type of a member, a variant or an element, as it is written where
/// it is used: a primitive, the name of a declared type, or one of these
/// wrapped.
#[derive(Debug, PartialEq, Eq)]
pub enum TypeRef {
    Scalar(ScalarKind),
    Name(String),
    Optional(Box<TypeRef>),
    Array(Box<TypeRef>),
}

/// A member of a record: its name, unique among the members of the record,
/// and its type.
#[derive(Debug, PartialEq, Eq)]
pub struct Member {
    pub name: String,
    pub ty: TypeRef,
}

/// What a declared type is.
#[derive(Debug, PartialEq, Eq)]
pub enum Body {
    /// A record with one member per field, in the order of the source.
    Record(Vec<Member>),
    /// A sum over the variants, in the order of the source.
    Sum(Vec<TypeRef>),
    /// An enumeration of constants, by their names.
    Constants(Vec<String>),
    /// A mapping from keys to values.
    Mapping(TypeRef, TypeRef),
    /// The identifier of the rows of a table.
    Identifier,
}

/// A declared type: its name, unique among the declarations, and its body.
#[derive(Debug, PartialEq, Eq)]
pub struct NamedType {
    pub name: String,
    pub body: Body,
}

/// The mathematical value of a [`TypeRef`].
pub enum RefModel {
    Scalar(ScalarKind),
    Name(Seq<char>),
    Optional(Box<RefModel>),
    Array(Box<RefModel>),
}

/// The mathematical value of a [`Member`].
pub struct MemberModel {
    pub name: Seq<char>,
    pub ty: RefModel,
}

/// The mathematical value of a [`Body`].
pub enum BodyModel {
    Record(Seq<MemberModel>),
    Sum(Seq<RefModel>),
    Constants(Seq<Seq<char>>),
    Mapping(RefModel, RefModel),
    Identifier,
}

/// The mathematical value of a [`NamedType`].
pub struct NamedModel {
    pub name: Seq<char>,
    pub body: BodyModel,
}

impl View for TypeRef {
    type V = RefModel;

    open spec fn view(&self) -> RefModel
        decreases self,
    {
        match self {
            TypeRef::Scalar(kind) => RefModel::Scalar(*kind),
            TypeRef::Name(name) => RefModel::Name(name@),
            TypeRef::Optional(inner) => RefModel::Optional(Box::new((**inner)@)),
            TypeRef::Array(element) => RefModel::Array(Box::new((**element)@)),
        }
    }
}

impl View for Member {
    type V = MemberModel;

    open spec fn view(&self) -> MemberModel {
        MemberModel { name: self.name@, ty: self.ty@ }
    }
}

/// The mathematical values of a list of members.
pub open spec fn members_model(members: Seq<Member>) -> Seq<MemberModel> {
    Seq::new(members.len(), |i: int| members[i]@)
}

/// The mathematical values of a list of type references.
pub open spec fn refs_model(refs: Seq<TypeRef>) -> Seq<RefModel> {
    Seq::new(refs.len(), |i: int| refs[i]@)
}

/// The mathematical values of a list of names.
pub open spec fn names_model(names: Seq<String>) -> Seq<Seq<char>> {
    Seq::new(names.len(), |i: int| names[i]@)
}

impl View for Body {
    type V = BodyModel;

    open spec fn view(&self) -> BodyModel {
        match self {
            Body::Record(members) => BodyModel::Record(members_model(members@)),
            Body::Sum(variants) => BodyModel::Sum(refs_model(variants@)),
            Body::Constants(constants) => BodyModel::Constants(names_model(constants@)),
            Body::Mapping(key, value) => BodyModel::Mapping(key@, value@),
            Body::Identifier => BodyModel::Identifier,
        }
    }
}

impl View for NamedType {
    type V = NamedModel;

    open spec fn view(&self) -> NamedModel {
        NamedModel { name: self.name@, body: self.body@ }
    }
}

/// The mathematical values of a list of declarations.
pub open spec fn named_model(declarations: Seq<NamedType>) -> Seq<NamedModel> {
    Seq::new(declarations.len(), |i: int| declarations[i]@)
}

/// The primitive of Rust that stands for a scalar kind.
pub open spec fn scalar_text(kind: ScalarKind) -> Seq<char> {
    match kind {
        ScalarKind::String => "String"@,
        ScalarKind::Number => "f64"@,
        ScalarKind::Boolean => "bool"@,
        ScalarKind::Bytes => "Vec<u8>"@,
        ScalarKind::Null => "()"@,
        ScalarKind::Any => "serde_json::Value"@,
        ScalarKind::Int64 => "i64"@,
    }
}

/// The scalar kind that a primitive of Rust stands for, if it stands for
/// one.
pub open spec fn scalar_of_text(text: Seq<char>) -> Option<ScalarKind> {
    if text == "String"@ {
        Some(ScalarKind::String)
    } else if text == "f64"@ {
        Some(ScalarKind::Number)
    } else if text == "bool"@ {
        Some(ScalarKind::Boolean)
    } else if text == "Vec<u8>"@ {
        Some(ScalarKind::Bytes)
    } else if text == "()"@ {
        Some(ScalarKind::Null)
    } else if text == "serde_json::Value"@ {
        Some(ScalarKind::Any)
    } else if text == "i64"@ {
        Some(ScalarKind::Int64)
    } else {
        None
    }
}

/// Each scalar kind has a primitive of its own: the kind can be read back
/// from the primitive, so no two kinds are written alike.
pub proof fn lemma_scalar_round_trip(kind: ScalarKind)
    ensures
        scalar_of_text(scalar_text(kind)) == Some(kind),
{
    reveal_strlit("String");
    reveal_strlit("f64");
    reveal_strlit("bool");
    reveal_strlit("Vec<u8>");
    reveal_strlit("()");
    reveal_strlit("serde_json::Value");
    reveal_strlit("i64");
    assert("String"@.len() == 6 && "f64"@.len() == 3 && "bool"@.len() == 4 && "Vec<u8>"@.len() == 7
        && "()"@.len() == 2 && "serde_json::Value"@.len() == 17 && "i64"@.len() == 3);
    assert("f64"@[0] == 'f' && "i64"@[0] == 'i');
}

/// Two scalar kinds that are written alike are the same kind.
pub proof fn lemma_scalar_text_injective(a: ScalarKind, b: ScalarKind)
    requires
        scalar_text(a) == scalar_text(b),
    ensures
        a == b,
{
    lemma_scalar_round_trip(a);
    lemma_scalar_round_trip(b);
}

/// How a type is written where it is used.
pub open spec fn reference_text(r: RefModel) -> Seq<char>
    decreases r,
{
    match r {
        RefModel::Scalar(kind) => scalar_text(kind),
        RefModel::Name(name) => name,
        RefModel::Optional(inner) => "Option<"@ + reference_text(*inner) + ">"@,
        RefModel::Array(element) => "Vec<"@ + reference_text(*element) + ">"@,
    }
}

/// The lines of the members from position `from` on, one line each.
pub open spec fn members_text(members: Seq<MemberModel>, from: int) -> Seq<char>
    decreases members.len() - from,
{
    if from < 0 || from >= members.len() {
        Seq::empty()
    } else {
        "    pub "@ + members[from].name + ": "@ + reference_text(members[from].ty)
            + ",\n"@ + members_text(members, from + 1)
    }
}

/// The lines of the variants from position `from` on. The variant at
/// position `i` is called `Variant` with the number `i + 1`.
pub open spec fn variants_text(variants: Seq<RefModel>, from: int) -> Seq<char>
    decreases variants.len() - from,
{
    if from < 0 || from >= variants.len() {
        Seq::empty()
    } else {
        "    Variant"@ + decimal((from + 1) as nat) + "("@ + reference_text(variants[from])
            + "),\n"@ + variants_text(variants, from + 1)
    }
}

/// The lines of the constants from position `from` on.
pub open spec fn constants_text(constants: Seq<Seq<char>>, from: int) -> Seq<char>
    decreases constants.len() - from,
{
    if from < 0 || from >= constants.len() {
        Seq::empty()
    } else {
        "    "@ + constants[from] + ",\n"@ + constants_text(constants, from + 1)
    }
}

/// The text of one declaration, with an empty line behind it.
pub open spec fn declaration_text(d: NamedModel) -> Seq<char> {
    match d.body {
        BodyModel::Record(members) => "#[derive(Debug, Clone)]\npub struct "@ + d.name + " {\n"@
            + members_text(members, 0) + "}\n\n"@,
        BodyModel::Sum(variants) => "#[derive(Debug, Clone)]\npub enum "@ + d.name + " {\n"@
            + variants_text(variants, 0) + "}\n\n"@,
        BodyModel::Constants(constants) => "#[derive(Debug, Clone, Copy, PartialEq, Eq)]\npub enum "@
            + d.name + " {\n"@ + constants_text(constants, 0) + "}\n\n"@,
        BodyModel::Mapping(key, value) => "pub type "@ + d.name
            + " = std::collections::HashMap<"@ + reference_text(key) + ", "@ + reference_text(
            value,
        ) + ">;\n\n"@,
        BodyModel::Identifier => "#[derive(Debug, Clone, PartialEq, Eq, Hash)]\npub struct "@
            + d.name + "(pub String);\n\n"@,
    }
}

/// The text of the declarations from position `from` on, in their order.
pub open spec fn declarations_text(declarations: Seq<NamedModel>, from: int) -> Seq<char>
    decreases declarations.len() - from,
{
    if from < 0 || from >= declarations.len() {
        Seq::empty()
    } else {
        declaration_text(declarations[from]) + declarations_text(declarations, from + 1)
    }
}

/// The primitive of Rust that stands for a scalar kind.
pub fn scalar_name(kind: ScalarKind) -> (r: &'static str)
    ensures
        r@ == scalar_text(kind),
{
    match kind {
        ScalarKind::String => "String",
        ScalarKind::Number => "f64",
        ScalarKind::Boolean => "bool",
        ScalarKind::Bytes => "Vec<u8>",
        ScalarKind::Null => "()",
        ScalarKind::Any => "serde_json::Value",
        ScalarKind::Int64 => "i64",
    }
}

/// Writes a type as it stands where it is used.
pub fn write_reference(r: &TypeRef, out: &mut String)
    ensures
        final(out)@ == old(out)@ + reference_text(r@),
    decreases r,
{
    let ghost start = out@;
    match r {
        TypeRef::Scalar(kind) => {
            out.append(scalar_name(*kind));
        },
        TypeRef::Name(name) => {
            out.append(name.as_str());
        },
        TypeRef::Optional(inner) => {
            out.append("Option<");
            write_reference(&**inner, out);
            out.append(">");
            assert(out@ =~= start + ("Option<"@ + reference_text((**inner)@) + ">"@));
        },
        TypeRef::Array(element) => {
            out.append("Vec<");
            write_reference(&**element, out);
            out.append(">");
            assert(out@ =~= start + ("Vec<"@ + reference_text((**element)@) + ">"@));
        },
    }
}

fn write_members(members: &Vec<Member>, out: &mut String)
    ensures
        final(out)@ == old(out)@ + members_text(members_model(members@), 0),
{
    let ghost start = out@;
    let ghost models = members_model(members@);
    let mut i: usize = 0;
    while i < members.len()
        invariant
            i <= members@.len(),
            models == members_model(members@),
            start + members_text(models, 0) == out@ + members_text(models, i as int),
        decreases members@.len() - i,
    {
        let ghost before = out@;
        out.append("    pub ");
        out.append(members[i].name.as_str());
        out.append(": ");
        write_reference(&members[i].ty, out);
        out.append(",\n");
        assert(out@ + members_text(models, i + 1) =~= before + members_text(models, i as int));
        i += 1;
    }
    assert(out@ + Seq::<char>::empty() =~= out@);
}

fn write_variants(variants: &Vec<TypeRef>, out: &mut String)
    ensures
        final(out)@ == old(out)@ + variants_text(refs_model(variants@), 0),
{
    let ghost start = out@;
    let ghost models = refs_model(variants@);
    let mut i: usize = 0;
    while i < variants.len()
        invariant
            i <= variants@.len(),
            models == refs_model(variants@),
            start + variants_text(models, 0) == out@ + variants_text(models, i as int),
        decreases variants@.len() - i,
    {
        let ghost before = out@;
        let number = decimal_string(i as u128 + 1);
        out.append("    Variant");
        out.append(number.as_str());
        out.append("(");
        write_reference(&variants[i], out);
        out.append("),\n");
        assert(out@ + variants_text(models, i + 1) =~= before + variants_text(models, i as int));
        i += 1;
    }
    assert(out@ + Seq::<char>::empty() =~= out@);
}

fn write_constants(constants: &Vec<String>, out: &mut String)
    ensures
        final(out)@ == old(out)@ + constants_text(names_model(constants@), 0),
{
    let ghost start = out@;
    let ghost models = names_model(constants@);
    let mut i: usize = 0;
    while i < constants.len()
        invariant
            i <= constants@.len(),
            models == names_model(constants@),
            start + constants_text(models, 0) == out@ + constants_text(models, i as int),
        decreases constants@.len() - i,
    {
        let ghost before = out@;
        out.append("    ");
        out.append(constants[i].as_str());
        out.append(",\n");
        assert(out@ + constants_text(models, i + 1) =~= before + constants_text(models, i as int));
        i += 1;
    }
    assert(out@ + Seq::<char>::empty() =~= out@);
}

/// Writes one declaration, with an empty line behind it.
pub fn write_declaration(d: &NamedType, out: &mut String)
    ensures
        final(out)@ == old(out)@ + declaration_text(d@),
{
    let ghost start = out@;
    match &d.body {
        Body::Record(members) => {
            out.append("#[derive(Debug, Clone)]\npub struct ");
            out.append(d.name.as_str());
            out.append(" {\n");
            write_members(members, out);
            out.append("}\n\n");
            assert(out@ =~= start + declaration_text(d@));
        },
        Body::Sum(variants) => {
            out.append("#[derive(Debug, Clone)]\npub enum ");
            out.append(d.name.as_str());
            out.append(" {\n");
            write_variants(variants, out);
            out.append("}\n\n");
            assert(out@ =~= start + declaration_text(d@));
        },
        Body::Constants(constants) => {
            out.append("#[derive(Debug, Clone, Copy, PartialEq, Eq)]\npub enum ");
            out.append(d.name.as_str());
            out.append(" {\n");
            write_constants(constants, out);
            out.append("}\n\n");
            assert(out@ =~= start + declaration_text(d@));
        },
        Body::Mapping(key, value) => {
            out.append("pub type ");
            out.append(d.name.as_str());
            out.append(" = std::collections::HashMap<");
            write_reference(key, out);
            out.append(", ");
            write_reference(value, out);
            out.append(">;\n\n");
            assert(out@ =~= start + declaration_text(d@));
        },
        Body::Identifier => {
            out.append("#[derive(Debug, Clone, PartialEq, Eq, Hash)]\npub struct ");
            out.append(d.name.as_str());
            out.append("(pub String);\n\n");
            assert(out@ =~= start + declaration_text(d@));
        },
    }
}

/// Writes the declarations one after the other, in their order.
pub fn render(declarations: &Vec<NamedType>) -> (r: String)
    ensures
        r@ == declarations_text(named_model(declarations@), 0),
{
    let ghost models = named_model(declarations@);
    let mut out = String::new();
    let mut i: usize = 0;
    assert(out@ + declarations_text(models, 0) =~= declarations_text(models, 0));
    while i < declarations.len()
        invariant
            i <= declarations@.len(),
            models == named_model(declarations@),
            declarations_text(models, 0) == out@ + declarations_text(models, i as int),
        decreases declarations@.len() - i,
    {
        let ghost before = out@;
        write_declaration(&declarations[i], &mut out);
        assert(out@ + declarations_text(models, i + 1) =~= before + declarations_text(
            models,
            i as int,
        ));
        i += 1;
    }
    assert(out@ + Seq::<char>::empty() =~= out@);
    out
}

} // verus!
