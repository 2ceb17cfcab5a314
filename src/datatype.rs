//! The structural description of types, the registry of named types, and the
//! rendering of a type description as a type expression of the target language.
use vstd::prelude::*;

verus! {

broadcast use vstd::std_specs::vec::group_vec_axioms;

/// A type with no inner structure.
#[derive(Clone, Copy, Debug, PartialEq, Eq, Structural)]
pub enum Primitive {
    Str,
    Number,
    BigInt,
    Bool,
    Null,
    Unknown,
}

/// A member of an object type.
#[derive(Debug)]
pub struct Field {
    pub name: String,
    pub ty: TypeDescription,
    pub optional: bool,
}

/// The shape of a value.
#[derive(Debug)]
pub enum TypeDescription {
    Primitive(Primitive),
    /// A string literal type.
    Literal(String),
    List(Box<TypeDescription>),
    /// A map from keys of the first type to values of the second.
    Record(Box<TypeDescription>, Box<TypeDescription>),
    Tuple(Vec<TypeDescription>),
    Nullable(Box<TypeDescription>),
    Union(Vec<TypeDescription>),
    Object(Vec<Field>),
    /// A generic parameter of the named type being declared.
    Generic(String),
    /// A named type, by its stable id, with its generic arguments.
    Reference(u64, Vec<TypeDescription>),
    /// A streaming channel carrying values of the inner type.
    Channel(Box<TypeDescription>),
    /// A tagged enum: its variants, written as the representation says.
    Enum(EnumRepr, Vec<Variant>),
}

/// How the variants of an enum are told apart on the wire.
#[derive(Debug)]
pub enum EnumRepr {
    /// `"Name"`, or `{ Name: body }`.
    External,
    /// The body alone; `null` for a variant without one.
    Untagged,
    /// The tag field (named here) sits beside the body's own fields.
    Internal(String),
    /// The tag field and the content field (named here) hold name and body.
    Adjacent(String, String),
}

/// A variant of an enum, with its body if it carries one.
#[derive(Debug)]
pub struct Variant {
    pub name: String,
    pub body: Option<TypeDescription>,
}

/// A type that is declared once and referred to by name.
#[derive(Debug)]
pub struct NamedType {
    pub id: u64,
    pub name: String,
    /// Where the type is declared, for diagnostics.
    pub location: String,
    pub docs: String,
    pub deprecated: Option<String>,
    pub generics: Vec<String>,
    pub ty: TypeDescription,
}

/// Why the bindings could not be rendered.
#[derive(Debug)]
pub enum ExportError {
    /// A reference to an id that no registered type has.
    UnknownType(u64),
    /// A reference to a named type (name, location) with a number of generic
    /// arguments other than the type's parameters.
    GenericArity(String, String),
    /// A named type (name, location) that takes a name of the runtime helpers.
    ReservedName(String, String),
    /// A named type (name, location) whose name an earlier registered type has.
    DuplicateTypeName(String, String),
    /// A constant (name) whose value could not be serialized.
    ConstantSerialization(String),
}

pub open spec fn primitive_text(p: Primitive) -> Seq<char> {
    match p {
        Primitive::Str => "string"@,
        Primitive::Number => "number"@,
        Primitive::BigInt => "bigint"@,
        Primitive::Bool => "boolean"@,
        Primitive::Null => "null"@,
        Primitive::Unknown => "unknown"@,
    }
}

/// The index of the last registered type with the given id, or -1.
pub open spec fn find_type(reg: Seq<NamedType>, id: u64) -> int
    decreases reg.len(),
{
    if reg.len() == 0 {
        -1
    } else if reg[reg.len() - 1].id == id {
        reg.len() - 1
    } else {
        find_type(reg.subrange(0, reg.len() - 1), id)
    }
}

/// Whether an element type must be parenthesized before `[]`.
pub open spec fn needs_parens(t: TypeDescription) -> bool {
    match t {
        TypeDescription::Nullable(_) => true,
        TypeDescription::Union(v) => v.len() > 1,
        _ => false,
    }
}

pub open spec fn wrap_text(r: Result<Seq<char>, ExportError>, before: Seq<char>, after: Seq<char>) -> Result<
    Seq<char>,
    ExportError,
> {
    match r {
        Ok(x) => Ok(before + x + after),
        Err(e) => Err(e),
    }
}

/// The text of a variant without a body.
pub open spec fn unit_variant_text(repr: EnumRepr, name: Seq<char>) -> Seq<char> {
    match repr {
        EnumRepr::External => "\""@ + name + "\""@,
        EnumRepr::Untagged => "null"@,
        EnumRepr::Internal(tag) => "{ "@ + tag@ + ": \""@ + name + "\" }"@,
        EnumRepr::Adjacent(tag, _) => "{ "@ + tag@ + ": \""@ + name + "\" }"@,
    }
}

/// What stands before the body of a variant.
pub open spec fn variant_before(repr: EnumRepr, name: Seq<char>) -> Seq<char> {
    match repr {
        EnumRepr::External => "{ "@ + name + ": "@,
        EnumRepr::Untagged => Seq::empty(),
        EnumRepr::Internal(tag) => "({ "@ + tag@ + ": \""@ + name + "\" } & "@,
        EnumRepr::Adjacent(tag, content) => "{ "@ + tag@ + ": \""@ + name + "\"; "@ + content@ + ": "@,
    }
}

/// What stands after the body of a variant.
pub open spec fn variant_after(repr: EnumRepr) -> Seq<char> {
    match repr {
        EnumRepr::External => " }"@,
        EnumRepr::Untagged => Seq::empty(),
        EnumRepr::Internal(_) => ")"@,
        EnumRepr::Adjacent(_, _) => " }"@,
    }
}

/// The first `n` variants of `vs`, rendered and joined by ` | `.
pub open spec fn variants_text(reg: Seq<NamedType>, repr: EnumRepr, vs: Vec<Variant>, n: int) -> Result<
    Seq<char>,
    ExportError,
>
    decreases vs, n,
{
    if n <= 0 || n > vs.len() {
        Ok(Seq::empty())
    } else {
        match variants_text(reg, repr, vs, n - 1) {
            Err(e) => Err(e),
            Ok(prev) => {
                let v = vs[n - 1];
                let x = match v.body {
                    None => Ok(unit_variant_text(repr, v.name@)),
                    Some(b) => wrap_text(ty_text(reg, b), variant_before(repr, v.name@), variant_after(repr)),
                };
                match x {
                    Err(e) => Err(e),
                    Ok(x) => Ok(if n == 1 { x } else { prev + " | "@ + x }),
                }
            },
        }
    }
}

/// The type expression for `t`, or the first fault met left to right.
pub open spec fn ty_text(reg: Seq<NamedType>, t: TypeDescription) -> Result<Seq<char>, ExportError>
    decreases t, 0int,
{
    match t {
        TypeDescription::Primitive(p) => Ok(primitive_text(p)),
        TypeDescription::Literal(s) => Ok("\""@ + s@ + "\""@),
        TypeDescription::List(b) => if needs_parens(*b) {
            wrap_text(ty_text(reg, *b), "("@, ")[]"@)
        } else {
            wrap_text(ty_text(reg, *b), Seq::empty(), "[]"@)
        },
        TypeDescription::Record(k, v) => match ty_text(reg, *k) {
            Err(e) => Err(e),
            Ok(kt) => wrap_text(ty_text(reg, *v), "{ [key in "@ + kt + "]: "@, " }"@),
        },
        TypeDescription::Tuple(v) => if v.len() == 0 {
            Ok("null"@)
        } else {
            wrap_text(list_text(reg, v, v.len() as int, ", "@), "["@, "]"@)
        },
        TypeDescription::Nullable(b) => wrap_text(ty_text(reg, *b), Seq::empty(), " | null"@),
        TypeDescription::Channel(b) => wrap_text(ty_text(reg, *b), "TAURI_CHANNEL<"@, ">"@),
        TypeDescription::Enum(repr, vs) => if vs.len() == 0 {
            Ok("never"@)
        } else {
            variants_text(reg, repr, vs, vs.len() as int)
        },
        TypeDescription::Union(v) => if v.len() == 0 {
            Ok("never"@)
        } else {
            list_text(reg, v, v.len() as int, " | "@)
        },
        TypeDescription::Object(fs) => if fs.len() == 0 {
            Ok("Record<string, never>"@)
        } else {
            wrap_text(fields_text(reg, fs, fs.len() as int), "{ "@, " }"@)
        },
        TypeDescription::Generic(n) => Ok(n@),
        TypeDescription::Reference(id, args) => {
            let i = find_type(reg, id);
            if i < 0 {
                Err(ExportError::UnknownType(id))
            } else if reg[i].generics.len() != args.len() {
                Err(ExportError::GenericArity(reg[i].name, reg[i].location))
            } else if args.len() == 0 {
                Ok(reg[i].name@)
            } else {
                wrap_text(list_text(reg, args, args.len() as int, ", "@), reg[i].name@ + "<"@, ">"@)
            }
        },
    }
}

/// The first `n` types of `v`, rendered and joined by `sep`.
pub open spec fn list_text(reg: Seq<NamedType>, v: Vec<TypeDescription>, n: int, sep: Seq<char>) -> Result<
    Seq<char>,
    ExportError,
>
    decreases v, n,
{
    if n <= 0 || n > v.len() {
        Ok(Seq::empty())
    } else {
        match list_text(reg, v, n - 1, sep) {
            Err(e) => Err(e),
            Ok(prev) => match ty_text(reg, v[n - 1]) {
                Err(e) => Err(e),
                Ok(x) => Ok(if n == 1 { x } else { prev + sep + x }),
            },
        }
    }
}

pub open spec fn field_text(f: Field, ty: Seq<char>) -> Seq<char> {
    f.name@ + (if f.optional { "?: "@ } else { ": "@ }) + ty
}

/// The first `n` fields of `fs`, rendered and joined by `; `.
pub open spec fn fields_text(reg: Seq<NamedType>, fs: Vec<Field>, n: int) -> Result<Seq<char>, ExportError>
    decreases fs, n,
{
    if n <= 0 || n > fs.len() {
        Ok(Seq::empty())
    } else {
        match fields_text(reg, fs, n - 1) {
            Err(e) => Err(e),
            Ok(prev) => match ty_text(reg, fs[n - 1].ty) {
                Err(e) => Err(e),
                Ok(x) => Ok(
                    if n == 1 {
                        field_text(fs[n - 1], x)
                    } else {
                        prev + "; "@ + field_text(fs[n - 1], x)
                    },
                ),
            },
        }
    }
}

/// Whether a channel occurs anywhere in `t`.
pub open spec fn uses_channel(t: TypeDescription) -> bool
    decreases t, 0int,
{
    match t {
        TypeDescription::Channel(_) => true,
        TypeDescription::List(b) => uses_channel(*b),
        TypeDescription::Nullable(b) => uses_channel(*b),
        TypeDescription::Record(k, v) => uses_channel(*k) || uses_channel(*v),
        TypeDescription::Tuple(v) => list_uses_channel(v, v.len() as int),
        TypeDescription::Union(v) => list_uses_channel(v, v.len() as int),
        TypeDescription::Reference(_, v) => list_uses_channel(v, v.len() as int),
        TypeDescription::Object(fs) => fields_use_channel(fs, fs.len() as int),
        TypeDescription::Enum(_, vs) => variants_use_channel(vs, vs.len() as int),
        _ => false,
    }
}

/// Whether a channel occurs in the body of one of the first `n` variants.
pub open spec fn variants_use_channel(vs: Vec<Variant>, n: int) -> bool
    decreases vs, n,
{
    if n <= 0 || n > vs.len() {
        false
    } else {
        variants_use_channel(vs, n - 1) || match vs[n - 1].body {
            Some(b) => uses_channel(b),
            None => false,
        }
    }
}

proof fn lemma_variants_channel_stays(vs: Vec<Variant>, i: int, n: int)
    requires
        0 < i <= n <= vs.len(),
        variants_use_channel(vs, i),
    ensures
        variants_use_channel(vs, n),
    decreases n - i,
{
    if n > i {
        lemma_variants_channel_stays(vs, i, n - 1);
    }
}

proof fn lemma_variants_fault_stays(reg: Seq<NamedType>, repr: EnumRepr, vs: Vec<Variant>, i: int, n: int)
    requires
        0 < i <= n <= vs.len(),
        variants_text(reg, repr, vs, i) is Err,
    ensures
        variants_text(reg, repr, vs, n) == variants_text(reg, repr, vs, i),
    decreases n - i,
{
    if n > i {
        lemma_variants_fault_stays(reg, repr, vs, i, n - 1);
    }
}

/// Whether a channel occurs in the body of one of the variants.
pub fn variants_have_channel(vs: &Vec<Variant>) -> (r: bool)
    ensures
        r == variants_use_channel(*vs, vs.len() as int),
    decreases vs,
{
    let mut i: usize = 0;
    while i < vs.len()
        invariant
            i <= vs.len(),
            !variants_use_channel(*vs, i as int),
        decreases vs.len() - i,
    {
        let found = match &vs[i].body {
            Some(b) => has_channel(b),
            None => false,
        };
        if found {
            proof {
                lemma_variants_channel_stays(*vs, i + 1, vs.len() as int);
            }
            return true;
        }
        i += 1;
    }
    false
}

fn variant_prefix(repr: &EnumRepr, name: &String) -> (r: String)
    ensures
        r@ == variant_before(*repr, name@),
{
    proof {
        reveal_strlit("");
    }
    match repr {
        EnumRepr::External => {
            let mut s = String::from_str("{ ");
            s.append(name.as_str());
            s.append(": ");
            s
        },
        EnumRepr::Untagged => String::new(),
        EnumRepr::Internal(tag) => {
            let mut s = String::from_str("({ ");
            s.append(tag.as_str());
            s.append(": \"");
            s.append(name.as_str());
            s.append("\" } & ");
            s
        },
        EnumRepr::Adjacent(tag, content) => {
            let mut s = String::from_str("{ ");
            s.append(tag.as_str());
            s.append(": \"");
            s.append(name.as_str());
            s.append("\"; ");
            s.append(content.as_str());
            s.append(": ");
            s
        },
    }
}

fn variant_suffix(repr: &EnumRepr) -> (r: &'static str)
    ensures
        r@ == variant_after(*repr),
{
    proof {
        reveal_strlit("");
    }
    match repr {
        EnumRepr::External => " }",
        EnumRepr::Untagged => "",
        EnumRepr::Internal(_) => ")",
        EnumRepr::Adjacent(_, _) => " }",
    }
}

fn unit_variant(repr: &EnumRepr, name: &String) -> (r: String)
    ensures
        r@ == unit_variant_text(*repr, name@),
{
    match repr {
        EnumRepr::External => {
            let mut s = String::from_str("\"");
            s.append(name.as_str());
            s.append("\"");
            s
        },
        EnumRepr::Untagged => String::from_str("null"),
        EnumRepr::Internal(tag) | EnumRepr::Adjacent(tag, _) => {
            let mut s = String::from_str("{ ");
            s.append(tag.as_str());
            s.append(": \"");
            s.append(name.as_str());
            s.append("\" }");
            s
        },
    }
}

/// Renders the variants of an enum, joined by ` | `.
pub fn render_variants(reg: &Vec<NamedType>, repr: &EnumRepr, vs: &Vec<Variant>) -> (r: Result<String, ExportError>)
    ensures
        text_of(r) == variants_text(reg@, *repr, *vs, vs.len() as int),
    decreases vs,
{
    let mut s = String::new();
    let mut i: usize = 0;
    while i < vs.len()
        invariant
            i <= vs.len(),
            variants_text(reg@, *repr, *vs, i as int) == Ok::<Seq<char>, ExportError>(s@),
        decreases vs.len() - i,
    {
        let v = &vs[i];
        let x = match &v.body {
            None => Ok(unit_variant(repr, &v.name)),
            Some(b) => wrap(render_type(reg, b), variant_prefix(repr, &v.name).as_str(), variant_suffix(repr)),
        };
        match x {
            Err(e) => {
                proof {
                    lemma_variants_fault_stays(reg@, *repr, *vs, i + 1, vs.len() as int);
                }
                return Err(e);
            },
            Ok(x) => {
                if i > 0 {
                    s.append(" | ");
                }
                s.append(x.as_str());
            },
        }
        i += 1;
    }
    Ok(s)
}

/// Whether a channel occurs in one of the first `n` types of `v`.
pub open spec fn list_uses_channel(v: Vec<TypeDescription>, n: int) -> bool
    decreases v, n,
{
    if n <= 0 || n > v.len() {
        false
    } else {
        list_uses_channel(v, n - 1) || uses_channel(v[n - 1])
    }
}

/// Whether a channel occurs in one of the first `n` fields of `fs`.
pub open spec fn fields_use_channel(fs: Vec<Field>, n: int) -> bool
    decreases fs, n,
{
    if n <= 0 || n > fs.len() {
        false
    } else {
        fields_use_channel(fs, n - 1) || uses_channel(fs[n - 1].ty)
    }
}

proof fn lemma_list_channel_stays(v: Vec<TypeDescription>, i: int, n: int)
    requires
        0 < i <= n <= v.len(),
        list_uses_channel(v, i),
    ensures
        list_uses_channel(v, n),
    decreases n - i,
{
    if n > i {
        lemma_list_channel_stays(v, i, n - 1);
    }
}

proof fn lemma_fields_channel_stays(fs: Vec<Field>, i: int, n: int)
    requires
        0 < i <= n <= fs.len(),
        fields_use_channel(fs, i),
    ensures
        fields_use_channel(fs, n),
    decreases n - i,
{
    if n > i {
        lemma_fields_channel_stays(fs, i, n - 1);
    }
}

/// Whether a channel occurs in one of the types of `v`.
pub fn list_has_channel(v: &Vec<TypeDescription>) -> (r: bool)
    ensures
        r == list_uses_channel(*v, v.len() as int),
    decreases v,
{
    let mut i: usize = 0;
    while i < v.len()
        invariant
            i <= v.len(),
            !list_uses_channel(*v, i as int),
        decreases v.len() - i,
    {
        if has_channel(&v[i]) {
            proof {
                lemma_list_channel_stays(*v, i + 1, v.len() as int);
            }
            return true;
        }
        i += 1;
    }
    false
}

/// Whether a channel occurs in one of the fields of `fs`.
pub fn fields_have_channel(fs: &Vec<Field>) -> (r: bool)
    ensures
        r == fields_use_channel(*fs, fs.len() as int),
    decreases fs,
{
    let mut i: usize = 0;
    while i < fs.len()
        invariant
            i <= fs.len(),
            !fields_use_channel(*fs, i as int),
        decreases fs.len() - i,
    {
        if has_channel(&fs[i].ty) {
            proof {
                lemma_fields_channel_stays(*fs, i + 1, fs.len() as int);
            }
            return true;
        }
        i += 1;
    }
    false
}

/// Whether a channel occurs anywhere in `t`.
pub fn has_channel(t: &TypeDescription) -> (r: bool)
    ensures
        r == uses_channel(*t),
    decreases t,
{
    match t {
        TypeDescription::Channel(_) => true,
        TypeDescription::List(b) => has_channel(b),
        TypeDescription::Nullable(b) => has_channel(b),
        TypeDescription::Record(k, v) => has_channel(k) || has_channel(v),
        TypeDescription::Tuple(v) => list_has_channel(v),
        TypeDescription::Union(v) => list_has_channel(v),
        TypeDescription::Reference(_, v) => list_has_channel(v),
        TypeDescription::Object(fs) => fields_have_channel(fs),
        TypeDescription::Enum(_, vs) => variants_have_channel(vs),
        _ => false,
    }
}

pub open spec fn text_of(r: Result<String, ExportError>) -> Result<Seq<char>, ExportError> {
    match r {
        Ok(s) => Ok(s@),
        Err(e) => Err(e),
    }
}

pub proof fn lemma_find_type_bounds(reg: Seq<NamedType>, id: u64)
    ensures
        -1 <= find_type(reg, id) < reg.len(),
        find_type(reg, id) >= 0 ==> reg[find_type(reg, id)].id == id,
    decreases reg.len(),
{
    if reg.len() > 0 && reg[reg.len() - 1].id != id {
        lemma_find_type_bounds(reg.subrange(0, reg.len() - 1), id);
    }
}

proof fn lemma_list_fault_stays(reg: Seq<NamedType>, v: Vec<TypeDescription>, i: int, n: int, sep: Seq<char>)
    requires
        0 < i <= n <= v.len(),
        list_text(reg, v, i, sep) is Err,
    ensures
        list_text(reg, v, n, sep) == list_text(reg, v, i, sep),
    decreases n - i,
{
    if n > i {
        lemma_list_fault_stays(reg, v, i, n - 1, sep);
    }
}

proof fn lemma_fields_fault_stays(reg: Seq<NamedType>, fs: Vec<Field>, i: int, n: int)
    requires
        0 < i <= n <= fs.len(),
        fields_text(reg, fs, i) is Err,
    ensures
        fields_text(reg, fs, n) == fields_text(reg, fs, i),
    decreases n - i,
{
    if n > i {
        lemma_fields_fault_stays(reg, fs, i, n - 1);
    }
}

/// A generic named type of one parameter, referenced with the arguments `a`
/// and `b`, renders as `Name<a>` and `Name<b>`: each reference carries its own
/// argument, and arguments that render differently give different references.
pub proof fn lemma_generic_instantiation(
    reg: Seq<NamedType>,
    id: u64,
    a: TypeDescription,
    b: TypeDescription,
    args_a: Vec<TypeDescription>,
    args_b: Vec<TypeDescription>,
)
    requires
        find_type(reg, id) >= 0,
        reg[find_type(reg, id)].generics.len() == 1,
        args_a@ == seq![a],
        args_b@ == seq![b],
        ty_text(reg, a) is Ok,
        ty_text(reg, b) is Ok,
    ensures
        ty_text(reg, TypeDescription::Reference(id, args_a)) == Ok::<Seq<char>, ExportError>(
            reg[find_type(reg, id)].name@ + "<"@ + ty_text(reg, a)->Ok_0 + ">"@,
        ),
        ty_text(reg, TypeDescription::Reference(id, args_b)) == Ok::<Seq<char>, ExportError>(
            reg[find_type(reg, id)].name@ + "<"@ + ty_text(reg, b)->Ok_0 + ">"@,
        ),
        ty_text(reg, a) != ty_text(reg, b) ==> ty_text(reg, TypeDescription::Reference(id, args_a))
            != ty_text(reg, TypeDescription::Reference(id, args_b)),
{
    lemma_find_type_bounds(reg, id);
    assert(args_a[0] == a && args_a.len() == 1);
    assert(args_b[0] == b && args_b.len() == 1);
    assert(list_text(reg, args_a, 0, ", "@) == Ok::<Seq<char>, ExportError>(Seq::empty()));
    assert(list_text(reg, args_b, 0, ", "@) == Ok::<Seq<char>, ExportError>(Seq::empty()));
    let name = reg[find_type(reg, id)].name@;
    let ta = ty_text(reg, a)->Ok_0;
    let tb = ty_text(reg, b)->Ok_0;
    assert(list_text(reg, args_a, 1, ", "@) == Ok::<Seq<char>, ExportError>(ta));
    assert(list_text(reg, args_b, 1, ", "@) == Ok::<Seq<char>, ExportError>(tb));
    let ra = name + "<"@ + ta + ">"@;
    let rb = name + "<"@ + tb + ">"@;
    if ta != tb && ra == rb {
        reveal_strlit("<");
        reveal_strlit(">");
        assert(ta =~= ra.subrange(name.len() + 1int, ra.len() - 1int));
        assert(tb =~= rb.subrange(name.len() + 1int, rb.len() - 1int));
    }
}

/// The position of the last registered type with the given id.
pub fn lookup_type(reg: &Vec<NamedType>, id: u64) -> (r: Option<usize>)
    ensures
        match r {
            Some(i) => i as int == find_type(reg@, id) && i < reg.len() && reg@[i as int].id == id,
            None => find_type(reg@, id) == -1,
        },
{
    let mut j: usize = reg.len();
    assert(reg@.subrange(0, j as int) =~= reg@);
    while j > 0
        invariant
            j <= reg.len(),
            find_type(reg@, id) == find_type(reg@.subrange(0, j as int), id),
        decreases j,
    {
        assert(reg@.subrange(0, j as int).subrange(0, j - 1) =~= reg@.subrange(0, j - 1));
        if reg[j - 1].id == id {
            return Some(j - 1);
        }
        j = j - 1;
    }
    None
}

fn primitive_name(p: Primitive) -> (r: String)
    ensures
        r@ == primitive_text(p),
{
    match p {
        Primitive::Str => String::from_str("string"),
        Primitive::Number => String::from_str("number"),
        Primitive::BigInt => String::from_str("bigint"),
        Primitive::Bool => String::from_str("boolean"),
        Primitive::Null => String::from_str("null"),
        Primitive::Unknown => String::from_str("unknown"),
    }
}

fn wrap(r: Result<String, ExportError>, before: &str, after: &str) -> (o: Result<String, ExportError>)
    ensures
        text_of(o) == wrap_text(text_of(r), before@, after@),
{
    match r {
        Ok(x) => {
            let mut s = String::from_str(before);
            s.append(x.as_str());
            s.append(after);
            Ok(s)
        },
        Err(e) => Err(e),
    }
}

fn is_parenthesized(t: &TypeDescription) -> (r: bool)
    ensures
        r == needs_parens(*t),
{
    match t {
        TypeDescription::Nullable(_) => true,
        TypeDescription::Union(v) => v.len() > 1,
        _ => false,
    }
}

/// Renders the types of `v`, joined by `sep`.
pub fn render_list(reg: &Vec<NamedType>, v: &Vec<TypeDescription>, sep: &str) -> (r: Result<String, ExportError>)
    ensures
        text_of(r) == list_text(reg@, *v, v.len() as int, sep@),
    decreases v,
{
    let mut s = String::new();
    let mut i: usize = 0;
    while i < v.len()
        invariant
            i <= v.len(),
            list_text(reg@, *v, i as int, sep@) == Ok::<Seq<char>, ExportError>(s@),
        decreases v.len() - i,
    {
        match render_type(reg, &v[i]) {
            Err(e) => {
                proof {
                    lemma_list_fault_stays(reg@, *v, i + 1, v.len() as int, sep@);
                }
                return Err(e);
            },
            Ok(x) => {
                if i > 0 {
                    s.append(sep);
                }
                s.append(x.as_str());
            },
        }
        i += 1;
    }
    Ok(s)
}

/// Renders the members of an object type, joined by `; `.
pub fn render_fields(reg: &Vec<NamedType>, fs: &Vec<Field>) -> (r: Result<String, ExportError>)
    ensures
        text_of(r) == fields_text(reg@, *fs, fs.len() as int),
    decreases fs,
{
    let mut s = String::new();
    let mut i: usize = 0;
    while i < fs.len()
        invariant
            i <= fs.len(),
            fields_text(reg@, *fs, i as int) == Ok::<Seq<char>, ExportError>(s@),
        decreases fs.len() - i,
    {
        let f = &fs[i];
        match render_type(reg, &f.ty) {
            Err(e) => {
                proof {
                    lemma_fields_fault_stays(reg@, *fs, i + 1, fs.len() as int);
                }
                return Err(e);
            },
            Ok(x) => {
                let ghost prev = s@;
                if i > 0 {
                    s.append("; ");
                }
                s.append(f.name.as_str());
                if f.optional {
                    s.append("?: ");
                } else {
                    s.append(": ");
                }
                s.append(x.as_str());
                proof {
                    let ft = field_text(*f, x@);
                    if i > 0 {
                        assert(s@ =~= prev + "; "@ + ft);
                    } else {
                        assert(s@ =~= ft);
                    }
                }
            },
        }
        i += 1;
    }
    Ok(s)
}

/// Renders `t` as a type expression, resolving references against `reg`.
pub fn render_type(reg: &Vec<NamedType>, t: &TypeDescription) -> (r: Result<String, ExportError>)
    ensures
        text_of(r) == ty_text(reg@, *t),
    decreases t,
{
    proof {
        reveal_strlit("");
    }
    let r = match t {
        TypeDescription::Primitive(p) => Ok(primitive_name(*p)),
        TypeDescription::Literal(s) => {
            let mut r = String::from_str("\"");
            r.append(s.as_str());
            r.append("\"");
            Ok(r)
        },
        TypeDescription::List(b) => {
            if is_parenthesized(b) {
                wrap(render_type(reg, b), "(", ")[]")
            } else {
                wrap(render_type(reg, b), "", "[]")
            }
        },
        TypeDescription::Record(k, v) => match render_type(reg, k) {
            Err(e) => Err(e),
            Ok(kt) => {
                let mut before = String::from_str("{ [key in ");
                before.append(kt.as_str());
                before.append("]: ");
                wrap(render_type(reg, v), before.as_str(), " }")
            },
        },
        TypeDescription::Tuple(v) => {
            if v.len() == 0 {
                Ok(String::from_str("null"))
            } else {
                wrap(render_list(reg, v, ", "), "[", "]")
            }
        },
        TypeDescription::Nullable(b) => wrap(render_type(reg, b), "", " | null"),
        TypeDescription::Channel(b) => wrap(render_type(reg, b), "TAURI_CHANNEL<", ">"),
        TypeDescription::Enum(repr, vs) => {
            if vs.len() == 0 {
                Ok(String::from_str("never"))
            } else {
                render_variants(reg, repr, vs)
            }
        },
        TypeDescription::Union(v) => {
            if v.len() == 0 {
                Ok(String::from_str("never"))
            } else {
                render_list(reg, v, " | ")
            }
        },
        TypeDescription::Object(fs) => {
            if fs.len() == 0 {
                Ok(String::from_str("Record<string, never>"))
            } else {
                wrap(render_fields(reg, fs), "{ ", " }")
            }
        },
        TypeDescription::Generic(n) => Ok(n.clone()),
        TypeDescription::Reference(id, args) => match lookup_type(reg, *id) {
            None => Err(ExportError::UnknownType(*id)),
            Some(i) => {
                let nt = &reg[i];
                if nt.generics.len() != args.len() {
                    Err(ExportError::GenericArity(nt.name.clone(), nt.location.clone()))
                } else if args.len() == 0 {
                    Ok(nt.name.clone())
                } else {
                    let mut before = nt.name.clone();
                    before.append("<");
                    wrap(render_list(reg, args, ", "), before.as_str(), ">")
                }
            },
        },
    };
    r
}

} // verus!
