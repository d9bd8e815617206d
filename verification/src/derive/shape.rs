use vstd::prelude::*;
use vstd::string::StringExecFns;
use crate::derive::text::same_text;

verus! {

/// What follows the path of an attribute argument.
pub enum MetaKind {
    /// `path` alone.
    Path,
    /// `path(tokens)`: the tokens between the parentheses, as source text.
    List(String),
    /// `path = value`: the value of the string literal, or nothing when the value is not a
    /// string literal.
    NameValue(Option<String>),
}

/// An argument of an attribute, such as `bound = "T: Copy"` or `assoc(type A = B)`.
pub struct Meta {
    pub path: String,
    pub kind: MetaKind,
}

/// An attribute: its path, the tokens between its parentheses as source text, and those
/// tokens read as comma-separated arguments (nothing when they cannot be read so).
pub struct Attribute {
    pub path: String,
    pub tokens: String,
    pub metas: Option<Vec<Meta>>,
}

/// A field of a struct or of an enum variant: its name (none in a tuple struct), its
/// type as source text, and its attributes.
pub struct Field {
    pub ident: Option<String>,
    pub ty: String,
    pub attrs: Vec<Attribute>,
}

/// The fields of a struct or of an enum variant.
pub enum Fields {
    /// `{ a: A, b: B }`
    Named(Vec<Field>),
    /// `(A, B)`
    Unnamed(Vec<Field>),
    /// no fields
    Unit,
}

/// An enum variant: its name and its fields.
pub struct Variant {
    pub ident: String,
    pub fields: Fields,
}

/// What a derive macro is applied to.
pub enum Data {
    Struct(Fields),
    Enum(Vec<Variant>),
    Union,
}

/// The header of the item a derive macro is applied to, as source text: its name, the
/// generics to put after `impl`, the generics to put after the name, and its `where` clause.
pub struct ItemHeader {
    pub ident: String,
    pub impl_generics: String,
    pub type_generics: String,
    pub where_clause: String,
}

/// The names of the item's type parameters, and the predicates of its `where` clause, as
/// source text.
pub struct Generics {
    pub type_params: Vec<String>,
    pub where_predicates: Vec<String>,
}

/// A derive macro's input.
pub struct DeriveInput {
    pub header: ItemHeader,
    pub data: Data,
    pub attrs: Vec<Attribute>,
    pub generics: Generics,
}

/// The position of the first attribute named `name`.
pub open spec fn first_attribute_named(attrs: Seq<Attribute>, name: Seq<char>) -> Option<int>
    decreases attrs.len(),
{
    if attrs.len() == 0 {
        None
    } else {
        match first_attribute_named(attrs.drop_last(), name) {
            Some(i) => Some(i),
            None => if attrs.last().path@ == name {
                Some(attrs.len() - 1)
            } else {
                None
            },
        }
    }
}

/// The positions of the attributes named `name`, in order.
pub open spec fn attributes_named(attrs: Seq<Attribute>, name: Seq<char>) -> Seq<usize>
    decreases attrs.len(),
{
    if attrs.len() == 0 {
        Seq::empty()
    } else {
        let prev = attributes_named(attrs.drop_last(), name);
        if attrs.last().path@ == name {
            prev.push((attrs.len() - 1) as usize)
        } else {
            prev
        }
    }
}

/// The position of the first attribute named `name`, which is the one a derive macro reads.
pub fn find_attribute(attrs: &Vec<Attribute>, name: &str) -> (res: Option<usize>)
    ensures
        match first_attribute_named(attrs@, name@) {
            Some(i) => res == Some(i as usize),
            None => res is None,
        },
{
    let mut i: usize = 0;
    while i < attrs.len()
        invariant
            0 <= i <= attrs.len(),
            first_attribute_named(attrs@.take(i as int), name@) is None,
        decreases attrs.len() - i,
    {
        proof {
            assert(attrs@.take(i + 1).drop_last() =~= attrs@.take(i as int));
        }
        if same_text(attrs[i].path.as_str(), name) {
            proof {
                lemma_first_attribute_stays(attrs@, name@, i + 1);
            }
            return Some(i);
        }
        i = i + 1;
    }
    proof {
        assert(attrs@.take(attrs.len() as int) =~= attrs@);
    }
    None
}

proof fn lemma_first_attribute_stays(attrs: Seq<Attribute>, name: Seq<char>, k: int)
    requires
        0 <= k <= attrs.len(),
        first_attribute_named(attrs.take(k), name) is Some,
    ensures
        first_attribute_named(attrs, name) == first_attribute_named(attrs.take(k), name),
    decreases attrs.len() - k,
{
    if k < attrs.len() {
        assert(attrs.take(k + 1).drop_last() =~= attrs.take(k));
        lemma_first_attribute_stays(attrs, name, k + 1);
    } else {
        assert(attrs.take(k) =~= attrs);
    }
}

/// The positions of every attribute named `name`, in order, for the derive macros that
/// read all of them.
pub fn find_attributes(attrs: &Vec<Attribute>, name: &str) -> (res: Vec<usize>)
    ensures
        res@ == attributes_named(attrs@, name@),
{
    let mut res: Vec<usize> = Vec::new();
    let mut i: usize = 0;
    while i < attrs.len()
        invariant
            0 <= i <= attrs.len(),
            res@ == attributes_named(attrs@.take(i as int), name@),
        decreases attrs.len() - i,
    {
        proof {
            assert(attrs@.take(i + 1).drop_last() =~= attrs@.take(i as int));
        }
        if same_text(attrs[i].path.as_str(), name) {
            res.push(i);
        }
        i = i + 1;
    }
    proof {
        assert(attrs@.take(attrs.len() as int) =~= attrs@);
    }
    res
}

/// `impl<..> Name<..> where .. { body }`, the header of the inherent impl block that the
/// derive macros generate, around `body`.
pub open spec fn impl_block_text(header: ItemHeader, body: Seq<char>) -> Seq<char> {
    "impl"@ + header.impl_generics@ + " "@ + header.ident@ + header.type_generics@ + " "@
        + header.where_clause@ + " { "@ + body + " }"@
}

/// The inherent impl block around `body`.
pub fn impl_block(header: &ItemHeader, body: &str) -> (res: String)
    ensures
        res@ == impl_block_text(*header, body@),
{
    let mut res = String::from_str("impl");
    res.append(header.impl_generics.as_str());
    res.append(" ");
    res.append(header.ident.as_str());
    res.append(header.type_generics.as_str());
    res.append(" ");
    res.append(header.where_clause.as_str());
    res.append(" { ");
    res.append(body);
    res.append(" }");
    res
}

/// `impl<..> Trait for Name<..> where .. { body }`.
pub open spec fn trait_impl_block_text(header: ItemHeader, trait_path: Seq<char>, body: Seq<char>) -> Seq<char> {
    "impl"@ + header.impl_generics@ + " "@ + trait_path + " for "@ + header.ident@
        + header.type_generics@ + " "@ + header.where_clause@ + " { "@ + body + " }"@
}

pub fn trait_impl_block(header: &ItemHeader, trait_path: &str, body: &str) -> (res: String)
    ensures
        res@ == trait_impl_block_text(*header, trait_path@, body@),
{
    let mut res = String::from_str("impl");
    res.append(header.impl_generics.as_str());
    res.append(" ");
    res.append(trait_path);
    res.append(" for ");
    res.append(header.ident.as_str());
    res.append(header.type_generics.as_str());
    res.append(" ");
    res.append(header.where_clause.as_str());
    res.append(" { ");
    res.append(body);
    res.append(" }");
    res
}

} // verus!
