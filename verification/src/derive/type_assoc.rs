use vstd::prelude::*;
use vstd::string::StringExecFns;
use crate::derive::error::{quoted, Error};
use crate::derive::shape::{trait_impl_block, trait_impl_block_text, ItemHeader};
use crate::derive::text::{join, joined, same_text, string_views};

verus! {

/// The arguments of a `type_assoc` attribute as written, `impl_trait = Path, Name = Type, ..`:
/// the first key, the path after it, then each associated type's name and type.
pub struct TypeAssocArgs {
    pub key: String,
    pub trait_path: String,
    pub assoc_types: Vec<(String, String)>,
}

/// An attribute of the item: its path, and its arguments read as [`TypeAssocArgs`]
/// (nothing when they cannot be read so).
pub struct TypeAssocAttribute {
    pub path: String,
    pub args: Option<TypeAssocArgs>,
}

/// Why the `TypeAssoc` impl could not be generated.
#[derive(Clone, Copy, Debug, PartialEq, Eq, Structural)]
pub enum TypeAssocError {
    /// The item has no `type_assoc` attribute.
    MissingAttribute,
    /// The first key of the attribute is not `impl_trait`.
    UnexpectedTraitPathKey,
    /// The attribute's arguments are not `key = Path, Name = Type, ..`.
    InvalidArguments,
}

/// `type Name = Type;`.
pub open spec fn assoc_type_text(ident: Seq<char>, ty: Seq<char>) -> Seq<char> {
    "type "@ + ident + " = "@ + ty + ";"@
}

pub open spec fn assoc_type_texts(assoc_types: Seq<(String, String)>) -> Seq<Seq<char>> {
    Seq::new(assoc_types.len(), |i: int| assoc_type_text(assoc_types[i].0@, assoc_types[i].1@))
}

/// The trait and the associated type items that the arguments give.
pub open spec fn type_assoc_of(args: TypeAssocArgs) -> Result<(Seq<char>, Seq<Seq<char>>), TypeAssocError> {
    if args.key@ != "impl_trait"@ {
        Err(TypeAssocError::UnexpectedTraitPathKey)
    } else {
        Ok((args.trait_path@, assoc_type_texts(args.assoc_types@)))
    }
}

/// What the first `type_assoc` attribute gives.
pub open spec fn type_assoc_from_attrs(attrs: Seq<TypeAssocAttribute>) -> Result<
    (Seq<char>, Seq<Seq<char>>),
    TypeAssocError,
>
    decreases attrs.len(),
{
    if attrs.len() == 0 {
        Err(TypeAssocError::MissingAttribute)
    } else if attrs[0].path@ == "type_assoc"@ {
        match attrs[0].args {
            Some(args) => type_assoc_of(args),
            None => Err(TypeAssocError::InvalidArguments),
        }
    } else {
        type_assoc_from_attrs(attrs.drop_first())
    }
}

/// The macro that implements a trait made only of associated types.
pub struct TypeAssoc {
    pub trait_path: String,
    pub assoc_type_token_streams: Vec<String>,
}

impl TypeAssoc {
    /// `no `type_assoc` attribute found`.
    pub fn missing_type_assoc_attribute_error_message() -> (res: String)
        ensures
            res@ == "no "@ + quoted("type_assoc"@) + " attribute found"@,
    {
        Error::missing_expected_attribute_message("type_assoc")
    }

    /// `expected `impl_trait` here`.
    pub fn unexpected_trait_path_key() -> (res: String)
        ensures
            res@ == "expected "@ + quoted("impl_trait"@) + " here"@,
    {
        Error::unexpected_value_message("impl_trait")
    }

    /// `type Name = Type;`.
    pub fn assoc_type_token_stream(ident: &str, ty: &str) -> (res: String)
        ensures
            res@ == assoc_type_text(ident@, ty@),
    {
        let mut res = String::from_str("type ");
        res.append(ident);
        res.append(" = ");
        res.append(ty);
        res.append(";");
        res
    }

    /// The trait and the associated type items; an error when the first key is not
    /// `impl_trait`.
    pub fn parse(args: &TypeAssocArgs) -> (res: Result<TypeAssoc, TypeAssocError>)
        ensures
            match type_assoc_of(*args) {
                Ok((trait_path, items)) => res matches Ok(t) && t.trait_path@ == trait_path && string_views(
                    t.assoc_type_token_streams@,
                ) == items,
                Err(e) => res == Err::<TypeAssoc, TypeAssocError>(e),
            },
    {
        if !same_text(args.key.as_str(), "impl_trait") {
            return Err(TypeAssocError::UnexpectedTraitPathKey);
        }
        let mut items: Vec<String> = Vec::new();
        let mut i: usize = 0;
        while i < args.assoc_types.len()
            invariant
                0 <= i <= args.assoc_types.len(),
                string_views(items@) =~= assoc_type_texts(args.assoc_types@.take(i as int)),
            decreases args.assoc_types.len() - i,
        {
            let (ident, ty) = &args.assoc_types[i];
            let item = Self::assoc_type_token_stream(ident.as_str(), ty.as_str());
            let ghost before = string_views(items@);
            items.push(item);
            proof {
                assert(string_views(items@) =~= before.push(item@));
                assert(assoc_type_texts(args.assoc_types@.take(i + 1)) =~= assoc_type_texts(
                    args.assoc_types@.take(i as int),
                ).push(item@));
            }
            i = i + 1;
        }
        proof {
            assert(args.assoc_types@.take(args.assoc_types.len() as int) =~= args.assoc_types@);
        }
        Ok(TypeAssoc { trait_path: args.trait_path.clone(), assoc_type_token_streams: items })
    }

    /// What the first `type_assoc` attribute of the item gives.
    pub fn from_derive_input(attrs: &Vec<TypeAssocAttribute>) -> (res: Result<TypeAssoc, TypeAssocError>)
        ensures
            match type_assoc_from_attrs(attrs@) {
                Ok((trait_path, items)) => res matches Ok(t) && t.trait_path@ == trait_path && string_views(
                    t.assoc_type_token_streams@,
                ) == items,
                Err(e) => res == Err::<TypeAssoc, TypeAssocError>(e),
            },
    {
        let mut i: usize = 0;
        proof {
            assert(attrs@.skip(0) =~= attrs@);
        }
        while i < attrs.len()
            invariant
                0 <= i <= attrs.len(),
                type_assoc_from_attrs(attrs@) == type_assoc_from_attrs(attrs@.skip(i as int)),
            decreases attrs.len() - i,
        {
            let attribute = &attrs[i];
            proof {
                assert(attrs@.skip(i as int)[0] == *attribute);
                assert(attrs@.skip(i as int).drop_first() =~= attrs@.skip(i + 1));
            }
            if same_text(attribute.path.as_str(), "type_assoc") {
                return match &attribute.args {
                    Some(args) => Self::parse(args),
                    None => Err(TypeAssocError::InvalidArguments),
                };
            }
            i = i + 1;
        }
        proof {
            assert(attrs@.skip(attrs.len() as int) =~= Seq::<TypeAssocAttribute>::empty());
        }
        Err(TypeAssocError::MissingAttribute)
    }

    /// `impl Trait for Name { type A = X; .. }`.
    pub fn derive_impl(header: &ItemHeader, attrs: &Vec<TypeAssocAttribute>) -> (res: Result<String, TypeAssocError>)
        ensures
            match type_assoc_from_attrs(attrs@) {
                Ok((trait_path, items)) => res matches Ok(text) && text@ == trait_impl_block_text(
                    *header,
                    trait_path,
                    joined(items, " "@),
                ),
                Err(e) => res == Err::<String, TypeAssocError>(e),
            },
    {
        match Self::from_derive_input(attrs) {
            Ok(type_assoc) => {
                let body = join(&type_assoc.assoc_type_token_streams, " ");
                Ok(trait_impl_block(header, type_assoc.trait_path.as_str(), body.as_str()))
            },
            Err(e) => Err(e),
        }
    }
}

} // verus!
