use vstd::prelude::*;
use vstd::string::StringExecFns;
use crate::derive::shape::{impl_block, impl_block_text, Data, DeriveInput, Field, Fields};
use crate::derive::text::{decimal, decimal_text, join, joined, string_views};

verus! {

/// Why a derive macro could not generate its code.
#[derive(Clone, Copy, Debug, PartialEq, Eq, Structural)]
pub enum DeriveError {
    /// The macro was applied to something other than a struct.
    UnsupportedItemType,
    /// A field of a struct with named fields has no name.
    CStructFieldMissingName,
    /// An attribute that should hold an expression holds something else.
    InvalidExpression,
}

/// The visibility and the name of the generated constructor.
pub struct ConstructorArgs {
    pub visibility: String,
    pub name: String,
}

/// The visibility followed by a space, or nothing for the default (private) visibility.
pub open spec fn visibility_prefix(visibility: Seq<char>) -> Seq<char> {
    if visibility.len() == 0 {
        Seq::empty()
    } else {
        visibility + " "@
    }
}

/// `name: Type` for each field of a struct with named fields (all of which have a name).
pub open spec fn named_parameters(fields: Seq<Field>) -> Seq<Seq<char>> {
    Seq::new(fields.len(), |i: int| fields[i].ident.unwrap()@ + ": "@ + fields[i].ty@)
}

pub open spec fn named_idents(fields: Seq<Field>) -> Seq<Seq<char>> {
    Seq::new(fields.len(), |i: int| fields[i].ident.unwrap()@)
}

/// `field_i: Type` for each field of a tuple struct.
pub open spec fn tuple_parameters(fields: Seq<Field>) -> Seq<Seq<char>> {
    Seq::new(fields.len(), |i: int| "field_"@ + decimal_text(i as nat) + ": "@ + fields[i].ty@)
}

pub open spec fn tuple_idents(fields: Seq<Field>) -> Seq<Seq<char>> {
    Seq::new(fields.len(), |i: int| "field_"@ + decimal_text(i as nat))
}

/// `vis fn name(params) -> Self { value }`.
pub open spec fn constructor_text(
    args: ConstructorArgs,
    parameters: Seq<Seq<char>>,
    value: Seq<char>,
) -> Seq<char> {
    visibility_prefix(args.visibility@) + "fn "@ + args.name@ + "("@ + joined(parameters, ", "@)
        + ") -> Self { "@ + value + " }"@
}

/// The constructor generated for a struct with the given fields.
pub open spec fn constructor_for(fields: Fields, args: ConstructorArgs) -> Result<Seq<char>, DeriveError> {
    match fields {
        Fields::Named(fs) => if exists|i: int| 0 <= i < fs.len() && (#[trigger] fs@[i]).ident is None {
            Err(DeriveError::CStructFieldMissingName)
        } else {
            Ok(
                constructor_text(
                    args,
                    named_parameters(fs@),
                    "Self { "@ + joined(named_idents(fs@), ", "@) + " }"@,
                ),
            )
        },
        Fields::Unnamed(fs) => Ok(
            constructor_text(
                args,
                tuple_parameters(fs@),
                "Self("@ + joined(tuple_idents(fs@), ", "@) + ")"@,
            ),
        ),
        Fields::Unit => Ok(constructor_text(args, Seq::empty(), "Self"@)),
    }
}

impl ConstructorArgs {
    /// A private constructor named `new`.
    pub fn default_args() -> (res: Self)
        ensures
            res.visibility@ == Seq::<char>::empty(),
            res.name@ == "new"@,
    {
        ConstructorArgs { visibility: String::new(), name: String::from_str("new") }
    }

    /// The arguments of the `constructor` attribute: a visibility, then an optional name
    /// (`new` when there is none).
    pub fn parse(visibility: String, name: Option<String>) -> (res: Self)
        ensures
            res.visibility == visibility,
            name matches Some(n) ==> res.name == n,
            name is None ==> res.name@ == "new"@,
    {
        let name = match name {
            Some(name) => name,
            None => String::from_str("new"),
        };
        ConstructorArgs { visibility, name }
    }
}

/// The macro that gives a struct a constructor taking each field in order.
pub struct Constructor;

impl Constructor {
    fn constructor_text_exec(args: &ConstructorArgs, parameters: &Vec<String>, value: &str) -> (res: String)
        ensures
            res@ == constructor_text(*args, string_views(parameters@), value@),
    {
        let mut res = String::new();
        if !args.visibility.as_str().is_empty() {
            res.append(args.visibility.as_str());
            res.append(" ");
        }
        proof {
            assert(res@ =~= visibility_prefix(args.visibility@));
        }
        res.append("fn ");
        res.append(args.name.as_str());
        res.append("(");
        let params = join(parameters, ", ");
        res.append(params.as_str());
        res.append(") -> Self { ");
        res.append(value);
        res.append(" }");
        res
    }

    pub fn constructor_method_block_for_c_struct(fields: &Vec<Field>, args: &ConstructorArgs) -> (res: Result<String, DeriveError>)
        ensures
            res matches Ok(text) ==> constructor_for(Fields::Named(*fields), *args) == Ok::<Seq<char>, DeriveError>(text@),
            res matches Err(e) ==> constructor_for(Fields::Named(*fields), *args) == Err::<Seq<char>, DeriveError>(e),
    {
        let mut parameters: Vec<String> = Vec::new();
        let mut idents: Vec<String> = Vec::new();
        let mut i: usize = 0;
        while i < fields.len()
            invariant
                0 <= i <= fields.len(),
                forall|j: int| 0 <= j < i ==> (#[trigger] fields@[j]).ident is Some,
                string_views(parameters@) =~= named_parameters(fields@.take(i as int)),
                string_views(idents@) =~= named_idents(fields@.take(i as int)),
            decreases fields.len() - i,
        {
            let field = &fields[i];
            match &field.ident {
                None => {
                    return Err(DeriveError::CStructFieldMissingName);
                },
                Some(ident) => {
                    let mut parameter = ident.clone();
                    parameter.append(": ");
                    parameter.append(field.ty.as_str());
                    let ident_copy = ident.clone();
                    let ghost before_parameters = parameters@;
                    let ghost before_idents = idents@;
                    proof {
                        let t = fields@.take(i + 1);
                        assert(t.drop_last() =~= fields@.take(i as int));
                        assert(named_parameters(t) =~= named_parameters(fields@.take(i as int)).push(parameter@));
                        assert(named_idents(t) =~= named_idents(fields@.take(i as int)).push(ident_copy@));
                    }
                    parameters.push(parameter);
                    idents.push(ident_copy);
                    proof {
                        assert(string_views(parameters@) =~= string_views(before_parameters).push(parameter@));
                        assert(string_views(idents@) =~= string_views(before_idents).push(ident_copy@));
                    }
                },
            }
            i = i + 1;
        }
        proof {
            assert(fields@.take(fields.len() as int) =~= fields@);
        }
        let idents_text = join(&idents, ", ");
        let mut value = String::from_str("Self { ");
        value.append(idents_text.as_str());
        value.append(" }");
        Ok(Self::constructor_text_exec(args, &parameters, value.as_str()))
    }

    pub fn constructor_method_block_for_tuple_struct(fields: &Vec<Field>, args: &ConstructorArgs) -> (res: String)
        ensures
            constructor_for(Fields::Unnamed(*fields), *args) == Ok::<Seq<char>, DeriveError>(res@),
    {
        let mut parameters: Vec<String> = Vec::new();
        let mut idents: Vec<String> = Vec::new();
        let mut i: usize = 0;
        while i < fields.len()
            invariant
                0 <= i <= fields.len(),
                string_views(parameters@) =~= tuple_parameters(fields@.take(i as int)),
                string_views(idents@) =~= tuple_idents(fields@.take(i as int)),
            decreases fields.len() - i,
        {
            let index_text = decimal(i);
            let mut ident = String::from_str("field_");
            ident.append(index_text.as_str());
            let mut parameter = ident.clone();
            parameter.append(": ");
            parameter.append(fields[i].ty.as_str());
            let ghost before_parameters = parameters@;
            let ghost before_idents = idents@;
            proof {
                let t = fields@.take(i + 1);
                assert(tuple_parameters(t) =~= tuple_parameters(fields@.take(i as int)).push(parameter@));
                assert(tuple_idents(t) =~= tuple_idents(fields@.take(i as int)).push(ident@));
            }
            parameters.push(parameter);
            idents.push(ident);
            proof {
                assert(string_views(parameters@) =~= string_views(before_parameters).push(parameter@));
                assert(string_views(idents@) =~= string_views(before_idents).push(ident@));
            }
            i = i + 1;
        }
        proof {
            assert(fields@.take(fields.len() as int) =~= fields@);
        }
        let idents_text = join(&idents, ", ");
        let mut value = String::from_str("Self(");
        value.append(idents_text.as_str());
        value.append(")");
        Self::constructor_text_exec(args, &parameters, value.as_str())
    }

    pub fn constructor_method_block_for_unit_struct(args: &ConstructorArgs) -> (res: String)
        ensures
            constructor_for(Fields::Unit, *args) == Ok::<Seq<char>, DeriveError>(res@),
    {
        let parameters: Vec<String> = Vec::new();
        proof {
            assert(string_views(parameters@) =~= Seq::<Seq<char>>::empty());
        }
        Self::constructor_text_exec(args, &parameters, "Self")
    }

    /// The constructor for a struct; an error for other items or for a named field without
    /// a name.
    pub fn constructor_method_block(input: &DeriveInput, args: &ConstructorArgs) -> (res: Result<String, DeriveError>)
        ensures
            !(input.data is Struct) ==> res == Err::<String, DeriveError>(DeriveError::UnsupportedItemType),
            input.data matches Data::Struct(fields) ==> (match res {
                Ok(text) => constructor_for(fields, *args) == Ok::<Seq<char>, DeriveError>(text@),
                Err(e) => constructor_for(fields, *args) == Err::<Seq<char>, DeriveError>(e),
            }),
    {
        match &input.data {
            Data::Struct(Fields::Named(fields)) => Self::constructor_method_block_for_c_struct(fields, args),
            Data::Struct(Fields::Unnamed(fields)) => Ok(Self::constructor_method_block_for_tuple_struct(fields, args)),
            Data::Struct(Fields::Unit) => Ok(Self::constructor_method_block_for_unit_struct(args)),
            _ => Err(DeriveError::UnsupportedItemType),
        }
    }

    /// The impl block that the macro generates.
    pub fn derive_impl(input: &DeriveInput, args: &ConstructorArgs) -> (res: Result<String, DeriveError>)
        ensures
            !(input.data is Struct) ==> res == Err::<String, DeriveError>(DeriveError::UnsupportedItemType),
            input.data matches Data::Struct(fields) ==> (match res {
                Ok(text) => exists|block: Seq<char>|
                    constructor_for(fields, *args) == Ok::<Seq<char>, DeriveError>(block)
                        && text@ == impl_block_text(input.header, block),
                Err(e) => constructor_for(fields, *args) == Err::<Seq<char>, DeriveError>(e),
            }),
    {
        let block = Self::constructor_method_block(input, args)?;
        Ok(impl_block(&input.header, block.as_str()))
    }
}

} // verus!
