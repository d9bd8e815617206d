use vstd::prelude::*;
use vstd::string::StringExecFns;
use quote::ToTokens;
use crate::derive::error::{expected_phrase, Error};
use crate::derive::shape::{Attribute, Data, DeriveInput, Field, Fields, Meta, MetaKind};
use crate::derive::text::{decimal, decimal_text, join, joined, same_text, string_views};

verus! {

/// `syn::parse_str::<syn::ImplItem>` on `text`: the text it read, handed back, and whether
/// it reads as an item of an impl block. Nothing is stated of the answer: `proc-macro2`
/// picks the lexer that reads the text while the program runs, so the answer is not fixed
/// by the text alone.
#[verifier::external_body]
fn impl_item_parses(text: &str) -> (res: (&str, bool))
    ensures
        res.0 == text,
{
    (text, syn::parse_str::<syn::ImplItem>(text).is_ok())
}

/// Reads `text` with `Punctuated::<WherePredicate, Comma>::parse_terminated` and prints
/// each predicate back with `to_token_stream().to_string()`; nothing when the text is not
/// such a list. The text read is handed back. Nothing is stated of the predicates:
/// `proc-macro2` picks its lexer and its printer while the program runs, so they are not
/// fixed by the text alone.
#[verifier::external_body]
fn parse_where_predicates(text: &str) -> (res: (&str, Option<Vec<String>>))
    ensures
        res.0 == text,
{
    let parser = syn::punctuated::Punctuated::<syn::WherePredicate, syn::token::Comma>::parse_terminated;
    match syn::parse::Parser::parse_str(parser, text) {
        Ok(predicates) => (text, Some(predicates.iter().map(|p| p.to_token_stream().to_string()).collect())),
        Err(_) => (text, None),
    }
}

/// What `syn` made of one argument of the attribute, with the texts it was handed: for
/// `assoc(tokens)`, whether `item_text` reads as an item of an impl block and, when it does
/// not, whether `item_with_semicolon_text` does; for `bound = "text"`, the `where`
/// predicates read from `bounds_text` and printed back, or none when it is no such list.
/// A text that was not handed to `syn` is empty.
pub struct MetaReading {
    pub item_text: String,
    pub item: bool,
    pub item_with_semicolon_text: String,
    pub item_with_semicolon: bool,
    pub bounds_text: String,
    pub predicates: Option<Vec<String>>,
}

/// The predicates of a reading, as texts.
pub open spec fn predicates_view(predicates: Option<Vec<String>>) -> Option<Seq<Seq<char>>> {
    match predicates {
        Some(v) => Some(string_views(v@)),
        None => None,
    }
}

/// The reading answers the argument: `syn` was handed the tokens of `assoc(tokens)` and,
/// when they did not read as an item, the tokens with `;` added; and the text of
/// `bound = "text"`.
pub open spec fn reading_fits(meta: Meta, reading: MetaReading) -> bool {
    &&& (meta.path@ == "assoc"@ ==> match meta.kind {
        MetaKind::List(tokens) => reading.item_text@ == tokens@ && (!reading.item
            ==> reading.item_with_semicolon_text@ == tokens@ + ";"@),
        _ => true,
    })
    &&& (meta.path@ == "bound"@ ==> match meta.kind {
        MetaKind::NameValue(Some(bounds)) => reading.bounds_text@ == bounds@,
        _ => true,
    })
}

/// The readings fit the attributes: one row per attribute, and, for each attribute named
/// `name` that holds a list of arguments, one reading per argument, which answers it.
pub open spec fn readings_fit(attrs: Seq<Attribute>, name: Seq<char>, readings: Seq<Vec<MetaReading>>) -> bool {
    &&& readings.len() == attrs.len()
    &&& forall|i: int| 0 <= i < attrs.len() ==> row_fits(attrs[i], name, #[trigger] readings[i])
}

pub open spec fn row_fits(attr: Attribute, name: Seq<char>, row: Vec<MetaReading>) -> bool {
    attr.path@ == name ==> match attr.metas {
        Some(metas) => row.len() == metas.len() && forall|j: int|
            0 <= j < metas.len() ==> reading_fits(metas@[j], #[trigger] row@[j]),
        None => true,
    }
}

/// Why the field-wise trait impls (`SaturatingAdd`, `SaturatingSub`, `SaturatingAddSigned`)
/// could not be generated.
#[derive(Clone, Copy, Debug, PartialEq, Eq, Structural)]
pub enum BasicError {
    /// The macro was applied to something other than a struct.
    UnsupportedItemType,
    /// A field of a struct with named fields has no name.
    CStructFieldMissingName,
    /// The macro's attribute does not hold comma-separated arguments.
    InvalidAttributeArguments,
    /// `assoc` is not followed by parentheses.
    ExpectedList,
    /// `bound` is not followed by `= value`.
    ExpectedNameValue,
    /// The value of `bound` is not a string literal.
    ExpectedStringLiteral,
    /// The value of `bound` is not a list of `where` predicates.
    InvalidBounds,
    /// The tokens of `assoc` are not an item of an impl block, even with a `;` added.
    InvalidAssociatedItem,
    /// An argument other than `assoc` and `bound`.
    UnexpectedArgument,
}

/// The `where` predicates, the associated items, and whether the default bounds are still
/// to be added, while the attribute's arguments are read.
pub type BasicState = (Seq<Seq<char>>, Seq<Seq<char>>, bool);

/// The associated item written by the tokens of `assoc(..)`: the tokens themselves, or
/// the tokens followed by `;`.
pub open spec fn associated_item_text(tokens: Seq<char>, item: bool, item_with_semicolon: bool) -> Option<Seq<char>> {
    if item {
        Some(tokens)
    } else if item_with_semicolon {
        Some(tokens + ";"@)
    } else {
        None
    }
}

/// The predicates and the items of a result, as texts.
pub open spec fn parts_view(res: Result<(Vec<String>, Vec<String>), BasicError>) -> Result<
    (Seq<Seq<char>>, Seq<Seq<char>>),
    BasicError,
> {
    match res {
        Ok((p, a)) => Ok((string_views(p@), string_views(a@))),
        Err(e) => Err(e),
    }
}

/// A text result, as text.
pub open spec fn text_view(res: Result<String, BasicError>) -> Result<Seq<char>, BasicError> {
    match res {
        Ok(t) => Ok(t@),
        Err(e) => Err(e),
    }
}

/// The state after one argument of the attribute.
pub open spec fn apply_meta(state: BasicState, meta: Meta, reading: MetaReading) -> Result<BasicState, BasicError> {
    if meta.path@ == "assoc"@ {
        match meta.kind {
            MetaKind::List(tokens) => match associated_item_text(tokens@, reading.item, reading.item_with_semicolon) {
                Some(item) => Ok((state.0, state.1.push(item), state.2)),
                None => Err(BasicError::InvalidAssociatedItem),
            },
            _ => Err(BasicError::ExpectedList),
        }
    } else if meta.path@ == "bound"@ {
        match meta.kind {
            MetaKind::NameValue(Some(_)) => match predicates_view(reading.predicates) {
                Some(predicates) => Ok((state.0 + predicates, state.1, false)),
                None => Err(BasicError::InvalidBounds),
            },
            MetaKind::NameValue(None) => Err(BasicError::ExpectedStringLiteral),
            _ => Err(BasicError::ExpectedNameValue),
        }
    } else {
        Err(BasicError::UnexpectedArgument)
    }
}

/// The state after the arguments, read in order; the first error stops the reading.
pub open spec fn apply_metas(state: BasicState, metas: Seq<Meta>, row: Seq<MetaReading>) -> Result<BasicState, BasicError>
    decreases metas.len(),
{
    if metas.len() == 0 {
        Ok(state)
    } else {
        match apply_metas(state, metas.drop_last(), row) {
            Ok(s) => apply_meta(s, metas.last(), row[metas.len() - 1]),
            Err(e) => Err(e),
        }
    }
}

/// The state after the attributes named `name`, read in order; the others are skipped.
pub open spec fn apply_attrs(
    state: BasicState,
    attrs: Seq<Attribute>,
    name: Seq<char>,
    readings: Seq<Vec<MetaReading>>,
) -> Result<BasicState, BasicError>
    decreases attrs.len(),
{
    if attrs.len() == 0 {
        Ok(state)
    } else {
        match apply_attrs(state, attrs.drop_last(), name, readings) {
            Ok(s) => if attrs.last().path@ != name {
                Ok(s)
            } else {
                match attrs.last().metas {
                    Some(metas) => apply_metas(s, metas@, readings[attrs.len() - 1]@),
                    None => Err(BasicError::InvalidAttributeArguments),
                }
            },
            Err(e) => Err(e),
        }
    }
}

/// `T: Trait` for each type parameter `T`.
pub open spec fn default_bounds(type_params: Seq<Seq<char>>, trait_path: Seq<char>) -> Seq<Seq<char>> {
    Seq::new(type_params.len(), |i: int| type_params[i] + ": "@ + trait_path)
}

/// The `where` predicates and the associated items of the generated impl: the item's own
/// predicates, then those of each `bound` argument; when there is no `bound` argument,
/// `T: Trait` for each type parameter instead.
pub open spec fn generics_and_associated_items(
    input: DeriveInput,
    trait_path: Seq<char>,
    attribute_name: Seq<char>,
    readings: Seq<Vec<MetaReading>>,
) -> Result<(Seq<Seq<char>>, Seq<Seq<char>>), BasicError> {
    let start: BasicState = (string_views(input.generics.where_predicates@), Seq::empty(), true);
    match apply_attrs(start, input.attrs@, attribute_name, readings) {
        Ok((predicates, items, use_default_bounds)) => Ok(
            (
                if use_default_bounds {
                    predicates + default_bounds(string_views(input.generics.type_params@), trait_path)
                } else {
                    predicates
                },
                items,
            ),
        ),
        Err(e) => Err(e),
    }
}

/// `Trait::method(&self.x, &other.x)`.
pub open spec fn delegated_call(trait_path: Seq<char>, method: Seq<char>, member: Seq<char>) -> Seq<char> {
    trait_path + "::"@ + method + "(&self."@ + member + ", &other."@ + member + ")"@
}

/// `name: Trait::method(&self.name, &other.name)` for each field.
pub open spec fn field_assignments(fields: Seq<Field>, trait_path: Seq<char>, method: Seq<char>) -> Seq<Seq<char>> {
    Seq::new(
        fields.len(),
        |i: int| fields[i].ident.unwrap()@ + ": "@ + delegated_call(trait_path, method, fields[i].ident.unwrap()@),
    )
}

/// `Trait::method(&self.i, &other.i)` for each position `i`.
pub open spec fn positional_values(n: nat, trait_path: Seq<char>, method: Seq<char>) -> Seq<Seq<char>> {
    Seq::new(n, |i: int| delegated_call(trait_path, method, decimal_text(i as nat)))
}

/// The value built from the two operands, field by field.
pub open spec fn basic_value(data: Data, trait_path: Seq<char>, method: Seq<char>) -> Result<Seq<char>, BasicError> {
    match data {
        Data::Struct(Fields::Named(fs)) => if exists|i: int| 0 <= i < fs.len() && (#[trigger] fs@[i]).ident is None {
            Err(BasicError::CStructFieldMissingName)
        } else {
            Ok("Self { "@ + joined(field_assignments(fs@, trait_path, method), ", "@) + " }"@)
        },
        Data::Struct(Fields::Unnamed(fs)) => Ok(
            "Self("@ + joined(positional_values(fs.len() as nat, trait_path, method), ", "@) + ")"@,
        ),
        Data::Struct(Fields::Unit) => Ok("Self"@),
        _ => Err(BasicError::UnsupportedItemType),
    }
}

/// `where a, b`, or nothing when there are no predicates.
pub open spec fn where_clause_text(predicates: Seq<Seq<char>>) -> Seq<char> {
    if predicates.len() == 0 {
        Seq::empty()
    } else {
        "where "@ + joined(predicates, ", "@)
    }
}

/// The generated impl block.
pub open spec fn basic_impl_text(
    input: DeriveInput,
    trait_path: Seq<char>,
    predicates: Seq<Seq<char>>,
    items: Seq<Seq<char>>,
    method: Seq<char>,
    other_type: Seq<char>,
    value: Seq<char>,
) -> Seq<char> {
    "impl"@ + input.header.impl_generics@ + " "@ + trait_path + " for "@ + input.header.ident@
        + input.header.type_generics@ + " "@ + where_clause_text(predicates) + " { "@ + joined(items, " "@)
        + " fn "@ + method + "(&self, other: &"@ + other_type + ") -> Self { "@ + value + " } }"@
}

/// What the macro generates, or why it cannot: attribute errors come before errors in the
/// item's shape.
pub open spec fn basic_derive(
    input: DeriveInput,
    trait_path: Seq<char>,
    method: Seq<char>,
    other_type: Seq<char>,
    attribute_name: Seq<char>,
    readings: Seq<Vec<MetaReading>>,
) -> Result<Seq<char>, BasicError> {
    match generics_and_associated_items(input, trait_path, attribute_name, readings) {
        Ok((predicates, items)) => match basic_value(input.data, trait_path, method) {
            Ok(value) => Ok(basic_impl_text(input, trait_path, predicates, items, method, other_type, value)),
            Err(e) => Err(e),
        },
        Err(e) => Err(e),
    }
}

proof fn lemma_apply_metas_stops(start: BasicState, metas: Seq<Meta>, row: Seq<MetaReading>, k: int)
    requires
        0 <= k <= metas.len(),
        apply_metas(start, metas.take(k), row) is Err,
    ensures
        apply_metas(start, metas, row) == apply_metas(start, metas.take(k), row),
    decreases metas.len() - k,
{
    if k < metas.len() {
        assert(metas.take(k + 1).drop_last() =~= metas.take(k));
        lemma_apply_metas_stops(start, metas, row, k + 1);
    } else {
        assert(metas.take(k) =~= metas);
    }
}

proof fn lemma_apply_attrs_stops(
    start: BasicState,
    attrs: Seq<Attribute>,
    k: int,
    name: Seq<char>,
    readings: Seq<Vec<MetaReading>>,
)
    requires
        0 <= k <= attrs.len(),
        apply_attrs(start, attrs.take(k), name, readings) is Err,
    ensures
        apply_attrs(start, attrs, name, readings) == apply_attrs(start, attrs.take(k), name, readings),
    decreases attrs.len() - k,
{
    if k < attrs.len() {
        assert(attrs.take(k + 1).drop_last() =~= attrs.take(k));
        lemma_apply_attrs_stops(start, attrs, k + 1, name, readings);
    } else {
        assert(attrs.take(k) =~= attrs);
    }
}

proof fn lemma_prefix_trans(a: Seq<Seq<char>>, b: Seq<Seq<char>>, c: Seq<Seq<char>>)
    requires
        a.is_prefix_of(b),
        b.is_prefix_of(c),
    ensures
        a.is_prefix_of(c),
{
    assert(a =~= c.subrange(0, a.len() as int)) by {
        assert forall|i: int| 0 <= i < a.len() implies a[i] == c[i] by {
            assert(a[i] == b[i]);
            assert(b[i] == c[i]);
        }
    }
}

/// Reading an argument keeps the predicates read so far, and adds only after them.
proof fn lemma_apply_meta_extends(state: BasicState, meta: Meta, reading: MetaReading)
    ensures
        apply_meta(state, meta, reading) matches Ok(next) ==> state.0.is_prefix_of(next.0),
{
    if let MetaKind::NameValue(Some(_)) = meta.kind {
        if let Some(predicates) = predicates_view(reading.predicates) {
            assert(state.0 =~= (state.0 + predicates).subrange(0, state.0.len() as int));
        }
    }
    assert(state.0 =~= state.0.subrange(0, state.0.len() as int));
}

proof fn lemma_apply_metas_extends(state: BasicState, metas: Seq<Meta>, row: Seq<MetaReading>)
    ensures
        apply_metas(state, metas, row) matches Ok(next) ==> state.0.is_prefix_of(next.0),
    decreases metas.len(),
{
    if metas.len() == 0 {
        assert(state.0 =~= state.0.subrange(0, state.0.len() as int));
    } else {
        lemma_apply_metas_extends(state, metas.drop_last(), row);
        if let Ok(mid) = apply_metas(state, metas.drop_last(), row) {
            lemma_apply_meta_extends(mid, metas.last(), row[metas.len() - 1]);
            if let Ok(next) = apply_meta(mid, metas.last(), row[metas.len() - 1]) {
                lemma_prefix_trans(state.0, mid.0, next.0);
            }
        }
    }
}

proof fn lemma_apply_attrs_extends(
    state: BasicState,
    attrs: Seq<Attribute>,
    name: Seq<char>,
    readings: Seq<Vec<MetaReading>>,
)
    ensures
        apply_attrs(state, attrs, name, readings) matches Ok(next) ==> state.0.is_prefix_of(next.0),
    decreases attrs.len(),
{
    if attrs.len() == 0 {
        assert(state.0 =~= state.0.subrange(0, state.0.len() as int));
    } else {
        lemma_apply_attrs_extends(state, attrs.drop_last(), name, readings);
        if let Ok(mid) = apply_attrs(state, attrs.drop_last(), name, readings) {
            if attrs.last().path@ == name {
                if let Some(metas) = attrs.last().metas {
                    lemma_apply_metas_extends(mid, metas@, readings[attrs.len() - 1]@);
                    if let Ok(next) = apply_metas(mid, metas@, readings[attrs.len() - 1]@) {
                        lemma_prefix_trans(state.0, mid.0, next.0);
                    }
                }
            }
        }
    }
}

/// The generated impl keeps the item's own `where` predicates: they come first among the
/// predicates of every result, whatever the attribute's arguments and their readings.
pub proof fn lemma_own_predicates_kept(
    input: DeriveInput,
    trait_path: Seq<char>,
    attribute_name: Seq<char>,
    readings: Seq<Vec<MetaReading>>,
)
    ensures
        generics_and_associated_items(input, trait_path, attribute_name, readings) matches Ok((predicates, _))
            ==> string_views(input.generics.where_predicates@).is_prefix_of(predicates),
{
    let own = string_views(input.generics.where_predicates@);
    let start: BasicState = (own, Seq::empty(), true);
    lemma_apply_attrs_extends(start, input.attrs@, attribute_name, readings);
    if let Ok(state) = apply_attrs(start, input.attrs@, attribute_name, readings) {
        if state.2 {
            let all = state.0 + default_bounds(string_views(input.generics.type_params@), trait_path);
            assert(state.0 =~= all.subrange(0, state.0.len() as int));
            lemma_prefix_trans(own, state.0, all);
        }
    }
}

/// The macros that implement a binary trait method field by field.
pub struct Basic;

impl Basic {
    /// The message of [`BasicError::UnexpectedArgument`].
    pub fn unexpected_argument_message() -> (res: String)
        ensures
            res@ == "expected "@ + expected_phrase(seq!["assoc"@, "bound"@]) + " here"@,
    {
        let expected = ["assoc", "bound"];
        let res = Error::unexpected_value_multi_message(&expected);
        proof {
            assert(crate::derive::error::str_views(expected@) =~= seq!["assoc"@, "bound"@]);
        }
        res
    }

    fn delegated_call_exec(trait_path: &str, method: &str, member: &str) -> (res: String)
        ensures
            res@ == delegated_call(trait_path@, method@, member@),
    {
        let mut res = String::from_str(trait_path);
        res.append("::");
        res.append(method);
        res.append("(&self.");
        res.append(member);
        res.append(", &other.");
        res.append(member);
        res.append(")");
        res
    }

    /// `name: Trait::method(&self.name, &other.name)`.
    pub fn field_assignment(field: &Field, trait_path: &str, method: &str) -> (res: Result<String, BasicError>)
        ensures
            field.ident is None ==> res == Err::<String, BasicError>(BasicError::CStructFieldMissingName),
            field.ident matches Some(name) ==> res matches Ok(text) && text@ == name@ + ": "@
                + delegated_call(trait_path@, method@, name@),
    {
        match &field.ident {
            None => Err(BasicError::CStructFieldMissingName),
            Some(name) => {
                let mut res = name.clone();
                res.append(": ");
                let call = Self::delegated_call_exec(trait_path, method, name.as_str());
                res.append(call.as_str());
                Ok(res)
            },
        }
    }

    pub fn value_for_c_struct(fields: &Vec<Field>, trait_path: &str, method: &str) -> (res: Result<String, BasicError>)
        ensures
            res matches Ok(text) ==> basic_value(Data::Struct(Fields::Named(*fields)), trait_path@, method@)
                == Ok::<Seq<char>, BasicError>(text@),
            res matches Err(e) ==> basic_value(Data::Struct(Fields::Named(*fields)), trait_path@, method@)
                == Err::<Seq<char>, BasicError>(e),
    {
        let mut assignments: Vec<String> = Vec::new();
        let mut i: usize = 0;
        while i < fields.len()
            invariant
                0 <= i <= fields.len(),
                forall|j: int| 0 <= j < i ==> (#[trigger] fields@[j]).ident is Some,
                string_views(assignments@) =~= field_assignments(fields@.take(i as int), trait_path@, method@),
            decreases fields.len() - i,
        {
            let assignment = Self::field_assignment(&fields[i], trait_path, method);
            match assignment {
                Err(e) => {
                    return Err(e);
                },
                Ok(text) => {
                    let ghost before = string_views(assignments@);
                    proof {
                        let t = fields@.take(i + 1);
                        assert(t.drop_last() =~= fields@.take(i as int));
                        assert(field_assignments(t, trait_path@, method@) =~= field_assignments(
                            fields@.take(i as int),
                            trait_path@,
                            method@,
                        ).push(text@));
                    }
                    assignments.push(text);
                    proof {
                        assert(string_views(assignments@) =~= before.push(text@));
                    }
                },
            }
            i = i + 1;
        }
        proof {
            assert(fields@.take(fields.len() as int) =~= fields@);
        }
        let joined_text = join(&assignments, ", ");
        let mut value = String::from_str("Self { ");
        value.append(joined_text.as_str());
        value.append(" }");
        Ok(value)
    }

    pub fn value_for_tuple_struct(num_fields: usize, trait_path: &str, method: &str) -> (res: String)
        ensures
            res@ == "Self("@ + joined(positional_values(num_fields as nat, trait_path@, method@), ", "@) + ")"@,
    {
        let mut values: Vec<String> = Vec::new();
        let mut i: usize = 0;
        while i < num_fields
            invariant
                0 <= i <= num_fields,
                string_views(values@) =~= positional_values(i as nat, trait_path@, method@),
            decreases num_fields - i,
        {
            let index = decimal(i);
            let value = Self::delegated_call_exec(trait_path, method, index.as_str());
            let ghost before = string_views(values@);
            values.push(value);
            proof {
                assert(string_views(values@) =~= before.push(value@));
                assert(positional_values((i + 1) as nat, trait_path@, method@) =~= positional_values(
                    i as nat,
                    trait_path@,
                    method@,
                ).push(value@));
            }
            i = i + 1;
        }
        let joined_text = join(&values, ", ");
        let mut res = String::from_str("Self(");
        res.append(joined_text.as_str());
        res.append(")");
        res
    }

    pub fn value_for_unit_struct() -> (res: String)
        ensures
            res@ == "Self"@,
    {
        String::from_str("Self")
    }

    /// The value built from `self` and `other` field by field.
    pub fn value(input: &DeriveInput, trait_path: &str, method: &str) -> (res: Result<String, BasicError>)
        ensures
            res matches Ok(text) ==> basic_value(input.data, trait_path@, method@) == Ok::<Seq<char>, BasicError>(
                text@,
            ),
            res matches Err(e) ==> basic_value(input.data, trait_path@, method@) == Err::<Seq<char>, BasicError>(e),
    {
        match &input.data {
            Data::Struct(Fields::Named(fields)) => Self::value_for_c_struct(fields, trait_path, method),
            Data::Struct(Fields::Unnamed(fields)) => Ok(Self::value_for_tuple_struct(fields.len(), trait_path, method)),
            Data::Struct(Fields::Unit) => Ok(Self::value_for_unit_struct()),
            _ => Err(BasicError::UnsupportedItemType),
        }
    }

    /// The item written by the tokens of `assoc(..)`, given whether they read as an impl
    /// item and whether they do with `;` added.
    pub fn associated_item_from_reading(tokens: &str, item: bool, item_with_semicolon: bool) -> (res: Result<
        String,
        BasicError,
    >)
        ensures
            match associated_item_text(tokens@, item, item_with_semicolon) {
                Some(text) => res matches Ok(t) && t@ == text,
                None => res == Err::<String, BasicError>(BasicError::InvalidAssociatedItem),
            },
    {
        if item {
            Ok(String::from_str(tokens))
        } else if item_with_semicolon {
            let mut with_semicolon = String::from_str(tokens);
            with_semicolon.append(";");
            Ok(with_semicolon)
        } else {
            Err(BasicError::InvalidAssociatedItem)
        }
    }

    /// The item written by the tokens of `assoc(..)`, with a `;` added when it reads only so.
    /// Whether `syn` reads them is not stated; whatever it answers, the item is the tokens,
    /// or the tokens with `;` added, or the error.
    pub fn parse_associated_item(tokens: &str) -> (res: Result<String, BasicError>)
        ensures
            exists|item: bool, item_with_semicolon: bool|
                #![trigger associated_item_text(tokens@, item, item_with_semicolon)]
                match associated_item_text(tokens@, item, item_with_semicolon) {
                    Some(text) => res matches Ok(t) && t@ == text,
                    None => res == Err::<String, BasicError>(BasicError::InvalidAssociatedItem),
                },
    {
        let reading = Self::read_associated_item(tokens);
        Self::associated_item_from_reading(tokens, reading.1, reading.3)
    }

    /// The texts handed to `syn` for `assoc(tokens)`: the tokens, and the tokens with `;`
    /// added.
    pub fn associated_item_texts(tokens: &str) -> (res: (String, String))
        ensures
            res.0@ == tokens@,
            res.1@ == tokens@ + ";"@,
    {
        let mut with_semicolon = String::from_str(tokens);
        with_semicolon.append(";");
        (String::from_str(tokens), with_semicolon)
    }

    /// The text handed to `syn` for `bound = "text"`; none for another argument.
    pub fn bound_text(meta: &Meta) -> (res: Option<String>)
        ensures
            res is Some <==> (meta.path@ == "bound"@ && meta.kind matches MetaKind::NameValue(Some(_))),
            res matches Some(t) ==> meta.kind == MetaKind::NameValue(Some(t)),
    {
        if same_text(meta.path.as_str(), "bound") {
            if let MetaKind::NameValue(Some(bounds)) = &meta.kind {
                return Some(bounds.clone());
            }
        }
        None
    }

    /// Asks `syn` whether the tokens read as an impl item, and, when they do not, whether
    /// they do with `;` added; with the texts it was handed.
    fn read_associated_item(tokens: &str) -> (res: (String, bool, String, bool))
        ensures
            res.0@ == tokens@,
            !res.1 ==> res.2@ == tokens@ + ";"@,
    {
        let (text, with_semicolon) = Self::associated_item_texts(tokens);
        let (read, item) = impl_item_parses(text.as_str());
        let read = String::from_str(read);
        if item {
            (read, true, String::new(), false)
        } else {
            let (read_with_semicolon, item_with_semicolon) = impl_item_parses(with_semicolon.as_str());
            (read, false, String::from_str(read_with_semicolon), item_with_semicolon)
        }
    }

    /// What `syn` makes of one argument: the readings that `assoc(tokens)` and
    /// `bound = "text"` need, and nothing for other arguments.
    fn read_meta(meta: &Meta) -> (res: MetaReading)
        ensures
            reading_fits(*meta, res),
    {
        let mut reading = MetaReading {
            item_text: String::new(),
            item: false,
            item_with_semicolon_text: String::new(),
            item_with_semicolon: false,
            bounds_text: String::new(),
            predicates: None,
        };
        proof {
            reveal_strlit("assoc");
            reveal_strlit("bound");
            assert("assoc"@[0] != "bound"@[0]);
        }
        if same_text(meta.path.as_str(), "assoc") {
            if let MetaKind::List(tokens) = &meta.kind {
                let (item_text, item, item_with_semicolon_text, item_with_semicolon) = Self::read_associated_item(
                    tokens.as_str(),
                );
                reading.item_text = item_text;
                reading.item = item;
                reading.item_with_semicolon_text = item_with_semicolon_text;
                reading.item_with_semicolon = item_with_semicolon;
            }
        } else if let Some(bounds) = Self::bound_text(meta) {
            let (read, predicates) = parse_where_predicates(bounds.as_str());
            reading.bounds_text = String::from_str(read);
            reading.predicates = predicates;
        }
        reading
    }

    /// What `syn` makes of each argument of each attribute named `attribute_name`.
    pub fn read_attribute_args(input: &DeriveInput, attribute_name: &str) -> (res: Vec<Vec<MetaReading>>)
        ensures
            readings_fit(input.attrs@, attribute_name@, res@),
    {
        let mut res: Vec<Vec<MetaReading>> = Vec::new();
        let mut i: usize = 0;
        while i < input.attrs.len()
            invariant
                0 <= i <= input.attrs.len(),
                res.len() == i,
                forall|t: int| 0 <= t < i ==> row_fits(input.attrs@[t], attribute_name@, #[trigger] res@[t]),
            decreases input.attrs.len() - i,
        {
            let attribute = &input.attrs[i];
            let mut row: Vec<MetaReading> = Vec::new();
            if same_text(attribute.path.as_str(), attribute_name) {
                if let Some(metas) = &attribute.metas {
                    let mut j: usize = 0;
                    while j < metas.len()
                        invariant
                            0 <= j <= metas.len(),
                            row.len() == j,
                            forall|t: int| 0 <= t < j ==> reading_fits(metas@[t], #[trigger] row@[t]),
                        decreases metas.len() - j,
                    {
                        row.push(Self::read_meta(&metas[j]));
                        j = j + 1;
                    }
                }
            }
            res.push(row);
            i = i + 1;
        }
        res
    }

    /// Reads one argument of the attribute into the predicates and the items, given what
    /// `syn` made of it.
    fn parse_meta(
        meta: &Meta,
        reading: &MetaReading,
        predicates: &mut Vec<String>,
        associated_items: &mut Vec<String>,
        use_default_bounds: &mut bool,
    ) -> (res: Result<(), BasicError>)
        ensures
            match apply_meta(
                (string_views(old(predicates)@), string_views(old(associated_items)@), *old(use_default_bounds)),
                *meta,
                *reading,
            ) {
                Ok(state) => res is Ok && string_views(final(predicates)@) == state.0 && string_views(
                    final(associated_items)@,
                ) == state.1 && *final(use_default_bounds) == state.2,
                Err(e) => res == Err::<(), BasicError>(e),
            },
    {
        if same_text(meta.path.as_str(), "assoc") {
            match &meta.kind {
                MetaKind::List(tokens) => {
                    let item = match Self::associated_item_from_reading(
                        tokens.as_str(),
                        reading.item,
                        reading.item_with_semicolon,
                    ) {
                        Ok(item) => item,
                        Err(e) => {
                            return Err(e);
                        },
                    };
                    let ghost before = string_views(associated_items@);
                    associated_items.push(item);
                    proof {
                        assert(string_views(associated_items@) =~= before.push(item@));
                    }
                    Ok(())
                },
                _ => Err(BasicError::ExpectedList),
            }
        } else if same_text(meta.path.as_str(), "bound") {
            match &meta.kind {
                MetaKind::NameValue(Some(_)) => match &reading.predicates {
                    Some(parsed) => {
                        let ghost before = string_views(predicates@);
                        let mut k: usize = 0;
                        while k < parsed.len()
                            invariant
                                0 <= k <= parsed.len(),
                                string_views(predicates@) =~= before + string_views(parsed@).take(k as int),
                            decreases parsed.len() - k,
                        {
                            let ghost mid = string_views(predicates@);
                            predicates.push(parsed[k].clone());
                            proof {
                                assert(string_views(parsed@).take(k + 1) =~= string_views(parsed@).take(
                                    k as int,
                                ).push(parsed@[k as int]@));
                                assert(string_views(predicates@) =~= mid.push(parsed@[k as int]@));
                            }
                            k = k + 1;
                        }
                        proof {
                            assert(string_views(parsed@).take(parsed.len() as int) =~= string_views(parsed@));
                        }
                        *use_default_bounds = false;
                        Ok(())
                    },
                    None => Err(BasicError::InvalidBounds),
                },
                MetaKind::NameValue(None) => Err(BasicError::ExpectedStringLiteral),
                _ => Err(BasicError::ExpectedNameValue),
            }
        } else {
            Err(BasicError::UnexpectedArgument)
        }
    }

    /// Reads the arguments of one attribute in order, given what `syn` made of each.
    pub fn parse_attribute_args(
        metas: &Vec<Meta>,
        row: &Vec<MetaReading>,
        predicates: &mut Vec<String>,
        associated_items: &mut Vec<String>,
        use_default_bounds: &mut bool,
    ) -> (res: Result<(), BasicError>)
        requires
            row.len() == metas.len(),
        ensures
            match apply_metas(
                (string_views(old(predicates)@), string_views(old(associated_items)@), *old(use_default_bounds)),
                metas@,
                row@,
            ) {
                Ok(state) => res is Ok && string_views(final(predicates)@) == state.0 && string_views(
                    final(associated_items)@,
                ) == state.1 && *final(use_default_bounds) == state.2,
                Err(e) => res == Err::<(), BasicError>(e),
            },
    {
        let ghost start: BasicState = (
            string_views(predicates@),
            string_views(associated_items@),
            *use_default_bounds,
        );
        let mut i: usize = 0;
        proof {
            assert(metas@.take(0) =~= Seq::<Meta>::empty());
        }
        while i < metas.len()
            invariant
                0 <= i <= metas.len(),
                row.len() == metas.len(),
                apply_metas(start, metas@.take(i as int), row@) == Ok::<BasicState, BasicError>(
                    (string_views(predicates@), string_views(associated_items@), *use_default_bounds),
                ),
                start == (
                    string_views(old(predicates)@),
                    string_views(old(associated_items)@),
                    *old(use_default_bounds),
                ),
            decreases metas.len() - i,
        {
            proof {
                let t = metas@.take(i + 1);
                assert(t.drop_last() =~= metas@.take(i as int));
                assert(t.last() == metas@[i as int]);
            }
            let step = Self::parse_meta(&metas[i], &row[i], predicates, associated_items, use_default_bounds);
            if let Err(e) = step {
                proof {
                    lemma_apply_metas_stops(start, metas@, row@, i + 1);
                }
                return Err(e);
            }
            i = i + 1;
        }
        proof {
            assert(metas@.take(metas.len() as int) =~= metas@);
        }
        Ok(())
    }

    /// The `where` predicates and the associated items of the generated impl. What `syn`
    /// makes of the attribute's arguments is not stated; whatever it made of them, the
    /// result is that of [`Self::generics_and_associated_items_from_readings`] on it.
    pub fn get_generics_and_associated_items(input: &DeriveInput, trait_path: &str, attribute_name: &str) -> (res:
        Result<(Vec<String>, Vec<String>), BasicError>)
        ensures
            exists|readings: Seq<Vec<MetaReading>>|
                #![trigger generics_and_associated_items(*input, trait_path@, attribute_name@, readings)]
                readings_fit(input.attrs@, attribute_name@, readings) && parts_view(res)
                    == generics_and_associated_items(*input, trait_path@, attribute_name@, readings),
    {
        let readings = Self::read_attribute_args(input, attribute_name);
        Self::generics_and_associated_items_from_readings(input, trait_path, attribute_name, &readings)
    }

    /// The `where` predicates and the associated items of the generated impl, given what
    /// `syn` made of each argument of each attribute named `attribute_name`.
    pub fn generics_and_associated_items_from_readings(
        input: &DeriveInput,
        trait_path: &str,
        attribute_name: &str,
        readings: &Vec<Vec<MetaReading>>,
    ) -> (res: Result<(Vec<String>, Vec<String>), BasicError>)
        requires
            readings_fit(input.attrs@, attribute_name@, readings@),
        ensures
            parts_view(res) == generics_and_associated_items(*input, trait_path@, attribute_name@, readings@),
    {
        let mut predicates: Vec<String> = input.generics.where_predicates.clone();
        let mut associated_items: Vec<String> = Vec::new();
        let mut use_default_bounds = true;
        let ghost start: BasicState = (
            string_views(input.generics.where_predicates@),
            Seq::empty(),
            true,
        );
        proof {
            assert(predicates@ == input.generics.where_predicates@);
            assert(string_views(associated_items@) =~= Seq::<Seq<char>>::empty());
            assert(input.attrs@.take(0) =~= Seq::<Attribute>::empty());
        }
        let mut i: usize = 0;
        while i < input.attrs.len()
            invariant
                0 <= i <= input.attrs.len(),
                readings_fit(input.attrs@, attribute_name@, readings@),
                start == (string_views(input.generics.where_predicates@), Seq::<Seq<char>>::empty(), true),
                apply_attrs(start, input.attrs@.take(i as int), attribute_name@, readings@) == Ok::<
                    BasicState,
                    BasicError,
                >((string_views(predicates@), string_views(associated_items@), use_default_bounds)),
            decreases input.attrs.len() - i,
        {
            let attribute = &input.attrs[i];
            proof {
                let t = input.attrs@.take(i + 1);
                assert(t.drop_last() =~= input.attrs@.take(i as int));
                assert(t.last() == input.attrs@[i as int]);
                assert(row_fits(input.attrs@[i as int], attribute_name@, readings@[i as int]));
            }
            if same_text(attribute.path.as_str(), attribute_name) {
                match &attribute.metas {
                    None => {
                        proof {
                            lemma_apply_attrs_stops(start, input.attrs@, i + 1, attribute_name@, readings@);
                        }
                        return Err(BasicError::InvalidAttributeArguments);
                    },
                    Some(metas) => {
                        let step = Self::parse_attribute_args(
                            metas,
                            &readings[i],
                            &mut predicates,
                            &mut associated_items,
                            &mut use_default_bounds,
                        );
                        if let Err(e) = step {
                            proof {
                                lemma_apply_attrs_stops(start, input.attrs@, i + 1, attribute_name@, readings@);
                            }
                            return Err(e);
                        }
                    },
                }
            }
            i = i + 1;
        }
        proof {
            assert(input.attrs@.take(input.attrs.len() as int) =~= input.attrs@);
        }
        if use_default_bounds {
            let ghost before = string_views(predicates@);
            let type_params = &input.generics.type_params;
            let mut j: usize = 0;
            while j < type_params.len()
                invariant
                    0 <= j <= type_params.len(),
                    string_views(predicates@) =~= before + default_bounds(
                        string_views(type_params@).take(j as int),
                        trait_path@,
                    ),
                decreases type_params.len() - j,
            {
                let mut bound = type_params[j].clone();
                bound.append(": ");
                bound.append(trait_path);
                let ghost mid = string_views(predicates@);
                predicates.push(bound);
                proof {
                    assert(string_views(predicates@) =~= mid.push(bound@));
                    assert(default_bounds(string_views(type_params@).take(j + 1), trait_path@) =~= default_bounds(
                        string_views(type_params@).take(j as int),
                        trait_path@,
                    ).push(bound@));
                }
                j = j + 1;
            }
            proof {
                assert(string_views(type_params@).take(type_params.len() as int) =~= string_views(type_params@));
            }
        }
        Ok((predicates, associated_items))
    }

    fn where_clause(predicates: &Vec<String>) -> (res: String)
        ensures
            res@ == where_clause_text(string_views(predicates@)),
    {
        if predicates.len() == 0 {
            String::new()
        } else {
            let mut res = String::from_str("where ");
            let joined_text = join(predicates, ", ");
            res.append(joined_text.as_str());
            res
        }
    }

    /// `impl Trait for Name { items fn method(&self, other: &Other) -> Self { value } }`,
    /// where `value` applies the method field by field.
    /// What `syn` makes of the attribute's arguments is not stated; whatever it made of them,
    /// the result is that of [`Self::derive_impl_from_readings`] on it.
    pub fn derive_impl(
        input: &DeriveInput,
        trait_path: &str,
        method: &str,
        other_type: &str,
        attribute_name: &str,
    ) -> (res: Result<String, BasicError>)
        ensures
            exists|readings: Seq<Vec<MetaReading>>|
                #![trigger basic_derive(*input, trait_path@, method@, other_type@, attribute_name@, readings)]
                readings_fit(input.attrs@, attribute_name@, readings) && text_view(res) == basic_derive(
                    *input,
                    trait_path@,
                    method@,
                    other_type@,
                    attribute_name@,
                    readings,
                ),
    {
        let readings = Self::read_attribute_args(input, attribute_name);
        Self::derive_impl_from_readings(input, trait_path, method, other_type, attribute_name, &readings)
    }

    /// The impl, given what `syn` made of each argument of each attribute named
    /// `attribute_name`.
    pub fn derive_impl_from_readings(
        input: &DeriveInput,
        trait_path: &str,
        method: &str,
        other_type: &str,
        attribute_name: &str,
        readings: &Vec<Vec<MetaReading>>,
    ) -> (res: Result<String, BasicError>)
        requires
            readings_fit(input.attrs@, attribute_name@, readings@),
        ensures
            text_view(res) == basic_derive(*input, trait_path@, method@, other_type@, attribute_name@, readings@),
    {
        let (predicates, associated_items) = match Self::generics_and_associated_items_from_readings(
            input,
            trait_path,
            attribute_name,
            readings,
        ) {
            Ok(parts) => parts,
            Err(e) => {
                return Err(e);
            },
        };
        let value = match Self::value(input, trait_path, method) {
            Ok(value) => value,
            Err(e) => {
                return Err(e);
            },
        };
        let where_text = Self::where_clause(&predicates);
        let items_text = join(&associated_items, " ");
        let mut res = String::from_str("impl");
        res.append(input.header.impl_generics.as_str());
        res.append(" ");
        res.append(trait_path);
        res.append(" for ");
        res.append(input.header.ident.as_str());
        res.append(input.header.type_generics.as_str());
        res.append(" ");
        res.append(where_text.as_str());
        res.append(" { ");
        res.append(items_text.as_str());
        res.append(" fn ");
        res.append(method);
        res.append("(&self, other: &");
        res.append(other_type);
        res.append(") -> Self { ");
        res.append(value.as_str());
        res.append(" } }");
        Ok(res)
    }
}

} // verus!
