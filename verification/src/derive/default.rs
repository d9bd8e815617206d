use vstd::prelude::*;
use vstd::string::StringExecFns;
use crate::derive::constructor::DeriveError;
use crate::derive::shape::{trait_impl_block, trait_impl_block_text, Attribute, Data, DeriveInput, Field, Fields};
use crate::derive::text::{join, joined, same_text, string_views};

verus! {

/// `syn::parse_str::<syn::Expr>` on `text`: the text it read, handed back, and whether it
/// reads as an expression. Nothing is stated of the answer: `proc-macro2` picks the lexer
/// that reads the text while the program runs, so the answer is not fixed by the text alone.
#[verifier::external_body]
fn expr_parses(text: &str) -> (res: (&str, bool))
    ensures
        res.0 == text,
{
    (text, syn::parse_str::<syn::Expr>(text).is_ok())
}

/// What `syn` made of a field's `default` expression: the text it was handed (empty for a
/// field without the attribute) and whether it reads as an expression.
pub struct ExprReading {
    pub text: String,
    pub parses: bool,
}

/// A text result, as text.
pub open spec fn text_view(res: Result<String, DeriveError>) -> Result<Seq<char>, DeriveError> {
    match res {
        Ok(t) => Ok(t@),
        Err(e) => Err(e),
    }
}

/// One reading per field of the struct, which was handed the tokens of the field's first
/// `default` attribute, and reads true for a field without one.
pub open spec fn verdicts_fit(data: Data, verdicts: Seq<ExprReading>) -> bool {
    match data {
        Data::Struct(Fields::Named(fs)) => fields_fit(fs@, verdicts),
        Data::Struct(Fields::Unnamed(fs)) => fields_fit(fs@, verdicts),
        _ => true,
    }
}

pub open spec fn fields_fit(fields: Seq<Field>, verdicts: Seq<ExprReading>) -> bool {
    &&& verdicts.len() == fields.len()
    &&& forall|i: int| 0 <= i < fields.len() ==> reading_fits(fields[i], #[trigger] verdicts[i])
}

/// The reading answers the field: `syn` was handed the tokens of its first `default`
/// attribute; a field without one reads true.
pub open spec fn reading_fits(field: Field, reading: ExprReading) -> bool {
    match default_attribute_tokens(field.attrs@) {
        Some(tokens) => reading.text@ == tokens,
        None => reading.parses,
    }
}

/// The tokens of the first attribute named `default`.
pub open spec fn default_attribute_tokens(attrs: Seq<Attribute>) -> Option<Seq<char>>
    decreases attrs.len(),
{
    if attrs.len() == 0 {
        None
    } else if attrs[0].path@ == "default"@ {
        Some(attrs[0].tokens@)
    } else {
        default_attribute_tokens(attrs.drop_first())
    }
}

/// The value of a field: the expression of its `default` attribute, or `Default::default()`.
/// `expr_ok` says whether the tokens of the field's `default` attribute read as an
/// expression.
pub open spec fn default_field_value_of(field: Field, expr_ok: bool) -> Result<Seq<char>, DeriveError> {
    match default_attribute_tokens(field.attrs@) {
        Some(tokens) => if expr_ok {
            Ok(tokens)
        } else {
            Err(DeriveError::InvalidExpression)
        },
        None => Ok("::std::default::Default::default()"@),
    }
}

/// `name: value` for each field, or the first field's error.
pub open spec fn default_assignments(fields: Seq<Field>, verdicts: Seq<ExprReading>) -> Result<Seq<Seq<char>>, DeriveError>
    decreases fields.len(),
{
    if fields.len() == 0 {
        Ok(Seq::empty())
    } else {
        match default_assignments(fields.drop_last(), verdicts) {
            Ok(prev) => match fields.last().ident {
                None => Err(DeriveError::CStructFieldMissingName),
                Some(name) => match default_field_value_of(fields.last(), verdicts[fields.len() - 1].parses) {
                    Ok(value) => Ok(prev.push(name@ + ": "@ + value)),
                    Err(e) => Err(e),
                },
            },
            Err(e) => Err(e),
        }
    }
}

/// The value of each field, or the first field's error.
pub open spec fn default_values(fields: Seq<Field>, verdicts: Seq<ExprReading>) -> Result<Seq<Seq<char>>, DeriveError>
    decreases fields.len(),
{
    if fields.len() == 0 {
        Ok(Seq::empty())
    } else {
        match default_values(fields.drop_last(), verdicts) {
            Ok(prev) => match default_field_value_of(fields.last(), verdicts[fields.len() - 1].parses) {
                Ok(value) => Ok(prev.push(value)),
                Err(e) => Err(e),
            },
            Err(e) => Err(e),
        }
    }
}

/// The default value of the struct.
pub open spec fn default_value_of(data: Data, verdicts: Seq<ExprReading>) -> Result<Seq<char>, DeriveError> {
    match data {
        Data::Struct(Fields::Named(fs)) => match default_assignments(fs@, verdicts) {
            Ok(assignments) => Ok("Self { "@ + joined(assignments, ", "@) + " }"@),
            Err(e) => Err(e),
        },
        Data::Struct(Fields::Unnamed(fs)) => match default_values(fs@, verdicts) {
            Ok(values) => Ok("Self("@ + joined(values, ", "@) + ")"@),
            Err(e) => Err(e),
        },
        Data::Struct(Fields::Unit) => Ok("Self"@),
        _ => Err(DeriveError::UnsupportedItemType),
    }
}

/// The body of the generated `Default` impl.
pub open spec fn default_fn_text(value: Seq<char>) -> Seq<char> {
    "fn default() -> Self { "@ + value + " }"@
}

proof fn lemma_results_stop<T>(f: spec_fn(Seq<Field>) -> Result<T, DeriveError>, fields: Seq<Field>, k: int)
    requires
        0 <= k <= fields.len(),
        f(fields.take(k)) is Err,
        forall|s: Seq<Field>| #![trigger f(s)] s.len() > 0 && f(s.drop_last()) is Err ==> f(s) == f(s.drop_last()),
    ensures
        f(fields) == f(fields.take(k)),
    decreases fields.len() - k,
{
    if k < fields.len() {
        assert(fields.take(k + 1).drop_last() =~= fields.take(k));
        lemma_results_stop(f, fields, k + 1);
    } else {
        assert(fields.take(k) =~= fields);
    }
}

/// The macro that implements `Default` field by field, with a `default(expr)` attribute
/// to give a field another value.
pub struct Default;

impl Default {
    pub fn std_default_field_value() -> (res: String)
        ensures
            res@ == "::std::default::Default::default()"@,
    {
        String::from_str("::std::default::Default::default()")
    }

    /// The text handed to `syn` for a field: the tokens of its first `default` attribute;
    /// none when it has no such attribute.
    pub fn default_expression_text(field: &Field) -> (res: Option<String>)
        ensures
            match default_attribute_tokens(field.attrs@) {
                Some(tokens) => res matches Some(t) && t@ == tokens,
                None => res is None,
            },
    {
        let mut i: usize = 0;
        proof {
            assert(field.attrs@.skip(0) =~= field.attrs@);
        }
        while i < field.attrs.len()
            invariant
                0 <= i <= field.attrs.len(),
                default_attribute_tokens(field.attrs@) == default_attribute_tokens(field.attrs@.skip(i as int)),
            decreases field.attrs.len() - i,
        {
            let attribute = &field.attrs[i];
            proof {
                assert(field.attrs@.skip(i as int)[0] == *attribute);
                assert(field.attrs@.skip(i as int).drop_first() =~= field.attrs@.skip(i + 1));
            }
            if same_text(attribute.path.as_str(), "default") {
                return Some(attribute.tokens.clone());
            }
            i = i + 1;
        }
        proof {
            assert(field.attrs@.skip(field.attrs.len() as int) =~= Seq::<Attribute>::empty());
        }
        None
    }

    /// Asks `syn` whether the tokens of the field's first `default` attribute read as an
    /// expression; true, with no text, when it has none.
    fn read_expression(field: &Field) -> (res: ExprReading)
        ensures
            reading_fits(*field, res),
    {
        match Self::default_expression_text(field) {
            Some(text) => {
                let (read, parses) = expr_parses(text.as_str());
                ExprReading { text: String::from_str(read), parses }
            },
            None => ExprReading { text: String::new(), parses: true },
        }
    }

    /// Asks `syn` about the `default` expression of each field of the struct.
    pub fn verdicts(data: &Data) -> (res: Vec<ExprReading>)
        ensures
            verdicts_fit(*data, res@),
    {
        let mut res: Vec<ExprReading> = Vec::new();
        match data {
            Data::Struct(Fields::Named(fields)) | Data::Struct(Fields::Unnamed(fields)) => {
                let mut i: usize = 0;
                while i < fields.len()
                    invariant
                        0 <= i <= fields.len(),
                        res.len() == i,
                        forall|t: int| 0 <= t < i ==> reading_fits(fields@[t], #[trigger] res@[t]),
                    decreases fields.len() - i,
                {
                    res.push(Self::read_expression(&fields[i]));
                    i = i + 1;
                }
            },
            _ => {},
        }
        res
    }

    /// The expression of the field's first `default` attribute, or `Default::default()`;
    /// `expr_ok` says whether that expression reads as one.
    pub fn default_field_value_given(field: &Field, expr_ok: bool) -> (res: Result<String, DeriveError>)
        ensures
            text_view(res) == default_field_value_of(*field, expr_ok),
    {
        let mut i: usize = 0;
        proof {
            assert(field.attrs@.skip(0) =~= field.attrs@);
        }
        while i < field.attrs.len()
            invariant
                0 <= i <= field.attrs.len(),
                default_attribute_tokens(field.attrs@) == default_attribute_tokens(field.attrs@.skip(i as int)),
            decreases field.attrs.len() - i,
        {
            let attribute = &field.attrs[i];
            proof {
                assert(field.attrs@.skip(i as int)[0] == *attribute);
                assert(field.attrs@.skip(i as int).drop_first() =~= field.attrs@.skip(i + 1));
            }
            if same_text(attribute.path.as_str(), "default") {
                if expr_ok {
                    return Ok(attribute.tokens.clone());
                } else {
                    return Err(DeriveError::InvalidExpression);
                }
            }
            i = i + 1;
        }
        proof {
            assert(field.attrs@.skip(field.attrs.len() as int) =~= Seq::<Attribute>::empty());
        }
        Ok(Self::std_default_field_value())
    }

    /// The expression of the field's first `default` attribute, or `Default::default()`.
    /// Whether `syn` reads the expression is not stated; whatever it answers, the result is
    /// that of [`Self::default_field_value_given`] on the answer.
    pub fn default_field_value(field: &Field) -> (res: Result<String, DeriveError>)
        ensures
            exists|expr_ok: bool| #[trigger] default_field_value_of(*field, expr_ok) == text_view(res),
    {
        let reading = Self::read_expression(field);
        Self::default_field_value_given(field, reading.parses)
    }

    /// `name: value`, or an error for a field without a name.
    pub fn default_field_assignment(field: &Field, expr_ok: bool) -> (res: Result<String, DeriveError>)
        ensures
            field.ident is None ==> res == Err::<String, DeriveError>(DeriveError::CStructFieldMissingName),
            field.ident matches Some(name) ==> match default_field_value_of(*field, expr_ok) {
                Ok(value) => res matches Ok(text) && text@ == name@ + ": "@ + value,
                Err(e) => res == Err::<String, DeriveError>(e),
            },
    {
        match &field.ident {
            None => Err(DeriveError::CStructFieldMissingName),
            Some(name) => match Self::default_field_value_given(field, expr_ok) {
                Ok(value) => {
                    let mut res = name.clone();
                    res.append(": ");
                    res.append(value.as_str());
                    Ok(res)
                },
                Err(e) => Err(e),
            },
        }
    }

    pub fn default_value_for_c_struct(fields: &Vec<Field>, verdicts: &Vec<ExprReading>) -> (res: Result<String, DeriveError>)
        requires
            verdicts.len() == fields.len(),
        ensures
            text_view(res) == default_value_of(Data::Struct(Fields::Named(*fields)), verdicts@),
    {
        let mut assignments: Vec<String> = Vec::new();
        let mut i: usize = 0;
        proof {
            assert(fields@.take(0) =~= Seq::<Field>::empty());
            assert(string_views(assignments@) =~= Seq::<Seq<char>>::empty());
        }
        while i < fields.len()
            invariant
                0 <= i <= fields.len(),
                verdicts.len() == fields.len(),
                default_assignments(fields@.take(i as int), verdicts@) == Ok::<Seq<Seq<char>>, DeriveError>(
                    string_views(assignments@),
                ),
            decreases fields.len() - i,
        {
            proof {
                let t = fields@.take(i + 1);
                assert(t.drop_last() =~= fields@.take(i as int));
                assert(t.last() == fields@[i as int]);
            }
            match Self::default_field_assignment(&fields[i], verdicts[i].parses) {
                Ok(text) => {
                    let ghost before = string_views(assignments@);
                    assignments.push(text);
                    proof {
                        assert(string_views(assignments@) =~= before.push(text@));
                    }
                },
                Err(e) => {
                    proof {
                        lemma_results_stop(|s: Seq<Field>| default_assignments(s, verdicts@), fields@, i + 1);
                    }
                    return Err(e);
                },
            }
            i = i + 1;
        }
        proof {
            assert(fields@.take(fields.len() as int) =~= fields@);
        }
        let joined_text = join(&assignments, ", ");
        let mut res = String::from_str("Self { ");
        res.append(joined_text.as_str());
        res.append(" }");
        Ok(res)
    }

    pub fn default_value_for_tuple_struct(fields: &Vec<Field>, verdicts: &Vec<ExprReading>) -> (res: Result<
        String,
        DeriveError,
    >)
        requires
            verdicts.len() == fields.len(),
        ensures
            text_view(res) == default_value_of(Data::Struct(Fields::Unnamed(*fields)), verdicts@),
    {
        let mut values: Vec<String> = Vec::new();
        let mut i: usize = 0;
        proof {
            assert(fields@.take(0) =~= Seq::<Field>::empty());
            assert(string_views(values@) =~= Seq::<Seq<char>>::empty());
        }
        while i < fields.len()
            invariant
                0 <= i <= fields.len(),
                verdicts.len() == fields.len(),
                default_values(fields@.take(i as int), verdicts@) == Ok::<Seq<Seq<char>>, DeriveError>(
                    string_views(values@),
                ),
            decreases fields.len() - i,
        {
            proof {
                let t = fields@.take(i + 1);
                assert(t.drop_last() =~= fields@.take(i as int));
                assert(t.last() == fields@[i as int]);
            }
            match Self::default_field_value_given(&fields[i], verdicts[i].parses) {
                Ok(text) => {
                    let ghost before = string_views(values@);
                    values.push(text);
                    proof {
                        assert(string_views(values@) =~= before.push(text@));
                    }
                },
                Err(e) => {
                    proof {
                        lemma_results_stop(|s: Seq<Field>| default_values(s, verdicts@), fields@, i + 1);
                    }
                    return Err(e);
                },
            }
            i = i + 1;
        }
        proof {
            assert(fields@.take(fields.len() as int) =~= fields@);
        }
        let joined_text = join(&values, ", ");
        let mut res = String::from_str("Self(");
        res.append(joined_text.as_str());
        res.append(")");
        Ok(res)
    }

    pub fn default_value_for_unit_struct() -> (res: String)
        ensures
            res@ == "Self"@,
    {
        String::from_str("Self")
    }

    /// The default value of the struct, given the verdicts on its fields' `default`
    /// expressions; an error for other items.
    pub fn default_value(input: &DeriveInput, verdicts: &Vec<ExprReading>) -> (res: Result<String, DeriveError>)
        requires
            verdicts_fit(input.data, verdicts@),
        ensures
            text_view(res) == default_value_of(input.data, verdicts@),
    {
        match &input.data {
            Data::Struct(Fields::Named(fields)) => Self::default_value_for_c_struct(fields, verdicts),
            Data::Struct(Fields::Unnamed(fields)) => Self::default_value_for_tuple_struct(fields, verdicts),
            Data::Struct(Fields::Unit) => Ok(Self::default_value_for_unit_struct()),
            _ => Err(DeriveError::UnsupportedItemType),
        }
    }

    /// `impl ::std::default::Default for Name { fn default() -> Self { value } }`, given the
    /// verdicts on the fields' `default` expressions.
    pub fn derive_impl_given(input: &DeriveInput, verdicts: &Vec<ExprReading>) -> (res: Result<String, DeriveError>)
        requires
            verdicts_fit(input.data, verdicts@),
        ensures
            match default_value_of(input.data, verdicts@) {
                Ok(value) => res matches Ok(text) && text@ == trait_impl_block_text(
                    input.header,
                    "::std::default::Default"@,
                    default_fn_text(value),
                ),
                Err(e) => res == Err::<String, DeriveError>(e),
            },
    {
        match Self::default_value(input, verdicts) {
            Ok(value) => {
                let mut body = String::from_str("fn default() -> Self { ");
                body.append(value.as_str());
                body.append(" }");
                Ok(trait_impl_block(&input.header, "::std::default::Default", body.as_str()))
            },
            Err(e) => Err(e),
        }
    }

    /// `impl ::std::default::Default for Name { fn default() -> Self { value } }`. Whether
    /// `syn` reads each `default` expression is not stated; whatever it answers, the result
    /// is that of [`Self::derive_impl_given`] on the answers.
    pub fn derive_impl(input: &DeriveInput) -> (res: Result<String, DeriveError>)
        ensures
            exists|verdicts: Seq<ExprReading>|
                #![trigger default_value_of(input.data, verdicts)]
                verdicts_fit(input.data, verdicts) && match default_value_of(input.data, verdicts) {
                    Ok(value) => res matches Ok(text) && text@ == trait_impl_block_text(
                        input.header,
                        "::std::default::Default"@,
                        default_fn_text(value),
                    ),
                    Err(e) => res == Err::<String, DeriveError>(e),
                },
    {
        let verdicts = Self::verdicts(&input.data);
        Self::derive_impl_given(input, &verdicts)
    }
}

} // verus!
