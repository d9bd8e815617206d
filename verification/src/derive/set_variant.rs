use vstd::prelude::*;
use vstd::string::StringExecFns;
use crate::derive::shape::{impl_block, impl_block_text, Data, DeriveInput, Fields, Variant};
use crate::derive::text::{join, joined, string_views};

verus! {

/// The snake case form of a name, as `heck` computes it.
pub uninterp spec fn snake_case_of(name: Seq<char>) -> Seq<char>;

/// The snake case form of `name`, computed by `heck::AsSnakeCase`; nothing more than that
/// it is a function of `name` is stated about it.
#[verifier::external_body]
fn snake_case(name: &str) -> (res: String)
    ensures
        res@ == snake_case_of(name@),
{
    heck::AsSnakeCase(name).to_string()
}

/// `set_` followed by the snake case form of the variant's name.
pub open spec fn setter_name(variant: Variant) -> Seq<char> {
    "set_"@ + snake_case_of(variant.ident@)
}

/// The setter generated for a unit variant.
pub open spec fn setter_text(variant: Variant) -> Seq<char> {
    "pub fn "@ + setter_name(variant) + "(&mut self) -> &mut Self { *self = Self::"@
        + variant.ident@ + "; self }"@
}

/// The setters of the unit variants, in order.
pub open spec fn setter_texts(variants: Seq<Variant>) -> Seq<Seq<char>>
    decreases variants.len(),
{
    if variants.len() == 0 {
        Seq::empty()
    } else {
        let prev = setter_texts(variants.drop_last());
        if variants.last().fields is Unit {
            prev.push(setter_text(variants.last()))
        } else {
            prev
        }
    }
}

/// The macro that gives an enum a `set_*()` method for each unit variant.
pub struct SetVariant;

impl SetVariant {
    /// The name of the setter of a unit variant; none for other variants.
    pub fn method_name(variant: &Variant) -> (res: Option<String>)
        ensures
            variant.fields is Unit ==> (res matches Some(name) && name@ == setter_name(*variant)),
            !(variant.fields is Unit) ==> res is None,
    {
        match variant.fields {
            Fields::Unit => {
                let snake = snake_case(variant.ident.as_str());
                let mut name = String::from_str("set_");
                name.append(snake.as_str());
                Some(name)
            },
            _ => None,
        }
    }

    /// The setter of a unit variant; none for other variants.
    pub fn method_block_from_variant(variant: &Variant) -> (res: Option<String>)
        ensures
            variant.fields is Unit ==> (res matches Some(block) && block@ == setter_text(*variant)),
            !(variant.fields is Unit) ==> res is None,
    {
        match Self::method_name(variant) {
            Some(name) => {
                let mut block = String::from_str("pub fn ");
                block.append(name.as_str());
                block.append("(&mut self) -> &mut Self { *self = Self::");
                block.append(variant.ident.as_str());
                block.append("; self }");
                Some(block)
            },
            None => None,
        }
    }

    /// The setters for an enum's unit variants; none for other items.
    pub fn method_blocks(input: &DeriveInput) -> (res: Vec<String>)
        ensures
            input.data matches Data::Enum(variants) ==> string_views(res@) == setter_texts(variants@),
            !(input.data is Enum) ==> res@.len() == 0,
    {
        let mut res: Vec<String> = Vec::new();
        if let Data::Enum(variants) = &input.data {
            let mut i: usize = 0;
            while i < variants.len()
                invariant
                    0 <= i <= variants.len(),
                    string_views(res@) == setter_texts(variants@.take(i as int)),
                decreases variants.len() - i,
            {
                proof {
                    assert(variants@.take(i + 1).drop_last() =~= variants@.take(i as int));
                }
                let ghost before = res@;
                if let Some(block) = Self::method_block_from_variant(&variants[i]) {
                    res.push(block);
                    proof {
                        assert(string_views(res@) =~= string_views(before).push(block@));
                    }
                }
                i = i + 1;
            }
            proof {
                assert(variants@.take(variants.len() as int) =~= variants@);
            }
        }
        res
    }

    /// The impl block that the macro generates.
    pub fn derive_impl(input: &DeriveInput) -> (res: String)
        ensures
            input.data matches Data::Enum(variants) ==> res@ == impl_block_text(
                input.header,
                joined(setter_texts(variants@), " "@),
            ),
            !(input.data is Enum) ==> res@ == impl_block_text(input.header, Seq::empty()),
    {
        let blocks = Self::method_blocks(input);
        let body = join(&blocks, " ");
        impl_block(&input.header, body.as_str())
    }
}

} // verus!
