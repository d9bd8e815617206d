use vstd::prelude::*;
use vstd::string::StringExecFns;
use crate::derive::shape::{impl_block, impl_block_text, Data, DeriveInput, Fields, Variant};
use crate::derive::text::{join, joined, string_views};

verus! {

pub open spec fn is_unit(variant: Variant) -> bool {
    variant.fields is Unit
}

/// The names of the unit variants, in order.
pub open spec fn unit_idents(variants: Seq<Variant>) -> Seq<Seq<char>>
    decreases variants.len(),
{
    if variants.len() == 0 {
        Seq::empty()
    } else {
        let prev = unit_idents(variants.drop_last());
        if is_unit(variants.last()) {
            prev.push(variants.last().ident@)
        } else {
            prev
        }
    }
}

/// The position, among the unit variants, of the variant that variant `i` toggles to: the
/// unit variant after the last unit variant up to and including `i`, cyclically.
pub open spec fn toggle_target(variants: Seq<Variant>, i: int) -> int {
    (unit_idents(variants.take(i + 1)).len() as int) % (unit_idents(variants).len() as int)
}

/// A unit variant toggles to the next unit variant, and the last unit variant to the
/// first; any other variant toggles to the first unit variant after it, cyclically.
pub proof fn lemma_toggle_target_is_next_unit(variants: Seq<Variant>, i: int)
    requires
        0 <= i < variants.len(),
        unit_idents(variants).len() > 0,
    ensures
        is_unit(variants[i]) ==> toggle_target(variants, i) == (unit_idents(variants.take(i)).len() as int + 1)
            % (unit_idents(variants).len() as int),
        !is_unit(variants[i]) ==> toggle_target(variants, i) == (unit_idents(variants.take(i)).len() as int) % (
        unit_idents(variants).len() as int),
        0 <= toggle_target(variants, i) < unit_idents(variants).len(),
{
    assert(variants.take(i + 1).drop_last() =~= variants.take(i));
    assert(variants.take(i + 1).last() == variants[i]);
}

/// The pattern that matches a variant: `Self::A`, `Self::A { .. }` for a variant with named
/// fields and `Self::A(..)` for a variant with unnamed fields.
pub open spec fn arm_pattern(variant: Variant) -> Seq<char> {
    match variant.fields {
        Fields::Unit => "Self::"@ + variant.ident@,
        Fields::Named(_) => "Self::"@ + variant.ident@ + " { .. }"@,
        Fields::Unnamed(_) => "Self::"@ + variant.ident@ + "(..)"@,
    }
}

/// The match arm generated for variant `i`.
pub open spec fn toggle_arm(variants: Seq<Variant>, i: int) -> Seq<char> {
    arm_pattern(variants[i]) + " => Self::"@ + unit_idents(variants)[toggle_target(variants, i)]
        + ","@
}

/// The `toggled` and `toggle` methods around the generated match arms.
pub open spec fn toggle_methods_text(arms: Seq<char>) -> Seq<char> {
    "pub fn toggled(&self) -> Self { match self { "@ + arms
        + " } } pub fn toggle(&mut self) -> &mut Self { *self = self.toggled(); self }"@
}

/// Why the toggle methods could not be generated.
#[derive(Clone, Copy, Debug, PartialEq, Eq, Structural)]
pub enum ToggleError {
    /// The enum has variants, none of them a unit variant.
    NoUnitVariants,
}

/// The macro that gives an enum `toggled()`, mapping each variant to the next unit variant.
pub struct Toggle;

impl Toggle {
    /// The name of a unit variant; none for other variants.
    pub fn unit_variant_ident(variant: &Variant) -> (res: Option<&String>)
        ensures
            is_unit(*variant) ==> res == Some(&variant.ident),
            !is_unit(*variant) ==> res is None,
    {
        match variant.fields {
            Fields::Unit => Some(&variant.ident),
            _ => None,
        }
    }

    /// For each variant, the position among the unit variants of the variant it toggles to.
    pub fn toggle_targets(variants: &Vec<Variant>) -> (res: Vec<usize>)
        requires
            variants.len() == 0 || unit_idents(variants@).len() > 0,
        ensures
            res.len() == variants.len(),
            forall|i: int| 0 <= i < variants.len() ==> res[i] == toggle_target(variants@, i),
    {
        let unit_count = Self::unit_variant_idents(variants).len();
        let mut res: Vec<usize> = Vec::new();
        let mut index: usize = 0;
        let mut i: usize = 0;
        while i < variants.len()
            invariant
                0 <= i <= variants.len(),
                unit_count == unit_idents(variants@).len(),
                variants.len() == 0 || unit_count > 0,
                index == unit_idents(variants@.take(i as int)).len(),
                index <= i,
                res.len() == i,
                forall|j: int| 0 <= j < i ==> res[j] == toggle_target(variants@, j),
            decreases variants.len() - i,
        {
            proof {
                assert(variants@.take(i + 1).drop_last() =~= variants@.take(i as int));
            }
            if let Fields::Unit = variants[i].fields {
                index = index + 1;
            }
            res.push(index % unit_count);
            i = i + 1;
        }
        res
    }

    /// The names of the unit variants, in order.
    pub fn unit_variant_idents(variants: &Vec<Variant>) -> (res: Vec<String>)
        ensures
            string_views(res@) == unit_idents(variants@),
    {
        let mut res: Vec<String> = Vec::new();
        let mut i: usize = 0;
        while i < variants.len()
            invariant
                0 <= i <= variants.len(),
                string_views(res@) == unit_idents(variants@.take(i as int)),
            decreases variants.len() - i,
        {
            proof {
                assert(variants@.take(i + 1).drop_last() =~= variants@.take(i as int));
            }
            if let Some(ident) = Self::unit_variant_ident(&variants[i]) {
                let ident = ident.clone();
                let ghost before = res@;
                res.push(ident);
                proof {
                    assert(string_views(res@) =~= string_views(before).push(ident@));
                }
            }
            i = i + 1;
        }
        proof {
            assert(variants@.take(variants.len() as int) =~= variants@);
        }
        res
    }

    /// One match arm per variant: its pattern, then the unit variant it toggles to.
    pub fn match_arms(variants: &Vec<Variant>) -> (res: Vec<String>)
        requires
            variants.len() == 0 || unit_idents(variants@).len() > 0,
        ensures
            res.len() == variants.len(),
            forall|i: int| 0 <= i < variants.len() ==> #[trigger] res[i]@ == toggle_arm(variants@, i),
    {
        let unit_variant_idents = Self::unit_variant_idents(variants);
        let targets = Self::toggle_targets(variants);
        let mut res: Vec<String> = Vec::new();
        let mut i: usize = 0;
        while i < variants.len()
            invariant
                0 <= i <= variants.len(),
                targets.len() == variants.len(),
                forall|j: int| 0 <= j < variants.len() ==> targets[j] == toggle_target(variants@, j),
                string_views(unit_variant_idents@) == unit_idents(variants@),
                variants.len() == 0 || unit_idents(variants@).len() > 0,
                res.len() == i,
                forall|j: int| 0 <= j < i ==> #[trigger] res[j]@ == toggle_arm(variants@, j),
            decreases variants.len() - i,
        {
            let variant = &variants[i];
            let mut arm = String::from_str("Self::");
            arm.append(variant.ident.as_str());
            match variant.fields {
                Fields::Unit => {},
                Fields::Named(_) => arm.append(" { .. }"),
                Fields::Unnamed(_) => arm.append("(..)"),
            }
            arm.append(" => Self::");
            let target = targets[i];
            proof {
                assert(unit_idents(variants@).len() > 0);
                assert(0 <= target < unit_idents(variants@).len());
                assert(unit_variant_idents@[target as int]@ == string_views(unit_variant_idents@)[target as int]);
            }
            arm.append(unit_variant_idents[target].as_str());
            arm.append(",");
            res.push(arm);
            i = i + 1;
        }
        res
    }

    /// The `toggled` and `toggle` methods for an enum; nothing for other items.
    pub fn method_blocks(input: &DeriveInput) -> (res: String)
        requires
            input.data matches Data::Enum(variants) ==> variants.len() == 0 || unit_idents(
                variants@,
            ).len() > 0,
        ensures
            input.data matches Data::Enum(variants) ==> res@ == toggle_methods_text(
                joined(Seq::new(variants.len() as nat, |i: int| toggle_arm(variants@, i)), " "@),
            ),
            !(input.data is Enum) ==> res@ == Seq::<char>::empty(),
    {
        match &input.data {
            Data::Enum(variants) => {
                let arms = Self::match_arms(variants);
                proof {
                    assert(string_views(arms@) =~= Seq::new(
                        variants.len() as nat,
                        |i: int| toggle_arm(variants@, i),
                    ));
                }
                let arms_text = join(&arms, " ");
                let mut res = String::from_str("pub fn toggled(&self) -> Self { match self { ");
                res.append(arms_text.as_str());
                res.append(
                    " } } pub fn toggle(&mut self) -> &mut Self { *self = self.toggled(); self }",
                );
                res
            },
            _ => String::new(),
        }
    }

    /// The impl block that the macro generates.
    pub fn derive_impl(input: &DeriveInput) -> (res: String)
        requires
            input.data matches Data::Enum(variants) ==> variants.len() == 0 || unit_idents(
                variants@,
            ).len() > 0,
        ensures
            input.data matches Data::Enum(variants) ==> res@ == impl_block_text(
                input.header,
                toggle_methods_text(
                    joined(Seq::new(variants.len() as nat, |i: int| toggle_arm(variants@, i)), " "@),
                ),
            ),
            !(input.data is Enum) ==> res@ == impl_block_text(input.header, Seq::empty()),
    {
        let method_blocks = Self::method_blocks(input);
        impl_block(&input.header, method_blocks.as_str())
    }

    /// The impl block that the macro generates, or an error for an enum with variants but no
    /// unit variant.
    pub fn try_derive_impl(input: &DeriveInput) -> (res: Result<String, ToggleError>)
        ensures
            match input.data {
                Data::Enum(variants) => if variants.len() > 0 && unit_idents(variants@).len() == 0 {
                    res == Err::<String, ToggleError>(ToggleError::NoUnitVariants)
                } else {
                    res matches Ok(text) && text@ == impl_block_text(
                        input.header,
                        toggle_methods_text(
                            joined(Seq::new(variants.len() as nat, |i: int| toggle_arm(variants@, i)), " "@),
                        ),
                    )
                },
                _ => res matches Ok(text) && text@ == impl_block_text(input.header, Seq::empty()),
            },
    {
        if let Data::Enum(variants) = &input.data {
            if variants.len() > 0 {
                let units = Self::unit_variant_idents(variants);
                if units.len() == 0 {
                    return Err(ToggleError::NoUnitVariants);
                }
            }
        }
        Ok(Self::derive_impl(input))
    }
}

} // verus!
