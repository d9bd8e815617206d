use vstd::prelude::*;
use vstd::string::StringExecFns;
use crate::derive::shape::{impl_block, impl_block_text, Data, DeriveInput, Field, Fields};
use crate::derive::text::{decimal, decimal_text};
use crate::segmentation::flat;

verus! {

/// `T1, T2, ` (each type followed by a comma and a space).
pub open spec fn types_list(fields: Seq<Field>) -> Seq<char>
    decreases fields.len(),
{
    if fields.len() == 0 {
        Seq::empty()
    } else {
        types_list(fields.drop_last()) + fields.last().ty@ + ", "@
    }
}

/// `self.0, self.1, ` for `n` fields.
pub open spec fn field_access_list(n: nat) -> Seq<char>
    decreases n,
{
    if n == 0 {
        Seq::empty()
    } else {
        field_access_list((n - 1) as nat) + "self."@ + decimal_text((n - 1) as nat) + ", "@
    }
}

/// The accesses name the fields in order: for each `i` below `n`, `self.i, `.
pub proof fn lemma_field_access_list_names_each_field(n: nat)
    ensures
        field_access_list(n) == flat(Seq::new(n, |i: int| "self."@ + decimal_text(i as nat) + ", "@)),
    decreases n,
{
    let parts = Seq::new(n, |i: int| "self."@ + decimal_text(i as nat) + ", "@);
    if n > 0 {
        lemma_field_access_list_names_each_field((n - 1) as nat);
        assert(parts.drop_last() =~= Seq::new((n - 1) as nat, |i: int| "self."@ + decimal_text(i as nat) + ", "@));
        assert(field_access_list(n) =~= flat(parts.drop_last()) + parts.last());
    } else {
        assert(parts =~= Seq::<Seq<char>>::empty());
    }
}

/// The types are listed in order: for each field, its type followed by `, `.
pub proof fn lemma_types_list_lists_each_type(fields: Seq<Field>)
    ensures
        types_list(fields) == flat(Seq::new(fields.len(), |i: int| fields[i].ty@ + ", "@)),
    decreases fields.len(),
{
    let parts = Seq::new(fields.len(), |i: int| fields[i].ty@ + ", "@);
    if fields.len() > 0 {
        let shorter = fields.drop_last();
        lemma_types_list_lists_each_type(shorter);
        assert(parts.drop_last() =~= Seq::new(shorter.len(), |i: int| shorter[i].ty@ + ", "@));
        assert(types_list(fields) =~= flat(parts.drop_last()) + parts.last());
    } else {
        assert(parts =~= Seq::<Seq<char>>::empty());
    }
}

/// The `inner()` method generated for a tuple struct with these fields.
pub open spec fn inner_method_text(fields: Seq<Field>) -> Seq<char> {
    if fields.len() == 1 {
        "pub fn inner(&self) -> "@ + fields[0].ty@ + " { self.0 }"@
    } else {
        "pub fn inner(&self) -> ("@ + types_list(fields) + ") { ("@ + field_access_list(fields.len())
            + ") }"@
    }
}

/// For a tuple struct of two or more fields, `inner()` returns the tuple of the field
/// types in order, and its value holds `self.i` at position `i`.
pub proof fn lemma_inner_returns_each_field(fields: Seq<Field>)
    requires
        fields.len() >= 2,
    ensures
        inner_method_text(fields) == "pub fn inner(&self) -> ("@ + flat(
            Seq::new(fields.len(), |i: int| fields[i].ty@ + ", "@),
        ) + ") { ("@ + flat(Seq::new(fields.len(), |i: int| "self."@ + decimal_text(i as nat) + ", "@))
            + ") }"@,
{
    lemma_types_list_lists_each_type(fields);
    lemma_field_access_list_names_each_field(fields.len());
}

/// The derive that gives a tuple struct an `inner()` method returning its fields.
pub struct Inner;

impl Inner {
    /// The type of a field.
    pub fn get_type(field: &Field) -> (res: &String)
        ensures
            res == &field.ty,
    {
        &field.ty
    }

    /// The `inner()` method for a tuple struct; nothing for other items.
    pub fn method_block(input: &DeriveInput) -> (res: String)
        ensures
            input.data matches Data::Struct(Fields::Unnamed(fields)) ==> res@ == inner_method_text(fields@),
            !(input.data matches Data::Struct(Fields::Unnamed(_))) ==> res@ == Seq::<char>::empty(),
    {
        if let Data::Struct(Fields::Unnamed(fields)) = &input.data {
            if fields.len() == 1 {
                let mut res = String::from_str("pub fn inner(&self) -> ");
                res.append(Self::get_type(&fields[0]).as_str());
                res.append(" { self.0 }");
                return res;
            }
            let mut types = String::new();
            let mut accesses = String::new();
            let mut i: usize = 0;
            while i < fields.len()
                invariant
                    0 <= i <= fields.len(),
                    types@ == types_list(fields@.take(i as int)),
                    accesses@ == field_access_list(i as nat),
                decreases fields.len() - i,
            {
                proof {
                    assert(fields@.take(i + 1).drop_last() =~= fields@.take(i as int));
                }
                types.append(fields[i].ty.as_str());
                types.append(", ");
                accesses.append("self.");
                let index_text = decimal(i);
                accesses.append(index_text.as_str());
                accesses.append(", ");
                i = i + 1;
            }
            proof {
                assert(fields@.take(fields.len() as int) =~= fields@);
            }
            let mut res = String::from_str("pub fn inner(&self) -> (");
            res.append(types.as_str());
            res.append(") { (");
            res.append(accesses.as_str());
            res.append(") }");
            res
        } else {
            String::new()
        }
    }

    /// The impl block that the derive generates.
    pub fn derive(input: &DeriveInput) -> (res: String)
        ensures
            input.data matches Data::Struct(Fields::Unnamed(fields)) ==> res@ == impl_block_text(
                input.header,
                inner_method_text(fields@),
            ),
            !(input.data matches Data::Struct(Fields::Unnamed(_))) ==> res@ == impl_block_text(
                input.header,
                Seq::empty(),
            ),
    {
        let block = Self::method_block(input);
        impl_block(&input.header, block.as_str())
    }
}

} // verus!
