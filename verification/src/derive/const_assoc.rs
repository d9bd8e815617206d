use vstd::prelude::*;
use vstd::string::StringExecFns;
use crate::derive::shape::{impl_block, impl_block_text, ItemHeader};
use crate::derive::text::{join, joined, string_views};

verus! {

/// One `#[const_assoc(vis NAME: Type = expr)]` attribute, as source text.
pub struct ConstAssoc {
    pub visibility: String,
    pub ident: String,
    pub ty: String,
    pub expr: String,
}

/// `vis const NAME: Type = expr;`
pub open spec fn associated_item_text(c: ConstAssoc) -> Seq<char> {
    (if c.visibility@.len() == 0 {
        Seq::empty()
    } else {
        c.visibility@ + " "@
    }) + "const "@ + c.ident@ + ": "@ + c.ty@ + " = "@ + c.expr@ + ";"@
}

impl ConstAssoc {
    pub fn new(visibility: String, ident: String, ty: String, expr: String) -> (res: Self)
        ensures
            res == (ConstAssoc { visibility, ident, ty, expr }),
    {
        ConstAssoc { visibility, ident, ty, expr }
    }

    /// The associated constant this attribute declares.
    pub fn associated_item(&self) -> (res: String)
        ensures
            res@ == associated_item_text(*self),
    {
        let mut res = String::new();
        if !self.visibility.as_str().is_empty() {
            res.append(self.visibility.as_str());
            res.append(" ");
        }
        res.append("const ");
        res.append(self.ident.as_str());
        res.append(": ");
        res.append(self.ty.as_str());
        res.append(" = ");
        res.append(self.expr.as_str());
        res.append(";");
        proof {
            assert(res@ =~= associated_item_text(*self));
        }
        res
    }

    /// The inherent impl block holding every declared constant, in order.
    pub fn derive_impl(header: &ItemHeader, const_assocs: &Vec<ConstAssoc>) -> (res: String)
        ensures
            res@ == impl_block_text(
                *header,
                joined(
                    Seq::new(const_assocs.len() as nat, |i: int| associated_item_text(const_assocs@[i])),
                    " "@,
                ),
            ),
    {
        let mut items: Vec<String> = Vec::new();
        let mut i: usize = 0;
        while i < const_assocs.len()
            invariant
                0 <= i <= const_assocs.len(),
                string_views(items@) =~= Seq::new(i as nat, |j: int| associated_item_text(const_assocs@[j])),
            decreases const_assocs.len() - i,
        {
            let item = const_assocs[i].associated_item();
            let ghost before = items@;
            items.push(item);
            proof {
                assert(string_views(items@) =~= string_views(before).push(item@));
            }
            i = i + 1;
        }
        let body = join(&items, " ");
        impl_block(header, body.as_str())
    }
}

} // verus!
