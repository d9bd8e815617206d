use vstd::prelude::*;
use vstd::string::StringExecFns;
use crate::derive::error::{expected_phrase, Error};
use crate::derive::text::{join, joined, string_views};

verus! {

/// The kind of empty type that the `empty` attribute declares.
#[derive(Clone, Copy, Debug, PartialEq, Eq, Structural)]
pub enum EmptyType {
    Enum,
    UnitStruct,
    CStruct,
}

/// `enum X {}`, `struct X;` or `struct X {}`.
pub open spec fn declaration_text(empty_type: EmptyType, ident: Seq<char>) -> Seq<char> {
    match empty_type {
        EmptyType::Enum => "enum "@ + ident + " {}"@,
        EmptyType::UnitStruct => "struct "@ + ident + ";"@,
        EmptyType::CStruct => "struct "@ + ident + " {}"@,
    }
}

/// The keywords that the `empty` attribute accepts, in order.
pub open spec fn empty_type_keywords() -> Seq<Seq<char>> {
    seq!["enum"@, "unit_struct"@, "c_struct"@]
}

impl EmptyType {
    pub fn get_declaration(&self, ident: &str) -> (res: String)
        ensures
            res@ == declaration_text(*self, ident@),
    {
        match self {
            EmptyType::Enum => {
                let mut res = String::from_str("enum ");
                res.append(ident);
                res.append(" {}");
                res
            },
            EmptyType::UnitStruct => {
                let mut res = String::from_str("struct ");
                res.append(ident);
                res.append(";");
                res
            },
            EmptyType::CStruct => {
                let mut res = String::from_str("struct ");
                res.append(ident);
                res.append(" {}");
                res
            },
        }
    }
}

/// The arguments of the `empty` attribute: a visibility and the kind of type.
pub struct Empty {
    pub visibility: String,
    pub empty_type: EmptyType,
}

impl Empty {
    /// The kind of type named by the attribute's keyword: an enum when there is none; an
    /// error message for any keyword but `enum`, `unit_struct` and `c_struct`.
    pub fn parse_empty_type(keyword: Option<&str>) -> (res: Result<EmptyType, String>)
        ensures
            keyword is None ==> res == Ok::<EmptyType, String>(EmptyType::Enum),
            keyword matches Some(k) && k@ == "enum"@ ==> res == Ok::<EmptyType, String>(EmptyType::Enum),
            keyword matches Some(k) && k@ == "unit_struct"@ ==> res == Ok::<EmptyType, String>(
                EmptyType::UnitStruct,
            ),
            keyword matches Some(k) && k@ == "c_struct"@ ==> res == Ok::<EmptyType, String>(
                EmptyType::CStruct,
            ),
            keyword matches Some(k) && k@ != "enum"@ && k@ != "unit_struct"@ && k@ != "c_struct"@
                ==> (res matches Err(message) && message@ == "expected "@ + expected_phrase(
                empty_type_keywords(),
            ) + " here"@),
    {
        match keyword {
            None => Ok(EmptyType::Enum),
            Some(k) => {
                proof {
                    reveal_strlit("enum");
                    reveal_strlit("unit_struct");
                    reveal_strlit("c_struct");
                    assert("enum"@.len() == 4);
                    assert("unit_struct"@.len() == 11);
                    assert("c_struct"@.len() == 8);
                }
                let k = String::from_str(k);
                if k == String::from_str("enum") {
                    Ok(EmptyType::Enum)
                } else if k == String::from_str("unit_struct") {
                    Ok(EmptyType::UnitStruct)
                } else if k == String::from_str("c_struct") {
                    Ok(EmptyType::CStruct)
                } else {
                    let expected = ["enum", "unit_struct", "c_struct"];
                    let message = Error::unexpected_value_multi_message(&expected);
                    proof {
                        assert(crate::derive::error::str_views(expected@) =~= empty_type_keywords());
                    }
                    Err(message)
                }
            },
        }
    }

    /// The item's attributes, then the declaration of the empty type, then the impl block.
    pub fn derive_impl(&self, attributes: &Vec<String>, ident: &str, item_impl: &str) -> (res: String)
        ensures
            res@ == joined(string_views(attributes@), " "@) + " "@ + (if self.visibility@.len() == 0 {
                Seq::<char>::empty()
            } else {
                self.visibility@ + " "@
            }) + declaration_text(self.empty_type, ident@) + " "@ + item_impl@,
    {
        let mut res = join(attributes, " ");
        res.append(" ");
        if !self.visibility.as_str().is_empty() {
            res.append(self.visibility.as_str());
            res.append(" ");
        }
        let declaration = self.empty_type.get_declaration(ident);
        res.append(declaration.as_str());
        res.append(" ");
        res.append(item_impl);
        proof {
            assert(res@ =~= joined(string_views(attributes@), " "@) + " "@ + (if self.visibility@.len() == 0 {
                Seq::<char>::empty()
            } else {
                self.visibility@ + " "@
            }) + declaration_text(self.empty_type, ident@) + " "@ + item_impl@);
        }
        res
    }
}

} // verus!
