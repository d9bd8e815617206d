use vstd::prelude::*;
use vstd::string::StringExecFns;
use quote::ToTokens;
use crate::derive::shape::{trait_impl_block, trait_impl_block_text, Attribute, DeriveInput, ItemHeader};
use crate::derive::text::{join, joined, same_text, string_views};

verus! {

/// The conversion of `value` through the first `k + 1` types of `chain`:
/// `<C as From<B>>::from(<B as From<A>>::from(value))`.
pub open spec fn chain_value_text(chain: Seq<Seq<char>>, k: int) -> Seq<char>
    decreases k,
{
    if k <= 0 {
        "value"@
    } else {
        "<"@ + chain[k] + " as ::std::convert::From<"@ + chain[k - 1] + ">>::from("@
            + chain_value_text(chain, k - 1) + ")"@
    }
}

/// The `From` impl from the first type of the chain, converting through each following
/// type and finally into `Self`.
pub open spec fn from_impl_text(header: ItemHeader, types: Seq<Seq<char>>) -> Seq<char> {
    let chain = types.push("Self"@);
    trait_impl_block_text(
        header,
        "::std::convert::From<"@ + chain[0] + ">"@,
        "fn from(value: "@ + chain[0] + ") -> Self { "@ + chain_value_text(chain, chain.len() - 1)
            + " }"@,
    )
}

/// Reads `text` as a comma-separated list of types with
/// `Punctuated::<syn::Type, Comma>::parse_terminated` and prints each type back; nothing
/// when it is no such list. The text read is handed back. Nothing is stated of the types:
/// `proc-macro2` picks its lexer and its printer while the program runs, so they are not
/// fixed by the text alone.
#[verifier::external_body]
fn parse_type_list(text: &str) -> (res: (&str, Option<Vec<String>>))
    ensures
        res.0 == text,
{
    let parser = syn::punctuated::Punctuated::<syn::Type, syn::token::Comma>::parse_terminated;
    match syn::parse::Parser::parse_str(parser, text) {
        Ok(types) => (text, Some(types.iter().map(|t| t.to_token_stream().to_string()).collect())),
        Err(_) => (text, None),
    }
}

/// What `syn` made of the arguments of one attribute: the text it was handed (empty for an
/// attribute other than `from_chain`), and the types read from it, or none.
pub struct ChainReading {
    pub text: String,
    pub types: Option<Vec<String>>,
}

/// One reading per attribute; each `from_chain` attribute's reading was handed its
/// arguments.
pub open spec fn chain_readings_fit(attrs: Seq<Attribute>, readings: Seq<ChainReading>) -> bool {
    &&& readings.len() == attrs.len()
    &&& forall|i: int|
        0 <= i < attrs.len() && attrs[i].path@ == "from_chain"@ ==> (#[trigger] readings[i]).text@
            == attrs[i].tokens@
}

/// The type chains of the `from_chain` attributes, in order; or the index of the first
/// such attribute whose arguments are no list of types.
pub open spec fn chains_of(attrs: Seq<Attribute>, readings: Seq<ChainReading>) -> Result<Seq<Seq<Seq<char>>>, usize>
    decreases attrs.len(),
{
    if attrs.len() == 0 {
        Ok(Seq::empty())
    } else {
        match chains_of(attrs.drop_last(), readings) {
            Ok(prev) => if attrs.last().path@ == "from_chain"@ {
                match readings[attrs.len() - 1].types {
                    Some(types) => Ok(prev.push(string_views(types@))),
                    None => Err((attrs.len() - 1) as usize),
                }
            } else {
                Ok(prev)
            },
            Err(e) => Err(e),
        }
    }
}

/// One `From` impl per chain, in order.
pub open spec fn from_impls_text(header: ItemHeader, chains: Seq<Seq<Seq<char>>>) -> Seq<char> {
    joined(Seq::new(chains.len(), |i: int| from_impl_text(header, chains[i])), " "@)
}

/// The impls for the item's `from_chain` attributes, or the index of the first attribute
/// whose arguments are no list of types.
pub open spec fn from_chain_derive(input: DeriveInput, readings: Seq<ChainReading>) -> Result<Seq<char>, usize> {
    match chains_of(input.attrs@, readings) {
        Ok(chains) => Ok(from_impls_text(input.header, chains)),
        Err(index) => Err(index),
    }
}

pub open spec fn derive_view(res: Result<String, usize>) -> Result<Seq<char>, usize> {
    match res {
        Ok(text) => Ok(text@),
        Err(index) => Err(index),
    }
}

proof fn lemma_chains_stop(attrs: Seq<Attribute>, readings: Seq<ChainReading>, k: int)
    requires
        0 <= k <= attrs.len(),
        chains_of(attrs.take(k), readings) is Err,
    ensures
        chains_of(attrs, readings) == chains_of(attrs.take(k), readings),
    decreases attrs.len() - k,
{
    if k < attrs.len() {
        assert(attrs.take(k + 1).drop_last() =~= attrs.take(k));
        lemma_chains_stop(attrs, readings, k + 1);
    } else {
        assert(attrs.take(k) =~= attrs);
    }
}

/// The derive that implements `From` through a chain of intermediate types.
pub struct FromChain;

impl FromChain {
    /// The `From` impl for one `from_chain` attribute, whose types are `type_chain`.
    pub fn from_impl_block_token_stream(header: &ItemHeader, type_chain: &Vec<String>) -> (res: String)
        ensures
            res@ == from_impl_text(*header, string_views(type_chain@)),
    {
        let mut chain: Vec<String> = Vec::new();
        let mut i: usize = 0;
        while i < type_chain.len()
            invariant
                0 <= i <= type_chain.len(),
                string_views(chain@) =~= string_views(type_chain@.take(i as int)),
            decreases type_chain.len() - i,
        {
            let t = type_chain[i].clone();
            let ghost before = chain@;
            chain.push(t);
            proof {
                assert(string_views(chain@) =~= string_views(before).push(t@));
                assert(string_views(type_chain@.take(i + 1)) =~= string_views(type_chain@.take(i as int)).push(type_chain@[i as int]@));
            }
            i = i + 1;
        }
        let ghost before = chain@;
        chain.push(String::from_str("Self"));
        proof {
            assert(type_chain@.take(type_chain.len() as int) =~= type_chain@);
            assert(string_views(chain@) =~= string_views(type_chain@).push("Self"@));
        }
        let ghost full = string_views(chain@);
        let mut value = String::from_str("value");
        let mut k: usize = 1;
        while k < chain.len()
            invariant
                1 <= k <= chain.len(),
                full == string_views(chain@),
                value@ == chain_value_text(full, k - 1),
            decreases chain.len() - k,
        {
            let mut next = String::from_str("<");
            next.append(chain[k].as_str());
            next.append(" as ::std::convert::From<");
            next.append(chain[k - 1].as_str());
            next.append(">>::from(");
            next.append(value.as_str());
            next.append(")");
            value = next;
            k = k + 1;
        }
        let mut trait_path = String::from_str("::std::convert::From<");
        trait_path.append(chain[0].as_str());
        trait_path.append(">");
        let mut body = String::from_str("fn from(value: ");
        body.append(chain[0].as_str());
        body.append(") -> Self { ");
        body.append(value.as_str());
        body.append(" }");
        trait_impl_block(header, trait_path.as_str(), body.as_str())
    }

    /// One `From` impl per `from_chain` attribute, in order.
    pub fn derive_impl(header: &ItemHeader, chains: &Vec<Vec<String>>) -> (res: String)
        ensures
            res@ == joined(
                Seq::new(chains.len() as nat, |i: int| from_impl_text(*header, string_views(chains@[i]@))),
                " "@,
            ),
    {
        let mut blocks: Vec<String> = Vec::new();
        let mut i: usize = 0;
        while i < chains.len()
            invariant
                0 <= i <= chains.len(),
                string_views(blocks@) =~= Seq::new(i as nat, |j: int| from_impl_text(*header, string_views(chains@[j]@))),
            decreases chains.len() - i,
        {
            let block = Self::from_impl_block_token_stream(header, &chains[i]);
            let ghost before = blocks@;
            blocks.push(block);
            proof {
                assert(string_views(blocks@) =~= string_views(before).push(block@));
            }
            i = i + 1;
        }
        join(&blocks, " ")
    }

    /// Asks `syn` for the types of each `from_chain` attribute.
    pub fn read_chains(input: &DeriveInput) -> (res: Vec<ChainReading>)
        ensures
            chain_readings_fit(input.attrs@, res@),
    {
        let mut res: Vec<ChainReading> = Vec::new();
        let mut i: usize = 0;
        while i < input.attrs.len()
            invariant
                0 <= i <= input.attrs.len(),
                res.len() == i,
                forall|t: int|
                    0 <= t < i && input.attrs@[t].path@ == "from_chain"@ ==> (#[trigger] res@[t]).text@
                        == input.attrs@[t].tokens@,
            decreases input.attrs.len() - i,
        {
            let attribute = &input.attrs[i];
            if same_text(attribute.path.as_str(), "from_chain") {
                let (read, types) = parse_type_list(attribute.tokens.as_str());
                res.push(ChainReading { text: String::from_str(read), types });
            } else {
                res.push(ChainReading { text: String::new(), types: None });
            }
            i = i + 1;
        }
        res
    }

    /// The type chains of the `from_chain` attributes, given what `syn` made of each.
    pub fn chains_from_readings(attrs: &Vec<Attribute>, readings: &Vec<ChainReading>) -> (res: Result<
        Vec<Vec<String>>,
        usize,
    >)
        requires
            readings.len() == attrs.len(),
        ensures
            match chains_of(attrs@, readings@) {
                Ok(chains) => res matches Ok(v) && v.len() == chains.len() && forall|j: int|
                    0 <= j < chains.len() ==> string_views((#[trigger] v@[j])@) == chains[j],
                Err(index) => res == Err::<Vec<Vec<String>>, usize>(index),
            },
    {
        let mut chains: Vec<Vec<String>> = Vec::new();
        let mut i: usize = 0;
        proof {
            assert(attrs@.take(0) =~= Seq::<Attribute>::empty());
        }
        while i < attrs.len()
            invariant
                0 <= i <= attrs.len(),
                readings.len() == attrs.len(),
                chains_of(attrs@.take(i as int), readings@) matches Ok(done) && done.len() == chains.len()
                    && forall|j: int| 0 <= j < done.len() ==> string_views((#[trigger] chains@[j])@) == done[j],
            decreases attrs.len() - i,
        {
            proof {
                let t = attrs@.take(i + 1);
                assert(t.drop_last() =~= attrs@.take(i as int));
                assert(t.last() == attrs@[i as int]);
            }
            if same_text(attrs[i].path.as_str(), "from_chain") {
                match &readings[i].types {
                    Some(types) => {
                        let mut copy: Vec<String> = Vec::new();
                        let mut k: usize = 0;
                        while k < types.len()
                            invariant
                                0 <= k <= types.len(),
                                string_views(copy@) =~= string_views(types@).take(k as int),
                            decreases types.len() - k,
                        {
                            let ghost before = string_views(copy@);
                            copy.push(types[k].clone());
                            proof {
                                assert(string_views(copy@) =~= before.push(types@[k as int]@));
                                assert(string_views(types@).take(k + 1) =~= string_views(types@).take(
                                    k as int,
                                ).push(types@[k as int]@));
                            }
                            k = k + 1;
                        }
                        proof {
                            assert(string_views(types@).take(types.len() as int) =~= string_views(types@));
                        }
                        let ghost old_chains = chains@;
                        chains.push(copy);
                        proof {
                            assert forall|j: int| 0 <= j < old_chains.len() implies chains@[j] == old_chains[j] by {}
                        }
                    },
                    None => {
                        proof {
                            lemma_chains_stop(attrs@, readings@, i + 1);
                        }
                        return Err(i);
                    },
                }
            }
            i = i + 1;
        }
        proof {
            assert(attrs@.take(attrs.len() as int) =~= attrs@);
        }
        Ok(chains)
    }

    /// The impls for the item's `from_chain` attributes, given what `syn` made of each; the
    /// index of the first attribute whose arguments are no list of types otherwise.
    pub fn derive_from_readings(input: &DeriveInput, readings: &Vec<ChainReading>) -> (res: Result<String, usize>)
        requires
            readings.len() == input.attrs.len(),
        ensures
            derive_view(res) == from_chain_derive(*input, readings@),
    {
        match Self::chains_from_readings(&input.attrs, readings) {
            Ok(chains) => {
                let text = Self::derive_impl(&input.header, &chains);
                proof {
                    let c = chains_of(input.attrs@, readings@)->Ok_0;
                    assert(Seq::new(chains.len() as nat, |i: int| from_impl_text(input.header, string_views(chains@[i]@)))
                        =~= Seq::new(c.len(), |i: int| from_impl_text(input.header, c[i])));
                }
                Ok(text)
            },
            Err(index) => Err(index),
        }
    }

    /// The impls for the item's `from_chain` attributes. What `syn` makes of their arguments
    /// is not stated; whatever it made of them, the result is that of
    /// [`Self::derive_from_readings`] on it.
    pub fn derive(input: &DeriveInput) -> (res: Result<String, usize>)
        ensures
            exists|readings: Seq<ChainReading>|
                #![trigger from_chain_derive(*input, readings)]
                chain_readings_fit(input.attrs@, readings) && derive_view(res) == from_chain_derive(
                    *input,
                    readings,
                ),
    {
        let readings = Self::read_chains(input);
        Self::derive_from_readings(input, &readings)
    }
}

} // verus!
