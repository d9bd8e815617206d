use vstd::prelude::*;
use vstd::string::{StrSliceExecFns, StringExecFns};
use crate::derive::text::{decimal, decimal_text, join, joined, string_views};

verus! {

/// `k` is the position of the first underscore in `s`.
pub open spec fn is_first_underscore(s: Seq<char>, k: int) -> bool {
    &&& 0 <= k < s.len()
    &&& s[k] == '_'
    &&& forall|j: int| 0 <= j < k ==> s[j] != '_'
}

/// What follows the first underscore of a method's name, or the whole name when it has none.
pub open spec fn with_suffix(name: Seq<char>) -> Seq<char> {
    if exists|k: int| is_first_underscore(name, k) {
        name.skip((choose|k: int| is_first_underscore(name, k)) + 1)
    } else {
        name
    }
}

/// A generic parameter of a method.
pub enum GenericParam {
    Type(String),
    Const(String),
    Lifetime(String),
}

/// A parameter of a method: `self`, `&self` or `&mut self` (the receiver), or a typed one.
pub enum FnArg {
    Receiver { mutable: bool },
    Typed,
}

/// The parts of a method's signature that the `with` attribute reads.
pub struct MethodSig {
    pub ident: String,
    pub generics: Vec<GenericParam>,
    pub inputs: Vec<FnArg>,
    pub is_unsafe: bool,
    pub is_async: bool,
}

pub open spec fn generic_argument_ident(param: GenericParam) -> Option<Seq<char>> {
    match param {
        GenericParam::Type(ident) => Some(ident@),
        GenericParam::Const(ident) => Some(ident@),
        GenericParam::Lifetime(_) => None,
    }
}

/// The names of the type and const parameters, in order.
pub open spec fn generic_argument_idents(params: Seq<GenericParam>) -> Seq<Seq<char>>
    decreases params.len(),
{
    if params.len() == 0 {
        Seq::empty()
    } else {
        let prev = generic_argument_idents(params.drop_last());
        match generic_argument_ident(params.last()) {
            Some(ident) => prev.push(ident),
            None => prev,
        }
    }
}

/// `::<A, B>`, or nothing when the method has no type or const parameter.
pub open spec fn turbofish_text(params: Seq<GenericParam>) -> Seq<char> {
    let idents = generic_argument_idents(params);
    if idents.len() == 0 {
        Seq::empty()
    } else {
        "::<"@ + joined(idents, ", "@) + ">"@
    }
}

/// `parameter_i` for each typed parameter, `i` being its position among all parameters.
pub open spec fn parameter_idents(inputs: Seq<FnArg>) -> Seq<Seq<char>>
    decreases inputs.len(),
{
    if inputs.len() == 0 {
        Seq::empty()
    } else {
        let prev = parameter_idents(inputs.drop_last());
        match inputs.last() {
            FnArg::Typed => prev.push("parameter_"@ + decimal_text((inputs.len() - 1) as nat)),
            FnArg::Receiver { .. } => prev,
        }
    }
}

pub open spec fn has_receiver(inputs: Seq<FnArg>) -> bool {
    exists|i: int| 0 <= i < inputs.len() && (#[trigger] inputs[i]) is Receiver
}

/// The call of the original method that the generated `with_*` method makes.
pub open spec fn application_text(sig: MethodSig) -> Seq<char> {
    let call = (if has_receiver(sig.inputs@) {
        "self."@
    } else {
        "Self::"@
    }) + sig.ident@ + turbofish_text(sig.generics@) + "("@ + joined(parameter_idents(sig.inputs@), ", "@)
        + ")"@;
    let call = if sig.is_unsafe {
        "unsafe { "@ + call + " }"@
    } else {
        call
    };
    if sig.is_async {
        "("@ + call + ").await"@
    } else {
        call
    }
}

/// The text of a method's signature that the `with_*` method keeps: what stands before `fn`
/// (attributes, visibility and qualifiers), the generic parameters with their bounds, the
/// type of each parameter in order (nothing for the receiver), and the `where` clause.
pub struct MethodText {
    pub prefix: String,
    pub generics: String,
    pub input_types: Vec<String>,
    pub where_clause: String,
}

/// A parameter of the `with_*` method: `mut self` or `self` for the receiver, and
/// `parameter_i: Type` for the typed parameter at position `i`.
pub open spec fn with_input_text(arg: FnArg, i: int, ty: Seq<char>) -> Seq<char> {
    match arg {
        FnArg::Receiver { mutable } => if mutable {
            "mut self"@
        } else {
            "self"@
        },
        FnArg::Typed => "parameter_"@ + decimal_text(i as nat) + ": "@ + ty,
    }
}

/// The whole `with_*` method: the original's prefix, generics and `where` clause, its
/// parameters taken by value under new names, returning `Self` after calling the original.
pub open spec fn with_method_text(sig: MethodSig, text: MethodText) -> Seq<char> {
    let inputs = Seq::new(
        sig.inputs.len() as nat,
        |i: int| with_input_text(sig.inputs@[i], i, text.input_types@[i]@),
    );
    text.prefix@ + " fn "@ + ("with_"@ + with_suffix(sig.ident@)) + text.generics@ + "("@ + joined(inputs, ", "@)
        + ") -> Self "@ + text.where_clause@ + " { let _ = "@ + application_text(sig) + "; self }"@
}

/// The attribute that adds, beside a method, a `with_*` method that calls it and returns `self`.
pub struct With;

impl With {
    /// `with_` followed by what comes after the first underscore of the method's name.
    pub fn get_with_method_ident(name: &str) -> (res: String)
        ensures
            res@ == "with_"@ + with_suffix(name@),
    {
        let len = name.unicode_len();
        let mut i: usize = 0;
        while i < len
            invariant
                0 <= i <= len,
                len == name@.len(),
                forall|j: int| 0 <= j < i ==> name@[j] != '_',
            decreases len - i,
        {
            if name.get_char(i) == '_' {
                let suffix = name.substring_char(i + 1, len);
                let mut res = String::from_str("with_");
                res.append(suffix);
                proof {
                    assert(is_first_underscore(name@, i as int));
                    let k = choose|k: int| is_first_underscore(name@, k);
                    assert(k == i as int) by {
                        if k < i {
                            assert(name@[k] != '_');
                        }
                        if k > i {
                            assert(name@[i as int] != '_');
                        }
                    }
                    assert(name@.skip(i + 1) =~= name@.subrange(i + 1, len as int));
                }
                return res;
            }
            i = i + 1;
        }
        let mut res = String::from_str("with_");
        res.append(name);
        res
    }

    /// The name of a type or const parameter; none for a lifetime.
    pub fn get_generic_argument_ident(param: &GenericParam) -> (res: Option<&String>)
        ensures
            res matches Some(ident) ==> generic_argument_ident(*param) == Some(ident@),
            res is None ==> generic_argument_ident(*param) is None,
    {
        match param {
            GenericParam::Type(ident) => Some(ident),
            GenericParam::Const(ident) => Some(ident),
            GenericParam::Lifetime(_) => None,
        }
    }

    /// `::<A, B>` for the method's type and const parameters, or nothing.
    pub fn get_original_method_application_turbofish(params: &Vec<GenericParam>) -> (res: String)
        ensures
            res@ == turbofish_text(params@),
    {
        let mut idents: Vec<String> = Vec::new();
        let mut i: usize = 0;
        while i < params.len()
            invariant
                0 <= i <= params.len(),
                string_views(idents@) == generic_argument_idents(params@.take(i as int)),
            decreases params.len() - i,
        {
            proof {
                assert(params@.take(i + 1).drop_last() =~= params@.take(i as int));
            }
            if let Some(ident) = Self::get_generic_argument_ident(&params[i]) {
                let ident = ident.clone();
                let ghost before = idents@;
                idents.push(ident);
                proof {
                    assert(string_views(idents@) =~= string_views(before).push(ident@));
                }
            }
            i = i + 1;
        }
        proof {
            assert(params@.take(params.len() as int) =~= params@);
        }
        if idents.len() == 0 {
            String::new()
        } else {
            let list = join(&idents, ", ");
            let mut res = String::from_str("::<");
            res.append(list.as_str());
            res.append(">");
            res
        }
    }

    /// The whole generated method, as text.
    pub fn with_method(sig: &MethodSig, text: &MethodText) -> (res: String)
        requires
            text.input_types.len() == sig.inputs.len(),
        ensures
            res@ == with_method_text(*sig, *text),
    {
        let mut inputs: Vec<String> = Vec::new();
        let mut i: usize = 0;
        while i < sig.inputs.len()
            invariant
                0 <= i <= sig.inputs.len(),
                text.input_types.len() == sig.inputs.len(),
                inputs.len() == i,
                forall|j: int|
                    0 <= j < i ==> #[trigger] inputs@[j]@ == with_input_text(
                        sig.inputs@[j],
                        j,
                        text.input_types@[j]@,
                    ),
            decreases sig.inputs.len() - i,
        {
            let input = match &sig.inputs[i] {
                FnArg::Receiver { mutable } => if *mutable {
                    String::from_str("mut self")
                } else {
                    String::from_str("self")
                },
                FnArg::Typed => {
                    let mut input = String::from_str("parameter_");
                    let index_text = decimal(i);
                    input.append(index_text.as_str());
                    input.append(": ");
                    input.append(text.input_types[i].as_str());
                    input
                },
            };
            inputs.push(input);
            i = i + 1;
        }
        proof {
            assert(string_views(inputs@) =~= Seq::new(
                sig.inputs.len() as nat,
                |i: int| with_input_text(sig.inputs@[i], i, text.input_types@[i]@),
            ));
        }
        let ident = Self::get_with_method_ident(sig.ident.as_str());
        let application = Self::get_original_method_application(sig);
        let inputs_text = join(&inputs, ", ");
        let mut res = text.prefix.clone();
        res.append(" fn ");
        res.append(ident.as_str());
        res.append(text.generics.as_str());
        res.append("(");
        res.append(inputs_text.as_str());
        res.append(") -> Self ");
        res.append(text.where_clause.as_str());
        res.append(" { let _ = ");
        res.append(application.as_str());
        res.append("; self }");
        proof {
            assert(res@ =~= with_method_text(*sig, *text));
        }
        res
    }

    /// The receiver of the generated method, which takes `self` by value: `mut self` for a
    /// mutable receiver, `self` for another; none for a typed parameter.
    pub fn with_method_receiver(arg: &FnArg) -> (res: Option<String>)
        ensures
            match *arg {
                FnArg::Receiver { mutable } => res matches Some(text) && text@ == if mutable {
                    "mut self"@
                } else {
                    "self"@
                },
                FnArg::Typed => res is None,
            },
    {
        match arg {
            FnArg::Receiver { mutable } => if *mutable {
                Some(String::from_str("mut self"))
            } else {
                Some(String::from_str("self"))
            },
            FnArg::Typed => None,
        }
    }

    /// The names given to the typed parameters, and whether the method has a receiver.
    pub fn get_with_method_parameter_idents_and_is_method(inputs: &Vec<FnArg>) -> (res: (Vec<String>, bool))
        ensures
            string_views(res.0@) == parameter_idents(inputs@),
            res.1 == has_receiver(inputs@),
    {
        let mut idents: Vec<String> = Vec::new();
        let mut is_method = false;
        let mut i: usize = 0;
        while i < inputs.len()
            invariant
                0 <= i <= inputs.len(),
                string_views(idents@) == parameter_idents(inputs@.take(i as int)),
                is_method == has_receiver(inputs@.take(i as int)),
            decreases inputs.len() - i,
        {
            proof {
                assert(inputs@.take(i + 1).drop_last() =~= inputs@.take(i as int));
            }
            match &inputs[i] {
                FnArg::Receiver { .. } => {
                    is_method = true;
                    proof {
                        assert(inputs@.take(i + 1)[i as int] is Receiver);
                    }
                },
                FnArg::Typed => {
                    let index_text = decimal(i);
                    let mut ident = String::from_str("parameter_");
                    ident.append(index_text.as_str());
                    let ghost before = idents@;
                    idents.push(ident);
                    proof {
                        assert(string_views(idents@) =~= string_views(before).push(ident@));
                    }
                },
            }
            proof {
                let t = inputs@.take(i + 1);
                if has_receiver(t) {
                    let w = choose|j: int| 0 <= j < t.len() && (#[trigger] t[j]) is Receiver;
                    if w < i {
                        assert(inputs@.take(i as int)[w] is Receiver);
                    }
                }
                if has_receiver(inputs@.take(i as int)) {
                    let w = choose|j: int| 0 <= j < i && (#[trigger] inputs@.take(i as int)[j]) is Receiver;
                    assert(t[w] is Receiver);
                }
            }
            i = i + 1;
        }
        proof {
            assert(inputs@.take(inputs.len() as int) =~= inputs@);
        }
        (idents, is_method)
    }

    /// The call of the original method that the generated method makes: through `self` for a
    /// method, through `Self::` otherwise; inside `unsafe` and awaited as the method is.
    pub fn get_original_method_application(sig: &MethodSig) -> (res: String)
        ensures
            res@ == application_text(*sig),
    {
        let turbofish = Self::get_original_method_application_turbofish(&sig.generics);
        let (idents, is_method) = Self::get_with_method_parameter_idents_and_is_method(&sig.inputs);
        let mut call = if is_method {
            String::from_str("self.")
        } else {
            String::from_str("Self::")
        };
        call.append(sig.ident.as_str());
        call.append(turbofish.as_str());
        call.append("(");
        let arguments = join(&idents, ", ");
        call.append(arguments.as_str());
        call.append(")");
        if sig.is_unsafe {
            let mut wrapped = String::from_str("unsafe { ");
            wrapped.append(call.as_str());
            wrapped.append(" }");
            call = wrapped;
        }
        if sig.is_async {
            let mut wrapped = String::from_str("(");
            wrapped.append(call.as_str());
            wrapped.append(").await");
            call = wrapped;
        }
        call
    }
}

} // verus!
