use vstd::prelude::*;
use vstd::string::StringExecFns;
use crate::derive::text::{join, joined, string_views};

verus! {

/// A function item, as source text: its attributes, its visibility, its signature as
/// written and without `async`, its return type (`-> T`, or nothing), and its body block.
pub struct ItemFn {
    pub attrs: Vec<String>,
    pub vis: String,
    pub is_async: bool,
    pub sig: String,
    pub sync_sig: String,
    pub output: String,
    pub block: String,
}

/// `attrs vis sig { body }`.
pub open spec fn item_fn_text(attrs: Seq<Seq<char>>, vis: Seq<char>, sig: Seq<char>, body: Seq<char>) -> Seq<char> {
    joined(attrs, " "@) + " "@ + vis + " "@ + sig + " { "@ + body + " }"@
}

fn item_fn_text_exec(attrs: &Vec<String>, vis: &str, sig: &str, body: &str) -> (res: String)
    ensures
        res@ == item_fn_text(string_views(attrs@), vis@, sig@, body@),
{
    let mut res = join(attrs, " ");
    res.append(" ");
    res.append(vis);
    res.append(" ");
    res.append(sig);
    res.append(" { ");
    res.append(body);
    res.append(" }");
    res
}

/// The body that attaches `context` to the error of the original body: the body is
/// awaited in an `async move` block for an async function, and called as a `move` closure
/// otherwise.
pub open spec fn context_body_text(item: ItemFn, context: Seq<char>) -> Seq<char> {
    if item.is_async {
        "::anyhow::Context::context((async move "@ + item.block@ + ").await, "@ + context + ")"@
    } else {
        "::anyhow::Context::context((move || "@ + item.output@ + " "@ + item.block@ + ")(), "@ + context
            + ")"@
    }
}

/// The `context` attribute: the function with the same attributes, visibility and
/// signature, whose error is given the context `literal` (a string literal, with its quotes).
pub fn context(literal: &str, item: &ItemFn) -> (res: String)
    ensures
        res@ == item_fn_text(string_views(item.attrs@), item.vis@, item.sig@, context_body_text(*item, literal@)),
{
    let mut body: String;
    if item.is_async {
        body = String::from_str("::anyhow::Context::context((async move ");
        body.append(item.block.as_str());
        body.append(").await, ");
        body.append(literal);
        body.append(")");
    } else {
        body = String::from_str("::anyhow::Context::context((move || ");
        body.append(item.output.as_str());
        body.append(" ");
        body.append(item.block.as_str());
        body.append(")(), ");
        body.append(literal);
        body.append(")");
    }
    item_fn_text_exec(&item.attrs, item.vis.as_str(), item.sig.as_str(), body.as_str())
}

/// `.name(value)`.
pub open spec fn method_application_text(ident: Seq<char>, expr: Seq<char>) -> Seq<char> {
    "."@ + ident + "("@ + expr + ")"@
}

pub open spec fn method_application_texts(assignments: Seq<(String, String)>) -> Seq<Seq<char>> {
    Seq::new(assignments.len(), |i: int| method_application_text(assignments[i].0@, assignments[i].1@))
}

/// The body of the generated `main`: a multi-threaded runtime with every feature enabled,
/// configured by the builder calls, that runs the original body.
pub open spec fn tokio_main_body_text(applications: Seq<Seq<char>>, block: Seq<char>) -> Seq<char> {
    "::tokio::runtime::Builder::new_multi_thread().enable_all()"@ + joined(applications, ""@)
        + ".build().unwrap().block_on(async "@ + block + ")"@
}

/// The `tokio_main` attribute: `name = value` arguments, each a call on the runtime builder.
pub struct TokioMain {
    pub method_applications: Vec<String>,
}

impl TokioMain {
    /// `.name(value)`.
    pub fn method_application(ident: &str, expr: &str) -> (res: String)
        ensures
            res@ == method_application_text(ident@, expr@),
    {
        let mut res = String::from_str(".");
        res.append(ident);
        res.append("(");
        res.append(expr);
        res.append(")");
        res
    }

    /// The builder call of each `name = value` argument, in order.
    pub fn parse(assignments: &Vec<(String, String)>) -> (res: Self)
        ensures
            string_views(res.method_applications@) == method_application_texts(assignments@),
    {
        let mut method_applications: Vec<String> = Vec::new();
        let mut i: usize = 0;
        while i < assignments.len()
            invariant
                0 <= i <= assignments.len(),
                string_views(method_applications@) =~= method_application_texts(assignments@.take(i as int)),
            decreases assignments.len() - i,
        {
            let (ident, expr) = &assignments[i];
            let application = Self::method_application(ident.as_str(), expr.as_str());
            let ghost before = string_views(method_applications@);
            method_applications.push(application);
            proof {
                assert(string_views(method_applications@) =~= before.push(application@));
                assert(method_application_texts(assignments@.take(i + 1)) =~= method_application_texts(
                    assignments@.take(i as int),
                ).push(application@));
            }
            i = i + 1;
        }
        proof {
            assert(assignments@.take(assignments.len() as int) =~= assignments@);
        }
        TokioMain { method_applications }
    }

    /// The function, made synchronous, running its body on the configured runtime.
    pub fn derive_impl(&self, item: &ItemFn) -> (res: String)
        ensures
            res@ == item_fn_text(
                string_views(item.attrs@),
                item.vis@,
                item.sync_sig@,
                tokio_main_body_text(string_views(self.method_applications@), item.block@),
            ),
    {
        let mut body = String::from_str("::tokio::runtime::Builder::new_multi_thread().enable_all()");
        let applications = join(&self.method_applications, "");
        body.append(applications.as_str());
        body.append(".build().unwrap().block_on(async ");
        body.append(item.block.as_str());
        body.append(")");
        item_fn_text_exec(&item.attrs, item.vis.as_str(), item.sync_sig.as_str(), body.as_str())
    }
}

} // verus!
