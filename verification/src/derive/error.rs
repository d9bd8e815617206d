use vstd::prelude::*;
use vstd::string::StringExecFns;

verus! {

/// `text` between backquotes.
pub open spec fn quoted(text: Seq<char>) -> Seq<char> {
    "`"@ + text + "`"@
}

/// The quoted values separated by `, `.
pub open spec fn joined_quoted(values: Seq<Seq<char>>) -> Seq<char>
    decreases values.len(),
{
    if values.len() == 0 {
        Seq::empty()
    } else if values.len() == 1 {
        quoted(values[0])
    } else {
        joined_quoted(values.drop_last()) + ", "@ + quoted(values.last())
    }
}

/// `nothing`, a single quoted value, or `` `a`, `b`, or `c` ``.
pub open spec fn expected_phrase(values: Seq<Seq<char>>) -> Seq<char> {
    if values.len() == 0 {
        "nothing"@
    } else if values.len() == 1 {
        quoted(values[0])
    } else {
        joined_quoted(values.drop_last()) + ", or "@ + quoted(values.last())
    }
}

pub open spec fn str_views(values: Seq<&str>) -> Seq<Seq<char>> {
    values.map_values(|value: &str| value@)
}

/// The messages of the errors that the derive macros report.
pub struct Error;

impl Error {
    pub fn c_struct_field_missing_name_message() -> (res: String)
        ensures
            res@ == "a field in this C struct unexpectedly does not have a name"@,
    {
        String::from_str("a field in this C struct unexpectedly does not have a name")
    }

    pub fn no_unit_variants_message() -> (res: String)
        ensures
            res@ == "there are no unit variants on this enum"@,
    {
        String::from_str("there are no unit variants on this enum")
    }

    pub fn unsupported_item_type_message() -> (res: String)
        ensures
            res@ == "this macro is currently only supported on struct types"@,
    {
        String::from_str("this macro is currently only supported on struct types")
    }

    /// `no `name` attribute found`.
    pub fn missing_expected_attribute_message(attribute_name: &str) -> (res: String)
        ensures
            res@ == "no "@ + quoted(attribute_name@) + " attribute found"@,
    {
        let mut message = String::from_str("no ");
        let quoted_name = Self::quote(attribute_name);
        message.append(quoted_name.as_str());
        message.append(" attribute found");
        message
    }

    /// `empty `name` attribute found`.
    pub fn empty_attribute_message(attribute_name: &str) -> (res: String)
        ensures
            res@ == "empty "@ + quoted(attribute_name@) + " attribute found"@,
    {
        let mut message = String::from_str("empty ");
        let quoted_name = Self::quote(attribute_name);
        message.append(quoted_name.as_str());
        message.append(" attribute found");
        message
    }

    /// `text` between backquotes.
    pub fn quote(text: &str) -> (res: String)
        ensures
            res@ == quoted(text@),
    {
        let mut res = String::from_str("`");
        res.append(text);
        res.append("`");
        res
    }

    /// `expected X here`, where X names the one value expected.
    pub fn unexpected_value_message(expected_value: &str) -> (res: String)
        ensures
            res@ == "expected "@ + quoted(expected_value@) + " here"@,
    {
        let values = [expected_value];
        let res = Self::unexpected_value_multi_message(&values);
        proof {
            assert(str_views(values@) =~= seq![expected_value@]);
        }
        res
    }

    /// `expected X here`, where X lists the values expected: `nothing`, `` `a` ``, or
    /// `` `a`, `b`, or `c` ``.
    pub fn unexpected_value_multi_message(expected_values: &[&str]) -> (res: String)
        ensures
            res@ == "expected "@ + expected_phrase(str_views(expected_values@)) + " here"@,
    {
        let ghost views = str_views(expected_values@);
        let n = expected_values.len();
        let mut message = String::from_str("expected ");
        if n == 0 {
            message.append("nothing");
        } else if n == 1 {
            let q = Self::quote(expected_values[0]);
            message.append(q.as_str());
        } else {
            let mut i: usize = 0;
            while i < n - 1
                invariant
                    0 <= i <= n - 1,
                    n == expected_values@.len(),
                    n >= 2,
                    views == str_views(expected_values@),
                    message@ == "expected "@ + joined_quoted(views.take(i as int)),
                decreases n - 1 - i,
            {
                if i > 0 {
                    message.append(", ");
                }
                let q = Self::quote(expected_values[i]);
                message.append(q.as_str());
                proof {
                    let t = views.take(i + 1);
                    assert(t.drop_last() =~= views.take(i as int));
                    assert(t.last() == expected_values@[i as int]@);
                    if i == 0 {
                        assert(views.take(0) =~= Seq::<Seq<char>>::empty());
                    }
                }
                i = i + 1;
            }
            message.append(", or ");
            let q = Self::quote(expected_values[n - 1]);
            message.append(q.as_str());
            proof {
                assert(views.take((n - 1) as int) =~= views.drop_last());
            }
        }
        message.append(" here");
        message
    }
}

} // verus!
