//! Comparing two tools.
use vstd::prelude::*;
use crate::text;
use crate::text::{chars_of, split_chars, string_from, trim_chars};
use crate::errors;
use crate::errors::{err, ApiError};

verus! {

broadcast use vstd::string::group_string_axioms;

/// The trimmed names in a comma-separated list.
pub open spec fn listed_names(s: Seq<char>) -> Seq<Seq<char>> {
    text::split(s, ',').map_values(|p: Seq<char>| text::trim(p))
}

/// A comparison needs exactly two names, neither empty.
pub open spec fn comparison_ok(names: Seq<Seq<char>>) -> bool {
    names.len() == 2 && names[0].len() != 0 && names[1].len() != 0
}

/// The two tool names of a comparison, trimmed; 400 unless the list holds
/// exactly two names and neither is empty.
pub fn parse_compare_tools(tools: &str) -> (r: Result<(String, String), ApiError>)
    ensures
        match r {
            Ok((a, b)) => comparison_ok(listed_names(tools@)) && a@ == listed_names(tools@)[0]
                && b@ == listed_names(tools@)[1],
            Err(e) => !comparison_ok(listed_names(tools@)) && errors::is_error(
                e,
                errors::BAD_REQUEST,
                "provide exactly 2 comma-separated tool names"@,
            ),
        },
{
    let pieces = split_chars(&chars_of(tools), ',');
    let ghost all = text::split(tools@, ',');
    assert(listed_names(tools@).len() == pieces@.len());
    if pieces.len() != 2 {
        return Err(err(errors::BAD_REQUEST, "provide exactly 2 comma-separated tool names"));
    }
    let a = trim_chars(&pieces[0]);
    let b = trim_chars(&pieces[1]);
    assert(all[0] == pieces@[0]@);
    assert(all[1] == pieces@[1]@);
    assert(listed_names(tools@)[0] == a@);
    assert(listed_names(tools@)[1] == b@);
    if a.len() == 0 || b.len() == 0 {
        return Err(err(errors::BAD_REQUEST, "provide exactly 2 comma-separated tool names"));
    }
    Ok((string_from(&a), string_from(&b)))
}

/// Two names given as `a,b` (neither empty, trimmed, without a comma) are
/// compared as `a` then `b`, and given as `b,a` the other way round: the
/// answer lists the tools in the order the request names them.
pub proof fn lemma_compare_order(a: Seq<char>, b: Seq<char>)
    requires
        a.len() != 0,
        b.len() != 0,
        text::trim(a) == a,
        text::trim(b) == b,
        forall|j: int| 0 <= j < a.len() ==> a[j] != ',',
        forall|j: int| 0 <= j < b.len() ==> b[j] != ',',
    ensures
        comparison_ok(listed_names(a + seq![','] + b)),
        listed_names(a + seq![','] + b) == seq![a, b],
        comparison_ok(listed_names(b + seq![','] + a)),
        listed_names(b + seq![','] + a) == seq![b, a],
{
    text::lemma_split_no_sep(a, ',');
    text::lemma_split_no_sep(b, ',');
    text::lemma_split_after(a, ',', b);
    text::lemma_split_after(b, ',', a);
    assert(text::split(a + seq![','] + b, ',') =~= seq![a, b]);
    assert(text::split(b + seq![','] + a, ',') =~= seq![b, a]);
    assert(listed_names(a + seq![','] + b) =~= seq![a, b]);
    assert(listed_names(b + seq![','] + a) =~= seq![b, a]);
}

} // verus!
