//! The parameter list that a request or event carries.
use vstd::prelude::*;
use crate::json::string_views;

verus! {

/// The strings that make up a parameter list.
pub open spec fn str_views(items: Seq<&str>) -> Seq<Seq<char>> {
    items.map_values(|s: &str| s@)
}

/// A parameter list of the given strings, in order; at least one is needed.
pub fn build_params(items: &Vec<&str>) -> (r: Vec<String>)
    requires
        items@.len() > 0,
    ensures
        string_views(r@) == str_views(items@),
{
    let n = items.len();
    let mut out: Vec<String> = Vec::new();
    let mut i: usize = 0;
    while i < n
        invariant
            n == items@.len(),
            i <= n,
            out@.len() == i,
            forall|j: int| 0 <= j < i ==> #[trigger] out@[j]@ == items@[j]@,
        decreases n - i,
    {
        out.push(items[i].to_owned());
        i = i + 1;
    }
    assert(string_views(out@) =~= str_views(items@));
    out
}

} // verus!
