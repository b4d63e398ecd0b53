//! Query handling for the read-mostly library index.

use vstd::prelude::*;
use crate::text::{chars_of, lower_seq, split_ws, string_of, split_whitespace_tokens, to_lower};

verus! {

/// The tokens of a search query: the lower-cased text split at whitespace,
/// empty tokens dropped.
pub open spec fn spec_tokenize_query(raw: Seq<char>) -> Seq<Seq<char>> {
    split_ws(lower_seq(raw))
}

/// Tokenizes a search query: trims, lowers and splits at whitespace.
pub fn tokenize_query(raw: &str) -> (r: Vec<String>)
    ensures
        r.deep_view() == spec_tokenize_query(raw@),
{
    let cs = chars_of(raw);
    let low = to_lower(&cs);
    let toks = split_whitespace_tokens(&low);
    let mut r: Vec<String> = Vec::new();
    let mut i: usize = 0;
    while i < toks.len()
        invariant
            0 <= i <= toks@.len(),
            r@.len() == i,
            forall|t: int| 0 <= t < i ==> (#[trigger] r@[t])@ == toks@[t]@,
        decreases toks@.len() - i,
    {
        r.push(string_of(&toks[i]));
        i = i + 1;
    }
    proof {
        assert(r.deep_view() =~~= toks.deep_view());
    }
    r
}

} // verus!
