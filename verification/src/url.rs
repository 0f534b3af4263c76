//! Filling the API key into a request address.

use vstd::prelude::*;
use crate::text::{replace_all, replace_text};

verus! {

/// `url` with its `{api-key}` placeholders replaced by `key`.
pub open spec fn keyed_url_text(url: Seq<char>, key: Seq<char>) -> Seq<char> {
    replace_all(url, "{api-key}"@, key)
}

/// Fills the API key into every `{api-key}` placeholder of `url`.
pub fn with_api_key(url: &str, key: &str) -> (r: String)
    ensures
        r@ == keyed_url_text(url@, key@),
{
    proof {
        reveal_strlit("{api-key}");
    }
    replace_text(url, "{api-key}", key)
}

} // verus!
