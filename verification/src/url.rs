//! The base URL of the holiday provider, as handed through to the client.

use vstd::prelude::*;

verus! {

/// The base URL a holiday request goes to; callers hand in the configured
/// one and receive it unchanged.
pub fn get_base_url(base_url: &str) -> (r: &str)
    ensures
        r@ == base_url@,
{
    base_url
}

} // verus!
