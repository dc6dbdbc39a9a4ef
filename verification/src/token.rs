//! Access tokens for the deployment URLs.

use vstd::prelude::*;

use crate::config::validate::token_ok;
use crate::digest::{all_lower_hex, hex16_of, random_u64, spec_hex16};
use crate::text::concat2;

verus! {

pub open spec fn spec_token_from(a: u64, b: u64) -> Seq<char> {
    spec_hex16(a) + spec_hex16(b)
}

/// The token made of two drawn numbers: their hex digits, one after the
/// other.
pub fn token_from(a: u64, b: u64) -> (r: String)
    ensures
        r@ == spec_token_from(a, b),
        r@.len() == 32,
        all_lower_hex(r@),
{
    let x = hex16_of(a);
    let y = hex16_of(b);
    let r = concat2(x.as_str(), y.as_str());
    proof {
        assert forall|i: int| 0 <= i < r@.len() implies crate::digest::is_lower_hex(#[trigger] r@[i]) by {
            if i < 16 {
                assert(r@[i] == x@[i]);
            } else {
                assert(r@[i] == y@[i - 16]);
            }
        }
    }
    r
}

/// A fresh random token: the hex digits of two numbers drawn from the
/// thread-local generator (128 random bits).
pub fn generate_token() -> (r: String)
    ensures
        exists|a: u64, b: u64| r@ == spec_token_from(a, b),
        r@.len() == 32,
        all_lower_hex(r@),
{
    let a = random_u64();
    let b = random_u64();
    let r = token_from(a, b);
    assert(r@ == spec_token_from(a, b));
    r
}

/// Every token that `generate_token` can give, whatever numbers were
/// drawn, passes `validate_token`.
pub proof fn law_generated_token_is_valid(a: u64, b: u64)
    ensures
        token_ok(spec_token_from(a, b)),
{
    let t = spec_token_from(a, b);
    crate::digest::lemma_le_bytes_len(a as nat, 8);
    crate::digest::lemma_le_bytes_len(b as nat, 8);
    crate::digest::lemma_hex_lower(crate::digest::le_bytes(a));
    crate::digest::lemma_hex_lower(crate::digest::le_bytes(b));
    assert forall|i: int| 0 <= i < t.len() implies crate::config::validate::token_char(#[trigger] t[i]) by {
        if i < 16 {
            assert(t[i] == spec_hex16(a)[i]);
        } else {
            assert(t[i] == spec_hex16(b)[i - 16]);
        }
        assert(crate::digest::is_lower_hex(t[i]));
    }
}

} // verus!
