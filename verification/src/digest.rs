//! SHA-256 digests, their lowercase hex form, and random numbers in hex.

use sha2::Digest;
use vstd::prelude::*;

verus! {

/// The SHA-256 digest of `data`.
pub uninterp spec fn sha256_of(data: Seq<u8>) -> Seq<u8>;

/// The lowercase hex digit of `n` (below 16).
pub open spec fn hex_char(n: int) -> char {
    if n < 10 {
        (48 + n) as char
    } else {
        (87 + n) as char
    }
}

/// Two lowercase hex digits per byte, high nibble first.
pub open spec fn hex_lower(b: Seq<u8>) -> Seq<char>
    decreases b.len(),
{
    if b.len() == 0 {
        Seq::empty()
    } else {
        hex_lower(b.drop_last()) + seq![hex_char(b.last() as int / 16), hex_char(b.last() as int % 16)]
    }
}

pub open spec fn is_lower_hex(c: char) -> bool {
    ('0' <= c && c <= '9') || ('a' <= c && c <= 'f')
}

pub open spec fn all_lower_hex(s: Seq<char>) -> bool {
    forall|i: int| 0 <= i < s.len() ==> is_lower_hex(#[trigger] s[i])
}

/// `sha2::Sha256::digest`: the 32-byte SHA-256 digest of `data`.
#[verifier::external_body]
fn sha256_digest(data: &[u8]) -> (r: Vec<u8>)
    ensures
        r@ == sha256_of(data@),
        r@.len() == 32,
{
    sha2::Sha256::digest(data).to_vec()
}

/// `hex::encode`: each byte as two lowercase hex digits, high nibble first.
#[verifier::external_body]
fn hex_encode(data: &[u8]) -> (r: String)
    ensures
        r@ == hex_lower(data@),
{
    hex::encode(data)
}

/// `rand::random::<u64>`: a number from the thread-local generator. Nothing
/// is promised of its value.
#[verifier::external_body]
pub(crate) fn random_u64() -> u64 {
    rand::random::<u64>()
}

pub proof fn lemma_hex_lower(b: Seq<u8>)
    ensures
        hex_lower(b).len() == 2 * b.len(),
        all_lower_hex(hex_lower(b)),
    decreases b.len(),
{
    if b.len() > 0 {
        lemma_hex_lower(b.drop_last());
        let h = hex_lower(b.drop_last());
        let t = seq![hex_char(b.last() as int / 16), hex_char(b.last() as int % 16)];
        assert forall|i: int| 0 <= i < (h + t).len() implies is_lower_hex(#[trigger] (h + t)[i]) by {
            if i < h.len() {
                assert((h + t)[i] == h[i]);
            } else {
                assert((h + t)[i] == t[i - h.len()]);
            }
        }
    }
}

/// The SHA-256 digest of `data` in lowercase hex: 64 characters.
pub fn sha256_hex(data: &[u8]) -> (r: String)
    ensures
        r@ == hex_lower(sha256_of(data@)),
        r@.len() == 64,
        all_lower_hex(r@),
{
    let d = sha256_digest(data);
    proof {
        lemma_hex_lower(d@);
    }
    hex_encode(d.as_slice())
}

/// The `n` lowest bytes of `x`, least significant first.
pub open spec fn le_bytes_n(x: nat, n: nat) -> Seq<u8>
    decreases n,
{
    if n == 0 {
        Seq::empty()
    } else {
        seq![(x % 256) as u8] + le_bytes_n(x / 256, (n - 1) as nat)
    }
}

pub proof fn lemma_le_bytes_len(x: nat, n: nat)
    ensures
        le_bytes_n(x, n).len() == n,
    decreases n,
{
    if n > 0 {
        lemma_le_bytes_len(x / 256, (n - 1) as nat);
    }
}

/// The eight bytes of `x`, least significant first (`u64::to_le_bytes`).
pub open spec fn le_bytes(x: u64) -> Seq<u8> {
    le_bytes_n(x as nat, 8)
}

/// Sixteen lowercase hex digits naming `x`: its eight bytes, least
/// significant first, each high nibble first.
pub open spec fn spec_hex16(x: u64) -> Seq<char> {
    hex_lower(le_bytes(x))
}

/// The sixteen hex digits of `x`, as `spec_hex16` reads them.
pub fn hex16_of(x: u64) -> (r: String)
    ensures
        r@ == spec_hex16(x),
        r@.len() == 16,
        all_lower_hex(r@),
{
    let mut rest = x;
    let mut bytes: Vec<u8> = Vec::new();
    let mut k: usize = 0;
    while k < 8
        invariant
            0 <= k <= 8,
            bytes.len() == k,
            bytes@ + le_bytes_n(rest as nat, (8 - k) as nat) == le_bytes(x),
        decreases 8 - k,
    {
        let ghost before = bytes@;
        let b = (rest % 256) as u8;
        bytes.push(b);
        proof {
            assert(le_bytes_n(rest as nat, (8 - k) as nat) == seq![b] + le_bytes_n(
                (rest / 256) as nat,
                (8 - k - 1) as nat,
            ));
            assert(bytes@ =~= before + seq![b]);
            assert(before + (seq![b] + le_bytes_n((rest / 256) as nat, (8 - k - 1) as nat))
                =~= bytes@ + le_bytes_n((rest / 256) as nat, (8 - k - 1) as nat));
        }
        rest = rest / 256;
        k = k + 1;
    }
    assert(bytes@ =~= le_bytes(x));
    proof {
        lemma_hex_lower(bytes@);
    }
    hex_encode(bytes.as_slice())
}

} // verus!
