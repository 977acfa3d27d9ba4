//! Byte encodings: little-endian integers, hexadecimal text and the SHA-256 digest.

use vstd::prelude::*;

verus! {

/// The `k` low bytes of `n`, least significant first.
pub open spec fn le_bytes(n: nat, k: nat) -> Seq<u8>
    decreases k,
{
    if k == 0 {
        Seq::empty()
    } else {
        seq![(n % 256) as u8] + le_bytes(n / 256, (k - 1) as nat)
    }
}

/// Appends the `k` low bytes of `n`, least significant first.
pub fn push_le(out: &mut Vec<u8>, n: u128, k: usize)
    ensures
        final(out)@ == old(out)@ + le_bytes(n as nat, k as nat),
{
    let mut rest: u128 = n;
    let mut left: usize = k;
    while left > 0
        invariant
            out@ + le_bytes(rest as nat, left as nat) == old(out)@ + le_bytes(n as nat, k as nat),
        decreases left,
    {
        let low: u8 = (rest % 256) as u8;
        let ghost so_far = out@;
        out.push(low);
        proof {
            assert(le_bytes(rest as nat, left as nat) == seq![low] + le_bytes(
                (rest / 256) as nat,
                (left - 1) as nat,
            ));
            assert(out@ + le_bytes((rest / 256) as nat, (left - 1) as nat) =~= so_far + le_bytes(
                rest as nat,
                left as nat,
            ));
        }
        rest = rest / 256;
        left = left - 1;
    }
    assert(out@ + le_bytes(rest as nat, 0) =~= out@);
}

/// `k` bytes are written, and numbers that fit in `k` bytes and are written alike are equal.
pub proof fn le_bytes_is_injective(m: nat, n: nat, k: nat)
    ensures
        le_bytes(m, k).len() == k,
        le_bytes(m, k) == le_bytes(n, k) && m < vstd::arithmetic::power::pow(256, k) && n
            < vstd::arithmetic::power::pow(256, k) ==> m == n,
    decreases k,
{
    reveal(vstd::arithmetic::power::pow);
    if k > 0 {
        let j: nat = (k - 1) as nat;
        le_bytes_is_injective(m / 256, n / 256, j);
        if le_bytes(m, k) == le_bytes(n, k) {
            assert(le_bytes(m, k)[0] == (m % 256) as u8);
            assert(le_bytes(n, k)[0] == (n % 256) as u8);
            assert(le_bytes(m, k).skip(1) =~= le_bytes(m / 256, j));
            assert(le_bytes(n, k).skip(1) =~= le_bytes(n / 256, j));
        }
    }
}

/// The two's complement of `x` in 128 bits, read as an unsigned number.
pub open spec fn twos_complement(x: i128) -> nat {
    if x >= 0 {
        x as nat
    } else {
        (x + 0x1_0000_0000_0000_0000_0000_0000_0000_0000) as nat
    }
}

/// The two's complement of `x`, as an unsigned number.
pub fn to_twos_complement(x: i128) -> (n: u128)
    ensures
        n == twos_complement(x),
{
    if x >= 0 {
        x as u128
    } else {
        u128::MAX - ((-(x + 1)) as u128)
    }
}

/// The lower-case hexadecimal digit of `d`, for `d` below sixteen.
pub open spec fn hex_digit(d: nat) -> char {
    if d < 10 {
        (0x30 + d) as char
    } else {
        (0x61 + d - 10) as char
    }
}

/// The lower-case hexadecimal text of `bytes`: two digits per byte, the high one first.
pub open spec fn hex_text(bytes: Seq<u8>) -> Seq<char> {
    Seq::new(
        2 * bytes.len(),
        |i: int|
            if i % 2 == 0 {
                hex_digit((bytes[i / 2] / 16) as nat)
            } else {
                hex_digit((bytes[i / 2] % 16) as nat)
            },
    )
}

/// Calls `hex::encode`, which writes each byte as two lower-case hexadecimal digits, the high one
/// first.
#[verifier::external_body]
pub(crate) fn hex_encode(bytes: &[u8]) -> (text: String)
    ensures
        text@ == hex_text(bytes@),
{
    hex::encode(bytes)
}

/// The SHA-256 digest of a byte sequence.
pub uninterp spec fn sha256(data: Seq<u8>) -> Seq<u8>;

/// Calls `Sha256::digest` of the `sha2` crate: the digest of `data`, which is 32 bytes long. The
/// hasher counts the message in bits with 64-bit arithmetic, so longer messages are left out.
#[verifier::external_body]
pub(crate) fn sha256_digest(data: &[u8]) -> (digest: Vec<u8>)
    requires
        data@.len() <= 0x1fff_ffff_ffff_ffff,
    ensures
        digest@ == sha256(data@),
        digest@.len() == 32,
{
    <sha2::Sha256 as sha2::Digest>::digest(data).to_vec()
}

} // verus!
