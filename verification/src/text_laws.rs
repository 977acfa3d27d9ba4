//! What holds of numerals, of the order of texts and of byte encodings.

use vstd::prelude::*;
use vstd::utf8::*;

verus! {

/// The number that a row of decimal digits stands for.
pub open spec fn number_of(s: Seq<char>) -> int
    decreases s.len(),
{
    if s.len() == 0 {
        0
    } else {
        10 * number_of(s.drop_last()) + (s.last() as int - '0' as int)
    }
}

/// A numeral reads back to its number, holds nothing but digits, and has no leading zero.
pub proof fn numerals_read_back(n: nat)
    ensures
        number_of(crate::text::decimal(n)) == n,
        crate::text::decimal(n).len() > 0,
        forall|i: int|
            0 <= i < crate::text::decimal(n).len() ==> '0' <= #[trigger] crate::text::decimal(n)[i]
                <= '9',
        n > 0 ==> crate::text::decimal(n)[0] != '0',
    decreases n,
{
    let s = crate::text::decimal(n);
    reveal_with_fuel(number_of, 2);
    if n < 10 {
        assert(s.drop_last() =~= Seq::<char>::empty());
        assert(s.last() == crate::text::digit(n));
    } else {
        numerals_read_back(n / 10);
        let front = crate::text::decimal(n / 10);
        assert(s.drop_last() =~= front);
        assert(s.last() == crate::text::digit(n % 10));
        assert(s[0] == front[0]);
        assert forall|i: int| 0 <= i < s.len() implies '0' <= #[trigger] s[i] <= '9' by {
            if i < front.len() {
                assert(s[i] == front[i]);
            }
        }
    }
}

/// Different numbers have different numerals.
pub proof fn numerals_tell_numbers_apart(m: nat, n: nat)
    requires
        crate::text::decimal(m) == crate::text::decimal(n),
    ensures
        m == n,
{
    numerals_read_back(m);
    numerals_read_back(n);
}

/// The first byte in which two texts differ decides which comes first, and where there is none the
/// shorter one does.
pub proof fn the_first_difference_decides(a: Seq<char>, b: Seq<char>, k: nat)
    requires
        k <= encode_utf8(a).len(),
        k <= encode_utf8(b).len(),
        forall|i: int| 0 <= i < k ==> #[trigger] encode_utf8(a)[i] == encode_utf8(b)[i],
    ensures
        k < encode_utf8(a).len() && k < encode_utf8(b).len() && encode_utf8(a)[k as int]
            < encode_utf8(b)[k as int] ==> crate::text::text_before(a, b)
            && !crate::text::text_before(b, a),
        k == encode_utf8(a).len() && k < encode_utf8(b).len() ==> crate::text::text_before(a, b)
            && !crate::text::text_before(b, a),
{
    lemma_first_difference(encode_utf8(a), encode_utf8(b), k);
}

proof fn lemma_first_difference(x: Seq<u8>, y: Seq<u8>, k: nat)
    requires
        k <= x.len(),
        k <= y.len(),
        forall|i: int| 0 <= i < k ==> #[trigger] x[i] == y[i],
    ensures
        k < x.len() && k < y.len() && x[k as int] < y[k as int] ==> crate::text::bytes_before(x, y)
            && !crate::text::bytes_before(y, x),
        k == x.len() && k < y.len() ==> crate::text::bytes_before(x, y)
            && !crate::text::bytes_before(y, x),
    decreases k,
{
    if k > 0 {
        assert(x[0] == y[0]);
        let p = x.drop_first();
        let q = y.drop_first();
        assert forall|i: int| 0 <= i < k - 1 implies #[trigger] p[i] == q[i] by {
            assert(x[i + 1] == y[i + 1]);
        }
        lemma_first_difference(p, q, (k - 1) as nat);
    }
}

/// Byte `i` of a little-endian integer is its digit to the base 256 at place `i`.
pub proof fn little_endian_digits(n: nat, k: nat, i: nat)
    requires
        i < k,
    ensures
        crate::bytes::le_bytes(n, k).len() == k,
        crate::bytes::le_bytes(n, k)[i as int] as int == (n as int / vstd::arithmetic::power::pow(256, i)) % 256,
    decreases k,
{
    reveal(vstd::arithmetic::power::pow);
    let rest = crate::bytes::le_bytes(n / 256, (k - 1) as nat);
    crate::bytes::le_bytes_is_injective(n, n, k);
    crate::bytes::le_bytes_is_injective(n / 256, n / 256, (k - 1) as nat);
    if i == 0 {
        assert(vstd::arithmetic::power::pow(256, 0) == 1);
        assert(n as int / 1 == n);
    } else {
        let j = (i - 1) as nat;
        little_endian_digits(n / 256, (k - 1) as nat, j);
        assert(crate::bytes::le_bytes(n, k)[i as int] == rest[j as int]);
        vstd::arithmetic::power::lemma_pow_positive(256, j);
        vstd::arithmetic::div_mod::lemma_div_denominator(n as int, 256, vstd::arithmetic::power::pow(256, j));
        assert(vstd::arithmetic::power::pow(256, i) == 256 * vstd::arithmetic::power::pow(256, j));
    }
}

/// A two's complement is the number itself, up to a multiple of 2 to the 128, and fits in 128 bits.
pub proof fn twos_complement_wraps(x: i128)
    ensures
        crate::bytes::twos_complement(x) < 0x1_0000_0000_0000_0000_0000_0000_0000_0000int,
        (crate::bytes::twos_complement(x) - x) % 0x1_0000_0000_0000_0000_0000_0000_0000_0000int == 0,
{
}

/// The value of a lower-case hexadecimal digit.
pub open spec fn hex_value(c: char) -> int {
    if '0' <= c && c <= '9' {
        c as int - '0' as int
    } else if 'a' <= c && c <= 'f' {
        c as int - 'a' as int + 10
    } else {
        -1
    }
}

/// Hexadecimal text reads back to its bytes: two digits for each, the high one first.
pub proof fn hex_reads_back(bytes: Seq<u8>, i: int)
    requires
        0 <= i < bytes.len(),
    ensures
        crate::bytes::hex_text(bytes).len() == 2 * bytes.len(),
        0 <= hex_value(crate::bytes::hex_text(bytes)[2 * i]) < 16,
        0 <= hex_value(crate::bytes::hex_text(bytes)[2 * i + 1]) < 16,
        16 * hex_value(crate::bytes::hex_text(bytes)[2 * i]) + hex_value(
            crate::bytes::hex_text(bytes)[2 * i + 1],
        ) == bytes[i],
{
    let t = crate::bytes::hex_text(bytes);
    assert((2 * i) / 2 == i && (2 * i) % 2 == 0);
    assert((2 * i + 1) / 2 == i && (2 * i + 1) % 2 == 1);
    assert(t[2 * i] == crate::bytes::hex_digit((bytes[i] / 16) as nat));
    assert(t[2 * i + 1] == crate::bytes::hex_digit((bytes[i] % 16) as nat));
}

/// A text with one place left open: the same words before and after, whatever is put there.
pub open spec fn one_wording(f: spec_fn(Seq<char>) -> Seq<char>) -> bool {
    exists|a: Seq<char>, b: Seq<char>| #[trigger] says(f, a, b)
}

/// Whether `f` puts every text between `a` and `b`.
pub open spec fn says(f: spec_fn(Seq<char>) -> Seq<char>, a: Seq<char>, b: Seq<char>) -> bool {
    forall|x: Seq<char>| #[trigger] f(x) == a + x + b
}

} // verus!
