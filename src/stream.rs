//! The logical bit stream of a packed sequence, and what a repacking must produce.

use vstd::arithmetic::div_mod::{lemma_fundamental_div_mod, lemma_fundamental_div_mod_converse};
use vstd::prelude::*;

use crate::word::{bit_of, mask, BitWord};

verus! {

/// The bit patterns of a sequence of words.
pub open spec fn bits_of<T: BitWord>(s: Seq<T>) -> Seq<u64> {
    s.map_values(|x: T| x.spec_bits())
}

/// Bit `i` of the stream that `s` holds with `width` significant bits per element,
/// most significant first; positions past the end of `s` read as zero.
pub open spec fn stream_bit(s: Seq<u64>, width: nat, i: nat) -> bool {
    let e = i / width;
    e < s.len() && bit_of(s[e as int], (width - 1 - i % width) as u64)
}

/// `out` holds the first `bits_limit` bits of the stream of `src` (read `bits_in` bits
/// per element) with `bits_out` bits per element, every element fully used, and
/// nothing set above its `bits_out` significant bits.
pub open spec fn repacked(
    src: Seq<u64>,
    bits_in: nat,
    bits_out: nat,
    bits_limit: nat,
    out: Seq<u64>,
) -> bool {
    &&& out.len() == bits_limit / bits_out
    &&& forall|i: nat|
        i < bits_limit ==> #[trigger] stream_bit(out, bits_out, i) == stream_bit(src, bits_in, i)
    &&& forall|j: int, k: u64|
        #![trigger bit_of(out[j], k)]
        0 <= j < out.len() && bits_out <= k < 64 ==> !bit_of(out[j], k)
}

/// Or-ing a single bit shifted to `s` into `x` sets bit `s` when the bit is one, and
/// leaves every other bit as it was.
pub proof fn lemma_or_bit(x: u64, b: u64, s: u64, w: u64, k: u64)
    requires
        b <= 1,
        s < w,
        1 <= w <= 64,
        k < 64,
    ensures
        bit_of(x | ((b << s) & mask(w)), k) == (bit_of(x, k) || (b == 1 && k == s)),
{
    assert(bit_of(x | ((b << s) & mask(w)), k) == (bit_of(x, k) || (b == 1 && k == s)))
        by (bit_vector)
        requires
            b <= 1,
            s < w,
            1 <= w <= 64,
            k < 64,
    ;
}

/// Shifting right by `a` and keeping bit 0 reads bit `a`.
pub proof fn lemma_extract_bit(x: u64, a: u64)
    requires
        a < 64,
    ensures
        (x >> a) & 1 <= 1,
        ((x >> a) & 1 == 1) == bit_of(x, a),
{
    assert((x >> a) & 1 <= 1) by (bit_vector);
    assert(((x >> a) & 1 == 1) == bit_of(x, a)) by (bit_vector);
}

/// Every amount below the width, and one, fit in a word of that width.
pub proof fn lemma_fits_below_width(n: u64, w: u64)
    requires
        n < w,
        1 <= w <= 64,
    ensures
        n <= mask(w),
        1 <= mask(w),
{
    assert(n <= mask(w) && 1 <= mask(w)) by (bit_vector)
        requires
            n < w,
            1 <= w <= 64,
    ;
}

/// No bit of zero is set.
pub proof fn lemma_zero_bits(k: u64)
    ensures
        !bit_of(0, k),
{
    assert(!bit_of(0, k)) by (bit_vector);
}

/// A position below `width * n` lies in one of the first `n` elements.
pub proof fn lemma_position_in_range(p: nat, width: nat, n: nat)
    requires
        width > 0,
        p < width * n,
    ensures
        p / width < n,
        p % width < width,
{
    lemma_fundamental_div_mod(p as int, width as int);
    let q = p / width;
    let r = p % width;
    assert(q < n) by (nonlinear_arith)
        requires
            p == width * q + r,
            0 <= r,
            p < width * n,
            width > 0,
    ;
}

/// Two positions in the same element at the same offset are the same position.
pub proof fn lemma_same_slot(p: nat, i: nat, width: nat)
    requires
        width > 0,
        p / width == i / width,
        p % width == i % width,
    ensures
        p == i,
{
    lemma_fundamental_div_mod(p as int, width as int);
    lemma_fundamental_div_mod(i as int, width as int);
}

/// Bit `k` of element `e` sits at position `e * width + (width - 1 - k)` of the stream.
pub proof fn lemma_stream_position(s: Seq<u64>, width: nat, e: nat, k: nat)
    requires
        k < width,
    ensures
        ({
            let p = e * width + (width - 1 - k) as nat;
            &&& p / width == e
            &&& p % width == width - 1 - k
            &&& stream_bit(s, width, p) == (e < s.len() && bit_of(s[e as int], k as u64))
        }),
{
    let p = e * width + (width - 1 - k) as nat;
    lemma_fundamental_div_mod_converse(p as int, width as int, e as int, (width - 1 - k) as int);
}

} // verus!
