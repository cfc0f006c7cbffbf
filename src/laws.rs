//! Laws that every repacking obeys, stated over the specification of `repack`.

use vstd::arithmetic::div_mod::{lemma_fundamental_div_mod, lemma_fundamental_div_mod_converse};
use vstd::prelude::*;

use crate::stream::{lemma_stream_position, repacked, stream_bit};
use crate::word::bit_of;

verus! {

/// Repacking `src` from `bits_in` to `bits_out` bits per element under a limit that
/// covers all of its bits, then repacking that result back to `bits_in` bits per
/// element with the source's own bit count as the limit, gives back one element per
/// source element, holding the source element's `bits_in` significant bits and
/// nothing above them.
pub proof fn lemma_round_trip(
    src: Seq<u64>,
    bits_in: nat,
    bits_out: nat,
    bits_limit: nat,
    mid: Seq<u64>,
    back: Seq<u64>,
)
    requires
        1 <= bits_in <= 64,
        1 <= bits_out <= 64,
        src.len() * bits_in <= bits_limit,
        repacked(src, bits_in, bits_out, bits_limit, mid),
        repacked(mid, bits_out, bits_in, src.len() * bits_in, back),
    ensures
        back.len() == src.len(),
        forall|e: int, k: u64|
            #![trigger bit_of(back[e], k)]
            0 <= e < src.len() && k < 64 ==> bit_of(back[e], k) == (k < bits_in && bit_of(
                src[e],
                k,
            )),
{
    let total = src.len() * bits_in;
    lemma_fundamental_div_mod_converse(total as int, bits_in as int, src.len() as int, 0);
    assert forall|e: int, k: u64| 0 <= e < src.len() && k < 64 implies #[trigger] bit_of(
        back[e],
        k,
    ) == (k < bits_in && bit_of(src[e], k)) by {
        if k < bits_in {
            let p = e as nat * bits_in + (bits_in - 1 - k) as nat;
            lemma_stream_position(back, bits_in, e as nat, k as nat);
            lemma_stream_position(src, bits_in, e as nat, k as nat);
            let len = src.len();
            assert(p < total) by (nonlinear_arith)
                requires
                    p == e * bits_in + (bits_in - 1 - k),
                    0 <= e < len,
                    k < bits_in,
                    total == len * bits_in,
            ;
            assert(stream_bit(back, bits_in, p) == stream_bit(mid, bits_out, p));
            assert(stream_bit(mid, bits_out, p) == stream_bit(src, bits_in, p));
        }
    }
}

/// Every position of a repacked stream at or past the end of the source's bits reads
/// as zero.
pub proof fn lemma_zero_padding(
    src: Seq<u64>,
    bits_in: nat,
    bits_out: nat,
    bits_limit: nat,
    out: Seq<u64>,
    i: nat,
)
    requires
        1 <= bits_in <= 64,
        1 <= bits_out <= 64,
        repacked(src, bits_in, bits_out, bits_limit, out),
        src.len() * bits_in <= i < bits_limit,
    ensures
        !stream_bit(out, bits_out, i),
{
    lemma_fundamental_div_mod(i as int, bits_in as int);
    let q = i / bits_in;
    let r = i % bits_in;
    let len = src.len();
    assert(q >= len) by (nonlinear_arith)
        requires
            i == bits_in * q + r,
            r < bits_in,
            len * bits_in <= i,
    ;
    assert(stream_bit(out, bits_out, i) == stream_bit(src, bits_in, i));
}

} // verus!
