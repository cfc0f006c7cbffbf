//! Repacking a packed sequence of bit-fields into another field width.

use vstd::prelude::*;

use crate::stream::{
    bits_of, lemma_extract_bit, lemma_fits_below_width, lemma_or_bit, lemma_position_in_range,
    lemma_same_slot, lemma_zero_bits, repacked, stream_bit,
};
use crate::word::{bit_of, BitWord};

verus! {

/// Why a repacking was refused. The last three guard the conversions of shift amounts
/// and bits into word types; `repack`'s contract shows that they never occur for a
/// `BitWord`, whose width is at most 64.
#[derive(Debug, Clone, Copy, PartialEq, Eq)]
pub enum RepackError {
    /// One of `bits_in`, `bits_out`, `bits_limit` is zero.
    InvalidParameter,
    /// `bits_in` exceeds the width of the source word type.
    SourceWidthExceeded,
    /// `bits_out` exceeds the width of the destination word type.
    DestWidthExceeded,
    /// `bits_limit` is not a multiple of `bits_out`.
    LimitNotAligned,
    /// A source shift amount does not fit in the source word type.
    ShiftAmountToSourceTypeFailed,
    /// A destination shift amount does not fit in the destination word type.
    ShiftAmountToDestTypeFailed,
    /// An extracted bit does not fit in the destination word type.
    BitValueConversionFailed,
}

/// The first parameter check that fails, in the order they are made, for source and
/// destination words of widths `width_in` and `width_out`; `None` when all pass.
pub open spec fn parameter_error(
    bits_in: nat,
    bits_out: nat,
    bits_limit: nat,
    width_in: nat,
    width_out: nat,
) -> Option<RepackError> {
    if bits_in < 1 || bits_out < 1 || bits_limit < 1 {
        Some(RepackError::InvalidParameter)
    } else if bits_in > width_in {
        Some(RepackError::SourceWidthExceeded)
    } else if bits_out > width_out {
        Some(RepackError::DestWidthExceeded)
    } else if bits_limit % bits_out != 0 {
        Some(RepackError::LimitNotAligned)
    } else {
        None
    }
}

/// Reads the bit stream that `src` holds with `bits_in` significant (low) bits per
/// element, most significant first, and lays its first `bits_limit` bits out with
/// `bits_out` bits per element of the result. Positions past the end of `src` read
/// as zero; source bits past `bits_limit` are not read.
pub fn repack<T1: BitWord, T2: BitWord>(
    src: &[T1],
    bits_in: usize,
    bits_out: usize,
    bits_limit: usize,
) -> (r: Result<Vec<T2>, RepackError>)
    ensures
        r is Ok <==> parameter_error(
            bits_in as nat,
            bits_out as nat,
            bits_limit as nat,
            T1::spec_width() as nat,
            T2::spec_width() as nat,
        ) is None,
        r matches Err(e) ==> parameter_error(
            bits_in as nat,
            bits_out as nat,
            bits_limit as nat,
            T1::spec_width() as nat,
            T2::spec_width() as nat,
        ) == Some(e),
        r matches Ok(out) ==> repacked(
            bits_of(src@),
            bits_in as nat,
            bits_out as nat,
            bits_limit as nat,
            bits_of(out@),
        ),
{
    if bits_in < 1 || bits_out < 1 || bits_limit < 1 {
        return Err(RepackError::InvalidParameter);
    }
    if bits_in > T1::width() {
        return Err(RepackError::SourceWidthExceeded);
    }
    if bits_out > T2::width() {
        return Err(RepackError::DestWidthExceeded);
    }
    if bits_limit % bits_out != 0 {
        return Err(RepackError::LimitNotAligned);
    }
    let ghost sv = bits_of(src@);
    let ghost bi = bits_in as nat;
    let ghost bo = bits_out as nat;
    let n: usize = bits_limit / bits_out;
    proof {
        vstd::arithmetic::div_mod::lemma_fundamental_div_mod(bits_limit as int, bits_out as int);
        assert(bits_limit == bo * n);
    }
    // The result starts as `n` zero words.
    let mut dst: Vec<T2> = Vec::new();
    while dst.len() < n
        invariant
            dst.len() <= n,
            forall|j: int| 0 <= j < dst.len() ==> (#[trigger] dst@[j]).spec_bits() == 0,
        decreases n - dst.len(),
    {
        dst.push(T2::zero());
    }
    proof {
        assert forall|j: int, k: u64| 0 <= j < dst.len() implies !#[trigger] bit_of(
            bits_of(dst@)[j],
            k,
        ) by {
            lemma_zero_bits(k);
        }
    }
    let mut i: usize = 0;
    while i < bits_limit
        invariant
            i <= bits_limit,
            bits_limit == bo * n,
            bi == bits_in,
            bo == bits_out,
            1 <= bits_in <= T1::spec_width(),
            1 <= bits_out <= T2::spec_width(),
            T1::spec_width() <= 64,
            T2::spec_width() <= 64,
            sv == bits_of(src@),
            dst.len() == n,
            forall|p: nat|
                p < bits_limit ==> #[trigger] stream_bit(bits_of(dst@), bo, p) == (p < i
                    && stream_bit(sv, bi, p)),
            forall|j: int, k: u64|
                #![trigger bit_of(bits_of(dst@)[j], k)]
                0 <= j < dst.len() && bits_out <= k < 64 ==> !bit_of(bits_of(dst@)[j], k),
        decreases bits_limit - i,
    {
        // Element and offset (from the most significant end) of position `i`,
        // in the source and in the result.
        let src_i = i / bits_in;
        let src_b = i % bits_in;
        let dst_i = i / bits_out;
        let dst_b = i % bits_out;
        proof {
            lemma_position_in_range(i as nat, bo, n as nat);
            lemma_fits_below_width((bits_in - src_b - 1) as u64, T1::spec_width());
            lemma_fits_below_width((bits_out - dst_b - 1) as u64, T2::spec_width());
        }
        let rsh = match T1::from_u64((bits_in - src_b - 1) as u64) {
            Some(v) => v,
            None => return Err(RepackError::ShiftAmountToSourceTypeFailed),
        };
        let lsh = match T2::from_u64((bits_out - dst_b - 1) as u64) {
            Some(v) => v,
            None => return Err(RepackError::ShiftAmountToDestTypeFailed),
        };
        // Positions past the end of the source read as zero.
        let src_word = if src_i < src.len() {
            src[src_i]
        } else {
            T1::zero()
        };
        // Move the wanted bit to position 0 and keep it alone.
        let picked = src_word.shift_right(&rsh).bit_and(&T1::one());
        proof {
            lemma_extract_bit(src_word.spec_bits(), rsh.spec_bits());
            lemma_zero_bits(rsh.spec_bits());
            assert(picked.spec_bits() == 1 <==> stream_bit(sv, bi, i as nat));
        }
        let src_bit = match T2::from_u64(picked.to_u64()) {
            Some(v) => v,
            None => return Err(RepackError::BitValueConversionFailed),
        };
        // Each position is visited once, so or-ing never overwrites a written bit.
        let ghost old_bits = bits_of(dst@);
        let cur = dst[dst_i];
        let next = cur.bit_or(&src_bit.shift_left(&lsh));
        dst.set(dst_i, next);
        proof {
            let x = cur.spec_bits();
            let b = src_bit.spec_bits();
            let s = lsh.spec_bits();
            let w = T2::spec_width();
            assert(bits_of(dst@) =~= old_bits.update(dst_i as int, next.spec_bits()));
            assert forall|p: nat| p < bits_limit implies #[trigger] stream_bit(
                bits_of(dst@),
                bo,
                p,
            ) == (p < i + 1 && stream_bit(sv, bi, p)) by {
                lemma_position_in_range(p, bo, n as nat);
                if p / bo == dst_i {
                    lemma_or_bit(x, b, s, w, (bo - 1 - p % bo) as u64);
                    if p % bo == dst_b {
                        lemma_same_slot(p, i as nat, bo);
                    }
                    assert(stream_bit(old_bits, bo, p) == (p < i && stream_bit(sv, bi, p)));
                }
            }
            assert forall|j: int, k: u64|
                0 <= j < dst.len() && bits_out <= k < 64 implies !#[trigger] bit_of(
                bits_of(dst@)[j],
                k,
            ) by {
                assert(!bit_of(old_bits[j], k));
                if j == dst_i {
                    lemma_or_bit(x, b, s, w, k);
                }
            }
        }
        i = i + 1;
    }
    Ok(dst)
}

} // verus!
