//! Address arithmetic on pages and alignments.

use vstd::prelude::*;
use vstd::arithmetic::power2::{is_pow2, pow2, lemma2_to64, lemma_pow2_pos, lemma_pow2_unfold, lemma_pow2_strictly_increases};
use vstd::bits::{low_bits_mask, lemma_u64_low_bits_mask_is_mod};

verus! {

/// Size in bytes of one page.
pub const PAGE_SIZE: u64 = 4096;

/// Why an address computation was refused.
#[derive(Clone, Copy, Debug, PartialEq, Eq, Structural)]
pub enum Error {
    InvalidAlignment,
    OutOfMemory,
}

/// The size class of a mapping.
#[derive(Clone, Copy, Debug, PartialEq, Eq, Structural)]
pub enum Level {
    Page,
    HugePage,
}

/// An alignment is valid when it is a power of two.
pub open spec fn is_power_of_two(align: u64) -> bool {
    is_pow2(align as int)
}

/// The least multiple of `align` that is not below `addr`.
pub open spec fn round_up(addr: int, align: int) -> int {
    if addr % align == 0 {
        addr
    } else {
        addr - addr % align + align
    }
}

/// The greatest multiple of `align` that is not above `addr`.
pub open spec fn round_down(addr: int, align: int) -> int {
    addr - addr % align
}

/// A number is a power of two exactly when it is not zero and shares no bit
/// with its predecessor.
pub proof fn lemma_power_of_two_bits(align: u64)
    ensures
        is_power_of_two(align) <==> (align != 0 && align & ((align - 1) as u64) == 0),
    decreases align,
{
    reveal(is_pow2);
    if align == 0 {
    } else if align == 1 {
        assert(1u64 & ((1u64 - 1) as u64) == 0) by (bit_vector);
    } else {
        let half: u64 = align / 2;
        lemma_power_of_two_bits(half);
        assert(align > 1 ==> ((align & ((align - 1) as u64) == 0) <==> (align % 2 == 0 && (align
            / 2) != 0 && (align / 2) & (((align / 2) - 1) as u64) == 0))) by (bit_vector);
    }
}

/// The exponent of a power of two.
pub proof fn lemma_power_of_two_exponent(align: u64) -> (k: nat)
    requires
        is_power_of_two(align),
    ensures
        align == pow2(k),
        k < 64,
    decreases align,
{
    reveal(is_pow2);
    lemma2_to64();
    if align == 1 {
        0
    } else {
        let half: u64 = align / 2;
        let j = lemma_power_of_two_exponent(half);
        lemma_pow2_unfold(j + 1);
        if j + 1 >= 64 {
            if j + 1 > 64 {
                lemma_pow2_strictly_increases(64, j + 1);
            }
        }
        j + 1
    }
}

/// Clearing the bits below a power of two rounds down to a multiple of it.
pub proof fn lemma_mask_rounds_down(value: u64, align: u64)
    requires
        is_power_of_two(align),
    ensures
        align >= 1,
        (value & !((align - 1) as u64)) as int == round_down(value as int, align as int),
        value & ((align - 1) as u64) == value % align,
{
    let k = lemma_power_of_two_exponent(align);
    lemma_pow2_pos(k);
    lemma_u64_low_bits_mask_is_mod(value, k);
    let mask: u64 = (align - 1) as u64;
    assert(value & !mask == value - (value & mask)) by (bit_vector);
}

/// Tells whether `align` is a power of two.
pub fn is_valid_alignment(align: u64) -> (ok: bool)
    ensures
        ok == is_power_of_two(align),
        ok ==> align >= 1,
{
    proof {
        lemma_power_of_two_bits(align);
    }
    align != 0 && align & (align - 1) == 0
}

/// Rounds `addr` up to the next multiple of `align`.
///
/// An alignment that is not a power of two is refused.
pub fn align_up(addr: u64, align: u64) -> (res: Result<u64, Error>)
    requires
        is_power_of_two(align) ==> addr + align - 1 <= u64::MAX,
    ensures
        res is Ok <==> is_power_of_two(align),
        res matches Ok(v) ==> v as int == round_up(addr as int, align as int),
        res matches Err(e) ==> e == Error::InvalidAlignment,
{
    if !is_valid_alignment(align) {
        return Err(Error::InvalidAlignment);
    }
    let mask = align - 1;
    let sum = addr + mask;
    proof {
        lemma_mask_rounds_down(sum, align);
        lemma_round_up_by_sum(addr as int, align as int);
    }
    Ok(sum & !mask)
}

/// Rounds `addr` down to a multiple of `align`.
///
/// An alignment that is not a power of two is refused.
pub fn align_down(addr: u64, align: u64) -> (res: Result<u64, Error>)
    ensures
        res is Ok <==> is_power_of_two(align),
        res matches Ok(v) ==> v as int == round_down(addr as int, align as int),
        res matches Err(e) ==> e == Error::InvalidAlignment,
{
    if !is_valid_alignment(align) {
        return Err(Error::InvalidAlignment);
    }
    let mask = align - 1;
    proof {
        lemma_mask_rounds_down(addr, align);
    }
    Ok(addr & !mask)
}

/// The number of pages of `page_size` bytes that `length` bytes occupy.
pub fn pages_required(length: u64, page_size: u64) -> (pages: u64)
    requires
        page_size > 0,
    ensures
        length == 0 ==> pages == 0,
        length > 0 ==> pages == (length - 1) / (page_size as int) + 1,
{
    if length == 0 {
        return 0;
    }
    ((length - 1) / page_size) + 1
}

/// Tells whether `addr` is a multiple of the power of two `align`.
///
/// With an alignment that is not a power of two the answer is `false`.
pub fn is_aligned(addr: u64, align: u64) -> (ok: bool)
    ensures
        ok <==> is_power_of_two(align) && addr % align == 0,
{
    if !is_valid_alignment(align) {
        return false;
    }
    proof {
        lemma_mask_rounds_down(addr, align);
    }
    addr & (align - 1) == 0
}

/// Rounding down the sum of an address and `align - 1` rounds the address up.
pub proof fn lemma_round_up_by_sum(addr: int, align: int)
    requires
        addr >= 0,
        align > 0,
    ensures
        round_down(addr + align - 1, align) == round_up(addr, align),
{
    let q = addr / align;
    let r = addr % align;
    assert(addr == q * align + r) by {
        vstd::arithmetic::div_mod::lemma_fundamental_div_mod(addr, align);
    }
    if r == 0 {
        assert((addr + align - 1) % align == align - 1) by {
            vstd::arithmetic::div_mod::lemma_fundamental_div_mod_converse(
                addr + align - 1,
                align,
                q,
                align - 1,
            );
        }
    } else {
        assert((addr + align - 1) % align == r - 1) by {
            assert(addr + align - 1 == (q + 1) * align + (r - 1)) by (nonlinear_arith)
                requires
                    addr == q * align + r,
            ;
            vstd::arithmetic::div_mod::lemma_fundamental_div_mod_converse(
                addr + align - 1,
                align,
                q + 1,
                r - 1,
            );
        }
    }
}

} // verus!
