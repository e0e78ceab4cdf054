//! Size classes and block layouts.
//!
//! A block's footprint is the width of its generation header plus the
//! payload size rounded up to a power of two. Its backing store is aligned
//! to the largest power of two that divides the footprint.

use vstd::arithmetic::div_mod::{lemma_fundamental_div_mod, lemma_fundamental_div_mod_converse};
use vstd::arithmetic::power::lemma_pow_positive;
use vstd::arithmetic::power2::{is_pow2, is_pow2_equiv, lemma2_to64, lemma2_to64_rest};
use vstd::layout::size_of;
use vstd::prelude::*;

verus! {

/// The smallest power of two that is at least `n`.
pub open spec fn next_pow2(n: nat) -> nat
    decreases n,
{
    if n <= 1 {
        1
    } else {
        2 * next_pow2((n + 1) / 2)
    }
}

/// The largest power of two that divides `size`, and 1 when `size` is 0.
pub open spec fn alignment_of(size: nat) -> nat
    decreases size,
{
    if size == 0 || size % 2 == 1 {
        1
    } else {
        2 * alignment_of(size / 2)
    }
}

/// Width in bytes of the generation header that precedes every payload.
pub open spec fn header_width() -> nat {
    size_of::<usize>()
}

/// Total footprint of a block that holds a payload of `payload` bytes.
pub open spec fn size_class_for(payload: nat) -> nat {
    header_width() + next_pow2(payload)
}

/// Total footprint of a block that holds a `T`.
pub open spec fn size_class_of<T>() -> nat {
    size_class_for(size_of::<T>())
}

/// Whether a backing store of `size` bytes can be laid out at `align`:
/// `align` is a power of two and `size`, rounded up to a multiple of
/// `align`, does not exceed `isize::MAX`.
pub open spec fn layout_fits(size: nat, align: nat) -> bool {
    is_pow2(align as int) && size + align - 1 <= isize::MAX
}

/// Whether a block of footprint `size` can be acquired from the backing
/// store at the alignment derived from `size`.
pub open spec fn valid_block_layout(size: nat) -> bool {
    layout_fits(size, alignment_of(size))
}

/// The largest payload size for which a block can be laid out: a quarter
/// of the address range.
pub open spec fn max_payload() -> nat {
    (usize::MAX / 4 + 1) as nat
}

/// Whether a block for a `T` can be acquired from the backing store. By
/// [`lemma_allocatable`] this is the validity of the block's layout.
pub open spec fn allocatable<T>() -> bool {
    size_of::<T>() <= max_payload()
}

/// `next_pow2(n)` is a power of two, is at least `n`, and no smaller power
/// of two is.
pub proof fn lemma_next_pow2_is_least(n: nat, p: nat)
    ensures
        is_pow2(next_pow2(n) as int),
        next_pow2(n) >= n,
        is_pow2(p as int) && p >= n ==> next_pow2(n) <= p,
    decreases n,
{
    reveal(is_pow2);
    if n > 1 {
        lemma_next_pow2_is_least((n + 1) / 2, p / 2);
    }
}

/// A power of two that is at least `n`, and whose half is below `n`, is
/// `next_pow2(n)`.
pub proof fn lemma_next_pow2_unique(n: nat, p: nat)
    requires
        is_pow2(p as int),
        p >= n,
        p == 1 || p / 2 < n,
    ensures
        p == next_pow2(n),
    decreases n,
{
    reveal(is_pow2);
    if n > 1 {
        lemma_next_pow2_unique((n + 1) / 2, p / 2);
    }
}

/// `alignment_of(size)` is a power of two that divides `size`, and for a
/// positive `size` the quotient is odd: no larger power of two divides it.
pub proof fn lemma_alignment_of(size: nat)
    ensures
        is_pow2(alignment_of(size) as int),
        alignment_of(size) >= 1,
        size % alignment_of(size) == 0,
        size > 0 ==> alignment_of(size) <= size && (size / alignment_of(size)) % 2 == 1,
    decreases size,
{
    reveal(is_pow2);
    if size != 0 && size % 2 == 0 {
        let half = size / 2;
        let a = alignment_of(half);
        lemma_alignment_of(half);
        let k = half / a;
        lemma_fundamental_div_mod(half as int, a as int);
        assert(size == k * (2 * a) + 0) by (nonlinear_arith)
            requires
                size == 2 * half,
                half == a * k,
        ;
        lemma_fundamental_div_mod_converse(size as int, 2 * a as int, k as int, 0);
    }
}

/// Of two powers of two the smaller divides the larger.
pub proof fn lemma_pow2_divides(a: nat, b: nat)
    requires
        is_pow2(a as int),
        is_pow2(b as int),
        a <= b,
    ensures
        b % a == 0,
    decreases a,
{
    reveal(is_pow2);
    if a > 1 {
        let k = (b / 2) / (a / 2);
        lemma_pow2_divides(a / 2, b / 2);
        assert(b == k * a + 0) by (nonlinear_arith)
            requires
                b == 2 * (b / 2),
                a == 2 * (a / 2),
                b / 2 == (a / 2) * k,
        ;
        lemma_fundamental_div_mod_converse(b as int, a as int, k as int, 0);
    }
}

/// A block is aligned to at most twice the width of its header: the header
/// and the rounded payload are both powers of two, so their sum has no
/// larger power of two as a divisor.
pub proof fn lemma_block_alignment_bound(payload: nat)
    ensures
        alignment_of(size_class_for(payload)) <= 2 * header_width(),
{
    broadcast use vstd::layout::layout_of_primitives;

    let h = header_width();
    let p = next_pow2(payload);
    let size = size_class_for(payload);
    let a = alignment_of(size);
    lemma_next_pow2_is_least(payload, 1);
    lemma_alignment_of(size);
    assert(is_pow2(2 * h as int) && is_pow2(4 * h as int)) by {
        reveal_with_fuel(is_pow2, 6);
    }
    if a > 2 * h {
        lemma_pow2_divides(2 * h, a);
        lemma_pow2_divides(4 * h, a);
        let m = a / (4 * h);
        let k = size / a;
        lemma_fundamental_div_mod(size as int, a as int);
        assert(size == (m * k) * (4 * h) + 0) by (nonlinear_arith)
            requires
                size == a * k,
                a == (4 * h) * m,
        ;
        if p >= 4 * h {
            lemma_pow2_divides(4 * h, p);
        } else {
            let q = (4 * h) / p;
            lemma_pow2_divides(p, 4 * h);
            lemma_fundamental_div_mod(4 * h as int, p as int);
            assert(p <= 2 * h) by (nonlinear_arith)
                requires
                    4 * h == p * q,
                    1 <= p < 4 * h,
            ;
        }
    }
}

/// A block's layout is valid exactly when its payload is at most
/// `max_payload()` bytes.
pub proof fn lemma_payload_limit(payload: nat)
    ensures
        valid_block_layout(size_class_for(payload)) <==> payload <= max_payload(),
{
    broadcast use vstd::layout::layout_of_primitives;

    let quarter = max_payload();
    let p = next_pow2(payload);
    lemma2_to64();
    lemma2_to64_rest();
    lemma_pow_positive(2, 30);
    lemma_pow_positive(2, 62);
    is_pow2_equiv(quarter as int);
    lemma_next_pow2_is_least(payload, quarter);
    lemma_alignment_of(size_class_for(payload));
    lemma_block_alignment_bound(payload);
    if payload > quarter {
        lemma_pow2_divides(quarter, p);
    }
}

/// A block for a `T` can be acquired exactly when its layout is valid.
pub proof fn lemma_allocatable<T>()
    ensures
        allocatable::<T>() <==> valid_block_layout(size_class_of::<T>()),
{
    lemma_payload_limit(size_of::<T>());
}

/// Half of the address range, `usize::MAX / 2 + 1`, is a power of two, so
/// rounding a size of at most that much up to a power of two stays in range.
pub proof fn lemma_next_pow2_in_range(n: nat)
    requires
        n <= usize::MAX / 2 + 1,
    ensures
        next_pow2(n) <= usize::MAX / 2 + 1,
{
    let half: int = usize::MAX / 2 + 1;
    lemma2_to64();
    lemma2_to64_rest();
    lemma_pow_positive(2, 31);
    lemma_pow_positive(2, 63);
    is_pow2_equiv(half);
    lemma_next_pow2_is_least(n, half as nat);
}

/// Rounds `n` up to the next power of two; 0 and 1 both give 1.
pub fn next_power_of_two(n: usize) -> (p: usize)
    requires
        n <= usize::MAX / 2 + 1,
    ensures
        p == next_pow2(n as nat),
{
    let mut p: usize = 1;
    while p < n
        invariant
            n <= usize::MAX / 2 + 1,
            p >= 1,
            is_pow2(p as int),
            p == 1 || p / 2 < n,
        decreases usize::MAX - p,
    {
        proof {
            reveal(is_pow2);
        }
        p = p * 2;
    }
    proof {
        lemma_next_pow2_unique(n as nat, p as nat);
    }
    p
}

/// Alignment of the backing store for a block of footprint `size`: the
/// largest power of two that divides `size`.
pub fn alignment(size: usize) -> (align: usize)
    ensures
        align == alignment_of(size as nat),
{
    if size == 0 {
        return 1;
    }
    let mut rest: usize = size;
    let mut align: usize = 1;
    while rest % 2 == 0
        invariant
            rest > 0,
            align >= 1,
            align * rest == size,
            alignment_of(size as nat) == align * alignment_of(rest as nat),
        decreases rest,
    {
        proof {
            let half = rest / 2;
            assert((align * 2) * half == size) by (nonlinear_arith)
                requires
                    align * rest == size,
                    rest == 2 * half,
            ;
            assert(align * 2 <= size) by (nonlinear_arith)
                requires
                    (align * 2) * half == size,
                    half >= 1,
                    align >= 1,
            ;
            assert(align * alignment_of(rest as nat) == (align * 2) * alignment_of(half as nat))
                by (nonlinear_arith)
                requires
                    alignment_of(rest as nat) == 2 * alignment_of(half as nat),
            ;
        }
        rest = rest / 2;
        align = align * 2;
    }
    assert(align * 1 == align) by (nonlinear_arith);
    align
}

/// Width in bytes of the generation header.
pub fn header_size() -> (width: usize)
    ensures
        width == header_width(),
        width == 4 || width == 8,
{
    broadcast use vstd::layout::layout_of_primitives;

    core::mem::size_of::<usize>()
}

/// Total footprint of a block with a payload of `payload` bytes: the header
/// plus the payload size rounded up to a power of two.
pub fn size_class_for_payload(payload: usize) -> (size: usize)
    requires
        payload <= usize::MAX / 2 + 1,
    ensures
        size == size_class_for(payload as nat),
{
    proof {
        lemma_next_pow2_in_range(payload as nat);
    }
    header_size() + next_power_of_two(payload)
}

/// Total footprint of a block that holds a `T`.
pub fn size_class<T>() -> (size: usize)
    ensures
        size == size_class_of::<T>(),
{
    vstd::layout::layout_for_type_is_valid::<T>();
    size_class_for_payload(core::mem::size_of::<T>())
}

/// Tests whether a block for a `T` can be acquired from the backing store.
pub fn is_allocatable<T>() -> (fits: bool)
    ensures
        fits == allocatable::<T>(),
{
    core::mem::size_of::<T>() <= usize::MAX / 4 + 1
}

/// Tests whether a block of footprint `size` has a valid layout at the
/// alignment derived from `size`.
pub fn has_valid_block_layout(size: usize) -> (valid: bool)
    ensures
        valid == valid_block_layout(size as nat),
{
    let align = alignment(size);
    proof {
        lemma_alignment_of(size as nat);
    }
    let limit = isize::MAX as usize;
    align - 1 <= limit && size <= limit - (align - 1)
}

} // verus!
