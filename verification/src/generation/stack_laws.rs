//! What first-fit packing guarantees: no bin overflows, no two slots
//! overlap, and the frame holds everything that was asked for.
use vstd::arithmetic::div_mod::{
    lemma_fundamental_div_mod, lemma_fundamental_div_mod_converse, lemma_mod_multiples_basic,
};
use vstd::prelude::*;
use crate::generation::stack_alloc::{
    bin_base, bin_capacity, bin_load, bin_of, first_fit, fits, fits_alignment, frame_depth,
    frame_extent, round_up, slot_end, slot_offset, total_size, valid_frame,
};

verus! {

/// A request ends up in a bin no higher than its own index plus one, fits
/// there, and fits in no lower bin.
pub proof fn lemma_bin_of(sizes: Seq<u8>, alignment: int, initial_offset: int, j: int)
    requires
        valid_frame(alignment, initial_offset),
        fits_alignment(sizes, alignment),
        0 <= j < sizes.len(),
    ensures
        0 <= bin_of(sizes, alignment, initial_offset, j) <= j + 1,
        fits(sizes, alignment, initial_offset, j, bin_of(sizes, alignment, initial_offset, j)),
        forall|bin: int|
            0 <= bin < bin_of(sizes, alignment, initial_offset, j) ==> !fits(
                sizes,
                alignment,
                initial_offset,
                j,
                bin,
            ),
    decreases j, 1int,
{
    lemma_first_fit(sizes, alignment, initial_offset, j, 0);
    if bin_of(sizes, alignment, initial_offset, j) == j + 1 {
        lemma_bin_load(sizes, alignment, initial_offset, j + 1, j);
    }
}

proof fn lemma_first_fit(sizes: Seq<u8>, alignment: int, initial_offset: int, j: int, bin: int)
    requires
        0 <= j < sizes.len(),
        0 <= bin <= j + 1,
    ensures
        bin <= first_fit(sizes, alignment, initial_offset, j, bin) <= j + 1,
        first_fit(sizes, alignment, initial_offset, j, bin) <= j ==> fits(
            sizes,
            alignment,
            initial_offset,
            j,
            first_fit(sizes, alignment, initial_offset, j, bin),
        ),
        forall|lower: int|
            bin <= lower < first_fit(sizes, alignment, initial_offset, j, bin) ==> !fits(
                sizes,
                alignment,
                initial_offset,
                j,
                lower,
            ),
    decreases j + 1 - bin,
{
    if bin <= j && !fits(sizes, alignment, initial_offset, j, bin) {
        lemma_first_fit(sizes, alignment, initial_offset, j, bin + 1);
    }
}

/// No bin is ever filled beyond its capacity, and the bins above `upto` are
/// still empty when `upto` requests have been placed.
pub proof fn lemma_bin_load(sizes: Seq<u8>, alignment: int, initial_offset: int, bin: int, upto: int)
    requires
        valid_frame(alignment, initial_offset),
        fits_alignment(sizes, alignment),
        0 <= upto <= sizes.len(),
        0 <= bin,
    ensures
        0 <= bin_load(sizes, alignment, initial_offset, bin, upto) <= bin_capacity(
            alignment,
            initial_offset,
            bin,
        ),
        bin > upto ==> bin_load(sizes, alignment, initial_offset, bin, upto) == 0,
    decreases upto, 0int,
{
    if upto > 0 {
        lemma_bin_load(sizes, alignment, initial_offset, bin, upto - 1);
        lemma_bin_of(sizes, alignment, initial_offset, upto - 1);
    }
}

/// A bin only fills up as more requests are placed.
pub proof fn lemma_bin_load_monotone(
    sizes: Seq<u8>,
    alignment: int,
    initial_offset: int,
    bin: int,
    from: int,
    upto: int,
)
    requires
        0 <= from <= upto,
    ensures
        bin_load(sizes, alignment, initial_offset, bin, from) <= bin_load(
            sizes,
            alignment,
            initial_offset,
            bin,
            upto,
        ),
    decreases upto,
{
    if from < upto {
        lemma_bin_load_monotone(sizes, alignment, initial_offset, bin, from, upto - 1);
    }
}

/// A bin that none of the first `upto` requests went into is empty.
pub proof fn lemma_bin_load_empty(
    sizes: Seq<u8>,
    alignment: int,
    initial_offset: int,
    bin: int,
    upto: int,
)
    requires
        forall|i: int| 0 <= i < upto ==> bin_of(sizes, alignment, initial_offset, i) != bin,
    ensures
        bin_load(sizes, alignment, initial_offset, bin, upto) == 0,
    decreases upto,
{
    if upto > 0 {
        lemma_bin_load_empty(sizes, alignment, initial_offset, bin, upto - 1);
        assert(bin_of(sizes, alignment, initial_offset, upto - 1) != bin);
    }
}

/// A slot lies inside its bin.
proof fn lemma_slot_in_bin(sizes: Seq<u8>, alignment: int, initial_offset: int, j: int)
    requires
        valid_frame(alignment, initial_offset),
        fits_alignment(sizes, alignment),
        0 <= j < sizes.len(),
    ensures
        bin_of(sizes, alignment, initial_offset, j) * alignment <= slot_offset(
            sizes,
            alignment,
            initial_offset,
            j,
        ),
        initial_offset <= slot_offset(sizes, alignment, initial_offset, j),
        slot_end(sizes, alignment, initial_offset, j) <= (bin_of(
            sizes,
            alignment,
            initial_offset,
            j,
        ) + 1) * alignment,
        slot_end(sizes, alignment, initial_offset, j) == bin_base(
            alignment,
            initial_offset,
            bin_of(sizes, alignment, initial_offset, j),
        ) + bin_load(
            sizes,
            alignment,
            initial_offset,
            bin_of(sizes, alignment, initial_offset, j),
            j + 1,
        ),
{
    let bin = bin_of(sizes, alignment, initial_offset, j);
    lemma_bin_of(sizes, alignment, initial_offset, j);
    lemma_bin_load(sizes, alignment, initial_offset, bin, j);
    assert((bin + 1) * alignment == bin * alignment + alignment) by (nonlinear_arith);
    assert(bin >= 1 ==> bin * alignment >= alignment) by (nonlinear_arith)
        requires
            alignment > 0,
    ;
}

/// No two slots share a byte: of two different requests, one ends before
/// the other begins.
pub proof fn lemma_slots_disjoint(
    sizes: Seq<u8>,
    alignment: int,
    initial_offset: int,
    i: int,
    j: int,
)
    requires
        valid_frame(alignment, initial_offset),
        fits_alignment(sizes, alignment),
        0 <= i < sizes.len(),
        0 <= j < sizes.len(),
        i != j,
    ensures
        slot_end(sizes, alignment, initial_offset, i) <= slot_offset(
            sizes,
            alignment,
            initial_offset,
            j,
        ) || slot_end(sizes, alignment, initial_offset, j) <= slot_offset(
            sizes,
            alignment,
            initial_offset,
            i,
        ),
{
    if i < j {
        lemma_slots_ordered(sizes, alignment, initial_offset, i, j);
    } else {
        lemma_slots_ordered(sizes, alignment, initial_offset, j, i);
    }
}

proof fn lemma_slots_ordered(sizes: Seq<u8>, alignment: int, initial_offset: int, i: int, j: int)
    requires
        valid_frame(alignment, initial_offset),
        fits_alignment(sizes, alignment),
        0 <= i < j < sizes.len(),
    ensures
        slot_end(sizes, alignment, initial_offset, i) <= slot_offset(
            sizes,
            alignment,
            initial_offset,
            j,
        ) || slot_end(sizes, alignment, initial_offset, j) <= slot_offset(
            sizes,
            alignment,
            initial_offset,
            i,
        ),
{
    let bi = bin_of(sizes, alignment, initial_offset, i);
    let bj = bin_of(sizes, alignment, initial_offset, j);
    lemma_slot_in_bin(sizes, alignment, initial_offset, i);
    lemma_slot_in_bin(sizes, alignment, initial_offset, j);
    if bi == bj {
        lemma_bin_load_monotone(sizes, alignment, initial_offset, bi, i + 1, j);
    } else if bi < bj {
        assert((bi + 1) * alignment <= bj * alignment) by (nonlinear_arith)
            requires
                bi + 1 <= bj,
                alignment > 0,
        ;
    } else {
        assert((bj + 1) * alignment <= bi * alignment) by (nonlinear_arith)
            requires
                bj + 1 <= bi,
                alignment > 0,
        ;
    }
}


/// What rounding up does: the result is a multiple of the alignment, at
/// least `x` and less than one unit above it.
pub proof fn lemma_round_up(x: int, alignment: int)
    requires
        0 < alignment,
        0 <= x,
    ensures
        round_up(x, alignment) % alignment == 0,
        x <= round_up(x, alignment) < x + alignment,
        x % alignment == 0 ==> round_up(x, alignment) == x,
        x % alignment != 0 ==> round_up(x, alignment) == x - x % alignment + alignment,
{
    let q = x / alignment;
    let r = x % alignment;
    lemma_fundamental_div_mod(x, alignment);
    assert(alignment * q == q * alignment) by (nonlinear_arith);
    assert((q + 1) * alignment == q * alignment + alignment) by (nonlinear_arith);
    if r == 0 {
        lemma_fundamental_div_mod_converse(x + alignment - 1, alignment, q, alignment - 1);
        lemma_mod_multiples_basic(q, alignment);
    } else {
        lemma_fundamental_div_mod_converse(x + alignment - 1, alignment, q + 1, r - 1);
        lemma_mod_multiples_basic(q + 1, alignment);
    }
}

/// Anything above `k` units and within `k + 1` units rounds up to `k + 1` units.
pub proof fn lemma_round_up_between(x: int, alignment: int, k: int)
    requires
        0 < alignment,
        0 <= k,
        k * alignment < x <= (k + 1) * alignment,
    ensures
        round_up(x, alignment) == (k + 1) * alignment,
{
    assert((k + 1) * alignment == k * alignment + alignment) by (nonlinear_arith);
    assert(0 <= k * alignment) by (nonlinear_arith)
        requires
            0 <= k,
            0 < alignment,
    ;
    let r = x - k * alignment - 1;
    lemma_fundamental_div_mod_converse(x + alignment - 1, alignment, k + 1, r);
}

/// Rounding up keeps the order.
pub proof fn lemma_round_up_monotone(x: int, y: int, alignment: int)
    requires
        0 < alignment,
        0 <= x <= y,
    ensures
        round_up(x, alignment) <= round_up(y, alignment),
{
    lemma_round_up(x, alignment);
    lemma_round_up(y, alignment);
    let rx = round_up(x, alignment);
    let ry = round_up(y, alignment);
    if ry < rx {
        lemma_round_up_between_multiples(ry, rx, alignment);
    }
}

/// The extent covers the initial offset and every slot placed so far, and
/// is one of them.
pub proof fn lemma_frame_extent(sizes: Seq<u8>, alignment: int, initial_offset: int, n: int)
    requires
        0 <= n,
    ensures
        initial_offset <= frame_extent(sizes, alignment, initial_offset, n),
        forall|j: int|
            0 <= j < n ==> #[trigger] slot_end(sizes, alignment, initial_offset, j) <= frame_extent(
                sizes,
                alignment,
                initial_offset,
                n,
            ),
        frame_extent(sizes, alignment, initial_offset, n) == initial_offset || exists|j: int|
            0 <= j < n && #[trigger] slot_end(sizes, alignment, initial_offset, j) == frame_extent(
                sizes,
                alignment,
                initial_offset,
                n,
            ),
    decreases n,
{
    if n > 0 {
        lemma_frame_extent(sizes, alignment, initial_offset, n - 1);
        let below = frame_extent(sizes, alignment, initial_offset, n - 1);
        let end = slot_end(sizes, alignment, initial_offset, n - 1);
        if end <= below && below != initial_offset {
            let j = choose|j: int|
                0 <= j < n - 1 && #[trigger] slot_end(sizes, alignment, initial_offset, j) == below;
            assert(0 <= j < n && slot_end(sizes, alignment, initial_offset, j) == below);
        }
    }
}

/// A bin ends one alignment unit after the bin before it began.
pub proof fn lemma_bin_limit(alignment: int, initial_offset: int, bin: int)
    requires
        valid_frame(alignment, initial_offset),
        0 <= bin,
    ensures
        bin_base(alignment, initial_offset, bin) + bin_capacity(alignment, initial_offset, bin) == (
        bin + 1) * alignment,
        bin * alignment <= bin_base(alignment, initial_offset, bin),
        initial_offset <= bin_base(alignment, initial_offset, bin),
        bin_base(alignment, initial_offset, bin + 1) == (bin + 1) * alignment,
{
    assert((bin + 1) * alignment == bin * alignment + alignment) by (nonlinear_arith);
    assert(bin >= 1 ==> bin * alignment >= alignment) by (nonlinear_arith)
        requires
            alignment > 0,
    ;
}

/// Of the requests in a bin, one comes last: behind it the bin's load no
/// longer changes.
proof fn lemma_last_in_bin(sizes: Seq<u8>, alignment: int, initial_offset: int, bin: int, upto: int)
    requires
        exists|i: int| 0 <= i < upto && bin_of(sizes, alignment, initial_offset, i) == bin,
    ensures
        exists|j: int|
            0 <= j < upto && #[trigger] bin_of(sizes, alignment, initial_offset, j) == bin
                && bin_load(sizes, alignment, initial_offset, bin, j + 1) == bin_load(
                sizes,
                alignment,
                initial_offset,
                bin,
                upto,
            ),
    decreases upto,
{
    if bin_of(sizes, alignment, initial_offset, upto - 1) == bin {
        assert(0 <= upto - 1 < upto && bin_of(sizes, alignment, initial_offset, upto - 1) == bin
            && bin_load(sizes, alignment, initial_offset, bin, upto - 1 + 1) == bin_load(
            sizes,
            alignment,
            initial_offset,
            bin,
            upto,
        ));
    } else {
        let i = choose|i: int|
            0 <= i < upto && bin_of(sizes, alignment, initial_offset, i) == bin;
        assert(0 <= i < upto - 1 && bin_of(sizes, alignment, initial_offset, i) == bin);
        lemma_last_in_bin(sizes, alignment, initial_offset, bin, upto - 1);
        let j = choose|j: int|
            0 <= j < upto - 1 && #[trigger] bin_of(sizes, alignment, initial_offset, j) == bin
                && bin_load(sizes, alignment, initial_offset, bin, j + 1) == bin_load(
                sizes,
                alignment,
                initial_offset,
                bin,
                upto - 1,
            );
        assert(0 <= j < upto && bin_of(sizes, alignment, initial_offset, j) == bin && bin_load(
            sizes,
            alignment,
            initial_offset,
            bin,
            j + 1,
        ) == bin_load(sizes, alignment, initial_offset, bin, upto));
    }
}

/// The filled part of a bin that is in use lies within the extent of the
/// frame. The first bin counts as in use even when it is empty.
pub proof fn lemma_bin_end_within_extent(
    sizes: Seq<u8>,
    alignment: int,
    initial_offset: int,
    bin: int,
)
    requires
        valid_frame(alignment, initial_offset),
        fits_alignment(sizes, alignment),
        bin == 0 || exists|i: int|
            0 <= i < sizes.len() && bin_of(sizes, alignment, initial_offset, i) == bin,
    ensures
        bin_base(alignment, initial_offset, bin) + bin_load(
            sizes,
            alignment,
            initial_offset,
            bin,
            sizes.len() as int,
        ) <= frame_extent(sizes, alignment, initial_offset, sizes.len() as int),
{
    let n = sizes.len() as int;
    lemma_frame_extent(sizes, alignment, initial_offset, n);
    if exists|i: int| 0 <= i < n && bin_of(sizes, alignment, initial_offset, i) == bin {
        lemma_last_in_bin(sizes, alignment, initial_offset, bin, n);
        let j = choose|j: int|
            0 <= j < n && #[trigger] bin_of(sizes, alignment, initial_offset, j) == bin
                && bin_load(sizes, alignment, initial_offset, bin, j + 1) == bin_load(
                sizes,
                alignment,
                initial_offset,
                bin,
                n,
            );
        lemma_slot_in_bin(sizes, alignment, initial_offset, j);
        assert(slot_end(sizes, alignment, initial_offset, j) <= frame_extent(
            sizes,
            alignment,
            initial_offset,
            n,
        ));
    } else {
        lemma_bin_load_empty(sizes, alignment, initial_offset, bin, n);
    }
}

/// When no request lies above `bin`, the frame extends exactly to the
/// filled part of `bin`.
pub proof fn lemma_extent_is_last_bin_end(
    sizes: Seq<u8>,
    alignment: int,
    initial_offset: int,
    bin: int,
)
    requires
        valid_frame(alignment, initial_offset),
        fits_alignment(sizes, alignment),
        0 <= bin,
        forall|j: int|
            0 <= j < sizes.len() ==> #[trigger] bin_of(sizes, alignment, initial_offset, j) <= bin,
        bin == 0 || exists|i: int|
            0 <= i < sizes.len() && bin_of(sizes, alignment, initial_offset, i) == bin,
    ensures
        frame_extent(sizes, alignment, initial_offset, sizes.len() as int) == bin_base(
            alignment,
            initial_offset,
            bin,
        ) + bin_load(sizes, alignment, initial_offset, bin, sizes.len() as int),
{
    let n = sizes.len() as int;
    let end = bin_base(alignment, initial_offset, bin) + bin_load(
        sizes,
        alignment,
        initial_offset,
        bin,
        n,
    );
    lemma_bin_end_within_extent(sizes, alignment, initial_offset, bin);
    lemma_frame_extent(sizes, alignment, initial_offset, n);
    lemma_bin_limit(alignment, initial_offset, bin);
    lemma_bin_load(sizes, alignment, initial_offset, bin, n);
    assert forall|j: int| 0 <= j < n implies slot_end(sizes, alignment, initial_offset, j)
        <= end by {
        let bj = bin_of(sizes, alignment, initial_offset, j);
        lemma_slot_in_bin(sizes, alignment, initial_offset, j);
        if bj == bin {
            lemma_bin_load_monotone(sizes, alignment, initial_offset, bin, j + 1, n);
        } else {
            assert((bj + 1) * alignment <= bin * alignment) by (nonlinear_arith)
                requires
                    bj + 1 <= bin,
                    alignment > 0,
            ;
        }
    }
}

/// Every request lands in a bin that is not below the first.
pub proof fn lemma_bin_of_bounds(sizes: Seq<u8>, alignment: int, initial_offset: int)
    requires
        valid_frame(alignment, initial_offset),
        fits_alignment(sizes, alignment),
    ensures
        forall|j: int|
            0 <= j < sizes.len() ==> 0 <= #[trigger] bin_of(sizes, alignment, initial_offset, j),
{
    assert forall|j: int| 0 <= j < sizes.len() implies 0 <= #[trigger] bin_of(
        sizes,
        alignment,
        initial_offset,
        j,
    ) by {
        lemma_bin_of(sizes, alignment, initial_offset, j);
    }
}

/// Bytes that the requests before `upto` occupy in the bins below `bins`.
spec fn loads_below(sizes: Seq<u8>, alignment: int, initial_offset: int, bins: int, upto: int) -> int
    decreases bins,
{
    if bins <= 0 {
        0
    } else {
        loads_below(sizes, alignment, initial_offset, bins - 1, upto) + bin_load(
            sizes,
            alignment,
            initial_offset,
            bins - 1,
            upto,
        )
    }
}

/// The highest bin that one of the first `n` requests went into.
spec fn last_bin(sizes: Seq<u8>, alignment: int, initial_offset: int, n: int) -> int
    decreases n,
{
    if n <= 0 {
        0
    } else {
        let below = last_bin(sizes, alignment, initial_offset, n - 1);
        let bin = bin_of(sizes, alignment, initial_offset, n - 1);
        if bin > below {
            bin
        } else {
            below
        }
    }
}

proof fn lemma_last_bin(sizes: Seq<u8>, alignment: int, initial_offset: int, n: int)
    requires
        0 <= n,
    ensures
        0 <= last_bin(sizes, alignment, initial_offset, n),
        forall|j: int|
            0 <= j < n ==> #[trigger] bin_of(sizes, alignment, initial_offset, j) <= last_bin(
                sizes,
                alignment,
                initial_offset,
                n,
            ),
        last_bin(sizes, alignment, initial_offset, n) == 0 || exists|i: int|
            0 <= i < n && bin_of(sizes, alignment, initial_offset, i) == last_bin(
                sizes,
                alignment,
                initial_offset,
                n,
            ),
    decreases n,
{
    if n > 0 {
        lemma_last_bin(sizes, alignment, initial_offset, n - 1);
        let below = last_bin(sizes, alignment, initial_offset, n - 1);
        let bin = bin_of(sizes, alignment, initial_offset, n - 1);
        if bin > below {
            assert(0 <= n - 1 < n && bin_of(sizes, alignment, initial_offset, n - 1) == bin);
        } else if below != 0 {
            let i = choose|i: int|
                0 <= i < n - 1 && bin_of(sizes, alignment, initial_offset, i) == below;
            assert(0 <= i < n && bin_of(sizes, alignment, initial_offset, i) == below);
        }
    }
}

/// Placing one more request adds its size to the bins below `bins` exactly
/// when its bin is one of them.
proof fn lemma_loads_below_step(
    sizes: Seq<u8>,
    alignment: int,
    initial_offset: int,
    bins: int,
    upto: int,
)
    requires
        0 < upto,
    ensures
        loads_below(sizes, alignment, initial_offset, bins, upto) == loads_below(
            sizes,
            alignment,
            initial_offset,
            bins,
            upto - 1,
        ) + if 0 <= bin_of(sizes, alignment, initial_offset, upto - 1) < bins {
            sizes[upto - 1] as int
        } else {
            0
        },
    decreases bins,
{
    if bins > 0 {
        lemma_loads_below_step(sizes, alignment, initial_offset, bins - 1, upto);
    }
}

/// Every request lies in exactly one bin: the loads of enough bins add up
/// to the bytes requested.
proof fn lemma_loads_below_total(
    sizes: Seq<u8>,
    alignment: int,
    initial_offset: int,
    bins: int,
    upto: int,
)
    requires
        valid_frame(alignment, initial_offset),
        fits_alignment(sizes, alignment),
        0 <= upto <= sizes.len(),
        upto + 2 <= bins,
    ensures
        loads_below(sizes, alignment, initial_offset, bins, upto) == total_size(sizes, upto),
    decreases upto,
{
    if upto > 0 {
        lemma_loads_below_total(sizes, alignment, initial_offset, bins, upto - 1);
        lemma_loads_below_step(sizes, alignment, initial_offset, bins, upto);
        lemma_bin_of(sizes, alignment, initial_offset, upto - 1);
    } else {
        lemma_loads_below_none(sizes, alignment, initial_offset, bins);
    }
}

proof fn lemma_loads_below_none(sizes: Seq<u8>, alignment: int, initial_offset: int, bins: int)
    ensures
        loads_below(sizes, alignment, initial_offset, bins, 0) == 0,
    decreases bins,
{
    if bins > 0 {
        lemma_loads_below_none(sizes, alignment, initial_offset, bins - 1);
    }
}

/// The bins below `bins` hold no more than the room up to where `bins` starts.
proof fn lemma_loads_below_bound(
    sizes: Seq<u8>,
    alignment: int,
    initial_offset: int,
    bins: int,
    upto: int,
)
    requires
        valid_frame(alignment, initial_offset),
        fits_alignment(sizes, alignment),
        0 <= upto <= sizes.len(),
        0 <= bins,
    ensures
        initial_offset + loads_below(sizes, alignment, initial_offset, bins, upto) <= bin_base(
            alignment,
            initial_offset,
            bins,
        ),
    decreases bins,
{
    if bins > 0 {
        lemma_loads_below_bound(sizes, alignment, initial_offset, bins - 1, upto);
        lemma_bin_load(sizes, alignment, initial_offset, bins - 1, upto);
        lemma_bin_limit(alignment, initial_offset, bins - 1);
    }
}

/// Bins above the last one in use add nothing.
proof fn lemma_loads_below_unused(
    sizes: Seq<u8>,
    alignment: int,
    initial_offset: int,
    used: int,
    bins: int,
    upto: int,
)
    requires
        0 <= used <= bins,
        forall|i: int|
            0 <= i < upto ==> #[trigger] bin_of(sizes, alignment, initial_offset, i) < used,
    ensures
        loads_below(sizes, alignment, initial_offset, bins, upto) == loads_below(
            sizes,
            alignment,
            initial_offset,
            used,
            upto,
        ),
    decreases bins,
{
    if bins > used {
        lemma_loads_below_unused(sizes, alignment, initial_offset, used, bins - 1, upto);
        assert forall|i: int| 0 <= i < upto implies bin_of(sizes, alignment, initial_offset, i)
            != bins - 1 by {
            assert(bin_of(sizes, alignment, initial_offset, i) < used);
        }
        lemma_bin_load_empty(sizes, alignment, initial_offset, bins - 1, upto);
    }
}

/// The frame has room for everything: it is a multiple of the alignment
/// and reaches at least as deep as the initial offset and all requested
/// bytes together.
pub proof fn lemma_frame_holds_requests(sizes: Seq<u8>, alignment: int, initial_offset: int)
    requires
        valid_frame(alignment, initial_offset),
        fits_alignment(sizes, alignment),
    ensures
        frame_depth(sizes, alignment, initial_offset) % alignment == 0,
        initial_offset + total_size(sizes, sizes.len() as int) <= frame_depth(
            sizes,
            alignment,
            initial_offset,
        ),
{
    let n = sizes.len() as int;
    let last = last_bin(sizes, alignment, initial_offset, n);
    lemma_last_bin(sizes, alignment, initial_offset, n);
    lemma_extent_is_last_bin_end(sizes, alignment, initial_offset, last);
    lemma_loads_below_bound(sizes, alignment, initial_offset, last, n);
    if last + 1 <= n + 2 {
        lemma_loads_below_unused(sizes, alignment, initial_offset, last + 1, n + 2, n);
        lemma_loads_below_total(sizes, alignment, initial_offset, n + 2, n);
    } else {
        lemma_loads_below_unused(sizes, alignment, initial_offset, last + 1, last + 1, n);
        lemma_loads_below_total(sizes, alignment, initial_offset, last + 1, n);
    }
    lemma_frame_extent(sizes, alignment, initial_offset, n);
    lemma_round_up(frame_extent(sizes, alignment, initial_offset, n), alignment);
}

/// Every slot lies inside the frame, behind the initial offset.
pub proof fn lemma_slot_in_frame(sizes: Seq<u8>, alignment: int, initial_offset: int, j: int)
    requires
        valid_frame(alignment, initial_offset),
        fits_alignment(sizes, alignment),
        0 <= j < sizes.len(),
    ensures
        initial_offset <= slot_offset(sizes, alignment, initial_offset, j),
        slot_end(sizes, alignment, initial_offset, j) <= frame_depth(
            sizes,
            alignment,
            initial_offset,
        ),
{
    let n = sizes.len() as int;
    lemma_slot_in_bin(sizes, alignment, initial_offset, j);
    lemma_frame_extent(sizes, alignment, initial_offset, n);
    lemma_round_up(frame_extent(sizes, alignment, initial_offset, n), alignment);
}

/// Where the packing leaves less than one alignment unit unused, the frame
/// depth is the smallest multiple of the alignment that holds the initial
/// offset and all requested bytes.
pub proof fn lemma_depth_is_least_multiple(sizes: Seq<u8>, alignment: int, initial_offset: int)
    requires
        valid_frame(alignment, initial_offset),
        fits_alignment(sizes, alignment),
        frame_depth(sizes, alignment, initial_offset) - (initial_offset + total_size(
            sizes,
            sizes.len() as int,
        )) < alignment,
    ensures
        frame_depth(sizes, alignment, initial_offset) == round_up(
            initial_offset + total_size(sizes, sizes.len() as int),
            alignment,
        ),
{
    let n = sizes.len() as int;
    let depth = frame_depth(sizes, alignment, initial_offset);
    let needed = initial_offset + total_size(sizes, n);
    lemma_frame_holds_requests(sizes, alignment, initial_offset);
    lemma_total_size_nonnegative(sizes, n);
    lemma_round_up(needed, alignment);
    lemma_round_up(depth, alignment);
    lemma_round_up_monotone(needed, depth, alignment);
    if round_up(needed, alignment) < depth {
        lemma_round_up_between_multiples(round_up(needed, alignment), depth, alignment);
    }
}

proof fn lemma_total_size_nonnegative(sizes: Seq<u8>, n: int)
    ensures
        0 <= total_size(sizes, n),
    decreases n,
{
    if n > 0 {
        lemma_total_size_nonnegative(sizes, n - 1);
    }
}

/// Two different multiples of the alignment lie at least one unit apart.
proof fn lemma_round_up_between_multiples(low: int, high: int, alignment: int)
    requires
        0 < alignment,
        low % alignment == 0,
        high % alignment == 0,
        low < high,
    ensures
        low + alignment <= high,
{
    lemma_fundamental_div_mod(low, alignment);
    lemma_fundamental_div_mod(high, alignment);
    let ql = low / alignment;
    let qh = high / alignment;
    assert(alignment * qh - alignment * ql == alignment * (qh - ql)) by (nonlinear_arith);
    assert(qh - ql >= 1 ==> alignment * (qh - ql) >= alignment) by (nonlinear_arith)
        requires
            alignment > 0,
    ;
    assert(qh - ql <= 0 ==> alignment * (qh - ql) <= 0) by (nonlinear_arith)
        requires
            alignment > 0,
    ;
}

} // verus!
