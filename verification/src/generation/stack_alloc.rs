//! Packing of scalar stack slots into an aligned frame.
//!
//! Requests are packed first-fit into bins of one alignment unit each. The
//! first bin is shortened by the initial offset of the frame. A request goes
//! into the lowest bin that still has room for it once all earlier requests
//! have been placed, directly behind what that bin already holds.
use vstd::arithmetic::div_mod::lemma_mod_decreases;
use vstd::prelude::*;
use crate::error::CodegenError;
use crate::generation::stack_laws::{
    lemma_bin_end_within_extent, lemma_bin_limit, lemma_bin_load, lemma_bin_load_empty,
    lemma_bin_load_monotone, lemma_bin_of, lemma_bin_of_bounds, lemma_extent_is_last_bin_end,
    lemma_frame_extent, lemma_frame_holds_requests, lemma_round_up, lemma_round_up_between,
    lemma_round_up_monotone, lemma_slot_in_frame, lemma_slots_disjoint,
};

verus! {

/// Room in `bin`: the first bin is shortened by the initial offset.
pub open spec fn bin_capacity(alignment: int, initial_offset: int, bin: int) -> int {
    if bin == 0 {
        alignment - initial_offset
    } else {
        alignment
    }
}

/// Offset from the frame base at which `bin` starts.
pub open spec fn bin_base(alignment: int, initial_offset: int, bin: int) -> int {
    if bin == 0 {
        initial_offset
    } else {
        bin * alignment
    }
}

/// Bytes that the requests before `upto` occupy in `bin`.
pub open spec fn bin_load(
    sizes: Seq<u8>,
    alignment: int,
    initial_offset: int,
    bin: int,
    upto: int,
) -> int
    decreases upto, 0int, 0int,
{
    if upto <= 0 {
        0
    } else {
        bin_load(sizes, alignment, initial_offset, bin, upto - 1) + if bin_of(
            sizes,
            alignment,
            initial_offset,
            upto - 1,
        ) == bin {
            sizes[upto - 1] as int
        } else {
            0
        }
    }
}

/// Whether request `j` still fits into `bin` behind the earlier requests.
pub open spec fn fits(sizes: Seq<u8>, alignment: int, initial_offset: int, j: int, bin: int) -> bool
    decreases j, 1int, 0int,
{
    j >= 0 && bin_load(sizes, alignment, initial_offset, bin, j) + sizes[j] <= bin_capacity(
        alignment,
        initial_offset,
        bin,
    )
}

/// The lowest bin from `bin` upwards into which request `j` fits. Bin `j + 1`
/// cannot hold an earlier request, so the search ends there.
pub open spec fn first_fit(
    sizes: Seq<u8>,
    alignment: int,
    initial_offset: int,
    j: int,
    bin: int,
) -> int
    decreases j, 2int, j + 1 - bin,
{
    if j < 0 || bin < 0 || bin > j {
        bin
    } else if fits(sizes, alignment, initial_offset, j, bin) {
        bin
    } else {
        first_fit(sizes, alignment, initial_offset, j, bin + 1)
    }
}

/// The bin that request `j` is packed into.
pub open spec fn bin_of(sizes: Seq<u8>, alignment: int, initial_offset: int, j: int) -> int
    decreases j, 3int, 0int,
{
    first_fit(sizes, alignment, initial_offset, j, 0)
}

/// Offset of request `j` from the frame base.
pub open spec fn slot_offset(sizes: Seq<u8>, alignment: int, initial_offset: int, j: int) -> int {
    let bin = bin_of(sizes, alignment, initial_offset, j);
    bin_base(alignment, initial_offset, bin) + bin_load(sizes, alignment, initial_offset, bin, j)
}

/// First offset behind request `j`.
pub open spec fn slot_end(sizes: Seq<u8>, alignment: int, initial_offset: int, j: int) -> int {
    slot_offset(sizes, alignment, initial_offset, j) + sizes[j]
}

/// The deepest offset in use once the first `n` requests are placed: the
/// initial offset, or the end of the slot that reaches furthest.
pub open spec fn frame_extent(sizes: Seq<u8>, alignment: int, initial_offset: int, n: int) -> int
    decreases n,
{
    if n <= 0 {
        initial_offset
    } else {
        let below = frame_extent(sizes, alignment, initial_offset, n - 1);
        let end = slot_end(sizes, alignment, initial_offset, n - 1);
        if end > below {
            end
        } else {
            below
        }
    }
}

/// The smallest multiple of `alignment` that is at least `x`.
pub open spec fn round_up(x: int, alignment: int) -> int {
    ((x + alignment - 1) / alignment) * alignment
}

/// Depth of the whole frame: the extent of all requests, rounded up to the
/// alignment.
pub open spec fn frame_depth(sizes: Seq<u8>, alignment: int, initial_offset: int) -> int {
    round_up(frame_extent(sizes, alignment, initial_offset, sizes.len() as int), alignment)
}

/// Every request fits into one alignment unit.
pub open spec fn fits_alignment(sizes: Seq<u8>, alignment: int) -> bool {
    forall|j: int| 0 <= j < sizes.len() ==> #[trigger] sizes[j] <= alignment
}

/// The frame parameters that the packing is defined for.
pub open spec fn valid_frame(alignment: int, initial_offset: int) -> bool {
    0 < alignment && 0 <= initial_offset <= alignment
}


/// Bytes requested by the first `n` requests together.
pub open spec fn total_size(sizes: Seq<u8>, n: int) -> int
    decreases n,
{
    if n <= 0 {
        0
    } else {
        total_size(sizes, n - 1) + sizes[n - 1]
    }
}

/// How many requests are still waiting for a slot.
spec fn count_unplaced(placed: Seq<bool>) -> nat
    decreases placed.len(),
{
    if placed.len() == 0 {
        0
    } else {
        count_unplaced(placed.drop_last()) + if placed.last() {
            0nat
        } else {
            1nat
        }
    }
}

proof fn lemma_count_after_placing(placed: Seq<bool>, i: int)
    requires
        0 <= i < placed.len(),
        !placed[i],
    ensures
        count_unplaced(placed.update(i, true)) + 1 == count_unplaced(placed),
    decreases placed.len(),
{
    let after = placed.update(i, true);
    if i == placed.len() - 1 {
        assert(after.drop_last() =~= placed.drop_last());
    } else {
        assert(after.drop_last() =~= placed.drop_last().update(i, true));
        lemma_count_after_placing(placed.drop_last(), i);
    }
}

proof fn lemma_count_none_placed(placed: Seq<bool>)
    requires
        forall|j: int| 0 <= j < placed.len() ==> !placed[j],
    ensures
        count_unplaced(placed) == placed.len(),
    decreases placed.len(),
{
    if placed.len() > 0 {
        lemma_count_none_placed(placed.drop_last());
    }
}

proof fn lemma_count_all_placed(placed: Seq<bool>)
    ensures
        count_unplaced(placed) == 0 <==> (forall|j: int| 0 <= j < placed.len() ==> placed[j]),
    decreases placed.len(),
{
    if placed.len() > 0 {
        lemma_count_all_placed(placed.drop_last());
        if count_unplaced(placed) == 0 {
            assert forall|j: int| 0 <= j < placed.len() implies placed[j] by {
                if j < placed.len() - 1 {
                    assert(placed.drop_last()[j] == placed[j]);
                }
            }
        } else if forall|j: int| 0 <= j < placed.len() ==> placed[j] {
            assert forall|j: int| 0 <= j < placed.drop_last().len() implies placed.drop_last()[j] by {
                assert(placed.drop_last()[j] == placed[j]);
            }
        }
    }
}


/// Rounds `x` up to the next multiple of `alignment`, unless that leaves
/// the range of `usize`.
fn round_up_to(x: usize, alignment: usize) -> (rounded: Option<usize>)
    requires
        0 < alignment,
    ensures
        match rounded {
            Some(value) => value == round_up(x as int, alignment as int),
            None => round_up(x as int, alignment as int) > usize::MAX,
        },
{
    proof {
        lemma_round_up(x as int, alignment as int);
        lemma_mod_decreases(x as nat, alignment as nat);
    }
    let remainder: usize = x % alignment;
    if remainder == 0 {
        Some(x)
    } else {
        (x - remainder).checked_add(alignment)
    }
}

/// Collects the scalars a function needs on its stack, in request order.
#[derive(Debug, Clone)]
pub struct StackAllocator {
    /// Size of each of the variables, ordered by ID.
    vars: Vec<u8>,
    /// Element size and count of each array, ordered by ID.
    arrs: Vec<(u8, usize)>,
    alignment: usize,
    initial_offset: usize,
}

/// The finished layout of one stack frame.
#[derive(Debug, Clone)]
pub struct StackAllocation {
    /// Depth of the frame in bytes.
    pub stack_depth: usize,
    /// Offset of each variable from the frame base, ordered by ID.
    pub locations: Vec<usize>,
}

impl StackAllocator {
    /// The sizes requested so far, in request order.
    pub closed spec fn sizes(&self) -> Seq<u8> {
        self.vars@
    }

    /// The arrays requested so far, each with element size and count.
    pub closed spec fn arrays(&self) -> Seq<(u8, usize)> {
        self.arrs@
    }

    /// The unit that the frame is aligned to.
    pub closed spec fn alignment(&self) -> int {
        self.alignment as int
    }

    /// The part of the first unit that is already taken.
    pub closed spec fn initial_offset(&self) -> int {
        self.initial_offset as int
    }

    /// The error that `allocate` reports, if it reports one.
    pub open spec fn failure(&self) -> Option<CodegenError> {
        if self.arrays().len() > 0 {
            Some(CodegenError::Unimplemented)
        } else if !valid_frame(self.alignment(), self.initial_offset()) {
            Some(CodegenError::ResourceExhausted)
        } else if !fits_alignment(self.sizes(), self.alignment()) {
            Some(CodegenError::ResourceExhausted)
        } else if frame_depth(self.sizes(), self.alignment(), self.initial_offset())
            > usize::MAX {
            Some(CodegenError::ResourceExhausted)
        } else {
            None
        }
    }

    /// Returns a new, empty `StackAllocator`.
    pub fn new(alignment: usize, initial_offset: usize) -> (allocator: Self)
        ensures
            allocator.sizes() == Seq::<u8>::empty(),
            allocator.arrays() == Seq::<(u8, usize)>::empty(),
            allocator.alignment() == alignment,
            allocator.initial_offset() == initial_offset,
    {
        Self { vars: Vec::new(), arrs: Vec::new(), alignment, initial_offset }
    }

    /// Allocate the locations for the variables.
    ///
    /// Every variable gets the slot that first-fit packing gives it. No
    /// two slots overlap, every slot lies behind the initial offset and
    /// inside the frame, and the depth of the frame is a multiple of the
    /// alignment. Arrays are not implemented. A variable that is larger
    /// than the alignment, a frame that does not fit the address space and
    /// an initial offset beyond a positive alignment exhaust the frame.
    pub fn allocate(self) -> (result: Result<StackAllocation, CodegenError>)
        ensures
            match result {
                Ok(allocation) => {
                    &&& self.failure() is None
                    &&& allocation.locations@.len() == self.sizes().len()
                    &&& forall|j: int|
                        0 <= j < self.sizes().len() ==> #[trigger] allocation.locations@[j]
                            == slot_offset(
                            self.sizes(),
                            self.alignment(),
                            self.initial_offset(),
                            j,
                        )
                    &&& allocation.stack_depth == frame_depth(
                        self.sizes(),
                        self.alignment(),
                        self.initial_offset(),
                    )
                    &&& allocation.stack_depth as int % self.alignment() == 0
                    &&& self.initial_offset() + total_size(
                        self.sizes(),
                        self.sizes().len() as int,
                    ) <= allocation.stack_depth
                    &&& forall|j: int|
                        0 <= j < self.sizes().len() ==> self.initial_offset()
                            <= #[trigger] allocation.locations@[j] && allocation.locations@[j]
                            + self.sizes()[j] <= allocation.stack_depth
                    &&& forall|i: int, j: int|
                        0 <= i < self.sizes().len() && 0 <= j < self.sizes().len() && i != j ==> (
                        #[trigger] allocation.locations@[i]) + self.sizes()[i]
                            <= #[trigger] allocation.locations@[j] || allocation.locations@[j]
                            + self.sizes()[j] <= allocation.locations@[i]
                },
                Err(error) => self.failure() == Some(error),
            },
    {
        let ghost sizes = self.sizes();
        let ghost alignment = self.alignment();
        let ghost initial_offset = self.initial_offset();
        let result = self.pack();
        proof {
            if result is Ok {
                lemma_frame_holds_requests(sizes, alignment, initial_offset);
                assert forall|j: int| 0 <= j < sizes.len() implies initial_offset <= slot_offset(
                    sizes,
                    alignment,
                    initial_offset,
                    j,
                ) && slot_end(sizes, alignment, initial_offset, j) <= frame_depth(
                    sizes,
                    alignment,
                    initial_offset,
                ) by {
                    lemma_slot_in_frame(sizes, alignment, initial_offset, j);
                }
                assert forall|i: int, j: int|
                    0 <= i < sizes.len() && 0 <= j < sizes.len() && i != j implies slot_end(
                    sizes,
                    alignment,
                    initial_offset,
                    i,
                ) <= slot_offset(sizes, alignment, initial_offset, j) || slot_end(
                    sizes,
                    alignment,
                    initial_offset,
                    j,
                ) <= slot_offset(sizes, alignment, initial_offset, i) by {
                    lemma_slots_disjoint(sizes, alignment, initial_offset, i, j);
                }
            }
        }
        result
    }

    /// Fills one bin after the other: each pass over the requests places,
    /// in request order, every waiting request that the current bin still
    /// has room for, then closes the bin at the next alignment boundary.
    fn pack(self) -> (result: Result<StackAllocation, CodegenError>)
        ensures
            match result {
                Ok(allocation) => {
                    &&& self.failure() is None
                    &&& allocation.locations@.len() == self.sizes().len()
                    &&& forall|j: int|
                        0 <= j < self.sizes().len() ==> #[trigger] allocation.locations@[j]
                            == slot_offset(
                            self.sizes(),
                            self.alignment(),
                            self.initial_offset(),
                            j,
                        )
                    &&& allocation.stack_depth == frame_depth(
                        self.sizes(),
                        self.alignment(),
                        self.initial_offset(),
                    )
                },
                Err(error) => self.failure() == Some(error),
            },
    {
        if self.arrs.len() != 0 {
            return Err(CodegenError::Unimplemented);
        }
        if self.alignment == 0 || self.initial_offset > self.alignment {
            return Err(CodegenError::ResourceExhausted);
        }
        let n: usize = self.vars.len();
        let ghost sizes = self.vars@;
        let ghost a = self.alignment as int;
        let ghost o = self.initial_offset as int;
        let mut locations: Vec<usize> = Vec::new();
        let mut ticks: Vec<bool> = Vec::new();
        let mut i: usize = 0;
        while i < n
            invariant
                i <= n,
                n == self.vars@.len(),
                sizes == self.vars@,
                a == self.alignment,
                o == self.initial_offset,
                valid_frame(a, o),
                self.arrs@.len() == 0,
                locations@.len() == i,
                ticks@.len() == i,
                forall|j: int| 0 <= j < i ==> #[trigger] self.vars@[j] <= self.alignment,
                forall|j: int| 0 <= j < i ==> !#[trigger] ticks@[j],
            decreases n - i,
        {
            if self.vars[i] as usize > self.alignment {
                assert(!(sizes[i as int] <= a));
                return Err(CodegenError::ResourceExhausted);
            }
            locations.push(0);
            ticks.push(false);
            i += 1;
        }
        let mut stack_depth: usize = self.initial_offset;
        let mut bin_leftover: usize = self.alignment - self.initial_offset;
        let mut left_over: usize = n;
        let ghost mut bin: int = 0;
        proof {
            lemma_count_none_placed(ticks@);
            lemma_bin_of_bounds(sizes, a, o);
        }
        while left_over != 0
            invariant
                valid_frame(a, o),
                fits_alignment(sizes, a),
                sizes == self.vars@,
                a == self.alignment,
                o == self.initial_offset,
                self.arrs@.len() == 0,
                n == sizes.len(),
                locations@.len() == n,
                ticks@.len() == n,
                0 <= bin,
                left_over == count_unplaced(ticks@),
                forall|j: int|
                    0 <= j < n ==> (#[trigger] ticks@[j] <==> bin_of(sizes, a, o, j) < bin),
                forall|j: int|
                    0 <= j < n && ticks@[j] ==> #[trigger] locations@[j] == slot_offset(
                        sizes,
                        a,
                        o,
                        j,
                    ),
                left_over != 0 ==> stack_depth == bin_base(a, o, bin) && bin_leftover
                    == bin_capacity(a, o, bin),
                left_over == 0 ==> (bin == 0 && stack_depth == o) || (bin >= 1 && stack_depth
                    == frame_depth(sizes, a, o)),
            decreases
                    left_over,
                    (if bin == 0 {
                        1int
                    } else {
                        0int
                    }),
        {
            let ghost waiting = left_over;
            let ghost placed_any = false;
            let ghost witness: int = 0;
            let mut var_id: usize = 0;
            while var_id < n
                invariant
                    valid_frame(a, o),
                    fits_alignment(sizes, a),
                    sizes == self.vars@,
                    a == self.alignment,
                    o == self.initial_offset,
                    self.arrs@.len() == 0,
                    n == sizes.len(),
                    locations@.len() == n,
                    ticks@.len() == n,
                    0 <= bin,
                    var_id <= n,
                    left_over == count_unplaced(ticks@),
                    forall|j: int|
                        0 <= j < var_id ==> (#[trigger] ticks@[j] <==> bin_of(sizes, a, o, j)
                            <= bin),
                    forall|j: int|
                        var_id <= j < n ==> (#[trigger] ticks@[j] <==> bin_of(sizes, a, o, j)
                            < bin),
                    forall|j: int|
                        0 <= j < n && ticks@[j] ==> #[trigger] locations@[j] == slot_offset(
                            sizes,
                            a,
                            o,
                            j,
                        ),
                    stack_depth == bin_base(a, o, bin) + bin_load(sizes, a, o, bin, var_id as int),
                    bin_leftover == bin_capacity(a, o, bin) - bin_load(
                        sizes,
                        a,
                        o,
                        bin,
                        var_id as int,
                    ),
                    placed_any ==> 0 <= witness < var_id && bin_of(sizes, a, o, witness) == bin,
                    placed_any ==> left_over < waiting,
                    !placed_any ==> left_over == waiting,
                    bin >= 1 && !placed_any ==> forall|j: int|
                        0 <= j < var_id ==> #[trigger] bin_of(sizes, a, o, j) < bin,
                decreases n - var_id,
            {
                let size: usize = self.vars[var_id] as usize;
                proof {
                    lemma_bin_of(sizes, a, o, var_id as int);
                    lemma_bin_load(sizes, a, o, bin, var_id as int);
                    assert(sizes[var_id as int] <= a);
                    if bin >= 1 && !placed_any {
                        lemma_bin_load_empty(sizes, a, o, bin, var_id as int);
                    }
                }
                if !ticks[var_id] && bin_leftover >= size {
                    assert(fits(sizes, a, o, var_id as int, bin));
                    assert(bin_of(sizes, a, o, var_id as int) == bin);
                    let end: usize = match stack_depth.checked_add(size) {
                        Some(end) => end,
                        None => {
                            proof {
                                lemma_frame_extent(sizes, a, o, n as int);
                                assert(slot_end(sizes, a, o, var_id as int) > usize::MAX);
                                lemma_round_up(frame_extent(sizes, a, o, n as int), a);
                            }
                            return Err(CodegenError::ResourceExhausted);
                        },
                    };
                    proof {
                        lemma_count_after_placing(ticks@, var_id as int);
                    }
                    bin_leftover -= size;
                    locations.set(var_id, stack_depth);
                    stack_depth = end;
                    ticks.set(var_id, true);
                    left_over -= 1;
                    proof {
                        placed_any = true;
                        witness = var_id as int;
                    }
                } else {
                    assert(!ticks@[var_id as int] ==> !fits(sizes, a, o, var_id as int, bin));
                    assert(bin_of(sizes, a, o, var_id as int) != bin);
                }
                var_id += 1;
            }
            proof {
                lemma_bin_limit(a, o, bin);
                lemma_bin_load(sizes, a, o, bin, n as int);
                if bin >= 1 && !placed_any {
                    lemma_count_all_placed(ticks@);
                    assert(false);
                }
                lemma_bin_end_within_extent(sizes, a, o, bin);
                lemma_round_up_monotone(
                    stack_depth as int,
                    frame_extent(sizes, a, o, n as int),
                    a,
                );
            }
            stack_depth = match round_up_to(stack_depth, self.alignment) {
                Some(rounded) => rounded,
                None => {
                    return Err(CodegenError::ResourceExhausted);
                },
            };
            bin_leftover = self.alignment;
            proof {
                lemma_count_all_placed(ticks@);
                if left_over != 0 {
                    let j = choose|j: int| 0 <= j < n && !ticks@[j];
                    lemma_bin_of(sizes, a, o, j);
                    assert(!fits(sizes, a, o, j, bin));
                    lemma_bin_load_monotone(sizes, a, o, bin, j, n as int);
                    assert(sizes[j] <= a);
                    lemma_round_up_between(
                        bin_base(a, o, bin) + bin_load(sizes, a, o, bin, n as int),
                        a,
                        bin,
                    );
                } else {
                    assert forall|j: int| 0 <= j < n implies #[trigger] bin_of(sizes, a, o, j)
                        <= bin by {
                        assert(ticks@[j]);
                    }
                    lemma_extent_is_last_bin_end(sizes, a, o, bin);
                }
                bin = bin + 1;
            }
        }
        proof {
            lemma_count_all_placed(ticks@);
            lemma_frame_extent(sizes, a, o, n as int);
            lemma_round_up(frame_extent(sizes, a, o, n as int), a);
            lemma_round_up(stack_depth as int, a);
            if bin == 0 && n > 0 {
                assert(ticks@[0]);
            }
        }
        match round_up_to(stack_depth, self.alignment) {
            Some(rounded) => Ok(StackAllocation { stack_depth: rounded, locations }),
            None => Err(CodegenError::ResourceExhausted),
        }
    }

    /// Add a variable onto the stack, returns the ID of the variable.
    pub fn add_var(&mut self, size: u8) -> (id: usize)
        ensures
            id == old(self).sizes().len(),
            final(self).sizes() == old(self).sizes().push(size),
            final(self).arrays() == old(self).arrays(),
            final(self).alignment() == old(self).alignment(),
            final(self).initial_offset() == old(self).initial_offset(),
    {
        self.vars.push(size);
        self.vars.len() - 1
    }

    /// Add an array onto the stack, returns the ID of the array.
    pub fn add_arr(&mut self, size: u8, count: usize) -> (id: usize)
        ensures
            id == old(self).arrays().len(),
            final(self).arrays() == old(self).arrays().push((size, count)),
            final(self).sizes() == old(self).sizes(),
            final(self).alignment() == old(self).alignment(),
            final(self).initial_offset() == old(self).initial_offset(),
    {
        self.arrs.push((size, count));
        self.arrs.len() - 1
    }
}

impl StackAllocation {
    /// Return the location of a variable on the stack, relative to the stack
    /// base pointer.
    pub fn var_location(&self, id: usize) -> (offset: usize)
        requires
            id < self.locations@.len(),
        ensures
            offset == self.locations@[id as int],
    {
        self.locations[id]
    }

    /// Return the location of element `i` of an array of `size`-byte
    /// elements on the stack, relative to the stack base pointer.
    pub fn arr_location(&self, id: usize, size: usize, i: usize) -> (offset: usize)
        requires
            id < self.locations@.len(),
            self.locations@[id as int] + i * size <= usize::MAX,
        ensures
            offset == self.locations@[id as int] + i * size,
    {
        assert(i * size <= usize::MAX) by (nonlinear_arith)
            requires
                self.locations@[id as int] + i * size <= usize::MAX,
                self.locations@[id as int] >= 0,
        ;
        self.locations[id] + i * size
    }
}

} // verus!
