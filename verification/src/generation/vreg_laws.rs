//! What holds of every allocation: lifetimes only grow, real registers
//! are never shared, constants need no register.
use vstd::prelude::*;
use crate::error::CodegenError;
use crate::generation::bytes::{lemma_be_round_trip, spec_be_bytes, spec_be_value, spec_bits_of};
use crate::generation::vreg_alloc::{Register, VRegAlloc, VRegContentKind, VRegLifeStage};
use crate::generation::vreg_model::{
    analysis, count_defs, generated, lemma_born_at_wf, lemma_count_defs_bound, lemma_empty_wf,
    lemma_extended_to_wf, lemma_first_free, lemma_scan_cell_wf, lemma_scan_row_wf,
    lemma_scan_steps_wf, lemma_with_call_wf, lemma_with_uses_wf, lemma_with_vreg_wf, scan_state_wf,
    stage_of, ScanState, VRegAllocationView,
};
use crate::ir::{DataType, Instruction};

verus! {

/// The lifetime of a virtual register never ends before it starts.
pub proof fn lemma_lifetime_ordered<R>(view: VRegAllocationView<R>, idx: int)
    requires
        view.wf(),
        0 <= idx < view.infos.len(),
    ensures
        view.start(idx) <= view.end(idx),
{
    assert(view.column_wf(idx));
}

/// Extending the lifetime of one virtual register moves the start of no
/// lifetime and moves no end back.
pub proof fn lemma_lifetime_never_shrinks<R>(
    view: VRegAllocationView<R>,
    idx: int,
    end: usize,
    other: int,
)
    requires
        view.wf(),
        0 <= idx < view.infos.len(),
        0 <= other < view.infos.len(),
        view.extendable(idx, end as int),
    ensures
        view.extended_to(idx, end).start(other) == view.start(other),
        view.end(other) <= view.extended_to(idx, end).end(other),
        view.extended_to(idx, end).start(other) <= view.extended_to(idx, end).end(other),
{
    lemma_extended_to_wf(view, idx, end);
    assert(view.column_wf(other));
}

/// A real register is free again behind the step in which the virtual
/// register that holds it dies.
pub proof fn lemma_dying_frees_register<R>(
    view: VRegAllocationView<R>,
    state: ScanState,
    first_slot: nat,
    step: int,
    idx: int,
    register: usize,
)
    requires
        view.wf(),
        scan_state_wf(view, state),
        0 <= step < view.steps(),
        0 <= idx < view.infos.len(),
        view.stages[step][idx] == VRegLifeStage::Dying,
        state.allocations[idx] == Some(VRegAlloc::RealReg(register)),
    ensures
        view.scan_cell(state, first_slot, step, idx) matches Some(after) && !after.occupation[register as int]
            && after.allocations == state.allocations,
{
}

/// A value that is born gets the first real register that is free: one
/// that is not in use, and no later one than any register that is free.
/// No other register changes hands.
pub proof fn lemma_born_takes_free_register<R>(
    view: VRegAllocationView<R>,
    state: ScanState,
    first_slot: nat,
    step: int,
    idx: int,
    free: int,
)
    requires
        view.wf(),
        scan_state_wf(view, state),
        0 <= step < view.steps(),
        0 <= idx < view.infos.len(),
        view.stages[step][idx] == VRegLifeStage::Born,
        view.infos[idx].content_kind == VRegContentKind::Normal,
        0 <= free < state.occupation.len(),
        !state.occupation[free],
    ensures
        view.scan_cell(state, first_slot, step, idx) matches Some(after) && after.allocations[idx]
            matches Some(VRegAlloc::RealReg(register)) && register <= free
            && !state.occupation[register as int] && after.occupation == state.occupation.update(
            register as int,
            true,
        ),
{
    lemma_first_free(state.occupation, 0);
}

/// Real registers run out only when every one of them is in use.
pub proof fn lemma_spill_only_when_full<R>(
    view: VRegAllocationView<R>,
    state: ScanState,
    first_slot: nat,
    step: int,
    idx: int,
)
    requires
        view.wf(),
        scan_state_wf(view, state),
        0 <= step < view.steps(),
        0 <= idx < view.infos.len(),
    ensures
        view.scan_cell(state, first_slot, step, idx) is None <==> (view.stages[step][idx]
            == VRegLifeStage::Born && view.infos[idx].content_kind == VRegContentKind::Normal
            && forall|register: int|
            0 <= register < state.occupation.len() ==> state.occupation[register]),
{
    lemma_first_free(state.occupation, 0);
}

/// A constant that is born is its own location: it takes no real
/// register and no stack slot.
pub proof fn lemma_constant_takes_no_register<R>(
    view: VRegAllocationView<R>,
    state: ScanState,
    first_slot: nat,
    step: int,
    idx: int,
    bytes: [u8; 8],
)
    requires
        view.wf(),
        scan_state_wf(view, state),
        0 <= step < view.steps(),
        0 <= idx < view.infos.len(),
        view.stages[step][idx] == VRegLifeStage::Born,
        view.infos[idx].content_kind == VRegContentKind::Const(bytes),
    ensures
        view.scan_cell(state, first_slot, step, idx) matches Some(after) && after.allocations[idx]
            == Some(VRegAlloc::Const(bytes)) && after.occupation == state.occupation
            && after.requests == state.requests,
{
}

/// A virtual register defined as an unsigned literal is a constant whose
/// bytes stand for the literal.
pub proof fn lemma_literal_is_constant<R>(view: VRegAllocationView<R>, dtype: DataType, value: u64)
    ensures
        view.kind_for(Instruction::UInt(dtype, value)) == Some(
            VRegContentKind::Const(spec_be_bytes(value)),
        ),
        view.kind_for(Instruction::Float(dtype, value)) == Some(
            VRegContentKind::Const(spec_be_bytes(value)),
        ),
        spec_be_value(spec_be_bytes(value)) == value,
{
    lemma_be_round_trip(value);
}


/// Whether the scan has passed the virtual register `idx` of step `step`
/// when it stands in front of the virtual register `count` of step `at`.
pub open spec fn passed(step: int, idx: int, at: int, count: int) -> bool {
    step < at || (step == at && idx < count)
}

/// Whether the value `idx` holds a real register when the scan stands in
/// front of the virtual register `count` of step `at`: the scan has
/// passed its birth and not yet its death.
pub open spec fn holding<R>(view: VRegAllocationView<R>, idx: int, at: int, count: int) -> bool {
    &&& view.born(idx)
    &&& view.infos[idx].content_kind is Normal
    &&& passed(view.start(idx), idx, at, count)
    &&& !(view.start(idx) < view.end(idx) && passed(view.end(idx), idx, at, count))
}

/// The real register that the scan has noted for the virtual register
/// `idx`, if it has noted one.
pub open spec fn noted_register(state: ScanState, idx: int) -> Option<usize> {
    match state.allocations[idx] {
        Some(VRegAlloc::RealReg(register)) => Some(register),
        _ => None,
    }
}

/// The state of the scan in front of the virtual register `count` of
/// step `at`.
pub open spec fn scan_until<R>(
    view: VRegAllocationView<R>,
    first_slot: nat,
    at: int,
    count: int,
) -> Option<ScanState> {
    match view.scan_steps(first_slot, at) {
        Some(row_start) => view.scan_row(row_start, first_slot, at, count),
        None => None,
    }
}

/// Whether the scan has noted for the virtual register `idx` a location
/// of the kind that its content asks for: a real register for a value, a
/// stack slot for stack space, the constant itself for a constant.
pub open spec fn located<R>(view: VRegAllocationView<R>, state: ScanState, idx: int) -> bool {
    match view.infos[idx].content_kind {
        VRegContentKind::Normal => state.allocations[idx] matches Some(VRegAlloc::RealReg(_)),
        VRegContentKind::StackSpace(_) => state.allocations[idx] matches Some(
            VRegAlloc::StackPtr(_),
        ),
        VRegContentKind::Const(bytes) => state.allocations[idx] == Some(VRegAlloc::Const(bytes)),
    }
}

/// What the scan keeps true: the occupied real registers are those that
/// a value holds, and no two values hold the same.
spec fn scan_inv<R>(view: VRegAllocationView<R>, state: ScanState, at: int, count: int) -> bool {
    &&& scan_state_wf(view, state)
    &&& forall|idx: int|
        0 <= idx < view.infos.len() && #[trigger] holding(view, idx, at, count) ==> noted_register(
            state,
            idx,
        ) is Some && state.occupation[noted_register(state, idx)->Some_0 as int]
    &&& forall|register: int|
        0 <= register < state.occupation.len() && #[trigger] state.occupation[register]
            ==> exists|idx: int|
            0 <= idx < view.infos.len() && #[trigger] holding(view, idx, at, count)
                && noted_register(state, idx) == Some(register as usize)
    &&& forall|first: int, second: int|
        0 <= first < view.infos.len() && 0 <= second < view.infos.len() && first != second
            && #[trigger] holding(view, first, at, count) && #[trigger] holding(
            view,
            second,
            at,
            count,
        ) ==> noted_register(state, first) != noted_register(state, second)
    &&& forall|idx: int|
        0 <= idx < view.infos.len() && view.born(idx) && #[trigger] passed(
            view.start(idx),
            idx,
            at,
            count,
        ) ==> located(view, state, idx)
}

/// How passing one virtual register changes who holds a real register.
proof fn lemma_holding_step<R>(view: VRegAllocationView<R>, idx: int, at: int, count: int)
    requires
        view.wf(),
        0 <= idx < view.infos.len(),
        0 <= at < view.steps(),
        0 <= count < view.width(),
    ensures
        idx != count ==> holding(view, idx, at, count + 1) == holding(view, idx, at, count),
        passed(view.start(idx), idx, at, count) ==> passed(view.start(idx), idx, at, count + 1),
        idx != count ==> passed(view.start(idx), idx, at, count + 1) == passed(
            view.start(idx),
            idx,
            at,
            count,
        ),
        idx == count ==> match view.stages[at][idx] {
            VRegLifeStage::Born => view.born(idx) && at == view.start(idx) && !holding(
                view,
                idx,
                at,
                count,
            ) && !passed(view.start(idx), idx, at, count) && (holding(view, idx, at, count + 1)
                <==> view.infos[idx].content_kind is Normal),
            VRegLifeStage::Dying => view.born(idx) && passed(view.start(idx), idx, at, count)
                && !holding(view, idx, at, count + 1) && (holding(view, idx, at, count)
                <==> view.infos[idx].content_kind is Normal),
            _ => holding(view, idx, at, count + 1) == holding(view, idx, at, count) && (view.born(
                idx,
            ) ==> passed(view.start(idx), idx, at, count + 1) == passed(
                view.start(idx),
                idx,
                at,
                count,
            )),
        },
{
    assert(view.column_wf(idx));
    assert(view.stages[at][idx] == if view.born(idx) {
        stage_of(view.start(idx), view.end(idx), at)
    } else {
        VRegLifeStage::Dead
    });
}

/// Passing one virtual register keeps what the scan keeps true.
proof fn lemma_scan_cell_inv<R>(
    view: VRegAllocationView<R>,
    state: ScanState,
    first_slot: nat,
    at: int,
    count: int,
)
    requires
        view.wf(),
        0 <= at < view.steps(),
        0 <= count < view.width(),
        scan_inv(view, state, at, count),
    ensures
        view.scan_cell(state, first_slot, at, count) matches Some(after) ==> scan_inv(
            view,
            after,
            at,
            count + 1,
        ),
{
    let n = view.infos.len() as int;
    lemma_first_free(state.occupation, 0);
    lemma_scan_cell_wf(view, state, first_slot, at, count);
    assert(view.stages[at].len() == view.width());
    if count >= n {
        assert(view.stages[at][count] == VRegLifeStage::Dead);
    }
    match view.scan_cell(state, first_slot, at, count) {
        None => {},
        Some(after) => {
            assert forall|idx: int| 0 <= idx < n && idx != count implies #[trigger] noted_register(
                after,
                idx,
            ) == noted_register(state, idx) by {}
            if count < n {
                lemma_holding_step(view, count, at, count);
            }
            // holders have an occupied register
            assert forall|idx: int|
                0 <= idx < n && #[trigger] holding(view, idx, at, count + 1) implies noted_register(
                after,
                idx,
            ) is Some && after.occupation[noted_register(after, idx)->Some_0 as int] by {
                lemma_holding_step(view, idx, at, count);
                if idx != count {
                    assert(holding(view, idx, at, count));
                    if count < n && holding(view, count, at, count) {
                        assert(noted_register(state, idx) != noted_register(state, count));
                    }
                }
            }
            // occupied registers have a holder
            assert forall|register: int|
                0 <= register < after.occupation.len() && #[trigger] after.occupation[register] implies exists|
                idx: int,
            |
                0 <= idx < n && #[trigger] holding(view, idx, at, count + 1) && noted_register(
                    after,
                    idx,
                ) == Some(register as usize) by {
                if state.occupation[register] {
                    let holder = choose|idx: int|
                        0 <= idx < n && #[trigger] holding(view, idx, at, count) && noted_register(
                            state,
                            idx,
                        ) == Some(register as usize);
                    lemma_holding_step(view, holder, at, count);
                    if holder == count && view.stages[at][count] == VRegLifeStage::Dying {
                        // the register of a value that dies is no longer occupied
                        assert(!after.occupation[register]);
                    }
                    assert(holding(view, holder, at, count + 1) && noted_register(after, holder)
                        == Some(register as usize));
                } else {
                    assert(holding(view, count, at, count + 1) && noted_register(after, count)
                        == Some(register as usize));
                }
            }
            // no two holders share a register
            assert forall|first: int, second: int|
                0 <= first < n && 0 <= second < n && first != second && #[trigger] holding(
                    view,
                    first,
                    at,
                    count + 1,
                ) && #[trigger] holding(view, second, at, count + 1) implies noted_register(
                after,
                first,
            ) != noted_register(after, second) by {
                lemma_holding_step(view, first, at, count);
                lemma_holding_step(view, second, at, count);
                if first != count && second != count {
                    assert(holding(view, first, at, count) && holding(view, second, at, count));
                } else if first == count {
                    assert(holding(view, second, at, count));
                } else {
                    assert(holding(view, first, at, count));
                }
            }
            // what was born has its location
            assert forall|idx: int|
                0 <= idx < n && view.born(idx) && #[trigger] passed(
                    view.start(idx),
                    idx,
                    at,
                    count + 1,
                ) implies located(view, after, idx) by {
                lemma_holding_step(view, idx, at, count);
                if idx != count {
                    assert(passed(view.start(idx), idx, at, count));
                    assert(after.allocations[idx] == state.allocations[idx]);
                } else if passed(view.start(idx), idx, at, count) {
                    assert(located(view, state, idx));
                }
            }
        },
    }
}

/// What the scan keeps true holds along a row.
proof fn lemma_scan_row_inv<R>(
    view: VRegAllocationView<R>,
    row_start: ScanState,
    first_slot: nat,
    at: int,
    count: int,
)
    requires
        view.wf(),
        0 <= at < view.steps(),
        0 <= count <= view.width(),
        scan_inv(view, row_start, at, 0),
    ensures
        view.scan_row(row_start, first_slot, at, count) matches Some(state) ==> scan_inv(
            view,
            state,
            at,
            count,
        ),
    decreases count,
{
    if count > 0 {
        lemma_scan_row_inv(view, row_start, first_slot, at, count - 1);
        match view.scan_row(row_start, first_slot, at, count - 1) {
            Some(before) => {
                lemma_scan_cell_inv(view, before, first_slot, at, count - 1);
            },
            None => {},
        }
    }
}

/// What the scan keeps true holds in front of every step.
proof fn lemma_scan_steps_inv<R>(view: VRegAllocationView<R>, first_slot: nat, at: int)
    requires
        view.wf(),
        0 <= at <= view.steps(),
    ensures
        view.scan_steps(first_slot, at) matches Some(state) ==> scan_inv(view, state, at, 0),
    decreases at,
{
    if at > 0 {
        lemma_scan_steps_inv(view, first_slot, at - 1);
        match view.scan_steps(first_slot, at - 1) {
            Some(before) => {
                assert(view.stages[at - 1].len() == view.width());
                lemma_scan_row_inv(view, before, first_slot, at - 1, view.width());
                match view.scan_row(before, first_slot, at - 1, view.width()) {
                    Some(state) => {
                        assert forall|idx: int| 0 <= idx < view.infos.len() implies #[trigger] holding(
                            view,
                            idx,
                            at,
                            0,
                        ) == holding(view, idx, at - 1, view.width()) by {}
                        assert forall|idx: int| 0 <= idx < view.infos.len() implies holding(
                            view,
                            idx,
                            at,
                            0,
                        ) == #[trigger] holding(view, idx, at - 1, view.width()) by {}
                        assert forall|step: int, idx: int|
                            0 <= idx < view.infos.len() implies #[trigger] passed(step, idx, at, 0)
                            == passed(step, idx, at - 1, view.width()) by {}
                    },
                    None => {},
                }
            },
            None => {},
        }
    } else {
        let state = view.scan_start();
        assert forall|idx: int| 0 <= idx < view.infos.len() implies !#[trigger] holding(
            view,
            idx,
            0,
            0,
        ) by {
            assert(view.column_wf(idx));
        }
        assert forall|idx: int|
            0 <= idx < state.allocations.len() implies match #[trigger] state.allocations[idx] {
            Some(VRegAlloc::RealReg(register)) => register < view.registers.len(),
            _ => true,
        } by {
            assert(state.allocations[idx] == view.infos[idx].allocation);
        }
    }
}

/// At no point of the scan do two values hold the same real register:
/// each of two values that hold a register at the same point has one of
/// its own, and that register is marked as occupied.
pub proof fn lemma_registers_are_exclusive<R>(
    view: VRegAllocationView<R>,
    first_slot: nat,
    at: int,
    count: int,
    first: int,
    second: int,
)
    requires
        view.wf(),
        0 <= at < view.steps(),
        0 <= count <= view.width(),
        scan_until(view, first_slot, at, count) is Some,
        0 <= first < view.infos.len(),
        0 <= second < view.infos.len(),
        first != second,
        holding(view, first, at, count),
        holding(view, second, at, count),
    ensures
        ({
            let state = scan_until(view, first_slot, at, count)->Some_0;
            &&& noted_register(state, first) is Some
            &&& noted_register(state, second) is Some
            &&& noted_register(state, first) != noted_register(state, second)
            &&& state.occupation[noted_register(state, first)->Some_0 as int]
            &&& state.occupation[noted_register(state, second)->Some_0 as int]
        }),
{
    lemma_scan_steps_inv(view, first_slot, at);
    let row_start = view.scan_steps(first_slot, at)->Some_0;
    lemma_scan_row_inv(view, row_start, first_slot, at, count);
}

/// A real register is occupied only while a value holds it.
pub proof fn lemma_occupied_register_has_holder<R>(
    view: VRegAllocationView<R>,
    first_slot: nat,
    at: int,
    count: int,
    register: int,
)
    requires
        view.wf(),
        0 <= at < view.steps(),
        0 <= count <= view.width(),
        scan_until(view, first_slot, at, count) matches Some(state) && 0 <= register
            < state.occupation.len() && state.occupation[register],
    ensures
        exists|idx: int|
            0 <= idx < view.infos.len() && #[trigger] holding(view, idx, at, count)
                && noted_register(scan_until(view, first_slot, at, count)->Some_0, idx) == Some(
                register as usize,
            ),
{
    lemma_scan_steps_inv(view, first_slot, at);
    let row_start = view.scan_steps(first_slot, at)->Some_0;
    lemma_scan_row_inv(view, row_start, first_slot, at, count);
}


/// Once the scan is through, every virtual register that was born has a
/// location of the kind that its content asks for. A constant is its own
/// location.
pub proof fn lemma_scan_locates_all<R>(view: VRegAllocationView<R>, first_slot: nat, idx: int)
    requires
        view.wf(),
        view.scanned(first_slot) is Some,
        0 <= idx < view.infos.len(),
        view.born(idx),
    ensures
        ({
            let location = view.scanned(first_slot)->Some_0.infos[idx].allocation;
            match view.infos[idx].content_kind {
                VRegContentKind::Normal => location matches Some(VRegAlloc::RealReg(_)),
                VRegContentKind::StackSpace(_) => location matches Some(VRegAlloc::StackPtr(_)),
                VRegContentKind::Const(bytes) => location == Some(VRegAlloc::Const(bytes)),
            }
        }),
{
    lemma_scan_steps_inv(view, first_slot, view.steps());
    assert(passed(view.start(idx), idx, view.steps(), 0));
}

/// Only the step of its birth changes what the scan has noted for a
/// virtual register.
proof fn lemma_cell_keeps_location<R>(
    view: VRegAllocationView<R>,
    state: ScanState,
    first_slot: nat,
    at: int,
    count: int,
    idx: int,
)
    requires
        view.wf(),
        scan_state_wf(view, state),
        0 <= at < view.steps(),
        0 <= count < view.width(),
        0 <= idx < view.infos.len(),
        view.born(idx),
        passed(view.start(idx), idx, at, count),
    ensures
        view.scan_cell(state, first_slot, at, count) matches Some(after) ==> after.allocations[idx]
            == state.allocations[idx],
{
    lemma_first_free(state.occupation, 0);
    assert(view.stages[at].len() == view.width());
    if count < view.infos.len() {
        lemma_holding_step(view, count, at, count);
    } else {
        assert(view.stages[at][count] == VRegLifeStage::Dead);
    }
}

/// What the scan has noted for a virtual register behind its birth stays
/// for the rest of the row.
proof fn lemma_row_keeps_location<R>(
    view: VRegAllocationView<R>,
    row_start: ScanState,
    first_slot: nat,
    at: int,
    from: int,
    to: int,
    idx: int,
)
    requires
        view.wf(),
        scan_state_wf(view, row_start),
        0 <= at < view.steps(),
        0 <= from <= to <= view.width(),
        0 <= idx < view.infos.len(),
        view.born(idx),
        passed(view.start(idx), idx, at, from),
        view.scan_row(row_start, first_slot, at, to) is Some,
    ensures
        view.scan_row(row_start, first_slot, at, from) is Some,
        view.scan_row(row_start, first_slot, at, to)->Some_0.allocations[idx] == view.scan_row(
            row_start,
            first_slot,
            at,
            from,
        )->Some_0.allocations[idx],
    decreases to - from,
{
    if from < to {
        let before = view.scan_row(row_start, first_slot, at, to - 1)->Some_0;
        lemma_row_keeps_location(view, row_start, first_slot, at, from, to - 1, idx);
        lemma_scan_row_wf(view, row_start, first_slot, at, to - 1);
        lemma_cell_keeps_location(view, before, first_slot, at, to - 1, idx);
    }
}

/// What the scan has noted for a virtual register behind its birth stays
/// to the end.
proof fn lemma_steps_keep_location<R>(
    view: VRegAllocationView<R>,
    first_slot: nat,
    from: int,
    to: int,
    idx: int,
)
    requires
        view.wf(),
        0 <= from <= to <= view.steps(),
        0 <= idx < view.infos.len(),
        view.born(idx),
        passed(view.start(idx), idx, from, 0),
        view.scan_steps(first_slot, to) is Some,
    ensures
        view.scan_steps(first_slot, from) is Some,
        view.scan_steps(first_slot, to)->Some_0.allocations[idx] == view.scan_steps(
            first_slot,
            from,
        )->Some_0.allocations[idx],
    decreases to - from,
{
    if from < to {
        let before = view.scan_steps(first_slot, to - 1)->Some_0;
        lemma_steps_keep_location(view, first_slot, from, to - 1, idx);
        lemma_scan_steps_wf(view, first_slot, to - 1);
        assert(view.stages[to - 1].len() == view.width());
        lemma_row_keeps_location(view, before, first_slot, to - 1, 0, view.width(), idx);
    }
}

/// Two values that hold a real register at the same point of the scan end
/// up with different real registers.
pub proof fn lemma_values_alive_together_differ<R>(
    view: VRegAllocationView<R>,
    first_slot: nat,
    at: int,
    count: int,
    first: int,
    second: int,
)
    requires
        view.wf(),
        view.scanned(first_slot) is Some,
        0 <= at < view.steps(),
        0 <= count <= view.width(),
        0 <= first < view.infos.len(),
        0 <= second < view.infos.len(),
        first != second,
        holding(view, first, at, count),
        holding(view, second, at, count),
    ensures
        ({
            let scanned = view.scanned(first_slot)->Some_0;
            &&& scanned.infos[first].allocation matches Some(VRegAlloc::RealReg(_))
            &&& scanned.infos[second].allocation matches Some(VRegAlloc::RealReg(_))
            &&& scanned.infos[first].allocation != scanned.infos[second].allocation
        }),
{
    lemma_final_location(view, first_slot, at, count, first);
    lemma_final_location(view, first_slot, at, count, second);
    lemma_registers_are_exclusive(view, first_slot, at, count, first, second);
}

/// What the scan has noted for a virtual register behind its birth is
/// what it hands out in the end.
proof fn lemma_final_location<R>(
    view: VRegAllocationView<R>,
    first_slot: nat,
    at: int,
    count: int,
    idx: int,
)
    requires
        view.wf(),
        view.scan_steps(first_slot, view.steps()) is Some,
        0 <= at < view.steps(),
        0 <= count <= view.width(),
        0 <= idx < view.infos.len(),
        view.born(idx),
        passed(view.start(idx), idx, at, count),
    ensures
        scan_until(view, first_slot, at, count) is Some,
        view.scan_steps(first_slot, view.steps())->Some_0.allocations[idx] == scan_until(
            view,
            first_slot,
            at,
            count,
        )->Some_0.allocations[idx],
{
    lemma_steps_keep_location(view, first_slot, at + 1, view.steps(), idx);
    lemma_scan_steps_wf(view, first_slot, at);
    assert(view.stages[at].len() == view.width());
    let row_start = view.scan_steps(first_slot, at)->Some_0;
    lemma_row_keeps_location(view, row_start, first_slot, at, count, view.width(), idx);
}


/// Whether `after` knows of every virtual register of `before` what
/// `before` knew: its external ID, its internal index, the kind of its
/// content and the step of its birth.
pub open spec fn keeps_definitions<R>(
    before: VRegAllocationView<R>,
    after: VRegAllocationView<R>,
) -> bool {
    &&& before.infos.len() <= after.infos.len()
    &&& before.steps() == after.steps()
    &&& forall|id: u64| #[trigger]
        before.ids.contains_key(id) ==> after.ids.contains_key(id) && after.ids[id]
            == before.ids[id]
    &&& forall|idx: int|
        0 <= idx < before.infos.len() ==> (#[trigger] after.infos[idx]).external_id
            == before.infos[idx].external_id && after.infos[idx].content_kind
            == before.infos[idx].content_kind && (before.born(idx) ==> after.born(idx)
            && after.start(idx) == before.start(idx))
}

/// Recording references forgets no definition.
proof fn lemma_with_uses_keeps<R>(view: VRegAllocationView<R>, uses: Seq<u64>, step: usize)
    requires
        view.wf(),
    ensures
        view.with_uses(uses, step) matches Some(marked) ==> keeps_definitions(view, marked),
    decreases uses.len(),
{
    if uses.len() > 0 && view.ids.contains_key(uses[0]) && view.extendable(
        view.ids[uses[0]] as int,
        step as int,
    ) {
        let idx = view.ids[uses[0]] as int;
        let extended = view.extended_to(idx, step);
        lemma_extended_to_wf(view, idx, step);
        lemma_with_uses_keeps(extended, uses.subrange(1, uses.len() as int), step);
        assert(keeps_definitions(view, extended)) by {
            assert forall|other: int| 0 <= other < view.infos.len() implies (
            #[trigger] extended.infos[other]).external_id == view.infos[other].external_id
                && extended.infos[other].content_kind == view.infos[other].content_kind && (
            view.born(other) ==> extended.born(other) && extended.start(other) == view.start(
                other,
            )) by {
                assert(view.column_wf(other));
                assert(extended.column_wf(other));
                if view.born(other) {
                    assert(view.stages[view.start(other)].len() == view.width());
                }
            }
        }
    }
}

/// Recording a step keeps the allocation well formed and forgets no
/// definition. A definition is recorded with the kind of its content and
/// is born in its step.
pub proof fn lemma_with_step<R>(view: VRegAllocationView<R>, instruction: Instruction, step: usize)
    requires
        view.wf(),
        view.with_step(instruction, step) is Ok,
    ensures
        view.with_step(instruction, step)->Ok_0.wf(),
        keeps_definitions(view, view.with_step(instruction, step)->Ok_0),
        instruction matches Instruction::DefReg { id, rhs } ==> {
            let after = view.with_step(instruction, step)->Ok_0;
            &&& !view.ids.contains_key(id)
            &&& after.ids.contains_key(id)
            &&& view.kind_for(*rhs) == Some(after.infos[after.ids[id] as int].content_kind)
            &&& after.born(after.ids[id] as int)
            &&& after.start(after.ids[id] as int) == step
        },
{
    let start = match instruction {
        Instruction::DefReg { id, rhs } => {
            let kind = view.kind_for(*rhs)->Some_0;
            let fresh = view.infos.len() as int;
            lemma_with_vreg_wf(view, id, kind);
            lemma_born_at_wf(view.with_vreg(id, kind), fresh, step);
            let defined = view.with_vreg(id, kind).born_at(fresh, step);
            assert(keeps_definitions(view, defined)) by {
                assert forall|other: int| 0 <= other < view.infos.len() implies (
                #[trigger] defined.infos[other]).external_id == view.infos[other].external_id
                    && defined.infos[other].content_kind == view.infos[other].content_kind && (
                view.born(other) ==> defined.born(other) && defined.start(other) == view.start(
                    other,
                )) by {
                    assert(view.column_wf(other));
                    if view.born(other) {
                        assert(view.stages[view.start(other)].len() == view.width());
                    }
                }
            }
            defined
        },
        _ => view,
    };
    lemma_with_uses_wf(start, instruction.uses(), step);
    lemma_with_uses_keeps(start, instruction.uses(), step);
    let marked = start.with_uses(instruction.uses(), step)->Some_0;
    if instruction.spec_contains_call() {
        lemma_with_call_wf(marked, step);
    }
}

/// Recording steps keeps the allocation well formed and forgets no
/// definition.
pub proof fn lemma_with_steps<R>(
    view: VRegAllocationView<R>,
    body: Seq<Instruction>,
    count: int,
    more: int,
)
    requires
        view.wf(),
        0 <= count <= more,
        view.with_steps(body, more) is Ok,
    ensures
        view.with_steps(body, count) is Ok,
        view.with_steps(body, count)->Ok_0.wf(),
        view.with_steps(body, more)->Ok_0.wf(),
        keeps_definitions(view.with_steps(body, count)->Ok_0, view.with_steps(body, more)->Ok_0),
    decreases more,
{
    if more > 0 {
        lemma_with_steps(view, body, 0, more - 1);
        let before = view.with_steps(body, more - 1)->Ok_0;
        lemma_with_step(before, body[more - 1], (more - 1) as usize);
        if count < more {
            lemma_with_steps(view, body, count, more - 1);
        }
    }
}

/// The bytes of a literal, most significant first.
pub open spec fn literal_bytes(literal: Instruction) -> [u8; 8] {
    match literal {
        Instruction::Int(_, value) => spec_be_bytes(spec_bits_of(value)),
        Instruction::UInt(_, value) => spec_be_bytes(value),
        Instruction::Float(_, bits) => spec_be_bytes(bits),
        _ => spec_be_bytes(0),
    }
}

/// A virtual register that is defined as a literal resolves to the bytes
/// of that literal, whatever else the body holds.
pub proof fn lemma_literal_resolves<R: Register>(
    body: Seq<Instruction>,
    first_slot: nat,
    step: int,
)
    requires
        R::spec_caller_saved().len() <= usize::MAX,
        body.len() <= usize::MAX,
        generated::<R>(body, first_slot) is Ok,
        0 <= step < body.len(),
        body[step] matches Instruction::DefReg { rhs, .. } && (*rhs is UInt || *rhs is Int
            || *rhs is Float),
    ensures
        ({
            let allocation = generated::<R>(body, first_slot)->Ok_0.0;
            let id = body[step]->DefReg_id;
            &&& allocation.ids.contains_key(id)
            &&& allocation.location(id) == Some(
                VRegAlloc::Const(literal_bytes(*body[step]->DefReg_rhs)),
            )
        }),
{
    let n = body.len() as int;
    let start = VRegAllocationView::empty(R::spec_caller_saved(), body.len(), count_defs(body, n));
    lemma_count_defs_bound(body, n);
    lemma_empty_wf(R::spec_caller_saved(), body.len(), count_defs(body, n));
    lemma_with_steps(start, body, step + 1, n);
    lemma_with_steps(start, body, step, n);
    let before = start.with_steps(body, step)->Ok_0;
    let defined = start.with_steps(body, step + 1)->Ok_0;
    let recorded = start.with_steps(body, n)->Ok_0;
    lemma_with_step(before, body[step], step as usize);
    let id = body[step]->DefReg_id;
    let idx = recorded.ids[id] as int;
    assert(defined.ids.contains_key(id));
    assert(recorded.infos[idx].content_kind == defined.infos[idx].content_kind);
    lemma_scan_locates_all(recorded, first_slot, idx);
}


/// The last of the first `count` steps of `body` that refers to the
/// virtual register `id`, or the step of its birth where none behind its
/// birth does.
pub open spec fn last_reference(body: Seq<Instruction>, id: u64, birth: int, count: int) -> int
    decreases count - birth,
{
    if count <= birth + 1 {
        birth
    } else if body[count - 1].uses().contains(id) {
        count - 1
    } else {
        last_reference(body, id, birth, count - 1)
    }
}

/// Recording references in a step moves the end of the lifetime of every
/// virtual register that is referred to to that step, and no other end.
/// What is referred to was born before the step.
proof fn lemma_with_uses_end<R>(view: VRegAllocationView<R>, uses: Seq<u64>, step: usize, idx: int)
    requires
        view.wf(),
        0 <= idx < view.infos.len(),
        view.born(idx),
        view.with_uses(uses, step) is Some,
    ensures
        view.with_uses(uses, step)->Some_0.end(idx) == if uses.contains(
            view.infos[idx].external_id,
        ) {
            step as int
        } else {
            view.end(idx)
        },
        uses.contains(view.infos[idx].external_id) ==> view.start(idx) < step,
    decreases uses.len(),
{
    let id = view.infos[idx].external_id;
    if uses.len() > 0 {
        let first = view.ids[uses[0]] as int;
        let extended = view.extended_to(first, step);
        let rest = uses.subrange(1, uses.len() as int);
        lemma_extended_to_wf(view, first, step);
        assert(view.ids.contains_key(id) && view.ids[id] == idx);
        assert(view.column_wf(idx));
        assert(extended.column_wf(idx));
        assert(view.stages[view.start(idx)].len() == view.width());
        assert(extended.born(idx));
        lemma_with_uses_end(extended, rest, step, idx);
        if rest.contains(id) {
            let i = choose|i: int| 0 <= i < rest.len() && rest[i] == id;
            assert(uses[i + 1] == id);
        }
        if uses.contains(id) && uses[0] != id {
            let i = choose|i: int| 0 <= i < uses.len() && uses[i] == id;
            assert(rest[i - 1] == id);
        }
        if uses[0] == id {
            assert(uses.contains(id));
        }
    }
}

/// Recording a step moves the end of the lifetime of every virtual
/// register that the step refers to to that step, and no other end.
proof fn lemma_with_step_end<R>(
    view: VRegAllocationView<R>,
    instruction: Instruction,
    step: usize,
    idx: int,
)
    requires
        view.wf(),
        view.with_step(instruction, step) is Ok,
        0 <= idx < view.infos.len(),
        view.born(idx),
    ensures
        view.with_step(instruction, step)->Ok_0.end(idx) == if instruction.uses().contains(
            view.infos[idx].external_id,
        ) {
            step as int
        } else {
            view.end(idx)
        },
{
    match instruction {
        Instruction::DefReg { id, rhs } => {
            let kind = view.kind_for(*rhs)->Some_0;
            let fresh = view.infos.len() as int;
            lemma_with_vreg_wf(view, id, kind);
            lemma_born_at_wf(view.with_vreg(id, kind), fresh, step);
            let defined = view.with_vreg(id, kind).born_at(fresh, step);
            assert(view.column_wf(idx));
            assert(view.stages[view.start(idx)].len() == view.width());
            assert(defined.born(idx));
            lemma_with_uses_end(defined, instruction.uses(), step, idx);
        },
        _ => {
            lemma_with_uses_end(view, instruction.uses(), step, idx);
        },
    }
}

/// A definition gives its virtual register a lifetime of one step.
proof fn lemma_with_step_birth<R>(view: VRegAllocationView<R>, instruction: Instruction, step: usize)
    requires
        view.wf(),
        view.with_step(instruction, step) is Ok,
        instruction is DefReg,
    ensures
        ({
            let after = view.with_step(instruction, step)->Ok_0;
            let idx = after.ids[instruction->DefReg_id] as int;
            &&& idx == view.infos.len()
            &&& after.end(idx) == step
            &&& after.infos[idx].external_id == instruction->DefReg_id
        }),
{
    let id = instruction->DefReg_id;
    let kind = view.kind_for(*instruction->DefReg_rhs)->Some_0;
    let fresh = view.infos.len() as int;
    lemma_with_vreg_wf(view, id, kind);
    lemma_born_at_wf(view.with_vreg(id, kind), fresh, step);
    let defined = view.with_vreg(id, kind).born_at(fresh, step);
    lemma_with_uses_end(defined, instruction.uses(), step, fresh);
    lemma_with_uses_keeps(defined, instruction.uses(), step);
}

/// The lifetime of a virtual register spans from the step that defines
/// it to the last step that refers to it.
pub proof fn lemma_lifetime_spans_references<R>(
    view: VRegAllocationView<R>,
    body: Seq<Instruction>,
    step: int,
    count: int,
)
    requires
        view.wf(),
        0 <= step < count <= usize::MAX,
        view.with_steps(body, count) is Ok,
        body[step] is DefReg,
    ensures
        ({
            let recorded = view.with_steps(body, count)->Ok_0;
            let id = body[step]->DefReg_id;
            let idx = recorded.ids[id] as int;
            &&& recorded.ids.contains_key(id)
            &&& 0 <= idx < recorded.infos.len()
            &&& recorded.infos[idx].external_id == id
            &&& recorded.born(idx)
            &&& recorded.start(idx) == step
            &&& recorded.end(idx) == last_reference(body, id, step, count)
        }),
    decreases count,
{
    let id = body[step]->DefReg_id;
    lemma_with_steps(view, body, count - 1, count);
    let before = view.with_steps(body, count - 1)->Ok_0;
    let recorded = view.with_steps(body, count)->Ok_0;
    lemma_with_step(before, body[count - 1], (count - 1) as usize);
    if count == step + 1 {
        lemma_with_step_birth(before, body[step], step as usize);
    } else {
        lemma_lifetime_spans_references(view, body, step, count - 1);
        let idx = before.ids[id] as int;
        lemma_with_step_end(before, body[count - 1], (count - 1) as usize, idx);
    }
}


/// Recording references changes neither the number of virtual registers
/// nor the room for them.
proof fn lemma_with_uses_size<R>(view: VRegAllocationView<R>, uses: Seq<u64>, step: usize)
    requires
        view.wf(),
    ensures
        view.with_uses(uses, step) matches Some(marked) ==> marked.infos.len() == view.infos.len()
            && marked.width() == view.width() && marked.steps() == view.steps(),
    decreases uses.len(),
{
    if uses.len() > 0 && view.ids.contains_key(uses[0]) && view.extendable(
        view.ids[uses[0]] as int,
        step as int,
    ) {
        let idx = view.ids[uses[0]] as int;
        lemma_extended_to_wf(view, idx, step);
        assert(view.stages[0].len() == view.width());
        lemma_with_uses_size(view.extended_to(idx, step), uses.subrange(1, uses.len() as int), step);
    }
}

/// Recording a step makes one virtual register where the step is a
/// definition and none where it is not; the room stays as it is.
proof fn lemma_with_step_size<R>(view: VRegAllocationView<R>, instruction: Instruction, step: usize)
    requires
        view.wf(),
        view.with_step(instruction, step) is Ok,
    ensures
        ({
            let after = view.with_step(instruction, step)->Ok_0;
            &&& after.width() == view.width()
            &&& after.steps() == view.steps()
            &&& after.infos.len() == view.infos.len() + if instruction is DefReg {
                1int
            } else {
                0int
            }
        }),
{
    match instruction {
        Instruction::DefReg { id, rhs } => {
            let kind = view.kind_for(*rhs)->Some_0;
            let fresh = view.infos.len() as int;
            lemma_with_vreg_wf(view, id, kind);
            lemma_born_at_wf(view.with_vreg(id, kind), fresh, step);
            assert(view.stages[step as int].len() == view.width());
            assert(view.stages[0].len() == view.width());
            lemma_with_uses_size(
                view.with_vreg(id, kind).born_at(fresh, step),
                instruction.uses(),
                step,
            );
        },
        _ => {
            lemma_with_uses_size(view, instruction.uses(), step);
        },
    }
}

/// There are no fewer definitions among more steps.
proof fn lemma_count_defs_monotone(body: Seq<Instruction>, count: int, more: int)
    requires
        count <= more,
    ensures
        count_defs(body, count) <= count_defs(body, more),
    decreases more - count,
{
    if count < more {
        lemma_count_defs_monotone(body, count, more - 1);
    }
}

/// While the steps of a body are recorded one virtual register is
/// defined for each definition passed.
proof fn lemma_analysis_counts<R: Register>(body: Seq<Instruction>, count: int)
    requires
        R::spec_caller_saved().len() <= usize::MAX,
        body.len() <= usize::MAX,
        0 <= count <= body.len(),
    ensures
        ({
            let start = VRegAllocationView::empty(
                R::spec_caller_saved(),
                body.len(),
                count_defs(body, body.len() as int),
            );
            &&& start.with_steps(body, count) matches Ok(recorded) ==> recorded.wf()
                && recorded.steps() == body.len() && recorded.width() == count_defs(
                body,
                body.len() as int,
            ) && recorded.infos.len() == count_defs(body, count)
            &&& start.with_steps(body, count) matches Err(error) ==> error
                == CodegenError::MalformedIr
        }),
    decreases count,
{
    let n = body.len() as int;
    let start = VRegAllocationView::empty(R::spec_caller_saved(), body.len(), count_defs(body, n));
    lemma_count_defs_bound(body, n);
    lemma_empty_wf(R::spec_caller_saved(), body.len(), count_defs(body, n));
    if count > 0 {
        lemma_analysis_counts::<R>(body, count - 1);
        match start.with_steps(body, count - 1) {
            Ok(before) => {
                lemma_count_defs_monotone(body, count, n);
                if before.with_step(body[count - 1], (count - 1) as usize) is Ok {
                    lemma_with_step(before, body[count - 1], (count - 1) as usize);
                    lemma_with_step_size(before, body[count - 1], (count - 1) as usize);
                }
            },
            Err(_) => {},
        }
    }
}

/// The analysis of a body fails only where the body is malformed: there
/// is always room for the virtual registers that the body defines.
pub proof fn lemma_analysis_fails_on_malformed_only<R: Register>(body: Seq<Instruction>)
    requires
        R::spec_caller_saved().len() <= usize::MAX,
        body.len() <= usize::MAX,
    ensures
        analysis::<R>(body) matches Err(error) ==> error == CodegenError::MalformedIr,
        analysis::<R>(body) matches Ok(recorded) ==> recorded.wf() && recorded.steps()
            == body.len() && recorded.infos.len() == count_defs(body, body.len() as int),
{
    lemma_analysis_counts::<R>(body, body.len() as int);
}

} // verus!
