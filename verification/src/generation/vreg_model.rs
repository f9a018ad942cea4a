//! The allocation as a mathematical value: what recording a step and
//! what the scan for locations do to it, and that they keep it well formed.
use std::ops::Range;
use vstd::prelude::*;
use crate::error::CodegenError;
use crate::generation::bytes::{spec_be_bytes, spec_bits_of};
use crate::generation::vreg_alloc::{
    Register, VRegAlloc, VRegContentKind, VRegInfo, VRegLifeStage,
};
use crate::ir::Instruction;

verus! {

/// The stage of a register that lives from `start` to `end` in step `step`.
pub open spec fn stage_of(start: int, end: int, step: int) -> VRegLifeStage {
    if step == start {
        VRegLifeStage::Born
    } else if start < step < end {
        VRegLifeStage::Live
    } else if start < step && step == end {
        VRegLifeStage::Dying
    } else {
        VRegLifeStage::Dead
    }
}


/// The allocation as a mathematical value.
pub struct VRegAllocationView<R> {
    /// The real registers that are handed out, in that order.
    pub registers: Seq<R>,
    /// Internal index of each virtual register, by its external ID.
    pub ids: Map<u64, usize>,
    /// What is known of each virtual register, by internal index.
    pub infos: Seq<VRegInfo>,
    /// Life stage of each virtual register in each step.
    pub stages: Seq<Seq<VRegLifeStage>>,
    /// Whether each step holds a function call.
    pub calls: Seq<bool>,
    /// The real registers in use behind each step.
    pub occupation: Seq<Seq<bool>>,
}

impl<R> VRegAllocationView<R> {
    /// An allocation of that many steps with room for that many virtual
    /// registers, of which none is defined yet.
    pub open spec fn empty(registers: Seq<R>, step_count: nat, vreg_count: nat) -> Self {
        VRegAllocationView {
            registers,
            ids: Map::empty(),
            infos: Seq::empty(),
            stages: Seq::new(
                step_count,
                |s: int| Seq::new(vreg_count, |i: int| VRegLifeStage::Dead),
            ),
            calls: Seq::new(step_count, |s: int| false),
            occupation: Seq::new(step_count, |s: int| Seq::<bool>::empty()),
        }
    }

    /// Number of steps.
    pub open spec fn steps(self) -> int {
        self.stages.len() as int
    }

    /// Number of virtual registers each step has room for.
    pub open spec fn width(self) -> int {
        if self.stages.len() > 0 {
            self.stages[0].len() as int
        } else {
            0
        }
    }

    /// Whether one more virtual register can be defined.
    pub open spec fn has_room(self) -> bool {
        self.steps() == 0 || self.infos.len() < self.width()
    }

    /// First step of the lifetime of the virtual register `idx`.
    pub open spec fn start(self, idx: int) -> int {
        self.infos[idx].lifetime.start as int
    }

    /// Last step of the lifetime of the virtual register `idx`.
    pub open spec fn end(self, idx: int) -> int {
        self.infos[idx].lifetime.end as int
    }

    /// Whether the virtual register `idx` has been marked alive.
    pub open spec fn born(self, idx: int) -> bool {
        0 <= self.start(idx) < self.steps() && self.stages[self.start(idx)][idx]
            == VRegLifeStage::Born
    }

    /// The stages of the virtual register `idx` are those of its lifetime.
    pub open spec fn column_wf(self, idx: int) -> bool {
        &&& self.start(idx) <= self.end(idx)
        &&& self.born(idx) ==> self.end(idx) < self.steps()
        &&& !self.born(idx) ==> self.start(idx) == 0 && self.end(idx) == 0
        &&& forall|s: int|
            0 <= s < self.steps() ==> #[trigger] self.stages[s][idx] == if self.born(idx) {
                stage_of(self.start(idx), self.end(idx), s)
            } else {
                VRegLifeStage::Dead
            }
    }

    /// External IDs and internal indices correspond one to one.
    pub open spec fn ids_wf(self) -> bool {
        &&& forall|id: u64| #[trigger]
            self.ids.contains_key(id) ==> self.ids[id] < self.infos.len()
                && self.infos[self.ids[id] as int].external_id == id
        &&& forall|idx: int|
            0 <= idx < self.infos.len() ==> self.ids.contains_key(
                #[trigger] self.infos[idx].external_id,
            ) && self.ids[self.infos[idx].external_id] == idx
    }

    /// The invariant of an allocation.
    pub open spec fn wf(self) -> bool {
        &&& self.registers.len() <= usize::MAX
        &&& self.steps() <= usize::MAX
        &&& self.width() <= usize::MAX
        &&& self.calls.len() == self.stages.len()
        &&& self.occupation.len() == self.stages.len()
        &&& forall|s: int| 0 <= s < self.steps() ==> (#[trigger] self.stages[s]).len() == self.width()
        &&& self.steps() > 0 ==> self.infos.len() <= self.width()
        &&& self.ids_wf()
        &&& forall|idx: int| 0 <= idx < self.infos.len() ==> #[trigger] self.column_wf(idx)
        &&& forall|s: int, idx: int|
            0 <= s < self.steps() && self.infos.len() <= idx < self.width()
                ==> #[trigger] self.stages[s][idx] == VRegLifeStage::Dead
        &&& forall|idx: int|
            0 <= idx < self.infos.len() ==> match (#[trigger] self.infos[idx]).allocation {
                Some(VRegAlloc::RealReg(register)) => register < self.registers.len(),
                _ => true,
            }
    }

    /// The allocation with one more virtual register, not yet alive.
    pub open spec fn with_vreg(self, id: u64, kind: VRegContentKind) -> Self {
        VRegAllocationView {
            ids: self.ids.insert(id, self.infos.len() as usize),
            infos: self.infos.push(
                VRegInfo {
                    external_id: id,
                    content_kind: kind,
                    lifetime: Range { start: 0, end: 0 },
                    allocation: None,
                },
            ),
            ..self
        }
    }

    /// The allocation with the virtual register `idx` born in `step` and
    /// not yet referred to afterwards.
    pub open spec fn born_at(self, idx: int, step: usize) -> Self {
        VRegAllocationView {
            infos: self.infos.update(
                idx,
                VRegInfo { lifetime: Range { start: step, end: step }, ..self.infos[idx] },
            ),
            stages: self.stages.update(
                step as int,
                self.stages[step as int].update(idx, VRegLifeStage::Born),
            ),
            ..self
        }
    }

    /// Whether the lifetime of the virtual register `idx` can be extended
    /// to `end`: the register is alive, was born before `end`, and its
    /// lifetime does not already reach further.
    pub open spec fn extendable(self, idx: int, end: int) -> bool {
        &&& self.born(idx)
        &&& end < self.steps()
        &&& self.start(idx) < end
        &&& self.end(idx) <= end
    }

    /// The first step that an extension has to mark: the step behind the
    /// birth of a register that was never extended, else the step it died in.
    pub open spec fn extension_start(self, idx: int) -> int {
        if self.start(idx) == self.end(idx) {
            self.end(idx) + 1
        } else {
            self.end(idx)
        }
    }

    /// The allocation with the lifetime of the virtual register `idx`
    /// extended to `end`.
    pub open spec fn extended_to(self, idx: int, end: usize) -> Self {
        VRegAllocationView {
            infos: self.infos.update(
                idx,
                VRegInfo {
                    lifetime: Range { start: self.infos[idx].lifetime.start, end },
                    ..self.infos[idx]
                },
            ),
            stages: Seq::new(
                self.stages.len(),
                |s: int|
                    if self.extension_start(idx) <= s < end {
                        self.stages[s].update(idx, VRegLifeStage::Live)
                    } else if s == end {
                        self.stages[s].update(idx, VRegLifeStage::Dying)
                    } else {
                        self.stages[s]
                    },
            ),
            ..self
        }
    }

    /// The allocation with step `step` marked as holding a function call.
    pub open spec fn with_call(self, step: usize) -> Self {
        VRegAllocationView { calls: self.calls.update(step as int, true), ..self }
    }

    /// The allocation with the lifetimes of the virtual registers `uses`
    /// extended to `step`, one after the other, or `None` if one of them
    /// is not defined or cannot be extended.
    pub open spec fn with_uses(self, uses: Seq<u64>, step: usize) -> Option<Self>
        decreases uses.len(),
    {
        if uses.len() == 0 {
            Some(self)
        } else if !self.ids.contains_key(uses[0]) || !self.extendable(
            self.ids[uses[0]] as int,
            step as int,
        ) {
            None
        } else {
            self.extended_to(self.ids[uses[0]] as int, step).with_uses(
                uses.subrange(1, uses.len() as int),
                step,
            )
        }
    }

    /// The content kind of a virtual register defined as `rhs`: stack space
    /// for an allocation, a constant for a literal, the kind of the source
    /// for a copy of a virtual register (but a copy of a pointer to stack
    /// space is a normal value), and a normal value otherwise. `None` if
    /// `rhs` copies a virtual register that is not defined.
    pub open spec fn kind_for(self, rhs: Instruction) -> Option<VRegContentKind> {
        match rhs {
            Instruction::Alloc(dtype) => Some(VRegContentKind::StackSpace(dtype.spec_size(8))),
            Instruction::Reg(_, id) => if self.ids.contains_key(id) {
                Some(
                    match self.infos[self.ids[id] as int].content_kind {
                        VRegContentKind::StackSpace(_) => VRegContentKind::Normal,
                        kind => kind,
                    },
                )
            } else {
                None
            },
            Instruction::UInt(_, value) => Some(VRegContentKind::Const(spec_be_bytes(value))),
            Instruction::Int(_, value) => Some(
                VRegContentKind::Const(spec_be_bytes(spec_bits_of(value))),
            ),
            Instruction::Float(_, bits) => Some(VRegContentKind::Const(spec_be_bytes(bits))),
            _ => Some(VRegContentKind::Normal),
        }
    }

    /// The allocation after the references and the calls of `instruction`
    /// in step `step` have been recorded.
    pub open spec fn with_references(self, instruction: Instruction, step: usize) -> Result<
        Self,
        CodegenError,
    > {
        match self.with_uses(instruction.uses(), step) {
            None => Err(CodegenError::MalformedIr),
            Some(marked) => Ok(
                if instruction.spec_contains_call() {
                    marked.with_call(step)
                } else {
                    marked
                },
            ),
        }
    }

    /// The allocation after step `step` of a body has been recorded.
    ///
    /// A definition makes a new virtual register that is born in this
    /// step; every reference extends the lifetime of a virtual register to
    /// this step. What cannot stand at the top level of a body is
    /// malformed, and so is a second definition of a virtual register.
    pub open spec fn with_step(self, instruction: Instruction, step: usize) -> Result<
        Self,
        CodegenError,
    > {
        if step >= self.steps() {
            Err(CodegenError::MalformedIr)
        } else {
            match instruction {
                Instruction::DefReg { id, rhs } => match self.kind_for(*rhs) {
                    None => Err(CodegenError::MalformedIr),
                    Some(kind) => if self.ids.contains_key(id) {
                        Err(CodegenError::MalformedIr)
                    } else if !self.has_room() {
                        Err(CodegenError::ResourceExhausted)
                    } else {
                        self.with_vreg(id, kind).born_at(
                            self.infos.len() as int,
                            step,
                        ).with_references(instruction, step)
                    },
                },
                Instruction::Store { .. }
                | Instruction::Ret(_)
                | Instruction::Add(_, _, _)
                | Instruction::Sub(_, _, _)
                | Instruction::Mul(_, _, _)
                | Instruction::Div(_, _, _)
                | Instruction::Call { .. }
                | Instruction::Label(_) => self.with_references(instruction, step),
                _ => Err(CodegenError::MalformedIr),
            }
        }
    }

    /// The allocation after the first `count` steps of `body` have been
    /// recorded, or the error of the first step that cannot be.
    pub open spec fn with_steps(self, body: Seq<Instruction>, count: int) -> Result<
        Self,
        CodegenError,
    >
        decreases count,
    {
        if count <= 0 {
            Ok(self)
        } else {
            match self.with_steps(body, count - 1) {
                Err(error) => Err(error),
                Ok(recorded) => recorded.with_step(body[count - 1], (count - 1) as usize),
            }
        }
    }
}

/// Those of the first `count` registers that are occupied.
pub open spec fn living_among<R>(registers: Seq<R>, occupation: Seq<bool>, count: int) -> Seq<R>
    decreases count,
{
    if count <= 0 {
        Seq::empty()
    } else if occupation[count - 1] {
        living_among(registers, occupation, count - 1).push(registers[count - 1])
    } else {
        living_among(registers, occupation, count - 1)
    }
}

/// The allocation that the analysis of `body` arrives at: an allocation
/// with one step for each instruction and room for every definition, in
/// which every step has been recorded.
pub open spec fn analysis<R: Register>(body: Seq<Instruction>) -> Result<
    VRegAllocationView<R>,
    CodegenError,
> {
    VRegAllocationView::empty(
        R::spec_caller_saved(),
        body.len(),
        count_defs(body, body.len() as int),
    ).with_steps(body, body.len() as int)
}

/// What generating the allocation of `body` arrives at: the allocation
/// and the sizes of the stack slots it asks for, or the error. The first
/// new stack slot has the ID `first_slot`.
pub open spec fn generated<R: Register>(body: Seq<Instruction>, first_slot: nat) -> Result<
    (VRegAllocationView<R>, Seq<u8>),
    CodegenError,
> {
    match analysis::<R>(body) {
        Err(error) => Err(error),
        Ok(recorded) => match recorded.scan_steps(first_slot, recorded.steps()) {
            None => Err(CodegenError::Unimplemented),
            Some(state) => Ok(
                (recorded.with_scan(state, first_slot, recorded.steps()), state.requests),
            ),
        },
    }
}

/// What the linear scan knows at one point of its walk.
pub struct ScanState {
    /// Which real registers are in use.
    pub occupation: Seq<bool>,
    /// The location of each virtual register, as far as it has one.
    pub allocations: Seq<Option<VRegAlloc>>,
    /// The sizes of the stack slots asked for so far.
    pub requests: Seq<u8>,
}

/// The lowest index from `from` upwards that is not occupied.
pub open spec fn first_free(occupation: Seq<bool>, from: int) -> Option<int>
    decreases occupation.len() - from,
{
    if from < 0 || from >= occupation.len() {
        None
    } else if !occupation[from] {
        Some(from)
    } else {
        first_free(occupation, from + 1)
    }
}

impl<R> VRegAllocationView<R> {
    /// The location of the virtual register with the external ID `id`,
    /// if it has one.
    pub open spec fn location(self, id: u64) -> Option<VRegAlloc> {
        self.infos[self.ids[id] as int].allocation
    }

    /// The real registers in use behind step `step`, in the order in which
    /// they are handed out.
    pub open spec fn living(self, step: int) -> Seq<R> {
        living_among(
            self.registers,
            self.occupation[step],
            if self.occupation[step].len() < self.registers.len() {
                self.occupation[step].len() as int
            } else {
                self.registers.len() as int
            },
        )
    }

    /// The state in which the scan sets out: no real register in use, no
    /// slot asked for.
    pub open spec fn scan_start(self) -> ScanState {
        ScanState {
            occupation: Seq::new(self.registers.len(), |i: int| false),
            allocations: Seq::new(self.infos.len(), |idx: int| self.infos[idx].allocation),
            requests: Seq::empty(),
        }
    }

    /// The state behind the virtual register `idx` in step `step`, or
    /// `None` where a value needs a real register and none is free.
    ///
    /// A register that is born gets its location: a new stack slot for
    /// stack space, the constant itself for a constant, the first free
    /// real register for a value. A real register is free again once the
    /// virtual register that holds it dies. `first_slot` is the ID of the
    /// first new stack slot.
    pub open spec fn scan_cell(
        self,
        state: ScanState,
        first_slot: nat,
        step: int,
        idx: int,
    ) -> Option<ScanState> {
        match self.stages[step][idx] {
            VRegLifeStage::Born => match self.infos[idx].content_kind {
                VRegContentKind::StackSpace(size) => Some(
                    ScanState {
                        allocations: state.allocations.update(
                            idx,
                            Some(VRegAlloc::StackPtr((first_slot + state.requests.len()) as usize)),
                        ),
                        requests: state.requests.push(size),
                        ..state
                    },
                ),
                VRegContentKind::Normal => match first_free(state.occupation, 0) {
                    Some(register) => Some(
                        ScanState {
                            occupation: state.occupation.update(register, true),
                            allocations: state.allocations.update(
                                idx,
                                Some(VRegAlloc::RealReg(register as usize)),
                            ),
                            ..state
                        },
                    ),
                    None => None,
                },
                VRegContentKind::Const(bytes) => Some(
                    ScanState {
                        allocations: state.allocations.update(idx, Some(VRegAlloc::Const(bytes))),
                        ..state
                    },
                ),
            },
            VRegLifeStage::Dying => match state.allocations[idx] {
                Some(VRegAlloc::RealReg(register)) => Some(
                    ScanState {
                        occupation: state.occupation.update(register as int, false),
                        ..state
                    },
                ),
                _ => Some(state),
            },
            _ => Some(state),
        }
    }

    /// The state behind the first `count` virtual registers of step `step`.
    pub open spec fn scan_row(self, state: ScanState, first_slot: nat, step: int, count: int) -> Option<
        ScanState,
    >
        decreases count,
    {
        if count <= 0 {
            Some(state)
        } else {
            match self.scan_row(state, first_slot, step, count - 1) {
                None => None,
                Some(before) => self.scan_cell(before, first_slot, step, count - 1),
            }
        }
    }

    /// The state behind the first `count` steps.
    pub open spec fn scan_steps(self, first_slot: nat, count: int) -> Option<ScanState>
        decreases count,
    {
        if count <= 0 {
            Some(self.scan_start())
        } else {
            match self.scan_steps(first_slot, count - 1) {
                None => None,
                Some(before) => self.scan_row(
                    before,
                    first_slot,
                    count - 1,
                    self.stages[count - 1].len() as int,
                ),
            }
        }
    }

    /// The allocation with the locations that the scan has found so far
    /// and the occupation of the real registers behind each of the first
    /// `count` steps.
    pub open spec fn with_scan(self, state: ScanState, first_slot: nat, count: int) -> Self {
        VRegAllocationView {
            infos: Seq::new(
                self.infos.len(),
                |idx: int| VRegInfo { allocation: state.allocations[idx], ..self.infos[idx] },
            ),
            occupation: Seq::new(
                self.occupation.len(),
                |step: int|
                    if step < count {
                        match self.scan_steps(first_slot, step + 1) {
                            Some(behind) => behind.occupation,
                            None => self.occupation[step],
                        }
                    } else {
                        self.occupation[step]
                    },
            ),
            ..self
        }
    }

    /// The allocation after every virtual register has got its location,
    /// or `None` where real registers run out.
    pub open spec fn scanned(self, first_slot: nat) -> Option<Self> {
        match self.scan_steps(first_slot, self.steps()) {
            None => None,
            Some(state) => Some(self.with_scan(state, first_slot, self.steps())),
        }
    }
}

/// Number of definitions among the first `count` steps of `body`.
pub open spec fn count_defs(body: Seq<Instruction>, count: int) -> nat
    decreases count,
{
    if count <= 0 {
        0
    } else {
        count_defs(body, count - 1) + if body[count - 1] is DefReg {
            1nat
        } else {
            0nat
        }
    }
}

/// An empty allocation is well formed.
pub proof fn lemma_empty_wf<R>(registers: Seq<R>, step_count: nat, vreg_count: nat)
    requires
        registers.len() <= usize::MAX,
        step_count <= usize::MAX,
        vreg_count <= usize::MAX,
    ensures
        VRegAllocationView::empty(registers, step_count, vreg_count).wf(),
{
}

/// Defining a new virtual register keeps the allocation well formed.
pub proof fn lemma_with_vreg_wf<R>(view: VRegAllocationView<R>, id: u64, kind: VRegContentKind)
    requires
        view.wf(),
        !view.ids.contains_key(id),
        view.has_room(),
        view.infos.len() < usize::MAX,
    ensures
        view.with_vreg(id, kind).wf(),
        !view.with_vreg(id, kind).born(view.infos.len() as int),
{
    let after = view.with_vreg(id, kind);
    let fresh = view.infos.len() as int;
    assert forall|idx: int| 0 <= idx < after.infos.len() implies #[trigger] after.column_wf(
        idx,
    ) by {
        if idx < fresh {
            assert(view.column_wf(idx));
            assert(after.infos[idx] == view.infos[idx]);
        }
    }
    assert(after.ids_wf()) by {
        assert forall|other: u64| #[trigger] after.ids.contains_key(other) implies after.ids[other]
            < after.infos.len() && after.infos[after.ids[other] as int].external_id == other by {
            if other != id {
                assert(view.ids.contains_key(other));
            }
        }
        assert forall|idx: int| 0 <= idx < after.infos.len() implies after.ids.contains_key(
            #[trigger] after.infos[idx].external_id,
        ) && after.ids[after.infos[idx].external_id] == idx by {
            if idx < fresh {
                assert(after.infos[idx] == view.infos[idx]);
                assert(view.ids.contains_key(view.infos[idx].external_id));
            }
        }
    }
    assert forall|idx: int| 0 <= idx < after.infos.len() implies match (
    #[trigger] after.infos[idx]).allocation {
        Some(VRegAlloc::RealReg(register)) => register < after.registers.len(),
        _ => true,
    } by {
        if idx < fresh {
            assert(after.infos[idx] == view.infos[idx]);
        }
    }
}

/// Marking a virtual register alive that was not alive before keeps the
/// allocation well formed.
pub proof fn lemma_born_at_wf<R>(view: VRegAllocationView<R>, idx: int, step: usize)
    requires
        view.wf(),
        0 <= idx < view.infos.len(),
        !view.born(idx),
        0 <= step < view.steps(),
    ensures
        view.born_at(idx, step).wf(),
        view.born_at(idx, step).born(idx),
{
    let after = view.born_at(idx, step);
    assert(view.column_wf(idx));
    assert(view.stages[step as int].len() == view.width());
    assert(after.width() == view.width());
    assert forall|other: int| 0 <= other < after.infos.len() implies #[trigger] after.column_wf(
        other,
    ) by {
        assert(view.column_wf(other));
        if other != idx {
            assert(after.infos[other] == view.infos[other]);
            assert(view.stages[view.start(other)].len() == view.width() || !(0 <= view.start(other)
                < view.steps()));
        }
    }
    assert(after.ids_wf()) by {
        assert forall|id: u64| #[trigger] after.ids.contains_key(id) implies after.ids[id]
            < after.infos.len() && after.infos[after.ids[id] as int].external_id == id by {
            assert(view.ids.contains_key(id));
        }
        assert forall|other: int| 0 <= other < after.infos.len() implies after.ids.contains_key(
            #[trigger] after.infos[other].external_id,
        ) && after.ids[after.infos[other].external_id] == other by {
            assert(view.ids.contains_key(view.infos[other].external_id));
        }
    }
    assert forall|other: int| 0 <= other < after.infos.len() implies match (
    #[trigger] after.infos[other]).allocation {
        Some(VRegAlloc::RealReg(register)) => register < after.registers.len(),
        _ => true,
    } by {
        assert(after.infos[other].allocation == view.infos[other].allocation);
    }
}

/// Extending a lifetime keeps the allocation well formed. The lifetime
/// keeps its start, and its end does not move back.
pub proof fn lemma_extended_to_wf<R>(view: VRegAllocationView<R>, idx: int, end: usize)
    requires
        view.wf(),
        0 <= idx < view.infos.len(),
        view.extendable(idx, end as int),
    ensures
        view.extended_to(idx, end).wf(),
        view.extended_to(idx, end).born(idx),
        view.extended_to(idx, end).start(idx) == view.start(idx),
        view.extended_to(idx, end).end(idx) == end,
        view.end(idx) <= view.extended_to(idx, end).end(idx),
        view.extended_to(idx, end).start(idx) <= view.extended_to(idx, end).end(idx),
{
    let after = view.extended_to(idx, end);
    assert(view.column_wf(idx));
    assert(after.width() == view.width()) by {
        assert(view.stages[0].len() == view.width());
    }
    assert forall|s: int| 0 <= s < after.steps() implies (#[trigger] after.stages[s]).len()
        == after.width() by {
        assert(view.stages[s].len() == view.width());
    }
    assert forall|other: int| 0 <= other < after.infos.len() implies #[trigger] after.column_wf(
        other,
    ) by {
        assert(view.column_wf(other));
        if other != idx {
            assert(after.infos[other] == view.infos[other]);
            assert forall|s: int| 0 <= s < after.steps() implies after.stages[s][other]
                == view.stages[s][other] by {
                assert(view.stages[s].len() == view.width());
            }
        } else {
            assert forall|s: int| 0 <= s < after.steps() implies #[trigger] after.stages[s][idx]
                == stage_of(after.start(idx), after.end(idx), s) by {
                assert(view.stages[s].len() == view.width());
            }
        }
    }
    assert(after.ids_wf()) by {
        assert forall|id: u64| #[trigger] after.ids.contains_key(id) implies after.ids[id]
            < after.infos.len() && after.infos[after.ids[id] as int].external_id == id by {
            assert(view.ids.contains_key(id));
        }
        assert forall|other: int| 0 <= other < after.infos.len() implies after.ids.contains_key(
            #[trigger] after.infos[other].external_id,
        ) && after.ids[after.infos[other].external_id] == other by {
            assert(view.ids.contains_key(view.infos[other].external_id));
        }
    }
    assert forall|s: int, other: int|
        0 <= s < after.steps() && after.infos.len() <= other < after.width()
            implies #[trigger] after.stages[s][other] == VRegLifeStage::Dead by {
        assert(view.stages[s][other] == VRegLifeStage::Dead);
        assert(view.stages[s].len() == view.width());
    }
    assert forall|other: int| 0 <= other < after.infos.len() implies match (
    #[trigger] after.infos[other]).allocation {
        Some(VRegAlloc::RealReg(register)) => register < after.registers.len(),
        _ => true,
    } by {
        assert(after.infos[other].allocation == view.infos[other].allocation);
    }
}


/// Recording the references of two sequences one after the other is
/// recording those of their concatenation.
pub proof fn lemma_with_uses_append<R>(
    view: VRegAllocationView<R>,
    first: Seq<u64>,
    second: Seq<u64>,
    step: usize,
)
    ensures
        view.with_uses(first + second, step) == match view.with_uses(first, step) {
            Some(marked) => marked.with_uses(second, step),
            None => None,
        },
    decreases first.len(),
{
    if first.len() == 0 {
        assert(first + second =~= second);
    } else {
        let all = first + second;
        assert(all[0] == first[0]);
        assert(all.subrange(1, all.len() as int) =~= first.subrange(1, first.len() as int)
            + second);
        if view.ids.contains_key(first[0]) && view.extendable(
            view.ids[first[0]] as int,
            step as int,
        ) {
            lemma_with_uses_append(
                view.extended_to(view.ids[first[0]] as int, step),
                first.subrange(1, first.len() as int),
                second,
                step,
            );
        }
    }
}

/// Recording the reference to one virtual register is extending its lifetime.
pub proof fn lemma_with_uses_one<R>(view: VRegAllocationView<R>, id: u64, step: usize)
    ensures
        view.with_uses(seq![id], step) == if view.ids.contains_key(id) && view.extendable(
            view.ids[id] as int,
            step as int,
        ) {
            Some(view.extended_to(view.ids[id] as int, step))
        } else {
            None
        },
{
    let uses = seq![id];
    assert(uses.subrange(1, uses.len() as int) =~= Seq::<u64>::empty());
    assert(uses[0] == id);
    reveal_with_fuel(VRegAllocationView::with_uses, 2);
}

/// Once the references of the first arguments cannot be recorded, those
/// of more arguments cannot be recorded either.
pub proof fn lemma_with_uses_fails_later<R>(
    view: VRegAllocationView<R>,
    instructions: Seq<Instruction>,
    count: int,
    more: int,
    step: usize,
)
    requires
        0 <= count <= more <= instructions.len(),
        view.with_uses(Instruction::uses_of_first(instructions, count), step) is None,
    ensures
        view.with_uses(Instruction::uses_of_first(instructions, more), step) is None,
    decreases more - count,
{
    if count < more {
        lemma_with_uses_fails_later(view, instructions, count, more - 1, step);
        lemma_with_uses_append(
            view,
            Instruction::uses_of_first(instructions, more - 1),
            instructions[more - 1].uses(),
            step,
        );
    }
}

/// Recording references keeps the allocation well formed and its number
/// of steps.
pub proof fn lemma_with_uses_wf<R>(view: VRegAllocationView<R>, uses: Seq<u64>, step: usize)
    requires
        view.wf(),
    ensures
        view.with_uses(uses, step) matches Some(marked) ==> marked.wf() && marked.steps()
            == view.steps() && marked.calls == view.calls,
    decreases uses.len(),
{
    if uses.len() > 0 && view.ids.contains_key(uses[0]) && view.extendable(
        view.ids[uses[0]] as int,
        step as int,
    ) {
        lemma_extended_to_wf(view, view.ids[uses[0]] as int, step);
        lemma_with_uses_wf(
            view.extended_to(view.ids[uses[0]] as int, step),
            uses.subrange(1, uses.len() as int),
            step,
        );
    }
}

/// Marking a step as a call keeps the allocation well formed.
pub proof fn lemma_with_call_wf<R>(view: VRegAllocationView<R>, step: usize)
    requires
        view.wf(),
        step < view.steps(),
    ensures
        view.with_call(step).wf(),
{
    let after = view.with_call(step);
    assert forall|idx: int| 0 <= idx < after.infos.len() implies #[trigger] after.column_wf(
        idx,
    ) by {
        assert(view.column_wf(idx));
    }
}

/// The state of a scan fits the allocation it walks over.
pub open spec fn scan_state_wf<R>(view: VRegAllocationView<R>, state: ScanState) -> bool {
    &&& state.occupation.len() == view.registers.len()
    &&& state.allocations.len() == view.infos.len()
    &&& forall|idx: int|
        0 <= idx < state.allocations.len() ==> match #[trigger] state.allocations[idx] {
            Some(VRegAlloc::RealReg(register)) => register < view.registers.len(),
            _ => true,
        }
}

/// What the first free index is: it is free, and everything from `from`
/// up to it is occupied.
pub proof fn lemma_first_free(occupation: Seq<bool>, from: int)
    requires
        0 <= from,
    ensures
        match first_free(occupation, from) {
            Some(index) => {
                &&& from <= index < occupation.len()
                &&& !occupation[index]
                &&& forall|i: int| from <= i < index ==> occupation[i]
            },
            None => forall|i: int| from <= i < occupation.len() ==> occupation[i],
        },
    decreases occupation.len() - from,
{
    if from < occupation.len() && occupation[from] {
        lemma_first_free(occupation, from + 1);
    }
}

/// One move of the scan keeps its state fitting.
pub proof fn lemma_scan_cell_wf<R>(
    view: VRegAllocationView<R>,
    state: ScanState,
    first_slot: nat,
    step: int,
    idx: int,
)
    requires
        view.wf(),
        scan_state_wf(view, state),
        0 <= step < view.steps(),
        0 <= idx < view.width(),
    ensures
        view.scan_cell(state, first_slot, step, idx) matches Some(after) ==> scan_state_wf(
            view,
            after,
        ),
        view.stages[step][idx] != VRegLifeStage::Dead ==> idx < view.infos.len(),
{
    lemma_first_free(state.occupation, 0);
}

/// The scan keeps its state fitting along a row.
pub proof fn lemma_scan_row_wf<R>(
    view: VRegAllocationView<R>,
    state: ScanState,
    first_slot: nat,
    step: int,
    count: int,
)
    requires
        view.wf(),
        scan_state_wf(view, state),
        0 <= step < view.steps(),
        0 <= count <= view.width(),
    ensures
        view.scan_row(state, first_slot, step, count) matches Some(after) ==> scan_state_wf(
            view,
            after,
        ),
    decreases count,
{
    if count > 0 {
        lemma_scan_row_wf(view, state, first_slot, step, count - 1);
        match view.scan_row(state, first_slot, step, count - 1) {
            Some(before) => {
                lemma_scan_cell_wf(view, before, first_slot, step, count - 1);
            },
            None => {},
        }
    }
}

/// The scan keeps its state fitting from step to step.
pub proof fn lemma_scan_steps_wf<R>(view: VRegAllocationView<R>, first_slot: nat, count: int)
    requires
        view.wf(),
        0 <= count <= view.steps(),
    ensures
        view.scan_steps(first_slot, count) matches Some(after) ==> scan_state_wf(view, after),
    decreases count,
{
    if count > 0 {
        lemma_scan_steps_wf(view, first_slot, count - 1);
        match view.scan_steps(first_slot, count - 1) {
            Some(before) => {
                assert(view.stages[count - 1].len() == view.width());
                lemma_scan_row_wf(view, before, first_slot, count - 1, view.width());
            },
            None => {},
        }
    }
}

/// An allocation stays well formed when the scan writes into it what it
/// has found.
pub proof fn lemma_with_scan_wf<R>(
    view: VRegAllocationView<R>,
    state: ScanState,
    first_slot: nat,
    count: int,
)
    requires
        view.wf(),
        scan_state_wf(view, state),
    ensures
        view.with_scan(state, first_slot, count).wf(),
{
    let after = view.with_scan(state, first_slot, count);
    assert forall|idx: int| 0 <= idx < after.infos.len() implies #[trigger] after.column_wf(
        idx,
    ) by {
        assert(view.column_wf(idx));
    }
    assert(after.ids_wf()) by {
        assert forall|id: u64| #[trigger] after.ids.contains_key(id) implies after.ids[id]
            < after.infos.len() && after.infos[after.ids[id] as int].external_id == id by {
            assert(view.ids.contains_key(id));
        }
        assert forall|other: int| 0 <= other < after.infos.len() implies after.ids.contains_key(
            #[trigger] after.infos[other].external_id,
        ) && after.ids[after.infos[other].external_id] == other by {
            assert(view.ids.contains_key(view.infos[other].external_id));
        }
    }
    assert forall|idx: int| 0 <= idx < after.infos.len() implies match (
    #[trigger] after.infos[idx]).allocation {
        Some(VRegAlloc::RealReg(register)) => register < after.registers.len(),
        _ => true,
    } by {
        assert(after.infos[idx].allocation == state.allocations[idx]);
    }
}

/// Once real registers have run out, the scan does not recover.
pub proof fn lemma_scan_fails_later<R>(
    view: VRegAllocationView<R>,
    first_slot: nat,
    row_start: ScanState,
    step: int,
    count: int,
)
    requires
        0 <= step < view.steps(),
        0 <= count <= view.stages[step].len(),
        view.scan_steps(first_slot, step) == Some(row_start),
        view.scan_row(row_start, first_slot, step, count) is None,
    ensures
        view.scan_steps(first_slot, view.steps()) is None,
{
    lemma_scan_row_fails_later(view, first_slot, row_start, step, count, view.stages[step].len() as int);
    lemma_scan_steps_fail_later(view, first_slot, step + 1, view.steps());
}

proof fn lemma_scan_row_fails_later<R>(
    view: VRegAllocationView<R>,
    first_slot: nat,
    row_start: ScanState,
    step: int,
    count: int,
    more: int,
)
    requires
        0 <= count <= more,
        view.scan_row(row_start, first_slot, step, count) is None,
    ensures
        view.scan_row(row_start, first_slot, step, more) is None,
    decreases more - count,
{
    if count < more {
        lemma_scan_row_fails_later(view, first_slot, row_start, step, count, more - 1);
    }
}

proof fn lemma_scan_steps_fail_later<R>(
    view: VRegAllocationView<R>,
    first_slot: nat,
    count: int,
    more: int,
)
    requires
        0 <= count <= more,
        view.scan_steps(first_slot, count) is None,
    ensures
        view.scan_steps(first_slot, more) is None,
    decreases more - count,
{
    if count < more {
        lemma_scan_steps_fail_later(view, first_slot, count, more - 1);
    }
}

/// Once a step cannot be recorded, the error stays.
pub proof fn lemma_with_steps_fail_later<R>(
    view: VRegAllocationView<R>,
    body: Seq<Instruction>,
    count: int,
    more: int,
)
    requires
        0 <= count <= more,
        view.with_steps(body, count) is Err,
    ensures
        view.with_steps(body, more) == view.with_steps(body, count),
    decreases more - count,
{
    if count < more {
        lemma_with_steps_fail_later(view, body, count, more - 1);
    }
}

/// There are no more definitions than steps.
pub proof fn lemma_count_defs_bound(body: Seq<Instruction>, count: int)
    requires
        0 <= count,
    ensures
        count_defs(body, count) <= count,
    decreases count,
{
    if count > 0 {
        lemma_count_defs_bound(body, count - 1);
    }
}

} // verus!
