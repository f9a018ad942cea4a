//! Live ranges of virtual registers and their assignment to locations.
//!
//! A function body is a straight line of steps. Every virtual register is
//! defined in one step and lives until the last step that refers to it. The
//! allocation keeps, for every step, the life stage of every virtual
//! register, and hands each of them a location in the step it is born in.
use std::collections::HashMap;
use std::ops::Range;
use vstd::prelude::*;
use vstd::string::StringExecFns;
use crate::error::CodegenError;
use crate::generation::bytes::{be_bytes, be_bytes_signed, be_value};
use crate::generation::stack_alloc::StackAllocator;
use crate::generation::str_fmt::decimal;
use crate::generation::vreg_text::{
    spec_ids_text, spec_info_text, spec_infos_text, spec_lifetime_map_text, spec_occupation_text,
    spec_reg_infos_text, spec_registers_text, spec_row_text, spec_rows_text, spec_stages_text,
};
use crate::generation::vreg_model::{
    lemma_born_at_wf, lemma_empty_wf, lemma_extended_to_wf, lemma_first_free, lemma_scan_cell_wf,
    lemma_scan_fails_later, lemma_with_call_wf, lemma_with_scan_wf, lemma_with_steps_fail_later,
    lemma_with_uses_append, lemma_with_uses_fails_later, lemma_with_uses_one, lemma_with_uses_wf,
    lemma_with_vreg_wf,
};
pub use crate::generation::vreg_model::{
    analysis, count_defs, first_free, generated, living_among, scan_state_wf, stage_of, ScanState,
    VRegAllocationView,
};
use crate::ir::Instruction;

verus! {

/// The physical registers of a target.
pub trait Register: Sized + Copy + Eq + std::fmt::Debug {
    /// The registers a callee may overwrite, in the order they are handed out.
    spec fn spec_caller_saved() -> Seq<Self>;

    /// The registers a callee must preserve.
    spec fn spec_callee_saved() -> Seq<Self>;

    /// The registers a callee may overwrite, in the order they are handed out.
    fn caller_saved() -> (registers: Vec<Self>)
        ensures
            registers@ == Self::spec_caller_saved(),
    ;

    /// The registers a callee must preserve.
    fn callee_saved() -> (registers: Vec<Self>)
        ensures
            registers@ == Self::spec_callee_saved(),
    ;

    /// The name of the register in assembly text.
    spec fn spec_name(self) -> Seq<char>;

    /// The name of the register in assembly text.
    fn name(&self) -> (name: String)
        ensures
            name@ == self.spec_name(),
    ;
}

/// The type of content inside the VReg: a pointer to a stack space, a
/// value, or a constant known at compile time.
#[derive(Debug, Clone, Copy, PartialEq, Eq)]
pub enum VRegContentKind {
    /// A slot on the stack for a value of that many bytes.
    StackSpace(u8),
    Normal,
    /// The bytes of the constant, most significant first.
    Const([u8; 8]),
}

/// Where the content of a VReg really is.
#[derive(Debug, Clone, Copy, PartialEq, Eq)]
pub enum VRegAlloc {
    /// A real register, by its index among the registers handed out.
    RealReg(usize),
    /// A slot on the stack, by its ID.
    StackPtr(usize),
    /// The constant itself, most significant byte first.
    Const([u8; 8]),
}

/// What is known of one virtual register.
#[derive(Debug, PartialEq, Eq)]
pub struct VRegInfo {
    /// The ID that the instructions use for the VReg.
    pub external_id: u64,
    /// The type of content inside the VReg.
    pub content_kind: VRegContentKind,
    /// The first and last appearance of the VReg.
    pub lifetime: Range<usize>,
    /// The location of the VReg, once it has one.
    pub allocation: Option<VRegAlloc>,
}

impl Clone for VRegInfo {
    fn clone(&self) -> (copy: Self)
        ensures
            copy == *self,
    {
        Self {
            external_id: self.external_id,
            content_kind: self.content_kind,
            lifetime: self.lifetime.start..self.lifetime.end,
            allocation: self.allocation,
        }
    }
}

impl Default for VRegInfo {
    fn default() -> (info: Self)
        ensures
            info.external_id == 0,
            info.content_kind == VRegContentKind::Normal,
            info.lifetime.start == 0,
            info.lifetime.end == 0,
            info.allocation is None,
    {
        Self {
            external_id: 0,
            content_kind: VRegContentKind::Normal,
            lifetime: 0..0,
            allocation: None,
        }
    }
}

impl VRegAlloc {
    /// Returns the index of the real register, if the location is one.
    pub fn as_real_reg(&self) -> (register: Option<usize>)
        ensures
            register == match *self {
                VRegAlloc::RealReg(index) => Some(index),
                _ => None,
            },
    {
        if let Self::RealReg(v) = self {
            Some(*v)
        } else {
            None
        }
    }

    /// Returns the stack-space ID of the register.
    pub fn as_stack_ptr(&self) -> (slot: Option<usize>)
        ensures
            slot == match *self {
                VRegAlloc::StackPtr(id) => Some(id),
                _ => None,
            },
    {
        if let Self::StackPtr(v) = self {
            Some(*v)
        } else {
            None
        }
    }

    /// Returns the bytes of the constant, if the location is one.
    pub fn as_const(&self) -> (bytes: Option<[u8; 8]>)
        ensures
            bytes == match *self {
                VRegAlloc::Const(bytes) => Some(bytes),
                _ => None,
            },
    {
        if let Self::Const(v) = self {
            Some(*v)
        } else {
            None
        }
    }
}

/// State of a virtual register's life at one single step.
#[derive(Debug, Clone, Copy, PartialEq, Eq, Structural)]
pub enum VRegLifeStage {
    Born,
    Live,
    Dying,
    Dead,
}

impl Default for VRegLifeStage {
    fn default() -> (stage: Self)
        ensures
            stage == VRegLifeStage::Dead,
    {
        Self::Dead
    }
}

impl VRegLifeStage {
    /// Whether the register holds a value in this step.
    pub fn is_living(self) -> (living: bool)
        ensures
            living == (self != VRegLifeStage::Dead),
    {
        match self {
            VRegLifeStage::Dead => false,
            _ => true,
        }
    }
}

/// Current status of all the registers in one specific step: a row of the
/// register lifetime map.
#[derive(Debug, Clone)]
struct RegStatus {
    /// Life stages of the VRegs, ordered by their internal ID.
    life_stages: Vec<VRegLifeStage>,
    /// Whether or not this step is a function call.
    has_fn_call: bool,
    /// Which real register is occupied, ordered by their internal ID.
    reg_occupation: Vec<bool>,
}

impl RegStatus {
    fn empty(vreg_count: usize) -> (row: Self)
        ensures
            row.life_stages@ == Seq::new(vreg_count as nat, |i: int| VRegLifeStage::Dead),
            !row.has_fn_call,
            row.reg_occupation@ == Seq::<bool>::empty(),
    {
        let mut life_stages: Vec<VRegLifeStage> = Vec::new();
        let mut i: usize = 0;
        while i < vreg_count
            invariant
                i <= vreg_count,
                life_stages@ == Seq::new(i as nat, |i: int| VRegLifeStage::Dead),
            decreases vreg_count - i,
        {
            life_stages.push(VRegLifeStage::Dead);
            i += 1;
            assert(life_stages@ =~= Seq::new(i as nat, |i: int| VRegLifeStage::Dead));
        }
        Self { life_stages, has_fn_call: false, reg_occupation: Vec::new() }
    }
}

/// The lifetime map of one function body together with the locations of
/// its virtual registers.
#[derive(Debug, Clone)]
pub struct VRegAllocation<R> where R: Register {
    /// Internal IDs for real registers: index is internal ID, item is the
    /// register.
    reg_ids: Vec<R>,
    /// Internal IDs for virtual registers.
    vreg_ids: HashMap<u64, usize>,
    /// Information of all of the virtual registers used, ordered by
    /// internal ID.
    vreg_infos: Vec<VRegInfo>,
    /// The status of every VReg and real register in every step of one
    /// block.
    step_map: Vec<RegStatus>,
}

impl<R> View for VRegAllocation<R> where R: Register {
    type V = VRegAllocationView<R>;

    closed spec fn view(&self) -> VRegAllocationView<R> {
        VRegAllocationView {
            registers: self.reg_ids@,
            ids: self.vreg_ids@,
            infos: self.vreg_infos@,
            stages: Seq::new(self.step_map@.len(), |s: int| self.step_map@[s].life_stages@),
            calls: Seq::new(self.step_map@.len(), |s: int| self.step_map@[s].has_fn_call),
            occupation: Seq::new(
                self.step_map@.len(),
                |s: int| self.step_map@[s].reg_occupation@,
            ),
        }
    }
}

impl<R> VRegAllocation<R> where R: Register {
    /// Create a new empty allocation with the given size.
    pub fn empty(step_count: usize, vreg_count: usize) -> (allocation: Self)
        ensures
            allocation@ == VRegAllocationView::empty(
                R::spec_caller_saved(),
                step_count as nat,
                vreg_count as nat,
            ),
            allocation@.wf(),
    {
        let regs = R::caller_saved();
        let mut step_map: Vec<RegStatus> = Vec::new();
        let mut s: usize = 0;
        while s < step_count
            invariant
                s <= step_count,
                step_map@.len() == s,
                forall|t: int|
                    0 <= t < s ==> (#[trigger] step_map@[t]).life_stages@ == Seq::new(
                        vreg_count as nat,
                        |i: int| VRegLifeStage::Dead,
                    ) && !step_map@[t].has_fn_call && step_map@[t].reg_occupation@ == Seq::<
                        bool,
                    >::empty(),
            decreases step_count - s,
        {
            step_map.push(RegStatus::empty(vreg_count));
            s += 1;
        }
        let allocation = Self {
            reg_ids: regs,
            vreg_ids: HashMap::with_capacity(vreg_count),
            vreg_infos: Vec::with_capacity(vreg_count),
            step_map,
        };
        proof {
            let expected = VRegAllocationView::empty(
                R::spec_caller_saved(),
                step_count as nat,
                vreg_count as nat,
            );
            assert(allocation@.stages =~= expected.stages);
            assert(allocation@.calls =~= expected.calls);
            assert(allocation@.occupation =~= expected.occupation);
            assert(allocation@.infos =~= expected.infos);
            assert(allocation.reg_ids@.len() == allocation.reg_ids.len());
            lemma_empty_wf(R::spec_caller_saved(), step_count as nat, vreg_count as nat);
        }
        allocation
    }

    /// Add a new virtual register. It is not alive in any step yet.
    pub fn add_vreg(&mut self, name: u64, kind: VRegContentKind) -> (result: Result<
        (),
        CodegenError,
    >)
        requires
            old(self)@.wf(),
        ensures
            final(self)@.wf(),
            final(self)@.steps() == old(self)@.steps(),
            match result {
                Ok(()) => {
                    &&& !old(self)@.ids.contains_key(name)
                    &&& old(self)@.has_room()
                    &&& final(self)@ == old(self)@.with_vreg(name, kind)
                    &&& !final(self)@.born(old(self)@.infos.len() as int)
                    &&& old(self)@.infos.len() < usize::MAX
                },
                Err(error) => {
                    &&& final(self)@ == old(self)@
                    &&& old(self)@.ids.contains_key(name) || !old(self)@.has_room()
                    &&& error == if old(self)@.ids.contains_key(name) {
                        CodegenError::MalformedIr
                    } else {
                        CodegenError::ResourceExhausted
                    }
                },
            },
    {
        if self.vreg_ids.contains_key(&name) {
            return Err(CodegenError::MalformedIr);
        }
        let internal_id: usize = self.vreg_infos.len();
        if self.step_map.len() != 0 && internal_id >= self.step_map[0].life_stages.len() {
            return Err(CodegenError::ResourceExhausted);
        }
        self.vreg_ids.insert(name, internal_id);
        self.vreg_infos.push(
            VRegInfo { external_id: name, content_kind: kind, lifetime: 0..0, allocation: None },
        );
        proof {
            assert(self.vreg_infos@.len() == self.vreg_infos.len());
            lemma_with_vreg_wf(old(self)@, name, kind);
            let expected = old(self)@.with_vreg(name, kind);
            assert(self@.stages =~= expected.stages);
            assert(self@.calls =~= expected.calls);
            assert(self@.occupation =~= expected.occupation);
        }
        Ok(())
    }

    /// The internal index of the virtual register with the external ID `id`.
    fn index_of(&self, id: u64) -> (index: Option<usize>)
        requires
            self@.wf(),
        ensures
            match index {
                Some(index) => self@.ids.contains_key(id) && self@.ids[id] == index && index
                    < self@.infos.len(),
                None => !self@.ids.contains_key(id),
            },
    {
        match self.vreg_ids.get(&id) {
            Some(index) => Some(*index),
            None => None,
        }
    }

    /// Whether the virtual register with the internal index `index` has
    /// been marked alive.
    fn is_born(&self, index: usize) -> (born: bool)
        requires
            self@.wf(),
            index < self@.infos.len(),
        ensures
            born == self@.born(index as int),
    {
        let start: usize = self.vreg_infos[index].lifetime.start;
        if start >= self.step_map.len() {
            return false;
        }
        assert(self@.stages[start as int].len() == self@.width());
        match self.step_map[start].life_stages[index] {
            VRegLifeStage::Born => true,
            _ => false,
        }
    }

    /// Mark a virtual register alive at `step`: it is born there.
    /// `id` is the external ID.
    pub fn mark_alive(&mut self, id: u64, step: usize) -> (result: Result<(), CodegenError>)
        requires
            old(self)@.wf(),
        ensures
            final(self)@.wf(),
            final(self)@.steps() == old(self)@.steps(),
            match result {
                Ok(()) => {
                    &&& old(self)@.ids.contains_key(id)
                    &&& step < old(self)@.steps()
                    &&& !old(self)@.born(old(self)@.ids[id] as int)
                    &&& final(self)@ == old(self)@.born_at(old(self)@.ids[id] as int, step)
                },
                Err(error) => {
                    &&& error == CodegenError::MalformedIr
                    &&& final(self)@ == old(self)@
                    &&& !old(self)@.ids.contains_key(id) || step >= old(self)@.steps()
                        || old(self)@.born(old(self)@.ids[id] as int)
                },
            },
    {
        let internal_id: usize = match self.index_of(id) {
            Some(index) => index,
            None => {
                return Err(CodegenError::MalformedIr);
            },
        };
        if step >= self.step_map.len() || self.is_born(internal_id) {
            return Err(CodegenError::MalformedIr);
        }
        proof {
            lemma_born_at_wf(self@, internal_id as int, step);
            assert(self@.stages[step as int].len() == self@.width());
        }
        self.vreg_infos[internal_id].lifetime = step..step;
        self.step_map[step].life_stages[internal_id] = VRegLifeStage::Born;
        proof {
            let expected = old(self)@.born_at(internal_id as int, step);
            assert(self@.infos =~= expected.infos);
            assert(self@.stages =~= expected.stages);
            assert(self@.calls =~= expected.calls);
            assert(self@.occupation =~= expected.occupation);
        }
        Ok(())
    }

    /// Extend the lifetime of a virtual register to `end`: it lives in
    /// every step up to `end` and dies there. The start of the lifetime
    /// does not change.
    pub fn mark_alive_until(&mut self, id: u64, end: usize) -> (result: Result<(), CodegenError>)
        requires
            old(self)@.wf(),
        ensures
            final(self)@.wf(),
            final(self)@.steps() == old(self)@.steps(),
            final(self)@.infos.len() == old(self)@.infos.len(),
            forall|idx: int|
                0 <= idx < old(self)@.infos.len() ==> {
                    &&& #[trigger] final(self)@.start(idx) == old(self)@.start(idx)
                    &&& old(self)@.end(idx) <= final(self)@.end(idx)
                    &&& final(self)@.start(idx) <= final(self)@.end(idx)
                },
            match result {
                Ok(()) => {
                    &&& old(self)@.ids.contains_key(id)
                    &&& old(self)@.extendable(old(self)@.ids[id] as int, end as int)
                    &&& final(self)@ == old(self)@.extended_to(old(self)@.ids[id] as int, end)
                },
                Err(error) => {
                    &&& error == CodegenError::MalformedIr
                    &&& final(self)@ == old(self)@
                    &&& !old(self)@.ids.contains_key(id) || !old(self)@.extendable(
                        old(self)@.ids[id] as int,
                        end as int,
                    )
                },
            },
    {
        proof {
            assert forall|idx: int| 0 <= idx < self@.infos.len() implies #[trigger] self@.start(
                idx,
            ) <= self@.end(idx) by {
                assert(self@.column_wf(idx));
            }
        }
        let internal_id: usize = match self.index_of(id) {
            Some(index) => index,
            None => {
                return Err(CodegenError::MalformedIr);
            },
        };
        if !self.is_born(internal_id) || end >= self.step_map.len() {
            return Err(CodegenError::MalformedIr);
        }
        let start: usize = self.vreg_infos[internal_id].lifetime.start;
        let last: usize = self.vreg_infos[internal_id].lifetime.end;
        if start >= end || last > end {
            return Err(CodegenError::MalformedIr);
        }
        proof {
            lemma_extended_to_wf(self@, internal_id as int, end);
            assert(self@.column_wf(internal_id as int));
            let extended = self@.extended_to(internal_id as int, end);
            assert forall|idx: int| 0 <= idx < self@.infos.len() implies #[trigger] extended.start(
                idx,
            ) == self@.start(idx) && self@.end(idx) <= extended.end(idx) && extended.start(idx)
                <= extended.end(idx) by {
                assert(self@.column_wf(idx));
            }
        }
        let start_index: usize = if start == last {
            last + 1
        } else {
            last
        };
        let ghost before = self@;
        let mut s: usize = start_index;
        while s < end
            invariant
                start_index <= s,
                s <= end || end < start_index,
                end < self.step_map@.len(),
                internal_id < before.width(),
                before.wf(),
                before == old(self)@,
                self@.registers == before.registers,
                self@.ids == before.ids,
                self@.infos == before.infos,
                self@.calls == before.calls,
                self@.occupation == before.occupation,
                self@.stages.len() == before.stages.len(),
                forall|t: int|
                    0 <= t < before.stages.len() ==> #[trigger] self@.stages[t] == if start_index
                        <= t < s {
                        before.stages[t].update(internal_id as int, VRegLifeStage::Live)
                    } else {
                        before.stages[t]
                    },
            decreases end - s,
        {
            let ghost previous = self@;
            assert(previous.stages[s as int] == before.stages[s as int]);
            assert(before.stages[s as int].len() == before.width());
            self.step_map[s].life_stages[internal_id] = VRegLifeStage::Live;
            proof {
                assert(self@.stages =~= previous.stages.update(
                    s as int,
                    previous.stages[s as int].update(internal_id as int, VRegLifeStage::Live),
                ));
                assert(self@.calls =~= previous.calls);
                assert(self@.occupation =~= previous.occupation);
                assert forall|t: int| 0 <= t < before.stages.len() implies #[trigger] self@.stages[t]
                    == if start_index <= t < s + 1 {
                    before.stages[t].update(internal_id as int, VRegLifeStage::Live)
                } else {
                    before.stages[t]
                } by {
                    assert(previous.stages[t] == if start_index <= t < s {
                        before.stages[t].update(internal_id as int, VRegLifeStage::Live)
                    } else {
                        before.stages[t]
                    });
                }
            }
            s += 1;
        }
        let ghost previous = self@;
        proof {
            assert(previous.stages[end as int] == before.stages[end as int]);
            assert(before.stages[end as int].len() == before.width());
        }
        self.step_map[end].life_stages[internal_id] = VRegLifeStage::Dying;
        self.vreg_infos[internal_id].lifetime.end = end;
        proof {
            let expected = before.extended_to(internal_id as int, end);
            assert(self@.stages =~= previous.stages.update(
                end as int,
                previous.stages[end as int].update(internal_id as int, VRegLifeStage::Dying),
            ));
            assert(self@.stages =~= expected.stages);
            assert(self@.infos =~= expected.infos);
            assert(self@.calls =~= expected.calls);
            assert(self@.occupation =~= expected.occupation);
        }
        Ok(())
    }

    /// Extend the lifetime of every virtual register that `instruction`
    /// refers to to `step`.
    fn mark_uses(&mut self, instruction: &Instruction, step: usize) -> (result: Result<
        (),
        CodegenError,
    >)
        requires
            old(self)@.wf(),
        ensures
            final(self)@.wf(),
            final(self)@.steps() == old(self)@.steps(),
            match result {
                Ok(()) => old(self)@.with_uses(instruction.uses(), step) == Some(final(self)@),
                Err(error) => error == CodegenError::MalformedIr && old(self)@.with_uses(
                    instruction.uses(),
                    step,
                ) is None,
            },
        decreases instruction,
    {
        match instruction {
            Instruction::Reg(_, id) | Instruction::Load { id, .. } => {
                proof {
                    lemma_with_uses_one(self@, *id, step);
                }
                self.mark_alive_until(*id, step)
            },
            Instruction::Add(_, lhs, rhs)
            | Instruction::Sub(_, lhs, rhs)
            | Instruction::Mul(_, lhs, rhs)
            | Instruction::Div(_, lhs, rhs) => {
                proof {
                    lemma_with_uses_append(self@, lhs.uses(), rhs.uses(), step);
                }
                match self.mark_uses(lhs, step) {
                    Err(error) => Err(error),
                    Ok(()) => self.mark_uses(rhs, step),
                }
            },
            Instruction::DefReg { rhs, .. } => self.mark_uses(rhs, step),
            Instruction::Store { id, rhs, .. } => {
                proof {
                    lemma_with_uses_append(self@, seq![*id], rhs.uses(), step);
                    lemma_with_uses_one(self@, *id, step);
                }
                match self.mark_alive_until(*id, step) {
                    Err(error) => Err(error),
                    Ok(()) => self.mark_uses(rhs, step),
                }
            },
            Instruction::Ret(Some(value)) => self.mark_uses(value, step),
            Instruction::Call { args, .. } => {
                let mut i: usize = 0;
                while i < args.len()
                    invariant
                        i <= args@.len(),
                        self@.wf(),
                        self@.steps() == old(self)@.steps(),
                        old(self)@.with_uses(Instruction::uses_of_first(args@, i as int), step)
                            == Some(self@),
                        *instruction is Call,
                        instruction->Call_args == *args,
                    decreases args@.len() - i,
                {
                    proof {
                        lemma_with_uses_append(
                            old(self)@,
                            Instruction::uses_of_first(args@, i as int),
                            args@[i as int].uses(),
                            step,
                        );
                    }
                    match self.mark_uses(&args[i], step) {
                        Err(error) => {
                            proof {
                                lemma_with_uses_fails_later(
                                    old(self)@,
                                    args@,
                                    i as int + 1,
                                    args@.len() as int,
                                    step,
                                );
                            }
                            return Err(error);
                        },
                        Ok(()) => {},
                    }
                    i += 1;
                }
                Ok(())
            },
            _ => Ok(()),
        }
    }

    /// The content kind of a virtual register defined as `rhs`.
    fn kind_of(&self, rhs: &Instruction) -> (kind: Option<VRegContentKind>)
        requires
            self@.wf(),
        ensures
            kind == self@.kind_for(*rhs),
    {
        match rhs {
            Instruction::Alloc(dtype) => Some(VRegContentKind::StackSpace(dtype.size(8))),
            Instruction::Reg(_, id) => match self.index_of(*id) {
                Some(index) => Some(
                    match self.vreg_infos[index].content_kind {
                        VRegContentKind::StackSpace(_) => VRegContentKind::Normal,
                        kind => kind,
                    },
                ),
                None => None,
            },
            Instruction::UInt(_, value) => Some(VRegContentKind::Const(be_bytes(*value))),
            Instruction::Int(_, value) => Some(VRegContentKind::Const(be_bytes_signed(*value))),
            Instruction::Float(_, bits) => Some(VRegContentKind::Const(be_bytes(*bits))),
            _ => Some(VRegContentKind::Normal),
        }
    }

    /// Record the references and the calls of `instruction` in step `step`.
    fn record_references(&mut self, instruction: &Instruction, step: usize) -> (result: Result<
        (),
        CodegenError,
    >)
        requires
            old(self)@.wf(),
            step < old(self)@.steps(),
        ensures
            final(self)@.wf(),
            final(self)@.steps() == old(self)@.steps(),
            match result {
                Ok(()) => old(self)@.with_references(*instruction, step) == Ok::<
                    _,
                    CodegenError,
                >(final(self)@),
                Err(error) => old(self)@.with_references(*instruction, step) == Err::<
                    VRegAllocationView<R>,
                    _,
                >(error),
            },
    {
        proof {
            lemma_with_uses_wf(self@, instruction.uses(), step);
        }
        match self.mark_uses(instruction, step) {
            Err(error) => Err(error),
            Ok(()) => {
                if instruction.contains_call() {
                    let ghost marked = self@;
                    self.step_map[step].has_fn_call = true;
                    proof {
                        let expected = marked.with_call(step);
                        assert(self@.stages =~= expected.stages);
                        assert(self@.calls =~= expected.calls);
                        assert(self@.occupation =~= expected.occupation);
                        lemma_with_call_wf(marked, step);
                    }
                }
                Ok(())
            },
        }
    }

    /// Record step `step` of a body.
    fn record_step(&mut self, instruction: &Instruction, step: usize) -> (result: Result<
        (),
        CodegenError,
    >)
        requires
            old(self)@.wf(),
            step < old(self)@.steps(),
        ensures
            final(self)@.wf(),
            final(self)@.steps() == old(self)@.steps(),
            match result {
                Ok(()) => old(self)@.with_step(*instruction, step) == Ok::<_, CodegenError>(
                    final(self)@,
                ),
                Err(error) => old(self)@.with_step(*instruction, step) == Err::<
                    VRegAllocationView<R>,
                    _,
                >(error),
            },
    {
        match instruction {
            Instruction::DefReg { id, rhs } => {
                let kind = match self.kind_of(rhs) {
                    Some(kind) => kind,
                    None => {
                        return Err(CodegenError::MalformedIr);
                    },
                };
                match self.add_vreg(*id, kind) {
                    Err(error) => {
                        return Err(error);
                    },
                    Ok(()) => {},
                }
                match self.mark_alive(*id, step) {
                    Err(error) => {
                        return Err(error);
                    },
                    Ok(()) => {},
                }
                self.record_references(instruction, step)
            },
            Instruction::Store { .. }
            | Instruction::Ret(_)
            | Instruction::Add(_, _, _)
            | Instruction::Sub(_, _, _)
            | Instruction::Mul(_, _, _)
            | Instruction::Div(_, _, _)
            | Instruction::Call { .. }
            | Instruction::Label(_) => self.record_references(instruction, step),
            _ => Err(CodegenError::MalformedIr),
        }
    }

    /// Allocate real registers or stack space for all the virtual
    /// registers.
    ///
    /// Walks the steps in order and, in each step, the virtual registers
    /// in the order of their definition. A virtual register gets its
    /// location where it is born and gives its real register back where it
    /// dies. Behind each step the occupation of the real registers is
    /// recorded.
    pub fn alloc_regs(&mut self, stack_allocator: &mut StackAllocator) -> (result: Result<
        (),
        CodegenError,
    >)
        requires
            old(self)@.wf(),
        ensures
            final(self)@.wf(),
            final(self)@.steps() == old(self)@.steps(),
            final(stack_allocator).alignment() == old(stack_allocator).alignment(),
            final(stack_allocator).initial_offset() == old(stack_allocator).initial_offset(),
            final(stack_allocator).arrays() == old(stack_allocator).arrays(),
            match result {
                Ok(()) => {
                    &&& old(self)@.scanned(old(stack_allocator).sizes().len()) == Some(
                        final(self)@,
                    )
                    &&& old(self)@.scan_steps(
                        old(stack_allocator).sizes().len(),
                        old(self)@.steps(),
                    ) matches Some(state) && final(stack_allocator).sizes() == old(
                        stack_allocator,
                    ).sizes() + state.requests
                },
                Err(error) => {
                    &&& error == CodegenError::Unimplemented
                    &&& old(self)@.scan_steps(
                        old(stack_allocator).sizes().len(),
                        old(self)@.steps(),
                    ) is None
                },
            },
    {
        let ghost view = self@;
        let ghost first_slot = stack_allocator.sizes().len();
        let ghost sizes = stack_allocator.sizes();
        let register_count: usize = self.reg_ids.len();
        let mut reg_occupation: Vec<bool> = Vec::new();
        let mut i: usize = 0;
        while i < register_count
            invariant
                i <= register_count,
                reg_occupation@ == Seq::new(i as nat, |i: int| false),
            decreases register_count - i,
        {
            reg_occupation.push(false);
            i += 1;
            assert(reg_occupation@ =~= Seq::new(i as nat, |i: int| false));
        }
        let ghost mut state = view.scan_start();
        proof {
            assert(self@.infos =~= view.with_scan(state, first_slot, 0).infos);
            assert(self@.occupation =~= view.with_scan(state, first_slot, 0).occupation);
            assert(sizes + state.requests =~= sizes);
        }
        let step_count: usize = self.step_map.len();
        let mut step: usize = 0;
        while step < step_count
            invariant
                step <= step_count,
                step_count == view.steps(),
                view.wf(),
                view == old(self)@,
                first_slot == old(stack_allocator).sizes().len(),
                sizes == old(stack_allocator).sizes(),
                scan_state_wf(view, state),
                view.scan_steps(first_slot, step as int) == Some(state),
                self@ == view.with_scan(state, first_slot, step as int),
                reg_occupation@ == state.occupation,
                stack_allocator.sizes() == sizes + state.requests,
                stack_allocator.alignment() == old(stack_allocator).alignment(),
                stack_allocator.initial_offset() == old(stack_allocator).initial_offset(),
                stack_allocator.arrays() == old(stack_allocator).arrays(),
            decreases step_count - step,
        {
            let ghost row_start = state;
            proof {
                assert(view.stages[step as int].len() == view.width());
            }
            let width: usize = self.step_map[step].life_stages.len();
            let mut idx: usize = 0;
            while idx < width
                invariant
                    idx <= width,
                    width == view.width(),
                    step < step_count,
                    step_count == view.steps(),
                    view.wf(),
                    view == old(self)@,
                    first_slot == old(stack_allocator).sizes().len(),
                    sizes == old(stack_allocator).sizes(),
                    scan_state_wf(view, state),
                    scan_state_wf(view, row_start),
                    view.scan_steps(first_slot, step as int) == Some(row_start),
                    view.scan_row(row_start, first_slot, step as int, idx as int) == Some(state),
                    self@ == view.with_scan(state, first_slot, step as int),
                    reg_occupation@ == state.occupation,
                    stack_allocator.sizes() == sizes + state.requests,
                    stack_allocator.alignment() == old(stack_allocator).alignment(),
                    stack_allocator.initial_offset() == old(stack_allocator).initial_offset(),
                    stack_allocator.arrays() == old(stack_allocator).arrays(),
                decreases width - idx,
            {
                let ghost before = state;
                let ghost previous = self@;
                proof {
                    lemma_scan_cell_wf(view, state, first_slot, step as int, idx as int);
                    lemma_first_free(state.occupation, 0);
                    assert(view.stages[step as int].len() == view.width());
                }
                match self.step_map[step].life_stages[idx] {
                    VRegLifeStage::Born => {
                        match self.vreg_infos[idx].content_kind {
                            VRegContentKind::StackSpace(dtype_size) => {
                                let stackspace_id: usize = stack_allocator.add_var(dtype_size);
                                self.vreg_infos[idx].allocation = Some(
                                    VRegAlloc::StackPtr(stackspace_id),
                                );
                                proof {
                                    state = ScanState {
                                        allocations: before.allocations.update(
                                            idx as int,
                                            Some(VRegAlloc::StackPtr(stackspace_id)),
                                        ),
                                        requests: before.requests.push(dtype_size),
                                        ..before
                                    };
                                    assert(stack_allocator.sizes() =~= sizes + state.requests);
                                }
                            },
                            VRegContentKind::Normal => {
                                match Self::try_alloc_real_reg(&mut reg_occupation) {
                                    Some(reg_id) => {
                                        self.vreg_infos[idx].allocation = Some(
                                            VRegAlloc::RealReg(reg_id),
                                        );
                                        proof {
                                            state = ScanState {
                                                occupation: before.occupation.update(
                                                    reg_id as int,
                                                    true,
                                                ),
                                                allocations: before.allocations.update(
                                                    idx as int,
                                                    Some(VRegAlloc::RealReg(reg_id)),
                                                ),
                                                ..before
                                            };
                                        }
                                    },
                                    None => {
                                        proof {
                                            lemma_with_scan_wf(
                                                view,
                                                state,
                                                first_slot,
                                                step as int,
                                            );
                                            lemma_scan_fails_later(
                                                view,
                                                first_slot,
                                                row_start,
                                                step as int,
                                                idx as int + 1,
                                            );
                                        }
                                        return Err(CodegenError::Unimplemented);
                                    },
                                }
                            },
                            VRegContentKind::Const(val) => {
                                self.vreg_infos[idx].allocation = Some(VRegAlloc::Const(val));
                                proof {
                                    state = ScanState {
                                        allocations: before.allocations.update(
                                            idx as int,
                                            Some(VRegAlloc::Const(val)),
                                        ),
                                        ..before
                                    };
                                }
                            },
                        }
                    },
                    VRegLifeStage::Dying => {
                        if let Some(VRegAlloc::RealReg(reg)) = self.vreg_infos[idx].allocation {
                            reg_occupation.set(reg, false);
                            proof {
                                state = ScanState {
                                    occupation: before.occupation.update(reg as int, false),
                                    ..before
                                };
                            }
                        }
                    },
                    _ => {},
                }
                proof {
                    assert(view.scan_cell(before, first_slot, step as int, idx as int) == Some(
                        state,
                    ));
                    let expected = view.with_scan(state, first_slot, step as int);
                    assert(self@.infos =~= expected.infos);
                    assert(self@.stages =~= expected.stages);
                    assert(self@.calls =~= expected.calls);
                    assert(self@.occupation =~= expected.occupation);
                }
                idx += 1;
            }
            let ghost previous = self@;
            self.step_map[step].reg_occupation = reg_occupation.clone();
            proof {
                assert(self.step_map@[step as int].reg_occupation@ =~= reg_occupation@);
                assert(view.scan_steps(first_slot, step as int + 1) == Some(state));
                let expected = view.with_scan(state, first_slot, step as int + 1);
                assert(self@.infos =~= expected.infos);
                assert(self@.stages =~= expected.stages);
                assert(self@.calls =~= expected.calls);
                assert(self@.occupation.len() == expected.occupation.len());
                assert forall|t: int| 0 <= t < self@.occupation.len() implies self@.occupation[t]
                    == expected.occupation[t] by {
                    if t == step {
                        assert(self@.occupation[t] == reg_occupation@);
                        assert(expected.occupation[t] == state.occupation);
                    } else {
                        assert(self@.occupation[t] == previous.occupation[t]);
                    }
                }
                assert(self@.occupation =~= expected.occupation);
            }
            step += 1;
        }
        proof {
            lemma_with_scan_wf(view, state, first_slot, step_count as int);
        }
        Ok(())
    }

    /// Record every step of a block: define the virtual registers and
    /// find their lifetimes. The steps of the block are the first steps of
    /// the allocation.
    pub fn generate_map_from(&mut self, body: &Vec<Instruction>) -> (result: Result<
        (),
        CodegenError,
    >)
        requires
            old(self)@.wf(),
        ensures
            final(self)@.wf(),
            final(self)@.steps() == old(self)@.steps(),
            match result {
                Ok(()) => old(self)@.with_steps(body@, body@.len() as int) == Ok::<
                    _,
                    CodegenError,
                >(final(self)@),
                Err(error) => old(self)@.with_steps(body@, body@.len() as int) == Err::<
                    VRegAllocationView<R>,
                    _,
                >(error),
            },
    {
        let step_count: usize = body.len();
        let mut step: usize = 0;
        while step < step_count
            invariant
                step <= step_count,
                step_count == body@.len(),
                self@.wf(),
                self@.steps() == old(self)@.steps(),
                old(self)@.with_steps(body@, step as int) == Ok::<_, CodegenError>(self@),
            decreases step_count - step,
        {
            if step >= self.step_map.len() {
                proof {
                    assert(old(self)@.with_steps(body@, step as int + 1) == Err::<
                        VRegAllocationView<R>,
                        _,
                    >(CodegenError::MalformedIr));
                    lemma_with_steps_fail_later(
                        old(self)@,
                        body@,
                        step as int + 1,
                        step_count as int,
                    );
                }
                return Err(CodegenError::MalformedIr);
            }
            match self.record_step(&body[step], step) {
                Err(error) => {
                    proof {
                        assert(old(self)@.with_steps(body@, step as int + 1) == Err::<
                            VRegAllocationView<R>,
                            _,
                        >(error));
                        lemma_with_steps_fail_later(
                            old(self)@,
                            body@,
                            step as int + 1,
                            step_count as int,
                        );
                    }
                    return Err(error);
                },
                Ok(()) => {},
            }
            step += 1;
        }
        Ok(())
    }

    /// Generate the allocation for a block: find the lifetime of every
    /// virtual register, then give each of them a location.
    pub fn generate_from(body: &Vec<Instruction>, stack_allocator: &mut StackAllocator) -> (result:
        Result<Self, CodegenError>)
        ensures
            final(stack_allocator).alignment() == old(stack_allocator).alignment(),
            final(stack_allocator).initial_offset() == old(stack_allocator).initial_offset(),
            final(stack_allocator).arrays() == old(stack_allocator).arrays(),
            match generated::<R>(body@, old(stack_allocator).sizes().len()) {
                Ok((expected, requests)) => {
                    &&& result matches Ok(allocation)
                    &&& allocation@ == expected
                    &&& allocation@.wf()
                    &&& allocation@.steps() == body@.len()
                    &&& final(stack_allocator).sizes() == old(stack_allocator).sizes() + requests
                },
                Err(error) => result matches Err(reported) && reported == error,
            },
    {
        let step_count: usize = body.len();
        let mut vreg_count: usize = 0;
        let mut i: usize = 0;
        while i < step_count
            invariant
                i <= step_count,
                step_count == body@.len(),
                vreg_count == count_defs(body@, i as int),
                vreg_count <= i,
            decreases step_count - i,
        {
            if body[i].is_def_reg() {
                vreg_count += 1;
            }
            i += 1;
        }
        let mut allocator = Self::empty(step_count, vreg_count);
        match allocator.generate_map_from(body) {
            Err(error) => {
                return Err(error);
            },
            Ok(()) => {},
        }
        match allocator.alloc_regs(stack_allocator) {
            Err(error) => Err(error),
            Ok(()) => Ok(allocator),
        }
    }

    /// Whether a virtual register with the external ID `id` is defined.
    pub fn contains_vreg(&self, id: u64) -> (defined: bool)
        ensures
            defined == self@.ids.contains_key(id),
    {
        self.vreg_ids.contains_key(&id)
    }

    /// What is known of the virtual register with the external ID `id`.
    pub fn vreg_info(&self, id: u64) -> (info: Option<VRegInfo>)
        requires
            self@.wf(),
        ensures
            info == if self@.ids.contains_key(id) {
                Some(self@.infos[self@.ids[id] as int])
            } else {
                None
            },
    {
        match self.index_of(id) {
            Some(index) => Some(self.vreg_infos[index].clone()),
            None => None,
        }
    }

    /// The life stage of the virtual register with the external ID `id`
    /// in step `step`.
    pub fn life_stage(&self, id: u64, step: usize) -> (stage: Option<VRegLifeStage>)
        requires
            self@.wf(),
        ensures
            stage == if self@.ids.contains_key(id) && step < self@.steps() {
                Some(self@.stages[step as int][self@.ids[id] as int])
            } else {
                None
            },
    {
        match self.index_of(id) {
            Some(index) => {
                if step < self.step_map.len() {
                    assert(self@.stages[step as int].len() == self@.width());
                    Some(self.step_map[step].life_stages[index])
                } else {
                    None
                }
            },
            None => None,
        }
    }

    /// Whether step `step` holds a function call.
    pub fn has_fn_call(&self, step: usize) -> (call: bool)
        requires
            step < self@.steps(),
        ensures
            call == self@.calls[step as int],
    {
        self.step_map[step].has_fn_call
    }

    /// Return a register if the VReg is allocated onto a real register.
    pub fn get_alloced_reg(&self, id: u64) -> (register: Option<R>)
        requires
            self@.wf(),
            self@.ids.contains_key(id),
        ensures
            register == match self@.location(id) {
                Some(VRegAlloc::RealReg(index)) => Some(self@.registers[index as int]),
                _ => None,
            },
    {
        let internal_vreg_id: usize = match self.index_of(id) {
            Some(index) => index,
            None => {
                return None;
            },
        };
        match self.vreg_infos[internal_vreg_id].allocation {
            Some(VRegAlloc::RealReg(internal_reg_id)) => Some(self.reg_ids[internal_reg_id]),
            _ => None,
        }
    }

    /// Returns the stack-space ID of the VReg.
    pub fn get_alloced_stackptr(&self, id: u64) -> (slot: Option<usize>)
        requires
            self@.wf(),
            self@.ids.contains_key(id),
        ensures
            slot == match self@.location(id) {
                Some(VRegAlloc::StackPtr(slot)) => Some(slot),
                _ => None,
            },
    {
        let internal_vreg_id: usize = match self.index_of(id) {
            Some(index) => index,
            None => {
                return None;
            },
        };
        match self.vreg_infos[internal_vreg_id].allocation {
            Some(VRegAlloc::StackPtr(slot)) => Some(slot),
            _ => None,
        }
    }

    /// Returns the bytes of the VReg if it is a constant.
    pub fn get_alloced_const(&self, id: u64) -> (bytes: Option<[u8; 8]>)
        requires
            self@.wf(),
            self@.ids.contains_key(id),
        ensures
            bytes == match self@.location(id) {
                Some(VRegAlloc::Const(bytes)) => Some(bytes),
                _ => None,
            },
    {
        let internal_vreg_id: usize = match self.index_of(id) {
            Some(index) => index,
            None => {
                return None;
            },
        };
        match self.vreg_infos[internal_vreg_id].allocation {
            Some(VRegAlloc::Const(bytes)) => Some(bytes),
            _ => None,
        }
    }

    /// The real registers in use behind step `step`, in the order in which
    /// they are handed out.
    pub fn living_regs(&self, step: usize) -> (registers: Vec<R>)
        requires
            step < self@.steps(),
        ensures
            registers@ == self@.living(step as int),
    {
        let occupation = &self.step_map[step].reg_occupation;
        let count: usize = if occupation.len() < self.reg_ids.len() {
            occupation.len()
        } else {
            self.reg_ids.len()
        };
        let mut registers: Vec<R> = Vec::new();
        let mut i: usize = 0;
        while i < count
            invariant
                i <= count,
                count <= occupation@.len(),
                count <= self.reg_ids@.len(),
                registers@ == living_among(self.reg_ids@, occupation@, i as int),
            decreases count - i,
        {
            if occupation[i] {
                registers.push(self.reg_ids[i]);
            }
            i += 1;
        }
        registers
    }

    /// The real registers in use behind step `step`, the one handed out
    /// last first.
    pub fn living_regs_rev(&self, step: usize) -> (registers: Vec<R>)
        requires
            step < self@.steps(),
        ensures
            registers@ == self@.living(step as int).reverse(),
    {
        let forward = self.living_regs(step);
        let mut registers: Vec<R> = Vec::new();
        let mut i: usize = forward.len();
        while i > 0
            invariant
                i <= forward@.len(),
                registers@.len() == forward@.len() - i,
                forall|j: int|
                    0 <= j < registers@.len() ==> registers@[j] == forward@[forward@.len() - 1
                        - j],
            decreases i,
        {
            i -= 1;
            registers.push(forward[i]);
        }
        assert(registers@ =~= forward@.reverse());
        registers
    }

    /// Calls `f` on every real register in use behind step `step`, in the
    /// order in which they are handed out.
    pub fn for_each_living_reg<F>(&self, step: usize, mut f: F) where F: FnMut(R)
        requires
            step < self@.steps(),
            forall|register: R| call_requires(f, (register,)),
    {
        let registers = self.living_regs(step);
        let mut i: usize = 0;
        while i < registers.len()
            invariant
                forall|register: R| call_requires(f, (register,)),
            decreases registers.len() - i,
        {
            f(registers[i]);
            i += 1;
        }
    }

    /// Calls `f` on every real register in use behind step `step`, the one
    /// handed out last first.
    pub fn for_each_living_reg_rev<F>(&self, step: usize, mut f: F) where F: FnMut(R)
        requires
            step < self@.steps(),
            forall|register: R| call_requires(f, (register,)),
    {
        let registers = self.living_regs_rev(step);
        let mut i: usize = 0;
        while i < registers.len()
            invariant
                forall|register: R| call_requires(f, (register,)),
            decreases registers.len() - i,
        {
            f(registers[i]);
            i += 1;
        }
    }

    /// The lifetime map as it is printed: a table with a column for each
    /// virtual register, a column that marks the steps with calls and a
    /// column for each real register; a row for each step with the life
    /// stages and, behind it, the real registers in use.
    pub fn print_reg_lifetime_map(&self) -> (text: String)
        requires
            self@.wf(),
        ensures
            text@ == spec_lifetime_map_text(self@),
    {
        let mut text = String::from_str("VReg step map:\n");
        let mut i: usize = 0;
        while i < self.vreg_infos.len()
            invariant
                i <= self.vreg_infos@.len(),
                text@ == "VReg step map:\n"@ + spec_ids_text(self@, i as int),
            decreases self.vreg_infos@.len() - i,
        {
            text.append("\t%");
            text.append(decimal(self.vreg_infos[i].external_id).as_str());
            i += 1;
            assert(text@ =~= "VReg step map:\n"@ + spec_ids_text(self@, i as int));
        }
        text.append("\tcall?");
        let ghost head = text@;
        let mut i: usize = 0;
        while i < self.reg_ids.len()
            invariant
                i <= self.reg_ids@.len(),
                text@ == head + spec_registers_text(self@, i as int),
            decreases self.reg_ids@.len() - i,
        {
            text.append("\t");
            text.append(self.reg_ids[i].name().as_str());
            i += 1;
            assert(text@ =~= head + spec_registers_text(self@, i as int));
        }
        text.append("\n");
        let ghost head = text@;
        let mut step: usize = 0;
        while step < self.step_map.len()
            invariant
                step <= self.step_map@.len(),
                text@ == head + spec_rows_text(self@, step as int),
            decreases self.step_map@.len() - step,
        {
            let row = self.row_text(step);
            text.append(row.as_str());
            step += 1;
            assert(text@ =~= head + spec_rows_text(self@, step as int));
        }
        assert(text@ =~= spec_lifetime_map_text(self@));
        text
    }

    /// One row of the lifetime map.
    fn row_text(&self, step: usize) -> (text: String)
        requires
            step < self@.steps(),
        ensures
            text@ == spec_row_text(self@, step as int),
    {
        let row = &self.step_map[step];
        let mut text = decimal(step as u64);
        text.append("\t");
        let ghost head = text@;
        let mut i: usize = 0;
        while i < row.life_stages.len()
            invariant
                step < self@.steps(),
                *row == self.step_map@[step as int],
                i <= row.life_stages@.len(),
                text@ == head + spec_stages_text(self@, step as int, i as int),
            decreases row.life_stages@.len() - i,
        {
            match row.life_stages[i] {
                VRegLifeStage::Born => text.append("O\t"),
                VRegLifeStage::Live => text.append("|\t"),
                VRegLifeStage::Dying => text.append("X\t"),
                VRegLifeStage::Dead => text.append("\t"),
            }
            i += 1;
            assert(text@ =~= head + spec_stages_text(self@, step as int, i as int));
        }
        if row.has_fn_call {
            text.append("√");
        } else {
            text.append("");
        }
        let ghost head = text@;
        let mut i: usize = 0;
        while i < row.reg_occupation.len()
            invariant
                step < self@.steps(),
                *row == self.step_map@[step as int],
                i <= row.reg_occupation@.len(),
                text@ == head + spec_occupation_text(self@, step as int, i as int),
            decreases row.reg_occupation@.len() - i,
        {
            text.append("\t");
            if row.reg_occupation[i] {
                text.append("√");
            } else {
                text.append(" ");
            }
            i += 1;
            assert(text@ =~= head + spec_occupation_text(self@, step as int, i as int));
        }
        text.append("\n");
        assert(text@ =~= spec_row_text(self@, step as int));
        text
    }

    /// What is known of the virtual registers as it is printed: a table
    /// with a row for each of them with its ID, the kind of its content,
    /// its lifetime and its location.
    pub fn print_reg_infos(&self) -> (text: String)
        requires
            self@.wf(),
        ensures
            text@ == spec_reg_infos_text(self@),
    {
        let mut text = String::from_str("Virtual registers:\nid:\tkind\tlife\talloc\n");
        let ghost head = text@;
        let mut i: usize = 0;
        while i < self.vreg_infos.len()
            invariant
                self@.wf(),
                i <= self.vreg_infos@.len(),
                text@ == head + spec_infos_text(self@, i as int),
            decreases self.vreg_infos@.len() - i,
        {
            let info = &self.vreg_infos[i];
            let mut line = decimal(info.external_id);
            line.append(":\t");
            match info.content_kind {
                VRegContentKind::StackSpace(_) => line.append("stack"),
                VRegContentKind::Normal => line.append("normal"),
                VRegContentKind::Const(_) => line.append("const"),
            }
            line.append("\t");
            line.append(decimal(info.lifetime.start as u64).as_str());
            line.append("..");
            line.append(decimal(info.lifetime.end as u64).as_str());
            match info.allocation {
                Some(VRegAlloc::RealReg(reg_id)) => {
                    line.append("\t");
                    line.append(self.reg_ids[reg_id].name().as_str());
                    line.append("\n");
                },
                Some(VRegAlloc::StackPtr(loc)) => {
                    line.append("\tstack ");
                    line.append(decimal(loc as u64).as_str());
                    line.append("\n");
                },
                Some(VRegAlloc::Const(val)) => {
                    line.append("\tconst ");
                    line.append(decimal(be_value(&val)).as_str());
                    line.append("\n");
                },
                None => {
                    line.append("\tNo alloc\n");
                },
            }
            assert(line@ =~= spec_info_text(self@, i as int));
            text.append(line.as_str());
            i += 1;
            assert(text@ =~= head + spec_infos_text(self@, i as int));
        }
        text
    }

    /// Try to allocate a real register, returns the internal ID of the
    /// first register that was free and is now occupied.
    pub fn try_alloc_real_reg(reg_occupations: &mut Vec<bool>) -> (register: Option<usize>)
        ensures
            match register {
                Some(index) => {
                    &&& index < old(reg_occupations)@.len()
                    &&& !old(reg_occupations)@[index as int]
                    &&& forall|i: int| 0 <= i < index ==> old(reg_occupations)@[i]
                    &&& final(reg_occupations)@ == old(reg_occupations)@.update(index as int, true)
                },
                None => {
                    &&& forall|i: int|
                        0 <= i < old(reg_occupations)@.len() ==> old(reg_occupations)@[i]
                    &&& final(reg_occupations)@ == old(reg_occupations)@
                },
            },
    {
        let mut i: usize = 0;
        while i < reg_occupations.len()
            invariant
                reg_occupations@ == old(reg_occupations)@,
                i <= reg_occupations@.len(),
                forall|j: int| 0 <= j < i ==> reg_occupations@[j],
            decreases reg_occupations@.len() - i,
        {
            if !reg_occupations[i] {
                reg_occupations.set(i, true);
                return Some(i);
            }
            i += 1;
        }
        None
    }
}

} // verus!
