//! The lifetime map and the virtual registers as tables of text.
use vstd::prelude::*;
use crate::generation::bytes::spec_be_value;
use crate::generation::str_fmt::spec_decimal;
use crate::generation::vreg_alloc::{Register, VRegAlloc, VRegContentKind, VRegLifeStage};
use crate::generation::vreg_model::VRegAllocationView;

verus! {

/// The cell of a life stage: `O` for a birth, `|` for a life, `X` for a
/// death, nothing where the register is dead, and a tab.
pub open spec fn spec_stage_text(stage: VRegLifeStage) -> Seq<char> {
    match stage {
        VRegLifeStage::Born => "O\t"@,
        VRegLifeStage::Live => "|\t"@,
        VRegLifeStage::Dying => "X\t"@,
        VRegLifeStage::Dead => "\t"@,
    }
}

/// The name of the kind of content.
pub open spec fn spec_kind_text(kind: VRegContentKind) -> Seq<char> {
    match kind {
        VRegContentKind::StackSpace(_) => "stack"@,
        VRegContentKind::Normal => "normal"@,
        VRegContentKind::Const(_) => "const"@,
    }
}

/// The heads of the columns of the first `count` virtual registers.
pub open spec fn spec_ids_text<R>(view: VRegAllocationView<R>, count: int) -> Seq<char>
    decreases count,
{
    if count <= 0 {
        Seq::empty()
    } else {
        spec_ids_text(view, count - 1) + "\t%"@ + spec_decimal(
            view.infos[count - 1].external_id as nat,
        )
    }
}

/// The heads of the columns of the first `count` real registers.
pub open spec fn spec_registers_text<R: Register>(
    view: VRegAllocationView<R>,
    count: int,
) -> Seq<char>
    decreases count,
{
    if count <= 0 {
        Seq::empty()
    } else {
        spec_registers_text(view, count - 1) + "\t"@ + view.registers[count - 1].spec_name()
    }
}

/// The life stages of the first `count` virtual registers in step `step`.
pub open spec fn spec_stages_text<R>(view: VRegAllocationView<R>, step: int, count: int) -> Seq<
    char,
>
    decreases count,
{
    if count <= 0 {
        Seq::empty()
    } else {
        spec_stages_text(view, step, count - 1) + spec_stage_text(view.stages[step][count - 1])
    }
}

/// The marks of the first `count` real registers behind step `step`: a
/// check mark where the register is in use, a space where it is not.
pub open spec fn spec_occupation_text<R>(
    view: VRegAllocationView<R>,
    step: int,
    count: int,
) -> Seq<char>
    decreases count,
{
    if count <= 0 {
        Seq::empty()
    } else {
        spec_occupation_text(view, step, count - 1) + "\t"@ + if view.occupation[step][count
            - 1] {
            "√"@
        } else {
            " "@
        }
    }
}

/// The row of step `step`: its number, the life stages, a check mark
/// where the step holds a call, and the marks of the real registers.
pub open spec fn spec_row_text<R>(view: VRegAllocationView<R>, step: int) -> Seq<char> {
    spec_decimal(step as nat) + "\t"@ + spec_stages_text(
        view,
        step,
        view.stages[step].len() as int,
    ) + (if view.calls[step] {
        "√"@
    } else {
        ""@
    }) + spec_occupation_text(view, step, view.occupation[step].len() as int) + "\n"@
}

/// The rows of the first `count` steps.
pub open spec fn spec_rows_text<R>(view: VRegAllocationView<R>, count: int) -> Seq<char>
    decreases count,
{
    if count <= 0 {
        Seq::empty()
    } else {
        spec_rows_text(view, count - 1) + spec_row_text(view, count - 1)
    }
}

/// The lifetime map as a table.
pub open spec fn spec_lifetime_map_text<R: Register>(view: VRegAllocationView<R>) -> Seq<char> {
    "VReg step map:\n"@ + spec_ids_text(view, view.infos.len() as int) + "\tcall?"@
        + spec_registers_text(view, view.registers.len() as int) + "\n"@ + spec_rows_text(
        view,
        view.steps(),
    )
}

/// The row of the virtual register `idx`: its ID, the kind of its
/// content, its lifetime and its location.
pub open spec fn spec_info_text<R: Register>(view: VRegAllocationView<R>, idx: int) -> Seq<char> {
    let info = view.infos[idx];
    spec_decimal(info.external_id as nat) + ":\t"@ + spec_kind_text(info.content_kind) + "\t"@
        + spec_decimal(info.lifetime.start as nat) + ".."@ + spec_decimal(
        info.lifetime.end as nat,
    ) + match info.allocation {
        Some(VRegAlloc::RealReg(register)) => "\t"@ + view.registers[register as int].spec_name()
            + "\n"@,
        Some(VRegAlloc::StackPtr(slot)) => "\tstack "@ + spec_decimal(slot as nat) + "\n"@,
        Some(VRegAlloc::Const(bytes)) => "\tconst "@ + spec_decimal(spec_be_value(bytes) as nat)
            + "\n"@,
        None => "\tNo alloc\n"@,
    }
}

/// The rows of the first `count` virtual registers.
pub open spec fn spec_infos_text<R: Register>(view: VRegAllocationView<R>, count: int) -> Seq<
    char,
>
    decreases count,
{
    if count <= 0 {
        Seq::empty()
    } else {
        spec_infos_text(view, count - 1) + spec_info_text(view, count - 1)
    }
}

/// What is known of the virtual registers as a table.
pub open spec fn spec_reg_infos_text<R: Register>(view: VRegAllocationView<R>) -> Seq<char> {
    "Virtual registers:\nid:\tkind\tlife\talloc\n"@ + spec_infos_text(
        view,
        view.infos.len() as int,
    )
}

} // verus!
