//! Instruction selection: from the steps of a function body to the
//! instructions of x86-64.
//!
//! Every value is computed in the accumulator, seen at the width of its
//! data type, and moved from there to where it belongs. Virtual registers
//! are replaced by the locations that the allocation gave them.
use vstd::prelude::*;
use crate::error::CodegenError;
use crate::generation::bytes::{
    be_bytes, be_bytes_signed, be_value, spec_be_bytes, spec_be_value, spec_bits_of,
};
use crate::generation::platform::x86_64::reg::{X64Register, X86WordSize};
use crate::generation::platform::x86_64::{EvalTreeNode, Instruction, Operand, Signedness};
use crate::generation::stack_alloc::StackAllocation;
use crate::generation::vreg_alloc::{
    Register, VRegAlloc, VRegAllocation, VRegAllocationView, VRegContentKind,
};
use crate::ir::{DataType, Instruction as IRInstruction};

verus! {

/// Size of a pointer in bytes, and the unit that stack frames are
/// aligned to.
pub const WORD_SIZE: u8 = 8;

/// Number of arguments that are passed in registers.
pub const ARGUMENT_REGISTERS: usize = 6;

/// The width of a value of the given type.
pub open spec fn spec_word_size_of(dtype: DataType) -> X86WordSize {
    let bytes = dtype.spec_size(WORD_SIZE);
    if bytes == 1 {
        X86WordSize::Byte
    } else if bytes == 2 {
        X86WordSize::Word
    } else if bytes == 4 {
        X86WordSize::Bword
    } else {
        X86WordSize::Qword
    }
}

/// How arithmetic on values of the given type reads them.
pub open spec fn spec_signedness_of(dtype: DataType) -> Signedness {
    match dtype {
        DataType::I64 | DataType::I32 | DataType::I16 | DataType::I8 | DataType::ISize => {
            Signedness::Signed
        },
        DataType::F64 | DataType::F32 => Signedness::Float,
        _ => Signedness::Unsigned,
    }
}

/// The register that carries the integer argument at `position`.
pub open spec fn spec_argument_register(position: int) -> X64Register {
    if position == 0 {
        X64Register::Rdi
    } else if position == 1 {
        X64Register::Rsi
    } else if position == 2 {
        X64Register::Rdx
    } else if position == 3 {
        X64Register::Rcx
    } else if position == 4 {
        X64Register::R8
    } else {
        X64Register::R9
    }
}

/// The accumulator at the given width.
pub open spec fn spec_accumulator(size: X86WordSize) -> X64Register {
    X64Register::Rax.spec_of_size(size)
}

/// The data type of the value of an instruction, if it has a value.
pub open spec fn spec_dtype_of(instruction: IRInstruction) -> Option<DataType> {
    match instruction {
        IRInstruction::Arg(dtype, _)
        | IRInstruction::Reg(dtype, _)
        | IRInstruction::UInt(dtype, _)
        | IRInstruction::Int(dtype, _)
        | IRInstruction::Float(dtype, _) => Some(dtype),
        IRInstruction::Load { dtype, .. } => Some(dtype),
        IRInstruction::Add(dtype, _, _)
        | IRInstruction::Sub(dtype, _, _)
        | IRInstruction::Mul(dtype, _, _)
        | IRInstruction::Div(dtype, _, _) => Some(dtype),
        IRInstruction::Call { ret_type, .. } => ret_type,
        IRInstruction::Alloc(_) => Some(DataType::Ptr),
        IRInstruction::String(_) => Some(DataType::Ptr),
        _ => None,
    }
}

/// The width of a value of the given type.
pub fn word_size_of(dtype: DataType) -> (size: X86WordSize)
    ensures
        size == spec_word_size_of(dtype),
{
    match X86WordSize::from_bytes(dtype.size(WORD_SIZE)) {
        Some(size) => size,
        None => X86WordSize::Qword,
    }
}

/// How arithmetic on values of the given type reads them.
pub fn signedness_of(dtype: DataType) -> (signedness: Signedness)
    ensures
        signedness == spec_signedness_of(dtype),
{
    match dtype {
        DataType::I64 | DataType::I32 | DataType::I16 | DataType::I8 | DataType::ISize => {
            Signedness::Signed
        },
        DataType::F64 | DataType::F32 => Signedness::Float,
        _ => Signedness::Unsigned,
    }
}

/// The register that carries the integer argument at `position`.
pub fn argument_register(position: usize) -> (register: X64Register)
    requires
        position < ARGUMENT_REGISTERS,
    ensures
        register == spec_argument_register(position as int),
        register == X64Register::spec_caller_saved()[position as int],
{
    match position {
        0 => X64Register::Rdi,
        1 => X64Register::Rsi,
        2 => X64Register::Rdx,
        3 => X64Register::Rcx,
        4 => X64Register::R8,
        _ => X64Register::R9,
    }
}

/// The data type of the value of an instruction, if it has a value.
pub fn dtype_of(instruction: &IRInstruction) -> (dtype: Option<DataType>)
    ensures
        dtype == spec_dtype_of(*instruction),
{
    match instruction {
        IRInstruction::Arg(dtype, _)
        | IRInstruction::Reg(dtype, _)
        | IRInstruction::UInt(dtype, _)
        | IRInstruction::Int(dtype, _)
        | IRInstruction::Float(dtype, _) => Some(*dtype),
        IRInstruction::Load { dtype, .. } => Some(*dtype),
        IRInstruction::Add(dtype, _, _)
        | IRInstruction::Sub(dtype, _, _)
        | IRInstruction::Mul(dtype, _, _)
        | IRInstruction::Div(dtype, _, _) => Some(*dtype),
        IRInstruction::Call { ret_type, .. } => *ret_type,
        IRInstruction::Alloc(_) => Some(DataType::Ptr),
        IRInstruction::String(_) => Some(DataType::Ptr),
        _ => None,
    }
}

/// What instruction selection knows of the function it works on, as a
/// mathematical value.
pub struct FrameView {
    /// The locations of the virtual registers.
    pub allocation: VRegAllocationView<X64Register>,
    /// The offset of each stack slot from the frame base.
    pub offsets: Seq<usize>,
    /// Number of arguments that the function declares.
    pub arg_count: nat,
}

/// What instruction selection knows of the function it works on.
pub struct Frame<'a> {
    /// The locations of the virtual registers.
    pub reg_map: &'a VRegAllocation<X64Register>,
    /// The layout of the stack.
    pub stack: &'a StackAllocation,
    /// Number of arguments that the function declares.
    pub arg_count: usize,
}

impl<'a> View for Frame<'a> {
    type V = FrameView;

    open spec fn view(&self) -> FrameView {
        FrameView {
            allocation: self.reg_map@,
            offsets: self.stack.locations@,
            arg_count: self.arg_count as nat,
        }
    }
}

impl FrameView {
    /// The address that the virtual register `id` holds.
    ///
    /// A stack slot lies below the frame base, so its address is the
    /// frame pointer less the offset of its end. A pointer in a real
    /// register is that register; a constant pointer is its value.
    pub open spec fn spec_address(self, id: u64) -> Result<EvalTreeNode, CodegenError> {
        if !self.allocation.ids.contains_key(id) {
            Err(CodegenError::MalformedIr)
        } else {
            match self.allocation.location(id) {
                Some(VRegAlloc::RealReg(index)) => Ok(
                    EvalTreeNode::Reg(self.allocation.registers[index as int]),
                ),
                Some(VRegAlloc::Const(bytes)) => Ok(EvalTreeNode::Num(spec_be_value(bytes) as u64)),
                Some(VRegAlloc::StackPtr(slot)) => match self.allocation.infos[self.allocation.ids[id] as int].content_kind {
                    VRegContentKind::StackSpace(size) => if slot >= self.offsets.len() {
                        Err(CodegenError::MalformedIr)
                    } else if self.offsets[slot as int] + size > usize::MAX {
                        Err(CodegenError::ResourceExhausted)
                    } else {
                        Ok(
                            EvalTreeNode::Sub(
                                Box::new(EvalTreeNode::Reg(X64Register::Rbp)),
                                Box::new(
                                    EvalTreeNode::Num((self.offsets[slot as int] + size) as u64),
                                ),
                            ),
                        )
                    },
                    _ => Err(CodegenError::MalformedIr),
                },
                None => Err(CodegenError::MalformedIr),
            }
        }
    }

    /// The operand that stands for a value that needs no computation, at
    /// the given width.
    ///
    /// A literal is an immediate value. An argument is the register that
    /// carried it into the function; it is to be read before a value is
    /// given that register. A virtual register is its real register or its
    /// constant. A load is the memory at the address that the virtual
    /// register holds.
    pub open spec fn spec_operand(self, instruction: IRInstruction, size: X86WordSize) -> Result<
        Operand,
        CodegenError,
    > {
        match instruction {
            IRInstruction::UInt(_, value) => Ok(Operand::Im(spec_be_bytes(value))),
            IRInstruction::Int(_, value) => Ok(Operand::Im(spec_be_bytes(spec_bits_of(value)))),
            IRInstruction::Float(_, bits) => Ok(Operand::Im(spec_be_bytes(bits))),
            IRInstruction::Arg(_, position) => if position >= self.arg_count {
                Err(CodegenError::MalformedIr)
            } else if position >= ARGUMENT_REGISTERS {
                Err(CodegenError::Unimplemented)
            } else {
                Ok(Operand::Reg(spec_argument_register(position as int).spec_of_size(size)))
            },
            IRInstruction::Reg(_, id) => if !self.allocation.ids.contains_key(id) {
                Err(CodegenError::MalformedIr)
            } else {
                match self.allocation.location(id) {
                    Some(VRegAlloc::RealReg(index)) => Ok(
                        Operand::Reg(self.allocation.registers[index as int].spec_of_size(size)),
                    ),
                    Some(VRegAlloc::Const(bytes)) => Ok(Operand::Im(bytes)),
                    Some(VRegAlloc::StackPtr(_)) => Err(CodegenError::Unimplemented),
                    None => Err(CodegenError::MalformedIr),
                }
            },
            IRInstruction::Load { id, .. } => match self.spec_address(id) {
                Ok(address) => Ok(Operand::WordPtr(size, address)),
                Err(error) => Err(error),
            },
            IRInstruction::String(_)
            | IRInstruction::Add(_, _, _)
            | IRInstruction::Sub(_, _, _)
            | IRInstruction::Mul(_, _, _)
            | IRInstruction::Div(_, _, _)
            | IRInstruction::Call { .. } => Err(CodegenError::Unimplemented),
            _ => Err(CodegenError::MalformedIr),
        }
    }

    /// Whether the virtual register `id` is a pointer to a stack slot.
    pub open spec fn spec_is_stack_pointer(self, instruction: IRInstruction) -> bool {
        instruction matches IRInstruction::Reg(_, id) && self.allocation.ids.contains_key(id)
            && self.allocation.location(id) matches Some(VRegAlloc::StackPtr(_))
    }

    /// The instructions that bring a value that needs no computation
    /// into the accumulator, seen at the given width.
    ///
    /// The address of a stack slot is loaded. An unsigned value of one or
    /// two bytes in a register or in memory is extended with zeros where
    /// the accumulator is wider. Everything else is moved.
    pub open spec fn spec_load(self, instruction: IRInstruction, size: X86WordSize) -> Result<
        Seq<Instruction>,
        CodegenError,
    > {
        if self.spec_is_stack_pointer(instruction) {
            match self.spec_address(instruction->Reg_1) {
                Ok(address) => Ok(
                    seq![Instruction::Lea(Operand::Reg(X64Register::Rax), Operand::Load(address))],
                ),
                Err(error) => Err(error),
            }
        } else {
            match self.spec_operand(instruction, size) {
                Err(error) => Err(error),
                Ok(operand) => match spec_dtype_of(instruction) {
                    None => Err(CodegenError::MalformedIr),
                    Some(dtype) => {
                        let own = spec_word_size_of(dtype);
                        if !(operand is Im) && spec_signedness_of(dtype) == Signedness::Unsigned
                            && own.spec_bytes() <= 2 && own.spec_bytes() < size.spec_bytes() {
                            match self.spec_operand(instruction, own) {
                                Err(error) => Err(error),
                                Ok(narrow) => Ok(
                                    seq![
                                        Instruction::Movzx(
                                            Operand::Reg(spec_accumulator(size)),
                                            narrow,
                                        ),
                                    ],
                                ),
                            }
                        } else {
                            Ok(seq![Instruction::Mov(Operand::Reg(spec_accumulator(size)), operand)])
                        }
                    },
                },
            }
        }
    }

    /// The instructions that compute the value of `instruction` in the
    /// accumulator, seen at the given width, in step `step` of the body.
    ///
    /// An operation computes its left operand in the accumulator at the
    /// width of its own type and applies its right operand to it; the
    /// type of the operation alone decides how the values are read. A call
    /// leaves its result in the accumulator.
    pub open spec fn spec_value(
        self,
        instruction: IRInstruction,
        size: X86WordSize,
        step: int,
    ) -> Result<Seq<Instruction>, CodegenError>
        decreases instruction,
    {
        match instruction {
            IRInstruction::Add(dtype, lhs, rhs)
            | IRInstruction::Sub(dtype, lhs, rhs)
            | IRInstruction::Mul(dtype, lhs, rhs)
            | IRInstruction::Div(dtype, lhs, rhs) => {
                let width = spec_word_size_of(dtype);
                match self.spec_value(*lhs, width, step) {
                    Err(error) => Err(error),
                    Ok(first) => match self.spec_operand(*rhs, width) {
                        Err(error) => Err(error),
                        Ok(second) => Ok(
                            first.push(
                                spec_arithmetic(
                                    instruction,
                                    spec_signedness_of(dtype),
                                    Operand::Reg(spec_accumulator(width)),
                                    second,
                                ),
                            ),
                        ),
                    },
                }
            },
            IRInstruction::Call { fn_name, args, .. } => self.spec_call(fn_name, args@, step),
            _ => self.spec_load(instruction, size),
        }
    }

    /// The instructions of a call in step `step` of the body.
    ///
    /// The real registers that are in use behind the step are saved on the
    /// stack and restored in the opposite order behind the call, so that no
    /// value is lost in the callee. The arguments are first all computed
    /// and put on the stack, the last one first, and then taken from there
    /// into the registers that carry them: no argument is read after the
    /// register of another has been written. A seventh argument cannot be
    /// passed.
    pub open spec fn spec_call(
        self,
        fn_name: String,
        arguments: Seq<IRInstruction>,
        step: int,
    ) -> Result<Seq<Instruction>, CodegenError> {
        if arguments.len() > ARGUMENT_REGISTERS {
            Err(CodegenError::Unimplemented)
        } else {
            match self.spec_staged(arguments, 0) {
                Err(error) => Err(error),
                Ok(staged) => Ok(
                    spec_pushes(self.allocation.living(step)) + staged + spec_pops(
                        spec_argument_registers(arguments.len()),
                    ) + seq![Instruction::Call(fn_name)] + spec_pops(
                        self.allocation.living(step).reverse(),
                    ),
                ),
            }
        }
    }

    /// The instructions that compute the arguments from `from` onwards
    /// and put them on the stack, the last one first: each is computed in
    /// the accumulator at the width of its own type.
    pub open spec fn spec_staged(self, arguments: Seq<IRInstruction>, from: int) -> Result<
        Seq<Instruction>,
        CodegenError,
    >
        decreases arguments.len() - from,
    {
        if from < 0 || from >= arguments.len() {
            Ok(Seq::empty())
        } else {
            match self.spec_staged(arguments, from + 1) {
                Err(error) => Err(error),
                Ok(behind) => match spec_dtype_of(arguments[from]) {
                    None => Err(CodegenError::MalformedIr),
                    Some(dtype) => match self.spec_load(arguments[from], spec_word_size_of(dtype)) {
                        Err(error) => Err(error),
                        Ok(load) => Ok(
                            (behind + load).push(
                                Instruction::Push(Operand::Reg(X64Register::Rax)),
                            ),
                        ),
                    },
                },
            }
        }
    }

    /// The instructions of one step of the body.
    ///
    /// A definition computes its value and moves it into the real register
    /// of the virtual register; stack space and constants need no
    /// instruction. A store computes its value and moves it to the address
    /// that the virtual register holds. A return computes its value in
    /// the accumulator.
    #[verifier::opaque]
    pub open spec fn spec_step(self, instruction: IRInstruction, step: int) -> Result<
        Seq<Instruction>,
        CodegenError,
    > {
        match instruction {
            IRInstruction::DefReg { id, rhs } => if !self.allocation.ids.contains_key(id) {
                Err(CodegenError::MalformedIr)
            } else {
                match self.allocation.location(id) {
                    Some(VRegAlloc::RealReg(index)) => match spec_dtype_of(*rhs) {
                        None => Err(CodegenError::MalformedIr),
                        Some(dtype) => {
                            let width = spec_word_size_of(dtype);
                            match self.spec_value(*rhs, width, step) {
                                Err(error) => Err(error),
                                Ok(value) => Ok(
                                    value.push(
                                        Instruction::Mov(
                                            Operand::Reg(
                                                self.allocation.registers[index as int].spec_of_size(
                                                    width,
                                                ),
                                            ),
                                            Operand::Reg(spec_accumulator(width)),
                                        ),
                                    ),
                                ),
                            }
                        },
                    },
                    Some(_) => Ok(Seq::empty()),
                    None => Err(CodegenError::MalformedIr),
                }
            },
            IRInstruction::Store { lhs_dtype, id, rhs } => {
                let width = spec_word_size_of(lhs_dtype);
                match self.spec_value(*rhs, width, step) {
                    Err(error) => Err(error),
                    Ok(value) => match self.spec_address(id) {
                        Err(error) => Err(error),
                        Ok(address) => Ok(
                            value.push(
                                Instruction::Mov(
                                    Operand::WordPtr(width, address),
                                    Operand::Reg(spec_accumulator(width)),
                                ),
                            ),
                        ),
                    },
                }
            },
            IRInstruction::Ret(Some(value)) => match spec_dtype_of(*value) {
                None => Err(CodegenError::MalformedIr),
                Some(dtype) => self.spec_value(*value, spec_word_size_of(dtype), step),
            },
            IRInstruction::Ret(None) => Ok(Seq::empty()),
            IRInstruction::Add(dtype, _, _)
            | IRInstruction::Sub(dtype, _, _)
            | IRInstruction::Mul(dtype, _, _)
            | IRInstruction::Div(dtype, _, _) => self.spec_value(
                instruction,
                spec_word_size_of(dtype),
                step,
            ),
            IRInstruction::Call { .. } => self.spec_value(instruction, X86WordSize::Qword, step),
            IRInstruction::Label(name) => Ok(seq![Instruction::Label(name)]),
            _ => Err(CodegenError::MalformedIr),
        }
    }

    /// The instructions of the first `count` steps of a body.
    pub open spec fn spec_body(self, body: Seq<IRInstruction>, count: int) -> Result<
        Seq<Instruction>,
        CodegenError,
    >
        decreases count,
    {
        if count <= 0 {
            Ok(Seq::empty())
        } else {
            match self.spec_body(body, count - 1) {
                Err(error) => Err(error),
                Ok(before) => match self.spec_step(body[count - 1], count - 1) {
                    Err(error) => Err(error),
                    Ok(step) => Ok(before + step),
                },
            }
        }
    }
}

/// One push for each of the registers, in their order.
pub open spec fn spec_pushes(registers: Seq<X64Register>) -> Seq<Instruction> {
    Seq::new(registers.len(), |i: int| Instruction::Push(Operand::Reg(registers[i])))
}

/// One pop for each of the registers, in their order.
pub open spec fn spec_pops(registers: Seq<X64Register>) -> Seq<Instruction> {
    Seq::new(registers.len(), |i: int| Instruction::Pop(Operand::Reg(registers[i])))
}

/// The registers that carry the first `count` arguments.
pub open spec fn spec_argument_registers(count: nat) -> Seq<X64Register> {
    Seq::new(count, |i: int| spec_argument_register(i))
}

/// The arithmetic instruction that stands for an operation of the
/// intermediate representation.
pub open spec fn spec_arithmetic(
    operation: IRInstruction,
    signedness: Signedness,
    first: Operand,
    second: Operand,
) -> Instruction {
    match operation {
        IRInstruction::Add(_, _, _) => Instruction::Add(signedness, first, second),
        IRInstruction::Sub(_, _, _) => Instruction::Sub(signedness, first, second),
        IRInstruction::Mul(_, _, _) => Instruction::Mul(signedness, first, second),
        _ => Instruction::Div(signedness, first, second),
    }
}


fn arithmetic(
    operation: &IRInstruction,
    signedness: Signedness,
    first: Operand,
    second: Operand,
) -> (instruction: Instruction)
    ensures
        instruction == spec_arithmetic(*operation, signedness, first, second),
{
    match operation {
        IRInstruction::Add(_, _, _) => Instruction::Add(signedness, first, second),
        IRInstruction::Sub(_, _, _) => Instruction::Sub(signedness, first, second),
        IRInstruction::Mul(_, _, _) => Instruction::Mul(signedness, first, second),
        _ => Instruction::Div(signedness, first, second),
    }
}

fn accumulator(size: X86WordSize) -> (register: X64Register)
    ensures
        register == spec_accumulator(size),
{
    X64Register::Rax.of_size(size)
}

impl<'a> Frame<'a> {
    /// The locations are those of a well-formed allocation.
    pub open spec fn wf(&self) -> bool {
        self.reg_map@.wf()
    }

    /// The address that the virtual register `id` holds.
    pub fn address(&self, id: u64) -> (result: Result<EvalTreeNode, CodegenError>)
        requires
            self.wf(),
        ensures
            result == self@.spec_address(id),
    {
        if !self.reg_map.contains_vreg(id) {
            return Err(CodegenError::MalformedIr);
        }
        match self.reg_map.get_alloced_reg(id) {
            Some(register) => Ok(EvalTreeNode::Reg(register)),
            None => match self.reg_map.get_alloced_const(id) {
                Some(bytes) => Ok(EvalTreeNode::Num(be_value(&bytes))),
                None => match self.reg_map.get_alloced_stackptr(id) {
                    Some(slot) => match self.reg_map.vreg_info(id) {
                        Some(info) => match info.content_kind {
                            VRegContentKind::StackSpace(size) => {
                                if slot >= self.stack.locations.len() {
                                    Err(CodegenError::MalformedIr)
                                } else {
                                    match self.stack.locations[slot].checked_add(size as usize) {
                                        None => Err(CodegenError::ResourceExhausted),
                                        Some(end) => Ok(
                                            EvalTreeNode::Sub(
                                                Box::new(EvalTreeNode::Reg(X64Register::Rbp)),
                                                Box::new(EvalTreeNode::Num(end as u64)),
                                            ),
                                        ),
                                    }
                                }
                            },
                            _ => Err(CodegenError::MalformedIr),
                        },
                        None => Err(CodegenError::MalformedIr),
                    },
                    None => Err(CodegenError::MalformedIr),
                },
            },
        }
    }

    /// The operand that stands for a value that needs no computation, at
    /// the given width.
    pub fn operand(&self, instruction: &IRInstruction, size: X86WordSize) -> (result: Result<
        Operand,
        CodegenError,
    >)
        requires
            self.wf(),
        ensures
            result == self@.spec_operand(*instruction, size),
    {
        match instruction {
            IRInstruction::UInt(_, value) => Ok(Operand::Im(be_bytes(*value))),
            IRInstruction::Int(_, value) => Ok(Operand::Im(be_bytes_signed(*value))),
            IRInstruction::Float(_, bits) => Ok(Operand::Im(be_bytes(*bits))),
            IRInstruction::Arg(_, position) => {
                if *position >= self.arg_count as u64 {
                    Err(CodegenError::MalformedIr)
                } else if *position >= ARGUMENT_REGISTERS as u64 {
                    Err(CodegenError::Unimplemented)
                } else {
                    Ok(Operand::Reg(argument_register(*position as usize).of_size(size)))
                }
            },
            IRInstruction::Reg(_, id) => {
                if !self.reg_map.contains_vreg(*id) {
                    return Err(CodegenError::MalformedIr);
                }
                match self.reg_map.get_alloced_reg(*id) {
                    Some(register) => Ok(Operand::Reg(register.of_size(size))),
                    None => match self.reg_map.get_alloced_const(*id) {
                        Some(bytes) => Ok(Operand::Im(bytes)),
                        None => match self.reg_map.get_alloced_stackptr(*id) {
                            Some(_) => Err(CodegenError::Unimplemented),
                            None => Err(CodegenError::MalformedIr),
                        },
                    },
                }
            },
            IRInstruction::Load { id, .. } => match self.address(*id) {
                Ok(address) => Ok(Operand::WordPtr(size, address)),
                Err(error) => Err(error),
            },
            IRInstruction::String(_)
            | IRInstruction::Add(_, _, _)
            | IRInstruction::Sub(_, _, _)
            | IRInstruction::Mul(_, _, _)
            | IRInstruction::Div(_, _, _)
            | IRInstruction::Call { .. } => Err(CodegenError::Unimplemented),
            _ => Err(CodegenError::MalformedIr),
        }
    }

    /// Whether the instruction reads a virtual register that is a pointer
    /// to a stack slot.
    fn is_stack_pointer(&self, instruction: &IRInstruction) -> (pointer: bool)
        requires
            self.wf(),
        ensures
            pointer == self@.spec_is_stack_pointer(*instruction),
    {
        match instruction {
            IRInstruction::Reg(_, id) => {
                if !self.reg_map.contains_vreg(*id) {
                    false
                } else {
                    match self.reg_map.get_alloced_stackptr(*id) {
                        Some(_) => true,
                        None => false,
                    }
                }
            },
            _ => false,
        }
    }

    /// The instructions that bring a value that needs no computation
    /// into the accumulator, seen at the given width.
    pub fn load(&self, instruction: &IRInstruction, size: X86WordSize) -> (result: Result<
        Vec<Instruction>,
        CodegenError,
    >)
        requires
            self.wf(),
        ensures
            match result {
                Ok(code) => self@.spec_load(*instruction, size) == Ok::<_, CodegenError>(code@),
                Err(error) => self@.spec_load(*instruction, size) == Err::<Seq<Instruction>, _>(
                    error,
                ),
            },
    {
        if self.is_stack_pointer(instruction) {
            let id: u64 = match instruction {
                IRInstruction::Reg(_, id) => *id,
                _ => 0,
            };
            return match self.address(id) {
                Ok(address) => {
                    let code = vec![
                        Instruction::Lea(Operand::Reg(X64Register::Rax), Operand::Load(address)),
                    ];
                    assert(code@ =~= seq![
                        Instruction::Lea(Operand::Reg(X64Register::Rax), Operand::Load(address)),
                    ]);
                    Ok(code)
                },
                Err(error) => Err(error),
            };
        }
        let operand = match self.operand(instruction, size) {
            Ok(operand) => operand,
            Err(error) => {
                return Err(error);
            },
        };
        let dtype = match dtype_of(instruction) {
            Some(dtype) => dtype,
            None => {
                return Err(CodegenError::MalformedIr);
            },
        };
        let own = word_size_of(dtype);
        let immediate = match operand {
            Operand::Im(_) => true,
            _ => false,
        };
        let unsigned = match signedness_of(dtype) {
            Signedness::Unsigned => true,
            _ => false,
        };
        if !immediate && unsigned && own.bytes() <= 2 && own.bytes() < size.bytes() {
            match self.operand(instruction, own) {
                Err(error) => Err(error),
                Ok(narrow) => {
                    let code = vec![Instruction::Movzx(Operand::Reg(accumulator(size)), narrow)];
                    assert(code@ =~= seq![
                        Instruction::Movzx(Operand::Reg(spec_accumulator(size)), narrow),
                    ]);
                    Ok(code)
                },
            }
        } else {
            let code = vec![Instruction::Mov(Operand::Reg(accumulator(size)), operand)];
            assert(code@ =~= seq![Instruction::Mov(Operand::Reg(spec_accumulator(size)), operand)]);
            Ok(code)
        }
    }

    /// The instructions that compute the arguments of a call and put
    /// them on the stack, the last one first.
    fn staged(&self, arguments: &Vec<IRInstruction>) -> (result: Result<
        Vec<Instruction>,
        CodegenError,
    >)
        requires
            self.wf(),
        ensures
            match result {
                Ok(code) => self@.spec_staged(arguments@, 0) == Ok::<_, CodegenError>(code@),
                Err(error) => self@.spec_staged(arguments@, 0) == Err::<Seq<Instruction>, _>(
                    error,
                ),
            },
    {
        let mut code: Vec<Instruction> = Vec::new();
        let mut i: usize = arguments.len();
        while i > 0
            invariant
                self.wf(),
                i <= arguments@.len(),
                self@.spec_staged(arguments@, i as int) == Ok::<_, CodegenError>(code@),
            decreases i,
        {
            i -= 1;
            let dtype = match dtype_of(&arguments[i]) {
                Some(dtype) => dtype,
                None => {
                    proof {
                        lemma_staged_fails_earlier(self@, arguments@, 0, i as int);
                    }
                    return Err(CodegenError::MalformedIr);
                },
            };
            let mut load = match self.load(&arguments[i], word_size_of(dtype)) {
                Ok(load) => load,
                Err(error) => {
                    proof {
                        lemma_staged_fails_earlier(self@, arguments@, 0, i as int);
                    }
                    return Err(error);
                },
            };
            code.append(&mut load);
            code.push(Instruction::Push(Operand::Reg(X64Register::Rax)));
        }
        Ok(code)
    }

    /// The instructions of a call in step `step` of the body.
    pub fn call(&self, fn_name: &String, arguments: &Vec<IRInstruction>, step: usize) -> (result:
        Result<Vec<Instruction>, CodegenError>)
        requires
            self.wf(),
            step < self@.allocation.steps(),
        ensures
            match result {
                Ok(code) => self@.spec_call(*fn_name, arguments@, step as int) == Ok::<
                    _,
                    CodegenError,
                >(code@),
                Err(error) => self@.spec_call(*fn_name, arguments@, step as int) == Err::<
                    Seq<Instruction>,
                    _,
                >(error),
            },
    {
        if arguments.len() > ARGUMENT_REGISTERS {
            return Err(CodegenError::Unimplemented);
        }
        let mut staged = match self.staged(arguments) {
            Ok(staged) => staged,
            Err(error) => {
                return Err(error);
            },
        };
        let mut carriers: Vec<X64Register> = Vec::new();
        let mut i: usize = 0;
        while i < arguments.len()
            invariant
                i <= arguments@.len(),
                arguments@.len() <= ARGUMENT_REGISTERS,
                carriers@ == spec_argument_registers(i as nat),
            decreases arguments@.len() - i,
        {
            carriers.push(argument_register(i));
            i += 1;
            assert(carriers@ =~= spec_argument_registers(i as nat));
        }
        let mut code = pushes(&self.reg_map.living_regs(step));
        code.append(&mut staged);
        let mut binds = pops(&carriers);
        code.append(&mut binds);
        code.push(Instruction::Call(fn_name.clone()));
        let mut restores = pops(&self.reg_map.living_regs_rev(step));
        code.append(&mut restores);
        assert(code@ =~= self@.spec_call(*fn_name, arguments@, step as int)->Ok_0);
        Ok(code)
    }

    /// The instructions that compute the value of `instruction` in the
    /// accumulator, seen at the given width, in step `step` of the body.
    pub fn value(&self, instruction: &IRInstruction, size: X86WordSize, step: usize) -> (result:
        Result<Vec<Instruction>, CodegenError>)
        requires
            self.wf(),
            step < self@.allocation.steps(),
        ensures
            match result {
                Ok(code) => self@.spec_value(*instruction, size, step as int) == Ok::<
                    _,
                    CodegenError,
                >(code@),
                Err(error) => self@.spec_value(*instruction, size, step as int) == Err::<
                    Seq<Instruction>,
                    _,
                >(error),
            },
        decreases instruction,
    {
        match instruction {
            IRInstruction::Add(dtype, lhs, rhs)
            | IRInstruction::Sub(dtype, lhs, rhs)
            | IRInstruction::Mul(dtype, lhs, rhs)
            | IRInstruction::Div(dtype, lhs, rhs) => {
                let width = word_size_of(*dtype);
                let mut code = match self.value(lhs, width, step) {
                    Ok(code) => code,
                    Err(error) => {
                        return Err(error);
                    },
                };
                let second = match self.operand(rhs, width) {
                    Ok(second) => second,
                    Err(error) => {
                        return Err(error);
                    },
                };
                code.push(
                    arithmetic(
                        instruction,
                        signedness_of(*dtype),
                        Operand::Reg(accumulator(width)),
                        second,
                    ),
                );
                Ok(code)
            },
            IRInstruction::Call { fn_name, args, .. } => self.call(fn_name, args, step),
            _ => self.load(instruction, size),
        }
    }

    /// The instructions of one step of the body.
    pub fn step(&self, instruction: &IRInstruction, step: usize) -> (result: Result<
        Vec<Instruction>,
        CodegenError,
    >)
        requires
            self.wf(),
            step < self@.allocation.steps(),
        ensures
            match result {
                Ok(code) => self@.spec_step(*instruction, step as int) == Ok::<_, CodegenError>(
                    code@,
                ),
                Err(error) => self@.spec_step(*instruction, step as int) == Err::<
                    Seq<Instruction>,
                    _,
                >(error),
            },
    {
        reveal(FrameView::spec_step);
        match instruction {
            IRInstruction::DefReg { id, rhs } => {
                if !self.reg_map.contains_vreg(*id) {
                    return Err(CodegenError::MalformedIr);
                }
                match self.reg_map.get_alloced_reg(*id) {
                    Some(register) => {
                        let dtype = match dtype_of(rhs) {
                            Some(dtype) => dtype,
                            None => {
                                return Err(CodegenError::MalformedIr);
                            },
                        };
                        let width = word_size_of(dtype);
                        let mut code = match self.value(rhs, width, step) {
                            Ok(code) => code,
                            Err(error) => {
                                return Err(error);
                            },
                        };
                        code.push(
                            Instruction::Mov(
                                Operand::Reg(register.of_size(width)),
                                Operand::Reg(accumulator(width)),
                            ),
                        );
                        Ok(code)
                    },
                    None => {
                        let constant = self.reg_map.get_alloced_const(*id);
                        let slot = self.reg_map.get_alloced_stackptr(*id);
                        if constant.is_some() || slot.is_some() {
                            Ok(Vec::new())
                        } else {
                            Err(CodegenError::MalformedIr)
                        }
                    },
                }
            },
            IRInstruction::Store { lhs_dtype, id, rhs } => {
                let width = word_size_of(*lhs_dtype);
                let mut code = match self.value(rhs, width, step) {
                    Ok(code) => code,
                    Err(error) => {
                        return Err(error);
                    },
                };
                let address = match self.address(*id) {
                    Ok(address) => address,
                    Err(error) => {
                        return Err(error);
                    },
                };
                code.push(
                    Instruction::Mov(
                        Operand::WordPtr(width, address),
                        Operand::Reg(accumulator(width)),
                    ),
                );
                Ok(code)
            },
            IRInstruction::Ret(Some(value)) => match dtype_of(value) {
                None => Err(CodegenError::MalformedIr),
                Some(dtype) => self.value(value, word_size_of(dtype), step),
            },
            IRInstruction::Ret(None) => Ok(Vec::new()),
            IRInstruction::Add(dtype, _, _)
            | IRInstruction::Sub(dtype, _, _)
            | IRInstruction::Mul(dtype, _, _)
            | IRInstruction::Div(dtype, _, _) => self.value(
                instruction,
                word_size_of(*dtype),
                step,
            ),
            IRInstruction::Call { .. } => self.value(instruction, X86WordSize::Qword, step),
            IRInstruction::Label(name) => {
                let code = vec![Instruction::Label(name.clone())];
                assert(code@ =~= seq![Instruction::Label(*name)]);
                Ok(code)
            },
            _ => Err(CodegenError::MalformedIr),
        }
    }

    /// The instructions of all steps of a body.
    pub fn body(&self, body: &Vec<IRInstruction>) -> (result: Result<
        Vec<Instruction>,
        CodegenError,
    >)
        requires
            self.wf(),
            body@.len() <= self@.allocation.steps(),
        ensures
            match result {
                Ok(code) => self@.spec_body(body@, body@.len() as int) == Ok::<_, CodegenError>(
                    code@,
                ),
                Err(error) => self@.spec_body(body@, body@.len() as int) == Err::<
                    Seq<Instruction>,
                    _,
                >(error),
            },
    {
        let mut code: Vec<Instruction> = Vec::new();
        let mut i: usize = 0;
        while i < body.len()
            invariant
                self.wf(),
                i <= body@.len(),
                body@.len() <= self@.allocation.steps(),
                self@.spec_body(body@, i as int) == Ok::<_, CodegenError>(code@),
            decreases body@.len() - i,
        {
            let mut step = match self.step(&body[i], i) {
                Ok(step) => step,
                Err(error) => {
                    proof {
                        lemma_body_fails_later(self@, body@, i as int + 1, body@.len() as int);
                    }
                    return Err(error);
                },
            };
            code.append(&mut step);
            i += 1;
        }
        Ok(code)
    }
}

/// Once an argument cannot be put on the stack, the error stays.
proof fn lemma_staged_fails_earlier(
    frame: FrameView,
    arguments: Seq<IRInstruction>,
    from: int,
    failing: int,
)
    requires
        0 <= from <= failing < arguments.len(),
        frame.spec_staged(arguments, failing) is Err,
    ensures
        frame.spec_staged(arguments, from) == frame.spec_staged(arguments, failing),
    decreases failing - from,
{
    if from < failing {
        lemma_staged_fails_earlier(frame, arguments, from + 1, failing);
    }
}

fn pushes(registers: &Vec<X64Register>) -> (code: Vec<Instruction>)
    ensures
        code@ == spec_pushes(registers@),
{
    let mut code: Vec<Instruction> = Vec::new();
    let mut i: usize = 0;
    while i < registers.len()
        invariant
            i <= registers@.len(),
            code@ == spec_pushes(registers@.take(i as int)),
        decreases registers@.len() - i,
    {
        code.push(Instruction::Push(Operand::Reg(registers[i])));
        i += 1;
        assert(code@ =~= spec_pushes(registers@.take(i as int)));
    }
    assert(registers@.take(i as int) =~= registers@);
    code
}

fn pops(registers: &Vec<X64Register>) -> (code: Vec<Instruction>)
    ensures
        code@ == spec_pops(registers@),
{
    let mut code: Vec<Instruction> = Vec::new();
    let mut i: usize = 0;
    while i < registers.len()
        invariant
            i <= registers@.len(),
            code@ == spec_pops(registers@.take(i as int)),
        decreases registers@.len() - i,
    {
        code.push(Instruction::Pop(Operand::Reg(registers[i])));
        i += 1;
        assert(code@ =~= spec_pops(registers@.take(i as int)));
    }
    assert(registers@.take(i as int) =~= registers@);
    code
}

/// Once a step cannot be lowered, the error stays.
proof fn lemma_body_fails_later(frame: FrameView, body: Seq<IRInstruction>, count: int, more: int)
    requires
        0 <= count <= more,
        frame.spec_body(body, count) is Err,
    ensures
        frame.spec_body(body, more) == frame.spec_body(body, count),
    decreases more - count,
{
    if count < more {
        lemma_body_fails_later(frame, body, count, more - 1);
    }
}


/// A call with more arguments than there are argument registers is not
/// implemented, whatever its arguments are and wherever it stands: as a
/// step of its own, as the value of a definition or of a return.
pub proof fn lemma_seventh_argument_is_unimplemented(
    frame: FrameView,
    call: IRInstruction,
    size: X86WordSize,
    step: int,
    id: u64,
    index: usize,
)
    requires
        call matches IRInstruction::Call { args, .. } && args@.len() > ARGUMENT_REGISTERS,
    ensures
        frame.spec_value(call, size, step) == Err::<Seq<Instruction>, _>(
            CodegenError::Unimplemented,
        ),
        frame.spec_step(call, step) == Err::<Seq<Instruction>, _>(CodegenError::Unimplemented),
        call->Call_ret_type is Some ==> frame.spec_step(
            IRInstruction::Ret(Some(Box::new(call))),
            step,
        ) == Err::<Seq<Instruction>, _>(CodegenError::Unimplemented),
        call->Call_ret_type is Some && frame.allocation.ids.contains_key(id)
            && frame.allocation.location(id) == Some(VRegAlloc::RealReg(index)) ==> frame.spec_step(
            IRInstruction::DefReg { id, rhs: Box::new(call) },
            step,
        ) == Err::<Seq<Instruction>, _>(CodegenError::Unimplemented),
{
    reveal(FrameView::spec_step);
}

} // verus!
