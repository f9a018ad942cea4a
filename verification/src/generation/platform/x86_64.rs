//! Code generation for x86-64: the instruction model, instruction
//! selection and the assembly text.
pub mod reg;
pub mod select;

use vstd::prelude::*;
use vstd::string::StringExecFns;
use crate::error::CodegenError;
use crate::fileformat::FileFormat;
use crate::generation::bytes::{be_value, spec_be_value};
pub use crate::generation::platform::x86_64::reg::{X64Register, X86WordSize};
use crate::generation::platform::x86_64::select::{Frame, FrameView, WORD_SIZE};
use crate::generation::stack_alloc::{fits_alignment, frame_depth, slot_offset, StackAllocator};
use crate::generation::str_fmt::{decimal, spec_decimal};
use crate::generation::vreg_alloc::{generated, VRegAllocation};
use crate::ir::{DataType, Instruction as IRInstruction, TopLevel as IRTopLevel};

verus! {

/// How the values of an arithmetic instruction are to be read.
#[derive(Debug, Clone, Copy, PartialEq, Eq, Structural)]
pub enum Signedness {
    Unsigned,
    Signed,
    Float,
}

impl Signedness {
    /// What is put in front of the mnemonic of an arithmetic instruction:
    /// `i` for signed values, `f` for floating-point values, nothing for
    /// unsigned values.
    pub open spec fn spec_prefix(self) -> Seq<char> {
        match self {
            Signedness::Unsigned => ""@,
            Signedness::Signed => "i"@,
            Signedness::Float => "f"@,
        }
    }

    /// What is put in front of the mnemonic of an arithmetic instruction.
    pub fn prefix(self) -> (text: &'static str)
        ensures
            text@ == self.spec_prefix(),
    {
        match self {
            Signedness::Unsigned => "",
            Signedness::Signed => "i",
            Signedness::Float => "f",
        }
    }
}

/// An address computation inside the square brackets of a memory operand.
#[derive(Debug, PartialEq)]
pub enum EvalTreeNode {
    Add(Box<EvalTreeNode>, Box<EvalTreeNode>),
    Sub(Box<EvalTreeNode>, Box<EvalTreeNode>),
    Mul(Box<EvalTreeNode>, Box<EvalTreeNode>),
    Num(u64),
    Reg(X64Register),
}

impl EvalTreeNode {
    /// How tightly the node binds: a product binds tighter than a sum or
    /// a difference, a number or a register tighter than a product.
    pub open spec fn spec_priority(self) -> usize {
        match self {
            EvalTreeNode::Add(_, _) => 0,
            EvalTreeNode::Sub(_, _) => 0,
            EvalTreeNode::Mul(_, _) => 1,
            EvalTreeNode::Num(_) => 2,
            EvalTreeNode::Reg(_) => 2,
        }
    }

    /// The sign of the operation, and the null character for a leaf.
    pub open spec fn spec_op_char(self) -> char {
        match self {
            EvalTreeNode::Add(_, _) => '+',
            EvalTreeNode::Sub(_, _) => '-',
            EvalTreeNode::Mul(_, _) => '*',
            EvalTreeNode::Num(_) => '\0',
            EvalTreeNode::Reg(_) => '\0',
        }
    }

    /// The text of the sign of the operation.
    pub open spec fn spec_op_text(self) -> Seq<char> {
        match self {
            EvalTreeNode::Add(_, _) => "+"@,
            EvalTreeNode::Sub(_, _) => "-"@,
            EvalTreeNode::Mul(_, _) => "*"@,
            EvalTreeNode::Num(_) => ""@,
            EvalTreeNode::Reg(_) => ""@,
        }
    }

    /// The text of the computation.
    pub open spec fn spec_text(self) -> Seq<char>
        decreases self,
    {
        match self {
            EvalTreeNode::Add(lhs, rhs)
            | EvalTreeNode::Sub(lhs, rhs)
            | EvalTreeNode::Mul(lhs, rhs) => (if lhs.spec_priority() < self.spec_priority() {
                "("@ + lhs.spec_text() + ")"@
            } else {
                lhs.spec_text()
            }) + self.spec_op_text() + (if rhs.spec_priority() < self.spec_priority() {
                "("@ + rhs.spec_text() + ")"@
            } else {
                rhs.spec_text()
            }),
            EvalTreeNode::Num(value) => spec_decimal(value as nat),
            EvalTreeNode::Reg(register) => register.spec_mnemonic(),
        }
    }

    /// How tightly the node binds.
    pub fn priority(&self) -> (priority: usize)
        ensures
            priority == self.spec_priority(),
    {
        match self {
            Self::Add(_, _) => 0,
            Self::Sub(_, _) => 0,
            Self::Mul(_, _) => 1,
            Self::Num(_) => 2,
            Self::Reg(_) => 2,
        }
    }

    /// The sign of the operation, and the null character for a leaf.
    pub fn op_char(&self) -> (sign: char)
        ensures
            sign == self.spec_op_char(),
    {
        match self {
            Self::Add(_, _) => '+',
            Self::Sub(_, _) => '-',
            Self::Mul(_, _) => '*',
            Self::Num(_) => '\0',
            Self::Reg(_) => '\0',
        }
    }

    fn op_text(&self) -> (sign: &'static str)
        ensures
            sign@ == self.spec_op_text(),
    {
        match self {
            Self::Add(_, _) => "+",
            Self::Sub(_, _) => "-",
            Self::Mul(_, _) => "*",
            Self::Num(_) => "",
            Self::Reg(_) => "",
        }
    }

    /// The text of the computation.
    pub fn to_string(&self) -> (text: String)
        ensures
            text@ == self.spec_text(),
        decreases self,
    {
        match self {
            Self::Add(lhs, rhs) | Self::Sub(lhs, rhs) | Self::Mul(lhs, rhs) => {
                let mut text = String::new();
                if lhs.priority() < self.priority() {
                    text.append("(");
                    text.append(lhs.to_string().as_str());
                    text.append(")");
                } else {
                    text.append(lhs.to_string().as_str());
                }
                text.append(self.op_text());
                if rhs.priority() < self.priority() {
                    text.append("(");
                    text.append(rhs.to_string().as_str());
                    text.append(")");
                } else {
                    text.append(rhs.to_string().as_str());
                }
                assert(text@ =~= self.spec_text());
                text
            },
            Self::Num(num) => decimal(*num),
            Self::Reg(reg) => reg.to_string(),
        }
    }
}

/// One operand of an instruction.
#[derive(Debug, PartialEq)]
pub enum Operand {
    Reg(X64Register),
    /// An immediate value, most significant byte first.
    Im([u8; 8]),
    Label(String),
    /// The address inside the brackets.
    Load(EvalTreeNode),
    /// Memory of the given width at the address inside the brackets.
    WordPtr(X86WordSize, EvalTreeNode),
}

impl Operand {
    /// The text of the operand.
    pub open spec fn spec_text(self, file_format: FileFormat) -> Seq<char> {
        match self {
            Operand::Reg(register) => register.spec_mnemonic(),
            Operand::Im(bytes) => spec_decimal(spec_be_value(bytes) as nat),
            Operand::Label(name) => file_format.spec_label(name@),
            Operand::Load(tree) => "["@ + tree.spec_text() + "]"@,
            Operand::WordPtr(size, tree) => size.spec_asm() + " ["@ + tree.spec_text() + "]"@,
        }
    }

    /// Whether the operand is the immediate value zero.
    pub open spec fn spec_is_zero(self) -> bool {
        self matches Operand::Im(bytes) && spec_be_value(bytes) == 0
    }

    /// The text of the operand.
    pub fn gen_code(&self, file_format: FileFormat) -> (code: String)
        ensures
            code@ == self.spec_text(file_format),
    {
        match self {
            Self::Reg(reg) => reg.to_string(),
            Self::Im(bytes) => decimal(be_value(bytes)),
            Self::Label(name) => file_format.label(name.clone()),
            Self::Load(eval_tree) => {
                let mut code = String::from_str("[");
                code.append(eval_tree.to_string().as_str());
                code.append("]");
                code
            },
            Self::WordPtr(size, eval_tree) => {
                let mut code = size.fmt_into_asm();
                code.append(" [");
                code.append(eval_tree.to_string().as_str());
                code.append("]");
                code
            },
        }
    }

    /// Whether the operand is the immediate value zero.
    pub fn is_zero(&self) -> (zero: bool)
        ensures
            zero == self.spec_is_zero(),
    {
        match self {
            Self::Im(bytes) => be_value(bytes) == 0,
            _ => false,
        }
    }
}


/// One line, or one fixed group of lines, of the assembly.
#[derive(Debug, PartialEq)]
pub enum Instruction {
    /// Declares a symbol global and defines it.
    GlobalLabel(String),
    Label(String),
    /// Saves the frame pointer and establishes the frame.
    FnProlog,
    /// Restores the frame pointer and returns.
    FnEpilog,
    Ret,
    /// Reserves that many bytes of stack.
    AllocStack(u64),
    /// Releases that many bytes of stack.
    DeallocStack(u64),
    Push(Operand),
    Pop(Operand),
    Mov(Operand, Operand),
    Movzx(Operand, Operand),
    Lea(Operand, Operand),
    Add(Signedness, Operand, Operand),
    Sub(Signedness, Operand, Operand),
    Mul(Signedness, Operand, Operand),
    Div(Signedness, Operand, Operand),
    Call(String),
}

/// The text of an instruction with two operands: a tab, the mnemonic, a
/// tab, the operands with a comma between them, and a line break.
pub open spec fn spec_binary_text(
    mnemonic: Seq<char>,
    first: Operand,
    second: Operand,
    file_format: FileFormat,
) -> Seq<char> {
    "\t"@ + mnemonic + "\t"@ + first.spec_text(file_format) + ", "@ + second.spec_text(
        file_format,
    ) + "\n"@
}

impl Instruction {
    /// The text of the instruction, with the line break at its end.
    ///
    /// A move of zero into a register is written as the exclusive or of
    /// the register with itself.
    pub open spec fn spec_text(self, file_format: FileFormat) -> Seq<char> {
        match self {
            Instruction::GlobalLabel(name) => "\tglobal\t"@ + file_format.spec_label(name@) + "\n"@
                + file_format.spec_label(name@) + ":\n"@,
            Instruction::Label(name) => file_format.spec_label(name@) + ":\n"@,
            Instruction::FnProlog => "\tpush\trbp\n\tmov\trbp, rsp\n"@,
            Instruction::FnEpilog => "\tpop\trbp\n\tret\n"@,
            Instruction::Ret => "\tret\n"@,
            Instruction::AllocStack(depth) => "\tsub\trsp, "@ + spec_decimal(depth as nat) + "\n"@,
            Instruction::DeallocStack(depth) => "\tadd\trsp, "@ + spec_decimal(depth as nat)
                + "\n"@,
            Instruction::Push(operand) => "\tpush\t"@ + operand.spec_text(file_format) + "\n"@,
            Instruction::Pop(operand) => "\tpop\t"@ + operand.spec_text(file_format) + "\n"@,
            Instruction::Mov(first, second) => if first is Reg && second.spec_is_zero() {
                spec_binary_text("xor"@, first, first, file_format)
            } else {
                spec_binary_text("mov"@, first, second, file_format)
            },
            Instruction::Movzx(first, second) => spec_binary_text(
                "movzx"@,
                first,
                second,
                file_format,
            ),
            Instruction::Lea(first, second) => spec_binary_text("lea"@, first, second, file_format),
            Instruction::Add(signedness, first, second) => spec_binary_text(
                signedness.spec_prefix() + "add"@,
                first,
                second,
                file_format,
            ),
            Instruction::Sub(signedness, first, second) => spec_binary_text(
                signedness.spec_prefix() + "sub"@,
                first,
                second,
                file_format,
            ),
            Instruction::Mul(signedness, first, second) => spec_binary_text(
                signedness.spec_prefix() + "mul"@,
                first,
                second,
                file_format,
            ),
            Instruction::Div(signedness, first, second) => spec_binary_text(
                signedness.spec_prefix() + "div"@,
                first,
                second,
                file_format,
            ),
            Instruction::Call(name) => "\tcall\t"@ + file_format.spec_label(name@) + "\n"@,
        }
    }

    /// The text of the instruction, with the line break at its end.
    pub fn gen_code(&self, file_format: FileFormat) -> (code: String)
        ensures
            code@ == self.spec_text(file_format),
    {
        match self {
            Instruction::GlobalLabel(name) => {
                let mangled = file_format.label(name.clone());
                let mut code = String::from_str("\tglobal\t");
                code.append(mangled.as_str());
                code.append("\n");
                code.append(mangled.as_str());
                code.append(":\n");
                code
            },
            Instruction::Label(name) => {
                let mut code = file_format.label(name.clone());
                code.append(":\n");
                code
            },
            Instruction::FnProlog => String::from_str("\tpush\trbp\n\tmov\trbp, rsp\n"),
            Instruction::FnEpilog => String::from_str("\tpop\trbp\n\tret\n"),
            Instruction::Ret => String::from_str("\tret\n"),
            Instruction::AllocStack(depth) => {
                let mut code = String::from_str("\tsub\trsp, ");
                code.append(decimal(*depth).as_str());
                code.append("\n");
                code
            },
            Instruction::DeallocStack(depth) => {
                let mut code = String::from_str("\tadd\trsp, ");
                code.append(decimal(*depth).as_str());
                code.append("\n");
                code
            },
            Instruction::Push(operand) => {
                let mut code = String::from_str("\tpush\t");
                code.append(operand.gen_code(file_format).as_str());
                code.append("\n");
                code
            },
            Instruction::Pop(operand) => {
                let mut code = String::from_str("\tpop\t");
                code.append(operand.gen_code(file_format).as_str());
                code.append("\n");
                code
            },
            Instruction::Mov(oper0, oper1) => {
                let to_register = match oper0 {
                    Operand::Reg(_) => true,
                    _ => false,
                };
                if to_register && oper1.is_zero() {
                    binary_code(String::from_str("xor"), oper0, oper0, file_format)
                } else {
                    binary_code(String::from_str("mov"), oper0, oper1, file_format)
                }
            },
            Instruction::Movzx(oper0, oper1) => binary_code(
                String::from_str("movzx"),
                oper0,
                oper1,
                file_format,
            ),
            Instruction::Lea(oper0, oper1) => binary_code(
                String::from_str("lea"),
                oper0,
                oper1,
                file_format,
            ),
            Instruction::Add(signedness, oper0, oper1) => binary_code(
                String::from_str(signedness.prefix()).concat("add"),
                oper0,
                oper1,
                file_format,
            ),
            Instruction::Sub(signedness, oper0, oper1) => binary_code(
                String::from_str(signedness.prefix()).concat("sub"),
                oper0,
                oper1,
                file_format,
            ),
            Instruction::Mul(signedness, oper0, oper1) => binary_code(
                String::from_str(signedness.prefix()).concat("mul"),
                oper0,
                oper1,
                file_format,
            ),
            Instruction::Div(signedness, oper0, oper1) => binary_code(
                String::from_str(signedness.prefix()).concat("div"),
                oper0,
                oper1,
                file_format,
            ),
            Instruction::Call(name) => {
                let mut code = String::from_str("\tcall\t");
                code.append(file_format.label(name.clone()).as_str());
                code.append("\n");
                code
            },
        }
    }
}

fn binary_code(mnemonic: String, first: &Operand, second: &Operand, file_format: FileFormat) -> (code:
    String)
    ensures
        code@ == spec_binary_text(mnemonic@, *first, *second, file_format),
{
    let mut code = String::from_str("\t");
    code.append(mnemonic.as_str());
    code.append("\t");
    code.append(first.gen_code(file_format).as_str());
    code.append(", ");
    code.append(second.gen_code(file_format).as_str());
    code.append("\n");
    code
}

/// The text of the first `count` of `instructions`, one after the other.
pub open spec fn asm_text(file_format: FileFormat, instructions: Seq<Instruction>, count: int) -> Seq<
    char,
>
    decreases count,
{
    if count <= 0 {
        Seq::empty()
    } else {
        asm_text(file_format, instructions, count - 1) + instructions[count - 1].spec_text(
            file_format,
        )
    }
}

/// Writes the assembly text of `instructions` behind what `target` holds.
pub fn gen_asm_from_model(
    file_format: FileFormat,
    instructions: Vec<Instruction>,
    target: &mut String,
)
    ensures
        final(target)@ == old(target)@ + asm_text(
            file_format,
            instructions@,
            instructions@.len() as int,
        ),
{
    let mut i: usize = 0;
    assert(target@ =~= old(target)@ + asm_text(file_format, instructions@, 0));
    while i < instructions.len()
        invariant
            i <= instructions@.len(),
            target@ == old(target)@ + asm_text(file_format, instructions@, i as int),
        decreases instructions@.len() - i,
    {
        let code = instructions[i].gen_code(file_format);
        target.append(code.as_str());
        i += 1;
        assert(target@ =~= old(target)@ + asm_text(file_format, instructions@, i as int));
    }
}


/// The offsets of the stack slots with the given sizes from the frame base.
pub open spec fn spec_frame_offsets(requests: Seq<u8>) -> Seq<usize> {
    Seq::new(requests.len(), |j: int| slot_offset(requests, WORD_SIZE as int, 0, j) as usize)
}

/// The steps of a function between what opens and what closes its frame:
/// the global label of the function, the prologue, the steps, and the
/// epilogue. Stack is reserved behind the prologue and released in front
/// of the epilogue only where the frame is not empty.
pub open spec fn spec_framed(name: String, depth: u64, steps: Seq<Instruction>) -> Seq<
    Instruction,
> {
    seq![Instruction::GlobalLabel(name), Instruction::FnProlog] + (if depth != 0 {
        seq![Instruction::AllocStack(depth)]
    } else {
        Seq::empty()
    }) + steps + (if depth != 0 {
        seq![Instruction::DeallocStack(depth)]
    } else {
        Seq::empty()
    }) + seq![Instruction::FnEpilog]
}

fn framed(name: String, depth: u64, steps: Vec<Instruction>) -> (code: Vec<Instruction>)
    ensures
        code@ == spec_framed(name, depth, steps@),
{
    let ghost selected = steps@;
    let mut steps = steps;
    let mut code: Vec<Instruction> = Vec::new();
    code.push(Instruction::GlobalLabel(name));
    code.push(Instruction::FnProlog);
    if depth != 0 {
        code.push(Instruction::AllocStack(depth));
    }
    code.append(&mut steps);
    if depth != 0 {
        code.push(Instruction::DeallocStack(depth));
    }
    code.push(Instruction::FnEpilog);
    assert(code@ =~= spec_framed(name, depth, selected));
    code
}

/// The instructions of one function.
///
/// The virtual registers of the body get their locations and the stack
/// slots their offsets; then the steps of the body are selected in their
/// order and framed.
pub open spec fn spec_function(name: String, arg_count: nat, body: Seq<IRInstruction>) -> Result<
    Seq<Instruction>,
    CodegenError,
> {
    match generated::<X64Register>(body, 0) {
        Err(error) => Err(error),
        Ok((allocation, requests)) => if !fits_alignment(requests, WORD_SIZE as int)
            || frame_depth(requests, WORD_SIZE as int, 0) > usize::MAX {
            Err(CodegenError::ResourceExhausted)
        } else {
            let frame = FrameView {
                allocation,
                offsets: spec_frame_offsets(requests),
                arg_count,
            };
            let depth = frame_depth(requests, WORD_SIZE as int, 0) as u64;
            match frame.spec_body(body, body.len() as int) {
                Err(error) => Err(error),
                Ok(steps) => Ok(spec_framed(name, depth, steps)),
            }
        },
    }
}

/// The instructions of the first `count` items of a program. A function
/// that is defined elsewhere cannot be handled yet.
pub open spec fn spec_program(ir: Seq<IRTopLevel>, count: int) -> Result<
    Seq<Instruction>,
    CodegenError,
>
    decreases count,
{
    if count <= 0 {
        Ok(Seq::empty())
    } else {
        match spec_program(ir, count - 1) {
            Err(error) => Err(error),
            Ok(before) => match ir[count - 1] {
                IRTopLevel::Extern(_) => Err(CodegenError::Unimplemented),
                IRTopLevel::Fn { name, args, body } => match spec_function(
                    name,
                    args@.len(),
                    body@,
                ) {
                    Err(error) => Err(error),
                    Ok(function) => Ok(before + function),
                },
            },
        }
    }
}

/// Generates the instructions of a program.
pub fn gen_code(ir: Vec<IRTopLevel>) -> (result: Result<Vec<Instruction>, CodegenError>)
    ensures
        match result {
            Ok(code) => spec_program(ir@, ir@.len() as int) == Ok::<_, CodegenError>(code@),
            Err(error) => spec_program(ir@, ir@.len() as int) == Err::<Seq<Instruction>, _>(
                error,
            ),
        },
{
    let mut generated: Vec<Instruction> = Vec::new();
    let mut i: usize = 0;
    while i < ir.len()
        invariant
            i <= ir@.len(),
            spec_program(ir@, i as int) == Ok::<_, CodegenError>(generated@),
        decreases ir@.len() - i,
    {
        let outcome = match &ir[i] {
            IRTopLevel::Extern(_) => Err(CodegenError::Unimplemented),
            IRTopLevel::Fn { name, args, body } => gen_inside_fn(
                name.clone(),
                args,
                body,
                &mut generated,
            ),
        };
        match outcome {
            Ok(()) => {},
            Err(error) => {
                proof {
                    lemma_program_fails_later(ir@, i as int + 1, ir@.len() as int);
                }
                return Err(error);
            },
        }
        i += 1;
    }
    Ok(generated)
}

/// Generates the instructions of one function behind what `target` holds.
/// Where the function cannot be compiled `target` keeps what it held.
pub fn gen_inside_fn(
    name: String,
    args: &Vec<DataType>,
    body: &Vec<IRInstruction>,
    target: &mut Vec<Instruction>,
) -> (result: Result<(), CodegenError>)
    ensures
        match spec_function(name, args@.len(), body@) {
            Ok(code) => result is Ok && final(target)@ == old(target)@ + code,
            Err(error) => result == Err::<(), _>(error) && final(target)@ == old(target)@,
        },
{
    let mut stack_allocator = StackAllocator::new(WORD_SIZE as usize, 0);
    let reg_map = match VRegAllocation::<X64Register>::generate_from(body, &mut stack_allocator) {
        Ok(reg_map) => reg_map,
        Err(error) => {
            return Err(error);
        },
    };
    let ghost requests = stack_allocator.sizes();
    assert(requests =~= generated::<X64Register>(body@, 0)->Ok_0.1);
    let stack = match stack_allocator.allocate() {
        Ok(stack) => stack,
        Err(error) => {
            return Err(error);
        },
    };
    assert(stack.locations@ =~= spec_frame_offsets(requests));
    let frame = Frame { reg_map: &reg_map, stack: &stack, arg_count: args.len() };
    assert(frame@.allocation.steps() == body@.len());
    let steps = match frame.body(body) {
        Ok(steps) => steps,
        Err(error) => {
            return Err(error);
        },
    };
    let mut code = framed(name, stack.stack_depth as u64, steps);
    target.append(&mut code);
    Ok(())
}

/// Once an item cannot be compiled, the error stays.
proof fn lemma_program_fails_later(ir: Seq<IRTopLevel>, count: int, more: int)
    requires
        0 <= count <= more,
        spec_program(ir, count) is Err,
    ensures
        spec_program(ir, more) == spec_program(ir, count),
    decreases more - count,
{
    if count < more {
        lemma_program_fails_later(ir, count, more - 1);
    }
}

} // verus!
