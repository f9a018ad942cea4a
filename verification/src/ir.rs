//! The intermediate representation consumed by the backend.
use vstd::prelude::*;

verus! {

/// The scalar types an IR value can have.
#[derive(Debug, Clone, Copy, PartialEq, Eq, Structural)]
pub enum DataType {
    U64,
    U32,
    U16,
    U8,
    USize,
    I64,
    I32,
    I16,
    I8,
    ISize,
    F64,
    F32,
    Ptr,
}

impl DataType {
    /// The width of the type in bytes as a mathematical value.
    pub open spec fn spec_size(self, word_size: u8) -> u8 {
        match self {
            DataType::U64 | DataType::I64 | DataType::F64 => 8,
            DataType::U32 | DataType::I32 | DataType::F32 => 4,
            DataType::U16 | DataType::I16 => 2,
            DataType::U8 | DataType::I8 => 1,
            DataType::USize | DataType::ISize | DataType::Ptr => word_size,
        }
    }

    /// Size of the data type in bytes (8, 4, 2, 1).
    /// Pointer-sized types have size `word_size`.
    pub fn size(self, word_size: u8) -> (bytes: u8)
        ensures
            bytes == self.spec_size(word_size),
    {
        match self {
            DataType::U64 | DataType::I64 | DataType::F64 => 8,
            DataType::U32 | DataType::I32 | DataType::F32 => 4,
            DataType::U16 | DataType::I16 => 2,
            DataType::U8 | DataType::I8 => 1,
            DataType::USize | DataType::ISize | DataType::Ptr => word_size,
        }
    }
}


/// One node of the instruction tree of a function body.
///
/// The steps of a body are `DefReg`, `Store`, `Ret`, `Call`, `Label` and
/// the four arithmetic operations; the other variants are operands.
#[derive(Debug, PartialEq)]
pub enum Instruction {
    /// The argument of the function with that position.
    Arg(DataType, u64),
    /// The value of a virtual register.
    Reg(DataType, u64),
    UInt(DataType, u64),
    Int(DataType, i64),
    /// A floating-point literal, given by the bits of its double-precision
    /// encoding.
    Float(DataType, u64),
    String(Vec<u8>),
    Add(DataType, Box<Instruction>, Box<Instruction>),
    Sub(DataType, Box<Instruction>, Box<Instruction>),
    Mul(DataType, Box<Instruction>, Box<Instruction>),
    Div(DataType, Box<Instruction>, Box<Instruction>),
    /// The value at the address held by a virtual register.
    Load { id: u64, dtype: DataType },
    /// Space on the stack for one value of that type.
    Alloc(DataType),
    /// Defines a virtual register.
    DefReg { id: u64, rhs: Box<Instruction> },
    /// Writes to the address held by a virtual register.
    Store { lhs_dtype: DataType, id: u64, rhs: Box<Instruction> },
    Ret(Option<Box<Instruction>>),
    Call { ret_type: Option<DataType>, fn_name: String, args: Vec<Instruction> },
    Label(String),
}

impl Instruction {
    /// The virtual registers that the instruction refers to, in the order
    /// in which it reads them.
    pub open spec fn uses(self) -> Seq<u64>
        decreases self, 0int,
    {
        match self {
            Instruction::Reg(_, id) => seq![id],
            Instruction::Load { id, .. } => seq![id],
            Instruction::Add(_, lhs, rhs)
            | Instruction::Sub(_, lhs, rhs)
            | Instruction::Mul(_, lhs, rhs)
            | Instruction::Div(_, lhs, rhs) => lhs.uses() + rhs.uses(),
            Instruction::DefReg { rhs, .. } => rhs.uses(),
            Instruction::Store { id, rhs, .. } => seq![id] + rhs.uses(),
            Instruction::Ret(Some(value)) => value.uses(),
            Instruction::Call { args, .. } => Self::uses_of_first(args@, args@.len() as int),
            _ => Seq::empty(),
        }
    }

    /// The virtual registers that the first `count` of `instructions` refer to.
    pub open spec fn uses_of_first(instructions: Seq<Instruction>, count: int) -> Seq<u64>
        decreases instructions, count,
    {
        if count <= 0 || count > instructions.len() {
            Seq::empty()
        } else {
            Self::uses_of_first(instructions, count - 1) + instructions[count - 1].uses()
        }
    }

    /// Whether the instruction holds a function call.
    pub open spec fn spec_contains_call(self) -> bool
        decreases self,
    {
        match self {
            Instruction::Call { .. } => true,
            Instruction::Add(_, lhs, rhs)
            | Instruction::Sub(_, lhs, rhs)
            | Instruction::Mul(_, lhs, rhs)
            | Instruction::Div(_, lhs, rhs) => lhs.spec_contains_call()
                || rhs.spec_contains_call(),
            Instruction::DefReg { rhs, .. } => rhs.spec_contains_call(),
            Instruction::Store { rhs, .. } => rhs.spec_contains_call(),
            Instruction::Ret(Some(value)) => value.spec_contains_call(),
            _ => false,
        }
    }

    /// Whether the instruction holds a function call.
    pub fn contains_call(&self) -> (found: bool)
        ensures
            found == self.spec_contains_call(),
        decreases self,
    {
        match self {
            Instruction::Call { .. } => true,
            Instruction::Add(_, lhs, rhs)
            | Instruction::Sub(_, lhs, rhs)
            | Instruction::Mul(_, lhs, rhs)
            | Instruction::Div(_, lhs, rhs) => lhs.contains_call() || rhs.contains_call(),
            Instruction::DefReg { rhs, .. } => rhs.contains_call(),
            Instruction::Store { rhs, .. } => rhs.contains_call(),
            Instruction::Ret(Some(value)) => value.contains_call(),
            _ => false,
        }
    }

    /// Returns `true` if the instruction is [`DefReg`].
    ///
    /// [`DefReg`]: Instruction::DefReg
    #[must_use]
    pub fn is_def_reg(&self) -> (defines: bool)
        ensures
            defines == (*self is DefReg),
    {
        matches!(self, Self::DefReg { .. })
    }

    /// Returns the ID of the virtual register that the instruction
    /// defines, if it defines one.
    #[must_use]
    pub fn as_def_reg_id(&self) -> (defined: Option<u64>)
        ensures
            defined == match *self {
                Instruction::DefReg { id, .. } => Some(id),
                _ => None,
            },
    {
        if let Self::DefReg { id, .. } = self {
            Some(*id)
        } else {
            None
        }
    }
}

/// An item at the top level of a program.
#[derive(Debug, PartialEq)]
pub enum TopLevel {
    /// A function defined elsewhere.
    Extern(String),
    /// A function with its name, the types of its arguments and its body.
    Fn { name: String, args: Vec<DataType>, body: Vec<Instruction> },
}


/// An instruction tree as a mathematical value: the tree with its byte
/// strings, names and argument lists as sequences.
pub enum InstructionShape {
    Arg(DataType, u64),
    Reg(DataType, u64),
    UInt(DataType, u64),
    Int(DataType, i64),
    Float(DataType, u64),
    String(Seq<u8>),
    Add(DataType, Box<InstructionShape>, Box<InstructionShape>),
    Sub(DataType, Box<InstructionShape>, Box<InstructionShape>),
    Mul(DataType, Box<InstructionShape>, Box<InstructionShape>),
    Div(DataType, Box<InstructionShape>, Box<InstructionShape>),
    Load { id: u64, dtype: DataType },
    Alloc(DataType),
    DefReg { id: u64, rhs: Box<InstructionShape> },
    Store { lhs_dtype: DataType, id: u64, rhs: Box<InstructionShape> },
    Ret(Option<Box<InstructionShape>>),
    Call { ret_type: Option<DataType>, fn_name: Seq<char>, args: Seq<InstructionShape> },
    Label(Seq<char>),
}

/// An item at the top level of a program as a mathematical value.
pub enum TopLevelShape {
    Extern(Seq<char>),
    Fn { name: Seq<char>, args: Seq<DataType>, body: Seq<InstructionShape> },
}

impl Instruction {
    /// The instruction tree as a mathematical value.
    pub open spec fn shape(self) -> InstructionShape
        decreases self,
    {
        match self {
            Instruction::Arg(dtype, position) => InstructionShape::Arg(dtype, position),
            Instruction::Reg(dtype, id) => InstructionShape::Reg(dtype, id),
            Instruction::UInt(dtype, value) => InstructionShape::UInt(dtype, value),
            Instruction::Int(dtype, value) => InstructionShape::Int(dtype, value),
            Instruction::Float(dtype, bits) => InstructionShape::Float(dtype, bits),
            Instruction::String(bytes) => InstructionShape::String(bytes@),
            Instruction::Add(dtype, lhs, rhs) => InstructionShape::Add(
                dtype,
                Box::new(lhs.shape()),
                Box::new(rhs.shape()),
            ),
            Instruction::Sub(dtype, lhs, rhs) => InstructionShape::Sub(
                dtype,
                Box::new(lhs.shape()),
                Box::new(rhs.shape()),
            ),
            Instruction::Mul(dtype, lhs, rhs) => InstructionShape::Mul(
                dtype,
                Box::new(lhs.shape()),
                Box::new(rhs.shape()),
            ),
            Instruction::Div(dtype, lhs, rhs) => InstructionShape::Div(
                dtype,
                Box::new(lhs.shape()),
                Box::new(rhs.shape()),
            ),
            Instruction::Load { id, dtype } => InstructionShape::Load { id, dtype },
            Instruction::Alloc(dtype) => InstructionShape::Alloc(dtype),
            Instruction::DefReg { id, rhs } => InstructionShape::DefReg {
                id,
                rhs: Box::new(rhs.shape()),
            },
            Instruction::Store { lhs_dtype, id, rhs } => InstructionShape::Store {
                lhs_dtype,
                id,
                rhs: Box::new(rhs.shape()),
            },
            Instruction::Ret(None) => InstructionShape::Ret(None),
            Instruction::Ret(Some(value)) => InstructionShape::Ret(Some(Box::new(value.shape()))),
            Instruction::Call { ret_type, fn_name, args } => InstructionShape::Call {
                ret_type,
                fn_name: fn_name@,
                args: Seq::new(
                    args@.len(),
                    |i: int|
                        if 0 <= i < args@.len() {
                            args@[i].shape()
                        } else {
                            InstructionShape::Ret(None)
                        },
                ),
            },
            Instruction::Label(name) => InstructionShape::Label(name@),
        }
    }

    /// The shapes of a sequence of instruction trees.
    pub open spec fn shapes(instructions: Seq<Instruction>) -> Seq<InstructionShape> {
        Seq::new(instructions.len(), |i: int| instructions[i].shape())
    }
}

impl TopLevel {
    /// The item as a mathematical value.
    pub open spec fn shape(self) -> TopLevelShape {
        match self {
            TopLevel::Extern(name) => TopLevelShape::Extern(name@),
            TopLevel::Fn { name, args, body } => TopLevelShape::Fn {
                name: name@,
                args: args@,
                body: Instruction::shapes(body@),
            },
        }
    }

    /// The shapes of a sequence of items.
    pub open spec fn shapes(items: Seq<TopLevel>) -> Seq<TopLevelShape> {
        Seq::new(items.len(), |i: int| items[i].shape())
    }
}

} // verus!
