use x64_backend::fileformat::FileFormat;
use x64_backend::generation::bytes::{be_bytes, be_bytes_signed, be_value};
use x64_backend::generation::platform::x86_64::{
    gen_asm_from_model, EvalTreeNode, Instruction, Operand, Signedness, X64Register, X86WordSize,
};
use x64_backend::generation::str_fmt::{asm_str_from, decimal};
use x64_backend::ir::DataType;

fn num(value: u64) -> Box<EvalTreeNode> {
    Box::new(EvalTreeNode::Num(value))
}

fn register(register: X64Register) -> Box<EvalTreeNode> {
    Box::new(EvalTreeNode::Reg(register))
}

fn text_of(file_format: FileFormat, instructions: Vec<Instruction>) -> String {
    let mut target = String::new();
    gen_asm_from_model(file_format, instructions, &mut target);
    target
}

#[test]
fn formats_mangle_labels() {
    assert_eq!(FileFormat::Elf64.label("main".to_string()), "main");
    assert_eq!(FileFormat::Macho64.label("main".to_string()), "_main");
    assert_eq!(FileFormat::Macho64.label(String::new()), "_");
}

#[test]
fn formats_are_found_by_name_in_any_case() {
    assert_eq!(FileFormat::from_str("elf64".to_string()), Some(FileFormat::Elf64));
    assert_eq!(FileFormat::from_str("macho64".to_string()), Some(FileFormat::Macho64));
    assert_eq!(FileFormat::from_str("ELF64".to_string()), Some(FileFormat::Elf64));
    assert_eq!(FileFormat::from_str("MachO64".to_string()), Some(FileFormat::Macho64));
    assert_eq!(FileFormat::from_str("elf".to_string()), None);
    assert_eq!(FileFormat::from_str(String::new()), None);
    assert_eq!(FileFormat::from_str("elf64 ".to_string()), None);
}

#[test]
fn lowercase_names_are_matched_exactly() {
    assert_eq!(FileFormat::from_lowercase("elf64"), Some(FileFormat::Elf64));
    assert_eq!(FileFormat::from_lowercase("macho64"), Some(FileFormat::Macho64));
    assert_eq!(FileFormat::from_lowercase("ELF64"), None);
    assert_eq!(FileFormat::from_lowercase("macho"), None);
}

#[test]
fn data_types_have_sizes() {
    let expected = [
        (DataType::U64, 8),
        (DataType::I64, 8),
        (DataType::F64, 8),
        (DataType::U32, 4),
        (DataType::I32, 4),
        (DataType::F32, 4),
        (DataType::U16, 2),
        (DataType::I16, 2),
        (DataType::U8, 1),
        (DataType::I8, 1),
    ];
    for (dtype, size) in expected {
        assert_eq!(dtype.size(8), size);
        assert_eq!(dtype.size(4), size);
    }
    for dtype in [DataType::USize, DataType::ISize, DataType::Ptr] {
        assert_eq!(dtype.size(8), 8);
        assert_eq!(dtype.size(4), 4);
    }
}

#[test]
fn numbers_are_written_in_decimal() {
    assert_eq!(decimal(0), "0");
    assert_eq!(decimal(7), "7");
    assert_eq!(decimal(10), "10");
    assert_eq!(decimal(1234567890), "1234567890");
    assert_eq!(decimal(u64::MAX), "18446744073709551615");
    for value in [9u64, 99, 100, 101, 4096, 999_999_999_999] {
        assert_eq!(decimal(value), value.to_string());
    }
}

#[test]
fn bytes_are_written_for_data_lines() {
    assert_eq!(asm_str_from(&vec![]), "");
    assert_eq!(asm_str_from(&vec![0]), "0x0, ");
    assert_eq!(asm_str_from(&vec![0x41, 0x0a, 0xff, 0x10]), "0x41, 0xA, 0xFF, 0x10, ");
    for byte in 0..=255u8 {
        assert_eq!(asm_str_from(&vec![byte]), format!("{byte:#02X}, "));
    }
}

#[test]
fn integers_are_split_into_bytes() {
    assert_eq!(be_bytes(0), [0; 8]);
    assert_eq!(be_bytes(0x0102_0304_0506_0708), [1, 2, 3, 4, 5, 6, 7, 8]);
    assert_eq!(be_bytes(u64::MAX), [0xff; 8]);
    assert_eq!(be_bytes_signed(-1), [0xff; 8]);
    assert_eq!(be_bytes_signed(i64::MIN), [0x80, 0, 0, 0, 0, 0, 0, 0]);
    assert_eq!(be_bytes_signed(i64::MAX), [0x7f, 0xff, 0xff, 0xff, 0xff, 0xff, 0xff, 0xff]);
    for value in [1u64, 255, 256, 0xdead_beef, 1 << 63, 0x00ff_00ff_00ff_00ff] {
        assert_eq!(be_bytes(value), value.to_be_bytes());
        assert_eq!(be_value(&be_bytes(value)), value);
    }
    for value in [-2i64, -256, 77, i64::MIN + 1] {
        assert_eq!(be_bytes_signed(value), value.to_be_bytes());
    }
    assert_eq!(be_value(&[0, 0, 0, 0, 0, 0, 1, 2]), 258);
}

#[test]
fn address_computations_get_the_parentheses_they_need() {
    let sum = EvalTreeNode::Add(register(X64Register::Rbp), num(8));
    assert_eq!(sum.to_string(), "rbp+8");
    let difference = EvalTreeNode::Sub(register(X64Register::Rbp), num(16));
    assert_eq!(difference.to_string(), "rbp-16");
    let product_of_sum = EvalTreeNode::Mul(
        Box::new(EvalTreeNode::Add(register(X64Register::Rax), num(1))),
        num(4),
    );
    assert_eq!(product_of_sum.to_string(), "(rax+1)*4");
    let sum_of_product = EvalTreeNode::Add(
        register(X64Register::Rbx),
        Box::new(EvalTreeNode::Mul(register(X64Register::Rcx), num(8))),
    );
    assert_eq!(sum_of_product.to_string(), "rbx+rcx*8");
    let nested = EvalTreeNode::Mul(
        num(2),
        Box::new(EvalTreeNode::Sub(num(7), Box::new(EvalTreeNode::Mul(num(3), num(1))))),
    );
    assert_eq!(nested.to_string(), "2*(7-3*1)");
    let same_priority = EvalTreeNode::Sub(
        num(1),
        Box::new(EvalTreeNode::Add(num(2), num(3))),
    );
    assert_eq!(same_priority.to_string(), "1-2+3");
    assert_eq!(EvalTreeNode::Num(0).to_string(), "0");
    assert_eq!(EvalTreeNode::Reg(X64Register::R8d).to_string(), "r8d");
}

#[test]
fn address_nodes_have_priorities_and_signs() {
    assert_eq!(EvalTreeNode::Add(num(1), num(2)).priority(), 0);
    assert_eq!(EvalTreeNode::Sub(num(1), num(2)).priority(), 0);
    assert_eq!(EvalTreeNode::Mul(num(1), num(2)).priority(), 1);
    assert_eq!(EvalTreeNode::Num(1).priority(), 2);
    assert_eq!(EvalTreeNode::Reg(X64Register::Rax).priority(), 2);
    assert_eq!(EvalTreeNode::Add(num(1), num(2)).op_char(), '+');
    assert_eq!(EvalTreeNode::Sub(num(1), num(2)).op_char(), '-');
    assert_eq!(EvalTreeNode::Mul(num(1), num(2)).op_char(), '*');
    assert_eq!(EvalTreeNode::Num(1).op_char(), '\0');
    assert_eq!(EvalTreeNode::Reg(X64Register::Rax).op_char(), '\0');
}

#[test]
fn operands_are_written() {
    let format = FileFormat::Macho64;
    assert_eq!(Operand::Reg(X64Register::Cl).gen_code(format), "cl");
    assert_eq!(Operand::Im(258u64.to_be_bytes()).gen_code(format), "258");
    assert_eq!(Operand::Im((-1i64).to_be_bytes()).gen_code(format), "18446744073709551615");
    assert_eq!(Operand::Label("data".to_string()).gen_code(format), "_data");
    assert_eq!(Operand::Label("data".to_string()).gen_code(FileFormat::Elf64), "data");
    assert_eq!(
        Operand::Load(EvalTreeNode::Sub(register(X64Register::Rbp), num(4))).gen_code(format),
        "[rbp-4]"
    );
    assert_eq!(
        Operand::WordPtr(X86WordSize::Qword, EvalTreeNode::Reg(X64Register::Rdi)).gen_code(format),
        "qword [rdi]"
    );
    assert!(Operand::Im([0; 8]).is_zero());
    assert!(!Operand::Im([0, 0, 0, 0, 0, 0, 0, 1]).is_zero());
    assert!(!Operand::Reg(X64Register::Rax).is_zero());
}

#[test]
fn every_instruction_has_its_line() {
    let rax = || Operand::Reg(X64Register::Rax);
    let five = || Operand::Im(5u64.to_be_bytes());
    let cases: Vec<(Instruction, &str)> = vec![
        (Instruction::GlobalLabel("f".to_string()), "\tglobal\t_f\n_f:\n"),
        (Instruction::Label("loop".to_string()), "_loop:\n"),
        (Instruction::FnProlog, "\tpush\trbp\n\tmov\trbp, rsp\n"),
        (Instruction::FnEpilog, "\tpop\trbp\n\tret\n"),
        (Instruction::Ret, "\tret\n"),
        (Instruction::AllocStack(32), "\tsub\trsp, 32\n"),
        (Instruction::DeallocStack(32), "\tadd\trsp, 32\n"),
        (Instruction::Push(rax()), "\tpush\trax\n"),
        (Instruction::Pop(Operand::Reg(X64Register::R9)), "\tpop\tr9\n"),
        (Instruction::Mov(rax(), five()), "\tmov\trax, 5\n"),
        (Instruction::Movzx(Operand::Reg(X64Register::Eax), Operand::Reg(X64Register::Dil)), "\tmovzx\teax, dil\n"),
        (
            Instruction::Lea(rax(), Operand::Load(EvalTreeNode::Sub(register(X64Register::Rbp), num(8)))),
            "\tlea\trax, [rbp-8]\n",
        ),
        (Instruction::Add(Signedness::Unsigned, rax(), five()), "\tadd\trax, 5\n"),
        (Instruction::Sub(Signedness::Signed, rax(), five()), "\tisub\trax, 5\n"),
        (Instruction::Mul(Signedness::Signed, rax(), five()), "\timul\trax, 5\n"),
        (Instruction::Div(Signedness::Float, rax(), five()), "\tfdiv\trax, 5\n"),
        (Instruction::Mul(Signedness::Unsigned, rax(), five()), "\tmul\trax, 5\n"),
        (Instruction::Call("callee".to_string()), "\tcall\t_callee\n"),
    ];
    for (instruction, line) in cases {
        assert_eq!(instruction.gen_code(FileFormat::Macho64), line);
        assert_eq!(text_of(FileFormat::Macho64, vec![instruction]), line);
    }
}

#[test]
fn moving_zero_into_a_register_is_an_exclusive_or() {
    let zero = || Operand::Im([0; 8]);
    assert_eq!(
        Instruction::Mov(Operand::Reg(X64Register::Eax), zero()).gen_code(FileFormat::Elf64),
        "\txor\teax, eax\n"
    );
    assert_eq!(
        Instruction::Mov(Operand::Reg(X64Register::R10), zero()).gen_code(FileFormat::Elf64),
        "\txor\tr10, r10\n"
    );
    // memory is not cleared that way
    assert_eq!(
        Instruction::Mov(
            Operand::WordPtr(X86WordSize::Byte, EvalTreeNode::Reg(X64Register::Rax)),
            zero()
        )
        .gen_code(FileFormat::Elf64),
        "\tmov\tbyte [rax], 0\n"
    );
    assert_eq!(
        Instruction::Mov(Operand::Reg(X64Register::Eax), Operand::Im(1u64.to_be_bytes()))
            .gen_code(FileFormat::Elf64),
        "\tmov\teax, 1\n"
    );
}

#[test]
fn text_is_appended_behind_what_is_there() {
    let mut target = "; header\n".to_string();
    gen_asm_from_model(
        FileFormat::Elf64,
        vec![Instruction::Label("a".to_string()), Instruction::Ret],
        &mut target,
    );
    assert_eq!(target, "; header\na:\n\tret\n");
    gen_asm_from_model(FileFormat::Elf64, vec![], &mut target);
    assert_eq!(target, "; header\na:\n\tret\n");
}

#[test]
fn mnemonics_get_the_prefix_of_their_signedness() {
    assert_eq!(Signedness::Unsigned.prefix(), "");
    assert_eq!(Signedness::Signed.prefix(), "i");
    assert_eq!(Signedness::Float.prefix(), "f");
}
