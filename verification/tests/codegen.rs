use x64_backend::error::CodegenError;
use x64_backend::fileformat::FileFormat;
use x64_backend::generation::platform::x86_64::select::{
    argument_register, dtype_of, signedness_of, word_size_of,
};
use x64_backend::generation::platform::x86_64::{
    gen_asm_from_model, gen_code, gen_inside_fn, EvalTreeNode, Instruction, Operand, Signedness,
    X64Register, X86WordSize,
};
use x64_backend::ir::{DataType, Instruction as Ir, TopLevel};

fn function(name: &str, args: Vec<DataType>, body: Vec<Ir>) -> TopLevel {
    TopLevel::Fn { name: name.to_string(), args, body }
}

fn def(id: u64, rhs: Ir) -> Ir {
    Ir::DefReg { id, rhs: Box::new(rhs) }
}

fn ret(value: Ir) -> Ir {
    Ir::Ret(Some(Box::new(value)))
}

fn add(dtype: DataType, lhs: Ir, rhs: Ir) -> Ir {
    Ir::Add(dtype, Box::new(lhs), Box::new(rhs))
}

fn store(dtype: DataType, id: u64, rhs: Ir) -> Ir {
    Ir::Store { lhs_dtype: dtype, id, rhs: Box::new(rhs) }
}

fn call(name: &str, args: Vec<Ir>) -> Ir {
    Ir::Call { ret_type: None, fn_name: name.to_string(), args }
}

fn im(value: u64) -> Operand {
    Operand::Im(value.to_be_bytes())
}

fn r(register: X64Register) -> Operand {
    Operand::Reg(register)
}

fn below_frame_base(offset: u64) -> EvalTreeNode {
    EvalTreeNode::Sub(
        Box::new(EvalTreeNode::Reg(X64Register::Rbp)),
        Box::new(EvalTreeNode::Num(offset)),
    )
}

fn assembly(program: Vec<TopLevel>) -> Result<String, CodegenError> {
    let code = gen_code(program)?;
    let mut text = String::new();
    gen_asm_from_model(FileFormat::Elf64, code, &mut text);
    Ok(text)
}

/// The lines between prologue and epilogue of a function without frame.
fn body_lines(args: Vec<DataType>, body: Vec<Ir>) -> Result<String, CodegenError> {
    let text = assembly(vec![function("f", args, body)])?;
    let head = "\tglobal\tf\nf:\n\tpush\trbp\n\tmov\trbp, rsp\n";
    let tail = "\tpop\trbp\n\tret\n";
    assert!(text.starts_with(head));
    assert!(text.ends_with(tail));
    Ok(text[head.len()..text.len() - tail.len()].to_string())
}

#[test]
fn function_with_a_variable_on_the_stack() {
    let program = || {
        vec![function(
            "main",
            vec![],
            vec![
                def(0, Ir::Alloc(DataType::U32)),
                store(DataType::U32, 0, Ir::UInt(DataType::U32, 5)),
                ret(Ir::Int(DataType::I32, 7)),
            ],
        )]
    };
    let code = gen_code(program()).unwrap();
    assert_eq!(
        code,
        vec![
            Instruction::GlobalLabel("main".to_string()),
            Instruction::FnProlog,
            Instruction::AllocStack(8),
            Instruction::Mov(r(X64Register::Eax), im(5)),
            Instruction::Mov(
                Operand::WordPtr(X86WordSize::Bword, below_frame_base(4)),
                r(X64Register::Eax)
            ),
            Instruction::Mov(r(X64Register::Eax), im(7)),
            Instruction::DeallocStack(8),
            Instruction::FnEpilog,
        ]
    );
    let expected = "\tglobal\tmain\nmain:\n\tpush\trbp\n\tmov\trbp, rsp\n\tsub\trsp, 8\n\
                    \tmov\teax, 5\n\tmov\tbword [rbp-4], eax\n\tmov\teax, 7\n\
                    \tadd\trsp, 8\n\tpop\trbp\n\tret\n";
    assert_eq!(assembly(program()).unwrap(), expected);
    // the same input gives the same bytes
    assert_eq!(assembly(program()).unwrap(), assembly(program()).unwrap());
    let mut mangled = String::new();
    gen_asm_from_model(FileFormat::Macho64, gen_code(program()).unwrap(), &mut mangled);
    assert!(mangled.starts_with("\tglobal\t_main\n_main:\n"));
}

#[test]
fn function_with_a_variable_in_a_register() {
    let program = vec![function(
        "f",
        vec![],
        vec![
            def(0, add(DataType::U32, Ir::UInt(DataType::U32, 1), Ir::UInt(DataType::U32, 2))),
            ret(Ir::Reg(DataType::U32, 0)),
        ],
    )];
    let code = gen_code(program).unwrap();
    assert_eq!(
        code,
        vec![
            Instruction::GlobalLabel("f".to_string()),
            Instruction::FnProlog,
            Instruction::Mov(r(X64Register::Eax), im(1)),
            Instruction::Add(Signedness::Unsigned, r(X64Register::Eax), im(2)),
            Instruction::Mov(r(X64Register::Edi), r(X64Register::Eax)),
            Instruction::Mov(r(X64Register::Eax), r(X64Register::Edi)),
            Instruction::FnEpilog,
        ]
    );
    let mut text = String::new();
    gen_asm_from_model(FileFormat::Elf64, code, &mut text);
    assert_eq!(
        text,
        "\tglobal\tf\nf:\n\tpush\trbp\n\tmov\trbp, rsp\n\tmov\teax, 1\n\tadd\teax, 2\n\
         \tmov\tedi, eax\n\tmov\teax, edi\n\tpop\trbp\n\tret\n"
    );
}

#[test]
fn empty_function_has_prologue_and_epilogue_only() {
    assert_eq!(
        assembly(vec![function("nothing", vec![], vec![Ir::Ret(None)])]).unwrap(),
        "\tglobal\tnothing\nnothing:\n\tpush\trbp\n\tmov\trbp, rsp\n\tpop\trbp\n\tret\n"
    );
    assert_eq!(body_lines(vec![], vec![]).unwrap(), "");
    assert_eq!(assembly(vec![]).unwrap(), "");
}

#[test]
fn returning_zero_clears_the_accumulator() {
    assert_eq!(
        body_lines(vec![], vec![ret(Ir::UInt(DataType::U64, 0))]).unwrap(),
        "\txor\trax, rax\n"
    );
    assert_eq!(
        body_lines(vec![], vec![ret(Ir::Int(DataType::I16, 0))]).unwrap(),
        "\txor\tax, ax\n"
    );
}

#[test]
fn return_value_uses_the_accumulator_at_the_width_of_its_type() {
    assert_eq!(body_lines(vec![], vec![ret(Ir::UInt(DataType::U64, 3))]).unwrap(), "\tmov\trax, 3\n");
    assert_eq!(body_lines(vec![], vec![ret(Ir::Int(DataType::I32, 3))]).unwrap(), "\tmov\teax, 3\n");
    assert_eq!(body_lines(vec![], vec![ret(Ir::UInt(DataType::U16, 3))]).unwrap(), "\tmov\tax, 3\n");
    assert_eq!(body_lines(vec![], vec![ret(Ir::Int(DataType::I8, 3))]).unwrap(), "\tmov\tal, 3\n");
    assert_eq!(body_lines(vec![], vec![ret(Ir::UInt(DataType::Ptr, 3))]).unwrap(), "\tmov\trax, 3\n");
    assert_eq!(
        body_lines(vec![], vec![ret(Ir::Int(DataType::I32, -1))]).unwrap(),
        "\tmov\teax, 18446744073709551615\n"
    );
}

#[test]
fn seven_arguments_are_not_implemented() {
    let args = |count: u64| (0..count).map(|i| Ir::UInt(DataType::U64, i + 1)).collect::<Vec<_>>();
    assert_eq!(
        body_lines(vec![], vec![call("callee", args(7))]),
        Err(CodegenError::Unimplemented)
    );
    assert_eq!(
        body_lines(vec![], vec![def(0, Ir::Call {
            ret_type: Some(DataType::U64),
            fn_name: "callee".to_string(),
            args: args(9),
        })]),
        Err(CodegenError::Unimplemented)
    );
    // the number of arguments is looked at before the arguments themselves
    let mut malformed = args(6);
    malformed.push(Ir::Label("x".to_string()));
    assert_eq!(
        body_lines(vec![], vec![call("callee", malformed)]),
        Err(CodegenError::Unimplemented)
    );
    assert_eq!(
        body_lines(vec![], vec![call("callee", args(6))]).unwrap(),
        "\tmov\trax, 6\n\tpush\trax\n\tmov\trax, 5\n\tpush\trax\n\
         \tmov\trax, 4\n\tpush\trax\n\tmov\trax, 3\n\tpush\trax\n\
         \tmov\trax, 2\n\tpush\trax\n\tmov\trax, 1\n\tpush\trax\n\
         \tpop\trdi\n\tpop\trsi\n\tpop\trdx\n\tpop\trcx\n\tpop\tr8\n\tpop\tr9\n\
         \tcall\tcallee\n"
    );
}

#[test]
fn arguments_are_computed_at_the_width_of_their_types() {
    let args = vec![
        Ir::UInt(DataType::U8, 1),
        Ir::Int(DataType::I16, 2),
        Ir::UInt(DataType::U32, 0),
    ];
    assert_eq!(
        body_lines(vec![], vec![call("g", args)]).unwrap(),
        "\txor\teax, eax\n\tpush\trax\n\tmov\tax, 2\n\tpush\trax\n\
         \tmov\tal, 1\n\tpush\trax\n\tpop\trdi\n\tpop\trsi\n\tpop\trdx\n\tcall\tg\n"
    );
    assert_eq!(body_lines(vec![], vec![call("h", vec![])]).unwrap(), "\tcall\th\n");
}

#[test]
fn result_of_a_call_is_taken_from_the_accumulator() {
    let body = vec![
        def(0, Ir::Call {
            ret_type: Some(DataType::I32),
            fn_name: "g".to_string(),
            args: vec![Ir::UInt(DataType::U64, 4)],
        }),
        ret(Ir::Reg(DataType::I32, 0)),
    ];
    assert_eq!(
        body_lines(vec![], body).unwrap(),
        "\tpush\trdi\n\tmov\trax, 4\n\tpush\trax\n\tpop\trdi\n\tcall\tg\n\
         \tpop\trdi\n\tmov\tedi, eax\n\tmov\teax, edi\n"
    );
    // a call without a value defines nothing
    assert_eq!(
        body_lines(vec![], vec![def(0, call("g", vec![]))]),
        Err(CodegenError::MalformedIr)
    );
}

#[test]
fn values_that_live_across_a_call_are_saved() {
    let one = || Ir::UInt(DataType::U64, 1);
    let body = vec![
        def(0, add(DataType::U64, one(), one())),
        def(1, add(DataType::U64, one(), one())),
        call("f", vec![Ir::UInt(DataType::U64, 5)]),
        ret(add(DataType::U64, Ir::Reg(DataType::U64, 0), Ir::Reg(DataType::U64, 1))),
    ];
    assert_eq!(
        body_lines(vec![], body).unwrap(),
        "\tmov\trax, 1\n\tadd\trax, 1\n\tmov\trdi, rax\n\
         \tmov\trax, 1\n\tadd\trax, 1\n\tmov\trsi, rax\n\
         \tpush\trdi\n\tpush\trsi\n\tmov\trax, 5\n\tpush\trax\n\tpop\trdi\n\
         \tcall\tf\n\tpop\trsi\n\tpop\trdi\n\
         \tmov\trax, rdi\n\tadd\trax, rsi\n"
    );
}

#[test]
fn arguments_are_read_before_any_argument_register_is_written() {
    let one = || Ir::UInt(DataType::U64, 1);
    let body = vec![
        def(0, add(DataType::U64, one(), one())),
        def(1, add(DataType::U64, one(), one())),
        call("f", vec![Ir::Reg(DataType::U64, 1), Ir::Reg(DataType::U64, 0)]),
    ];
    assert_eq!(
        body_lines(vec![], body).unwrap(),
        "\tmov\trax, 1\n\tadd\trax, 1\n\tmov\trdi, rax\n\
         \tmov\trax, 1\n\tadd\trax, 1\n\tmov\trsi, rax\n\
         \tmov\trax, rdi\n\tpush\trax\n\tmov\trax, rsi\n\tpush\trax\n\
         \tpop\trdi\n\tpop\trsi\n\tcall\tf\n"
    );
}

#[test]
fn signedness_of_the_operation_picks_the_mnemonic() {
    let int = |v: i64| Ir::Int(DataType::I32, v);
    let body = vec![ret(Ir::Mul(DataType::I32, Box::new(int(3)), Box::new(int(4))))];
    assert_eq!(body_lines(vec![], body).unwrap(), "\tmov\teax, 3\n\timul\teax, 4\n");
    let float = |v: f64| Ir::Float(DataType::F64, v.to_bits());
    let body = vec![ret(Ir::Div(DataType::F64, Box::new(float(1.0)), Box::new(float(2.0))))];
    assert_eq!(
        body_lines(vec![], body).unwrap(),
        format!("\tmov\trax, {}\n\tfdiv\trax, {}\n", 1.0f64.to_bits(), 2.0f64.to_bits())
    );
    let uint = |v: u64| Ir::UInt(DataType::U16, v);
    let body = vec![ret(Ir::Sub(DataType::U16, Box::new(uint(9)), Box::new(uint(4))))];
    assert_eq!(body_lines(vec![], body).unwrap(), "\tmov\tax, 9\n\tsub\tax, 4\n");
    // the type of the operation decides, not the types of its operands
    let body = vec![ret(Ir::Div(DataType::U64, Box::new(int(9)), Box::new(int(4))))];
    assert_eq!(body_lines(vec![], body).unwrap(), "\tmov\trax, 9\n\tdiv\trax, 4\n");
    let body = vec![Ir::Add(DataType::ISize, Box::new(uint(9)), Box::new(uint(4)))];
    assert_eq!(body_lines(vec![], body).unwrap(), "\tmov\trax, 9\n\tiadd\trax, 4\n");
}

#[test]
fn operations_nest_to_the_left_only() {
    let one = || Ir::UInt(DataType::U64, 1);
    let left = add(DataType::U64, add(DataType::U64, one(), Ir::UInt(DataType::U64, 2)), Ir::UInt(DataType::U64, 3));
    assert_eq!(
        body_lines(vec![], vec![ret(left)]).unwrap(),
        "\tmov\trax, 1\n\tadd\trax, 2\n\tadd\trax, 3\n"
    );
    let right = add(DataType::U64, one(), add(DataType::U64, one(), one()));
    assert_eq!(body_lines(vec![], vec![ret(right)]), Err(CodegenError::Unimplemented));
}

#[test]
fn narrow_unsigned_values_are_extended_with_zeros() {
    let body = vec![
        def(0, add(DataType::U8, Ir::UInt(DataType::U8, 1), Ir::UInt(DataType::U8, 2))),
        ret(add(DataType::U32, Ir::Reg(DataType::U8, 0), Ir::UInt(DataType::U32, 1))),
    ];
    assert_eq!(
        body_lines(vec![], body).unwrap(),
        "\tmov\tal, 1\n\tadd\tal, 2\n\tmov\tdil, al\n\tmovzx\teax, dil\n\tadd\teax, 1\n"
    );
    // signed values and values of four bytes are seen at the wider width
    let body = vec![
        def(0, add(DataType::I8, Ir::Int(DataType::I8, 1), Ir::Int(DataType::I8, 2))),
        ret(add(DataType::I32, Ir::Reg(DataType::I8, 0), Ir::Int(DataType::I32, 1))),
    ];
    assert_eq!(
        body_lines(vec![], body).unwrap(),
        "\tmov\tal, 1\n\tiadd\tal, 2\n\tmov\tdil, al\n\tmov\teax, edi\n\tiadd\teax, 1\n"
    );
    let body = vec![
        def(0, add(DataType::U32, Ir::UInt(DataType::U32, 1), Ir::UInt(DataType::U32, 2))),
        ret(add(DataType::U64, Ir::Reg(DataType::U32, 0), Ir::UInt(DataType::U64, 1))),
    ];
    assert_eq!(
        body_lines(vec![], body).unwrap(),
        "\tmov\teax, 1\n\tadd\teax, 2\n\tmov\tedi, eax\n\tmov\trax, rdi\n\tadd\trax, 1\n"
    );
}

#[test]
fn address_of_and_dereference_go_through_the_accumulator() {
    let program = vec![function(
        "p",
        vec![],
        vec![
            def(0, Ir::Alloc(DataType::U64)),
            store(DataType::U64, 0, Ir::UInt(DataType::U64, 9)),
            def(1, Ir::Reg(DataType::Ptr, 0)),
            ret(Ir::Load { id: 1, dtype: DataType::U64 }),
        ],
    )];
    assert_eq!(
        assembly(program).unwrap(),
        "\tglobal\tp\np:\n\tpush\trbp\n\tmov\trbp, rsp\n\tsub\trsp, 8\n\
         \tmov\trax, 9\n\tmov\tqword [rbp-8], rax\n\tlea\trax, [rbp-8]\n\tmov\trdi, rax\n\
         \tmov\trax, qword [rdi]\n\tadd\trsp, 8\n\tpop\trbp\n\tret\n"
    );
}

#[test]
fn loads_read_the_slot_of_a_stack_variable() {
    let program = vec![function(
        "q",
        vec![],
        vec![
            def(0, Ir::Alloc(DataType::U8)),
            def(1, Ir::Alloc(DataType::U32)),
            store(DataType::U8, 0, Ir::UInt(DataType::U8, 200)),
            store(DataType::U32, 1, Ir::Load { id: 0, dtype: DataType::U8 }),
            ret(Ir::Load { id: 1, dtype: DataType::U32 }),
        ],
    )];
    let code = gen_code(program).unwrap();
    assert_eq!(
        code,
        vec![
            Instruction::GlobalLabel("q".to_string()),
            Instruction::FnProlog,
            Instruction::AllocStack(8),
            Instruction::Mov(r(X64Register::Al), im(200)),
            Instruction::Mov(Operand::WordPtr(X86WordSize::Byte, below_frame_base(1)), r(X64Register::Al)),
            Instruction::Movzx(
                r(X64Register::Eax),
                Operand::WordPtr(X86WordSize::Byte, below_frame_base(1))
            ),
            Instruction::Mov(Operand::WordPtr(X86WordSize::Bword, below_frame_base(5)), r(X64Register::Eax)),
            Instruction::Mov(
                r(X64Register::Eax),
                Operand::WordPtr(X86WordSize::Bword, below_frame_base(5))
            ),
            Instruction::DeallocStack(8),
            Instruction::FnEpilog,
        ]
    );
}

#[test]
fn constants_are_used_in_place() {
    let body = vec![def(0, Ir::UInt(DataType::U32, 5)), ret(Ir::Reg(DataType::U32, 0))];
    assert_eq!(body_lines(vec![], body).unwrap(), "\tmov\teax, 5\n");
    let body = vec![
        def(0, Ir::UInt(DataType::U32, 5)),
        ret(add(DataType::U32, Ir::UInt(DataType::U32, 1), Ir::Reg(DataType::U32, 0))),
    ];
    assert_eq!(body_lines(vec![], body).unwrap(), "\tmov\teax, 1\n\tadd\teax, 5\n");
}

#[test]
fn function_arguments_are_read_from_their_registers() {
    let body = vec![ret(add(
        DataType::U32,
        Ir::Arg(DataType::U32, 0),
        Ir::Arg(DataType::U32, 1),
    ))];
    assert_eq!(
        body_lines(vec![DataType::U32, DataType::U32], body).unwrap(),
        "\tmov\teax, edi\n\tadd\teax, esi\n"
    );
    let six = vec![DataType::U64; 6];
    assert_eq!(
        body_lines(six, vec![ret(Ir::Arg(DataType::U64, 5))]).unwrap(),
        "\tmov\trax, r9\n"
    );
    // an argument that the function does not declare
    assert_eq!(
        body_lines(vec![DataType::U32], vec![ret(Ir::Arg(DataType::U32, 1))]),
        Err(CodegenError::MalformedIr)
    );
    // a seventh argument is declared but cannot be reached
    assert_eq!(
        body_lines(vec![DataType::U64; 7], vec![ret(Ir::Arg(DataType::U64, 6))]),
        Err(CodegenError::Unimplemented)
    );
}

#[test]
fn labels_are_passed_through() {
    let body = vec![Ir::Label("again".to_string()), Ir::Ret(None)];
    assert_eq!(body_lines(vec![], body).unwrap(), "again:\n");
}

#[test]
fn malformed_bodies_are_rejected() {
    let undefined = vec![ret(Ir::Reg(DataType::U64, 1))];
    assert_eq!(body_lines(vec![], undefined), Err(CodegenError::MalformedIr));
    let label_as_value = vec![ret(Ir::Label("x".to_string()))];
    assert_eq!(body_lines(vec![], label_as_value), Err(CodegenError::MalformedIr));
    let operand_as_step = vec![Ir::UInt(DataType::U64, 1)];
    assert_eq!(body_lines(vec![], operand_as_step), Err(CodegenError::MalformedIr));
    let store_to_nothing = vec![store(DataType::U8, 9, Ir::UInt(DataType::U8, 1))];
    assert_eq!(body_lines(vec![], store_to_nothing), Err(CodegenError::MalformedIr));
    let definition_as_value = vec![ret(def(0, Ir::UInt(DataType::U8, 1)))];
    assert_eq!(body_lines(vec![], definition_as_value), Err(CodegenError::MalformedIr));
}

#[test]
fn missing_features_are_reported_as_such() {
    assert_eq!(
        gen_code(vec![TopLevel::Extern("puts".to_string())]),
        Err(CodegenError::Unimplemented)
    );
    let string = vec![ret(Ir::String(vec![104, 105]))];
    assert_eq!(body_lines(vec![], string), Err(CodegenError::Unimplemented));
    // a pointer to stack space as the right operand of an operation
    let body = vec![
        def(0, Ir::Alloc(DataType::U64)),
        ret(add(DataType::U64, Ir::UInt(DataType::U64, 1), Ir::Reg(DataType::Ptr, 0))),
    ];
    assert_eq!(body_lines(vec![], body), Err(CodegenError::Unimplemented));
}

#[test]
fn functions_follow_each_other() {
    let program = vec![
        function("a", vec![], vec![ret(Ir::UInt(DataType::U8, 1))]),
        function("b", vec![], vec![ret(Ir::UInt(DataType::U8, 2))]),
    ];
    assert_eq!(
        assembly(program).unwrap(),
        "\tglobal\ta\na:\n\tpush\trbp\n\tmov\trbp, rsp\n\tmov\tal, 1\n\tpop\trbp\n\tret\n\
         \tglobal\tb\nb:\n\tpush\trbp\n\tmov\trbp, rsp\n\tmov\tal, 2\n\tpop\trbp\n\tret\n"
    );
    let failing = vec![
        function("a", vec![], vec![ret(Ir::UInt(DataType::U8, 1))]),
        TopLevel::Extern("b".to_string()),
    ];
    assert_eq!(gen_code(failing), Err(CodegenError::Unimplemented));
}

#[test]
fn a_function_that_fails_leaves_the_target_alone() {
    let mut target = vec![Instruction::Ret];
    let result = gen_inside_fn(
        "f".to_string(),
        &vec![],
        &vec![ret(Ir::Reg(DataType::U64, 1))],
        &mut target,
    );
    assert_eq!(result, Err(CodegenError::MalformedIr));
    assert_eq!(target, vec![Instruction::Ret]);
    let result = gen_inside_fn("f".to_string(), &vec![], &vec![Ir::Ret(None)], &mut target);
    assert_eq!(result, Ok(()));
    assert_eq!(
        target,
        vec![
            Instruction::Ret,
            Instruction::GlobalLabel("f".to_string()),
            Instruction::FnProlog,
            Instruction::FnEpilog
        ]
    );
}

#[test]
fn types_decide_width_and_signedness() {
    assert_eq!(word_size_of(DataType::U8), X86WordSize::Byte);
    assert_eq!(word_size_of(DataType::I16), X86WordSize::Word);
    assert_eq!(word_size_of(DataType::F32), X86WordSize::Bword);
    assert_eq!(word_size_of(DataType::Ptr), X86WordSize::Qword);
    assert_eq!(word_size_of(DataType::USize), X86WordSize::Qword);
    assert_eq!(signedness_of(DataType::U64), Signedness::Unsigned);
    assert_eq!(signedness_of(DataType::Ptr), Signedness::Unsigned);
    assert_eq!(signedness_of(DataType::ISize), Signedness::Signed);
    assert_eq!(signedness_of(DataType::I8), Signedness::Signed);
    assert_eq!(signedness_of(DataType::F32), Signedness::Float);
    assert_eq!(dtype_of(&Ir::Alloc(DataType::U8)), Some(DataType::Ptr));
    assert_eq!(dtype_of(&Ir::Load { id: 0, dtype: DataType::I16 }), Some(DataType::I16));
    assert_eq!(dtype_of(&Ir::Ret(None)), None);
    assert_eq!(dtype_of(&call("f", vec![])), None);
    let registers: Vec<X64Register> = (0..6).map(argument_register).collect();
    assert_eq!(
        registers,
        vec![
            X64Register::Rdi,
            X64Register::Rsi,
            X64Register::Rdx,
            X64Register::Rcx,
            X64Register::R8,
            X64Register::R9
        ]
    );
}

#[test]
fn instructions_of_the_representation_know_themselves() {
    let definition = def(3, Ir::UInt(DataType::U8, 1));
    assert!(definition.is_def_reg());
    assert_eq!(definition.as_def_reg_id(), Some(3));
    assert!(!Ir::Ret(None).is_def_reg());
    assert_eq!(Ir::Ret(None).as_def_reg_id(), None);
    assert!(call("f", vec![]).contains_call());
    assert!(def(0, call("f", vec![])).contains_call());
    assert!(ret(add(DataType::U8, call("f", vec![]), Ir::UInt(DataType::U8, 1))).contains_call());
    assert!(!ret(Ir::UInt(DataType::U8, 1)).contains_call());
}
