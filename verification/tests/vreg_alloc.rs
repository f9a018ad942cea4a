use x64_backend::error::CodegenError;
use x64_backend::generation::platform::x86_64::reg::X64Register;
use x64_backend::generation::stack_alloc::StackAllocator;
use x64_backend::generation::virt_reg::VRegAllocator;
use x64_backend::generation::vreg_alloc::{
    Register, VRegAlloc, VRegAllocation, VRegContentKind, VRegInfo, VRegLifeStage,
};
use x64_backend::ir::{DataType, Instruction};

type Allocation = VRegAllocation<X64Register>;

fn uint(value: u64) -> Box<Instruction> {
    Box::new(Instruction::UInt(DataType::U64, value))
}

fn reg(id: u64) -> Box<Instruction> {
    Box::new(Instruction::Reg(DataType::U64, id))
}

fn sum(lhs: Box<Instruction>, rhs: Box<Instruction>) -> Box<Instruction> {
    Box::new(Instruction::Add(DataType::U64, lhs, rhs))
}

fn def(id: u64, rhs: Box<Instruction>) -> Instruction {
    Instruction::DefReg { id, rhs }
}

fn generate(body: &Vec<Instruction>) -> Result<(Allocation, StackAllocator), CodegenError> {
    let mut stack = StackAllocator::new(8, 0);
    let allocation = Allocation::generate_from(body, &mut stack)?;
    Ok((allocation, stack))
}

fn stages(allocation: &Allocation, id: u64, steps: usize) -> Vec<VRegLifeStage> {
    (0..steps).map(|step| allocation.life_stage(id, step).unwrap()).collect()
}

#[test]
fn a_new_register_is_alive_nowhere() {
    let mut allocation = Allocation::empty(3, 1);
    assert!(!allocation.contains_vreg(7));
    allocation.add_vreg(7, VRegContentKind::Normal).unwrap();
    assert!(allocation.contains_vreg(7));
    let info = allocation.vreg_info(7).unwrap();
    assert_eq!(
        info,
        VRegInfo {
            external_id: 7,
            content_kind: VRegContentKind::Normal,
            lifetime: 0..0,
            allocation: None,
        }
    );
    assert_eq!(
        stages(&allocation, 7, 3),
        vec![VRegLifeStage::Dead, VRegLifeStage::Dead, VRegLifeStage::Dead]
    );
    assert_eq!(allocation.vreg_info(8), None);
    assert_eq!(allocation.life_stage(7, 3), None);
    assert_eq!(allocation.life_stage(8, 0), None);
}

#[test]
fn lifetime_starts_where_the_register_is_born() {
    let mut allocation = Allocation::empty(4, 1);
    allocation.add_vreg(3, VRegContentKind::Normal).unwrap();
    allocation.mark_alive(3, 2).unwrap();
    assert_eq!(allocation.vreg_info(3).unwrap().lifetime, 2..2);
    assert_eq!(
        stages(&allocation, 3, 4),
        vec![
            VRegLifeStage::Dead,
            VRegLifeStage::Dead,
            VRegLifeStage::Born,
            VRegLifeStage::Dead
        ]
    );
}

#[test]
fn extending_a_lifetime_never_moves_its_end_back() {
    let mut allocation = Allocation::empty(6, 2);
    allocation.add_vreg(10, VRegContentKind::Normal).unwrap();
    allocation.mark_alive(10, 1).unwrap();
    allocation.mark_alive_until(10, 3).unwrap();
    assert_eq!(allocation.vreg_info(10).unwrap().lifetime, 1..3);
    assert_eq!(
        stages(&allocation, 10, 6),
        vec![
            VRegLifeStage::Dead,
            VRegLifeStage::Born,
            VRegLifeStage::Live,
            VRegLifeStage::Dying,
            VRegLifeStage::Dead,
            VRegLifeStage::Dead
        ]
    );
    // a second reference in the same step changes nothing
    allocation.mark_alive_until(10, 3).unwrap();
    assert_eq!(allocation.vreg_info(10).unwrap().lifetime, 1..3);
    allocation.mark_alive_until(10, 5).unwrap();
    assert_eq!(allocation.vreg_info(10).unwrap().lifetime, 1..5);
    assert_eq!(
        stages(&allocation, 10, 6),
        vec![
            VRegLifeStage::Dead,
            VRegLifeStage::Born,
            VRegLifeStage::Live,
            VRegLifeStage::Live,
            VRegLifeStage::Live,
            VRegLifeStage::Dying
        ]
    );
    // an earlier end is refused and leaves the lifetime as it is
    assert_eq!(allocation.mark_alive_until(10, 4), Err(CodegenError::MalformedIr));
    assert_eq!(allocation.vreg_info(10).unwrap().lifetime, 1..5);
    let info = allocation.vreg_info(10).unwrap();
    assert!(info.lifetime.start <= info.lifetime.end);
}

#[test]
fn extending_marks_the_step_behind_the_birth_first() {
    let mut allocation = Allocation::empty(3, 1);
    allocation.add_vreg(0, VRegContentKind::Normal).unwrap();
    allocation.mark_alive(0, 0).unwrap();
    allocation.mark_alive_until(0, 1).unwrap();
    assert_eq!(
        stages(&allocation, 0, 3),
        vec![VRegLifeStage::Born, VRegLifeStage::Dying, VRegLifeStage::Dead]
    );
}

#[test]
fn marking_rejects_what_is_malformed() {
    let mut allocation = Allocation::empty(3, 2);
    allocation.add_vreg(1, VRegContentKind::Normal).unwrap();
    // not defined
    assert_eq!(allocation.mark_alive(2, 0), Err(CodegenError::MalformedIr));
    assert_eq!(allocation.mark_alive_until(2, 1), Err(CodegenError::MalformedIr));
    // not born yet
    assert_eq!(allocation.mark_alive_until(1, 1), Err(CodegenError::MalformedIr));
    // no such step
    assert_eq!(allocation.mark_alive(1, 3), Err(CodegenError::MalformedIr));
    allocation.mark_alive(1, 1).unwrap();
    // born twice
    assert_eq!(allocation.mark_alive(1, 2), Err(CodegenError::MalformedIr));
    // referred to in the step of its birth
    assert_eq!(allocation.mark_alive_until(1, 1), Err(CodegenError::MalformedIr));
    // referred to before its birth
    assert_eq!(allocation.mark_alive_until(1, 0), Err(CodegenError::MalformedIr));
    // no such step
    assert_eq!(allocation.mark_alive_until(1, 3), Err(CodegenError::MalformedIr));
    assert_eq!(allocation.vreg_info(1).unwrap().lifetime, 1..1);
}

#[test]
fn defining_rejects_a_second_definition_and_a_full_map() {
    let mut allocation = Allocation::empty(2, 1);
    allocation.add_vreg(5, VRegContentKind::Normal).unwrap();
    assert_eq!(
        allocation.add_vreg(5, VRegContentKind::Normal),
        Err(CodegenError::MalformedIr)
    );
    assert_eq!(
        allocation.add_vreg(6, VRegContentKind::Normal),
        Err(CodegenError::ResourceExhausted)
    );
}

#[test]
fn first_free_register_is_taken() {
    let mut occupation = vec![true, false, false];
    assert_eq!(Allocation::try_alloc_real_reg(&mut occupation), Some(1));
    assert_eq!(occupation, vec![true, true, false]);
    assert_eq!(Allocation::try_alloc_real_reg(&mut occupation), Some(2));
    assert_eq!(Allocation::try_alloc_real_reg(&mut occupation), None);
    assert_eq!(occupation, vec![true, true, true]);
    let mut none: Vec<bool> = Vec::new();
    assert_eq!(Allocation::try_alloc_real_reg(&mut none), None);
}

#[test]
fn a_register_that_died_is_handed_out_again() {
    let body = vec![
        def(0, sum(uint(1), uint(2))),
        def(1, sum(reg(0), uint(3))),
        Instruction::Ret(Some(reg(1))),
    ];
    let (allocation, stack) = generate(&body).unwrap();
    assert_eq!(allocation.vreg_info(0).unwrap().lifetime, 0..1);
    assert_eq!(allocation.vreg_info(1).unwrap().lifetime, 1..2);
    assert_eq!(allocation.get_alloced_reg(0), Some(X64Register::Rdi));
    assert_eq!(allocation.get_alloced_reg(1), Some(X64Register::Rdi));
    assert_eq!(allocation.living_regs(0), vec![X64Register::Rdi]);
    assert_eq!(allocation.living_regs(1), vec![X64Register::Rdi]);
    assert_eq!(allocation.living_regs(2), Vec::<X64Register>::new());
    assert_eq!(allocation.get_alloced_stackptr(0), None);
    assert_eq!(allocation.get_alloced_const(0), None);
    assert_eq!(stack.allocate().unwrap().stack_depth, 0);
}

#[test]
fn registers_alive_together_are_different() {
    let body = vec![
        def(0, sum(uint(1), uint(2))),
        def(1, sum(uint(3), uint(4))),
        def(2, sum(reg(0), reg(1))),
        def(3, sum(reg(2), uint(1))),
        Instruction::Ret(Some(reg(3))),
    ];
    let (allocation, _) = generate(&body).unwrap();
    assert_eq!(allocation.get_alloced_reg(0), Some(X64Register::Rdi));
    assert_eq!(allocation.get_alloced_reg(1), Some(X64Register::Rsi));
    assert_eq!(allocation.get_alloced_reg(2), Some(X64Register::Rdi));
    assert_eq!(allocation.get_alloced_reg(3), Some(X64Register::Rdi));
    assert_eq!(allocation.living_regs(0), vec![X64Register::Rdi]);
    assert_eq!(allocation.living_regs(1), vec![X64Register::Rdi, X64Register::Rsi]);
    assert_eq!(allocation.living_regs_rev(1), vec![X64Register::Rsi, X64Register::Rdi]);
    assert_eq!(allocation.living_regs(2), vec![X64Register::Rdi]);
    assert_eq!(allocation.living_regs(4), Vec::<X64Register>::new());
}

#[test]
fn living_registers_are_visited_in_both_orders() {
    let body = vec![
        def(0, sum(uint(1), uint(2))),
        def(1, sum(uint(3), uint(4))),
        def(2, sum(uint(5), uint(6))),
        Instruction::Ret(Some(sum(sum(reg(0), reg(1)), reg(2)))),
    ];
    let (allocation, _) = generate(&body).unwrap();
    let mut forward = Vec::new();
    allocation.for_each_living_reg(2, |register| forward.push(register));
    assert_eq!(forward, vec![X64Register::Rdi, X64Register::Rsi, X64Register::Rdx]);
    let mut backward = Vec::new();
    allocation.for_each_living_reg_rev(2, |register| backward.push(register));
    assert_eq!(backward, vec![X64Register::Rdx, X64Register::Rsi, X64Register::Rdi]);
    let mut last = Vec::new();
    allocation.for_each_living_reg(3, |register| last.push(register));
    assert_eq!(last, Vec::<X64Register>::new());
}

#[test]
fn references_inside_operations_extend_lifetimes() {
    let body = vec![
        def(0, sum(uint(1), uint(2))),
        Instruction::Label("next".to_string()),
        Instruction::Ret(Some(sum(uint(1), sum(uint(2), reg(0))))),
    ];
    let (allocation, _) = generate(&body).unwrap();
    assert_eq!(allocation.vreg_info(0).unwrap().lifetime, 0..2);
    assert_eq!(
        stages(&allocation, 0, 3),
        vec![VRegLifeStage::Born, VRegLifeStage::Live, VRegLifeStage::Dying]
    );
}

#[test]
fn a_register_never_referred_to_lives_one_step() {
    let body = vec![def(0, sum(uint(1), uint(2))), Instruction::Ret(None)];
    let (allocation, _) = generate(&body).unwrap();
    assert_eq!(allocation.vreg_info(0).unwrap().lifetime, 0..0);
    assert_eq!(allocation.get_alloced_reg(0), Some(X64Register::Rdi));
    assert_eq!(
        stages(&allocation, 0, 2),
        vec![VRegLifeStage::Born, VRegLifeStage::Dead]
    );
}

#[test]
fn running_out_of_registers_is_not_implemented() {
    let mut body = Vec::new();
    for id in 0..7 {
        body.push(def(id, sum(uint(id), uint(1))));
    }
    let args = (0..7).map(|id| Instruction::Reg(DataType::U64, id)).collect();
    body.push(Instruction::Call { ret_type: None, fn_name: "use_all".to_string(), args });
    assert_eq!(generate(&body).err(), Some(CodegenError::Unimplemented));
}

#[test]
fn six_registers_alive_together_fit() {
    let mut body = Vec::new();
    for id in 0..6 {
        body.push(def(id, sum(uint(id), uint(1))));
    }
    let args = (0..6).map(|id| Instruction::Reg(DataType::U64, id)).collect();
    body.push(Instruction::Call { ret_type: None, fn_name: "use_all".to_string(), args });
    let (allocation, _) = generate(&body).unwrap();
    assert_eq!(allocation.living_regs(5), X64Register::caller_saved());
    assert_eq!(allocation.living_regs(6), Vec::<X64Register>::new());
    assert!(allocation.has_fn_call(6));
    assert!(!allocation.has_fn_call(5));
    assert_eq!(allocation.get_alloced_reg(5), Some(X64Register::R9));
}

#[test]
fn constants_resolve_to_their_bytes_and_take_no_register() {
    let body = vec![
        def(0, Box::new(Instruction::UInt(DataType::U64, 0x0102_0304_0506_0708))),
        def(1, Box::new(Instruction::Int(DataType::I64, -2))),
        def(2, Box::new(Instruction::Float(DataType::F64, 1.5f64.to_bits()))),
        def(3, Box::new(Instruction::Int(DataType::I32, 77))),
        Instruction::Ret(Some(sum(sum(reg(0), reg(1)), sum(reg(2), reg(3))))),
    ];
    let (allocation, stack) = generate(&body).unwrap();
    assert_eq!(allocation.get_alloced_const(0), Some([1, 2, 3, 4, 5, 6, 7, 8]));
    assert_eq!(allocation.get_alloced_const(0), Some(0x0102_0304_0506_0708u64.to_be_bytes()));
    assert_eq!(allocation.get_alloced_const(1), Some((-2i64).to_be_bytes()));
    assert_eq!(allocation.get_alloced_const(2), Some(1.5f64.to_be_bytes()));
    assert_eq!(allocation.get_alloced_const(3), Some(77i64.to_be_bytes()));
    for id in 0..4 {
        assert_eq!(allocation.get_alloced_reg(id), None);
        assert_eq!(allocation.get_alloced_stackptr(id), None);
    }
    for step in 0..5 {
        assert_eq!(allocation.living_regs(step), Vec::<X64Register>::new());
    }
    assert_eq!(stack.allocate().unwrap().stack_depth, 0);
    assert_eq!(
        allocation.vreg_info(1).unwrap().allocation,
        Some(VRegAlloc::Const([0xff, 0xff, 0xff, 0xff, 0xff, 0xff, 0xff, 0xfe]))
    );
}

#[test]
fn stack_space_gets_slots_in_order() {
    let body = vec![
        def(0, Box::new(Instruction::Alloc(DataType::U32))),
        def(1, Box::new(Instruction::Alloc(DataType::U8))),
        def(2, Box::new(Instruction::Alloc(DataType::Ptr))),
        Instruction::Store { lhs_dtype: DataType::U32, id: 0, rhs: uint(5) },
        Instruction::Store { lhs_dtype: DataType::U8, id: 1, rhs: uint(6) },
    ];
    let mut stack = StackAllocator::new(8, 0);
    assert_eq!(stack.add_var(2), 0);
    let allocation = Allocation::generate_from(&body, &mut stack).unwrap();
    assert_eq!(allocation.get_alloced_stackptr(0), Some(1));
    assert_eq!(allocation.get_alloced_stackptr(1), Some(2));
    assert_eq!(allocation.get_alloced_stackptr(2), Some(3));
    assert_eq!(allocation.get_alloced_reg(0), None);
    assert_eq!(
        allocation.vreg_info(0).unwrap().content_kind,
        VRegContentKind::StackSpace(4)
    );
    assert_eq!(
        allocation.vreg_info(2).unwrap().content_kind,
        VRegContentKind::StackSpace(8)
    );
    let layout = stack.allocate().unwrap();
    assert_eq!(layout.locations, vec![0, 2, 6, 8]);
    assert_eq!(layout.stack_depth, 16);
}

#[test]
fn a_copy_keeps_constants_but_not_stack_space() {
    let body = vec![
        def(0, Box::new(Instruction::Alloc(DataType::U32))),
        def(1, reg(0)),
        def(2, uint(9)),
        def(3, reg(2)),
        Instruction::Ret(Some(sum(reg(1), reg(3)))),
    ];
    let (allocation, _) = generate(&body).unwrap();
    assert_eq!(allocation.vreg_info(1).unwrap().content_kind, VRegContentKind::Normal);
    assert_eq!(allocation.get_alloced_reg(1), Some(X64Register::Rdi));
    assert_eq!(allocation.get_alloced_const(3), Some(9u64.to_be_bytes()));
    assert_eq!(allocation.vreg_info(0).unwrap().lifetime, 0..1);
}

#[test]
fn analysis_rejects_malformed_bodies() {
    // reference to a register that is not defined
    let body = vec![Instruction::Ret(Some(reg(4)))];
    assert_eq!(generate(&body).err(), Some(CodegenError::MalformedIr));
    // reference before the definition
    let body = vec![Instruction::Ret(Some(reg(0))), def(0, uint(1))];
    assert_eq!(generate(&body).err(), Some(CodegenError::MalformedIr));
    // second definition
    let body = vec![def(0, uint(1)), def(0, uint(2))];
    assert_eq!(generate(&body).err(), Some(CodegenError::MalformedIr));
    // a register defined by itself
    let body = vec![def(0, sum(reg(0), uint(2)))];
    assert_eq!(generate(&body).err(), Some(CodegenError::MalformedIr));
    // copy of a register that is not defined
    let body = vec![def(0, reg(1))];
    assert_eq!(generate(&body).err(), Some(CodegenError::MalformedIr));
    // an operand where a step is expected
    let body = vec![Instruction::UInt(DataType::U8, 1)];
    assert_eq!(generate(&body).err(), Some(CodegenError::MalformedIr));
    let body = vec![Instruction::Alloc(DataType::U8)];
    assert_eq!(generate(&body).err(), Some(CodegenError::MalformedIr));
    // store to a register that is not defined
    let body = vec![Instruction::Store { lhs_dtype: DataType::U8, id: 3, rhs: uint(1) }];
    assert_eq!(generate(&body).err(), Some(CodegenError::MalformedIr));
}

#[test]
fn steps_with_calls_are_flagged() {
    let call = Instruction::Call { ret_type: Some(DataType::U64), fn_name: "f".to_string(), args: vec![] };
    let body = vec![
        def(0, Box::new(call)),
        Instruction::Ret(Some(reg(0))),
        Instruction::Call { ret_type: None, fn_name: "g".to_string(), args: vec![] },
    ];
    let (allocation, _) = generate(&body).unwrap();
    assert!(allocation.has_fn_call(0));
    assert!(!allocation.has_fn_call(1));
    assert!(allocation.has_fn_call(2));
}

#[test]
fn locations_can_be_taken_apart() {
    assert_eq!(VRegAlloc::RealReg(3).as_real_reg(), Some(3));
    assert_eq!(VRegAlloc::RealReg(3).as_stack_ptr(), None);
    assert_eq!(VRegAlloc::RealReg(3).as_const(), None);
    assert_eq!(VRegAlloc::StackPtr(4).as_stack_ptr(), Some(4));
    assert_eq!(VRegAlloc::StackPtr(4).as_real_reg(), None);
    assert_eq!(VRegAlloc::Const([1; 8]).as_const(), Some([1; 8]));
    assert_eq!(VRegAlloc::Const([1; 8]).as_stack_ptr(), None);
}

#[test]
fn life_stages_know_whether_they_live() {
    assert!(VRegLifeStage::Born.is_living());
    assert!(VRegLifeStage::Live.is_living());
    assert!(VRegLifeStage::Dying.is_living());
    assert!(!VRegLifeStage::Dead.is_living());
    assert_eq!(VRegLifeStage::default(), VRegLifeStage::Dead);
    assert_eq!(
        VRegInfo::default(),
        VRegInfo {
            external_id: 0,
            content_kind: VRegContentKind::Normal,
            lifetime: 0..0,
            allocation: None,
        }
    );
}

#[test]
fn building_in_two_phases_gives_the_same_allocation() {
    let body = vec![
        def(0, Box::new(Instruction::Alloc(DataType::U16))),
        def(1, sum(uint(1), uint(2))),
        def(2, uint(7)),
        Instruction::Store { lhs_dtype: DataType::U16, id: 0, rhs: reg(1) },
        Instruction::Ret(Some(reg(2))),
    ];
    let mut stack = StackAllocator::new(8, 0);
    let mut allocator = VRegAllocator::<X64Register>::empty(body.len(), 3);
    allocator.generate_map_from(&body).unwrap();
    assert_eq!(allocator.vreg_info(1).unwrap().lifetime, 1..3);
    assert_eq!(allocator.vreg_info(1).unwrap().allocation, None);
    allocator.alloc_regs(&mut stack).unwrap();
    let (generated, _) = generate(&body).unwrap();
    for id in 0..3 {
        assert_eq!(allocator.vreg_info(id), generated.vreg_info(id));
    }
    for step in 0..body.len() {
        assert_eq!(allocator.living_regs(step), generated.living_regs(step));
        assert_eq!(allocator.has_fn_call(step), generated.has_fn_call(step));
    }
    assert_eq!(allocator.get_alloced_stackptr(0), Some(0));
    assert_eq!(allocator.get_alloced_reg(1), Some(X64Register::Rdi));
    assert_eq!(allocator.get_alloced_const(2), Some(7u64.to_be_bytes()));
}

#[test]
fn a_body_needs_a_step_for_each_instruction_and_room_for_each_definition() {
    let body = vec![def(0, sum(uint(1), uint(2))), def(1, sum(uint(1), uint(2))), Instruction::Ret(None)];
    let mut short = VRegAllocator::<X64Register>::empty(2, 2);
    assert_eq!(short.generate_map_from(&body), Err(CodegenError::MalformedIr));
    let mut narrow = VRegAllocator::<X64Register>::empty(3, 1);
    assert_eq!(narrow.generate_map_from(&body), Err(CodegenError::ResourceExhausted));
    let mut fitting = VRegAllocator::<X64Register>::empty(3, 2);
    assert_eq!(fitting.generate_map_from(&body), Ok(()));
}

#[test]
fn the_lifetime_map_is_written_as_a_table() {
    let body = vec![
        def(0, sum(uint(1), uint(2))),
        def(1, sum(reg(0), uint(3))),
        Instruction::Call { ret_type: None, fn_name: "f".to_string(), args: vec![] },
        Instruction::Ret(Some(reg(1))),
    ];
    let (allocation, _) = generate(&body).unwrap();
    assert_eq!(
        allocation.print_reg_lifetime_map(),
        "VReg step map:\n\
         \t%0\t%1\tcall?\trdi\trsi\trdx\trcx\tr8\tr9\n\
         0\tO\t\t\t√\t \t \t \t \t \n\
         1\tX\tO\t\t√\t \t \t \t \t \n\
         2\t\t|\t√\t√\t \t \t \t \t \n\
         3\t\tX\t\t \t \t \t \t \t \n"
    );
    let empty = Allocation::empty(1, 0);
    assert_eq!(
        empty.print_reg_lifetime_map(),
        "VReg step map:\n\tcall?\trdi\trsi\trdx\trcx\tr8\tr9\n0\t\n"
    );
}

#[test]
fn the_virtual_registers_are_written_as_a_table() {
    let body = vec![
        def(0, sum(uint(1), uint(2))),
        def(5, Box::new(Instruction::Alloc(DataType::U32))),
        def(7, uint(258)),
        Instruction::Store { lhs_dtype: DataType::U32, id: 5, rhs: reg(0) },
    ];
    let (allocation, _) = generate(&body).unwrap();
    assert_eq!(
        allocation.print_reg_infos(),
        "Virtual registers:\nid:\tkind\tlife\talloc\n\
         0:\tnormal\t0..3\trdi\n\
         5:\tstack\t1..3\tstack 0\n\
         7:\tconst\t2..2\tconst 258\n"
    );
    let mut unallocated = Allocation::empty(1, 1);
    unallocated.add_vreg(3, VRegContentKind::Normal).unwrap();
    assert_eq!(
        unallocated.print_reg_infos(),
        "Virtual registers:\nid:\tkind\tlife\talloc\n3:\tnormal\t0..0\tNo alloc\n"
    );
    assert_eq!(X64Register::R10w.name(), "r10w");
}
