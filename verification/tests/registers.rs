use std::collections::HashSet;
use x64_backend::generation::platform::x86_64::reg::{X64Register, X86WordSize};
use x64_backend::generation::vreg_alloc::Register;

const SIZES: [X86WordSize; 4] =
    [X86WordSize::Qword, X86WordSize::Bword, X86WordSize::Word, X86WordSize::Byte];

fn all_registers() -> Vec<X64Register> {
    (0..64).map(X64Register::from_raw).collect()
}

#[test]
fn accumulator_has_its_four_names() {
    assert_eq!(X64Register::Rax.of_size(X86WordSize::Qword).to_string(), "rax");
    assert_eq!(X64Register::Rax.of_size(X86WordSize::Bword).to_string(), "eax");
    assert_eq!(X64Register::Rax.of_size(X86WordSize::Word).to_string(), "ax");
    assert_eq!(X64Register::Rax.of_size(X86WordSize::Byte).to_string(), "al");
}

#[test]
fn every_family_is_named_at_every_width() {
    let expected = [
        ["rax", "eax", "ax", "al"],
        ["rbx", "ebx", "bx", "bl"],
        ["rcx", "ecx", "cx", "cl"],
        ["rdx", "edx", "dx", "dl"],
        ["rsp", "esp", "sp", "spl"],
        ["rbp", "ebp", "bp", "bpl"],
        ["rsi", "esi", "si", "sil"],
        ["rdi", "edi", "di", "dil"],
        ["r8", "r8d", "r8w", "r8b"],
        ["r9", "r9d", "r9w", "r9b"],
        ["r10", "r10d", "r10w", "r10b"],
        ["r11", "r11d", "r11w", "r11b"],
        ["r12", "r12d", "r12w", "r12b"],
        ["r13", "r13d", "r13w", "r13b"],
        ["r14", "r14d", "r14w", "r14b"],
        ["r15", "r15d", "r15w", "r15b"],
    ];
    for (family, names) in expected.iter().enumerate() {
        let register = X64Register::from_raw(family);
        for (size, name) in SIZES.iter().zip(names.iter()) {
            assert_eq!(register.of_size(*size).mnemonic(), *name);
            assert_eq!(register.of_size(*size).to_string(), name.to_string());
        }
    }
}

#[test]
fn names_are_unique_and_stable() {
    let mut seen = HashSet::new();
    for register in all_registers() {
        assert_eq!(register.mnemonic(), register.mnemonic());
        assert!(seen.insert(register.to_string()));
    }
    assert_eq!(seen.len(), 64);
}

#[test]
fn codes_and_registers_correspond() {
    for raw in 0..64 {
        assert_eq!(X64Register::from_raw(raw).raw(), raw);
    }
    assert_eq!(X64Register::from_raw(0x00), X64Register::Rax);
    assert_eq!(X64Register::from_raw(0x07), X64Register::Rdi);
    assert_eq!(X64Register::from_raw(0x10), X64Register::Eax);
    assert_eq!(X64Register::from_raw(0x25), X64Register::Bp);
    assert_eq!(X64Register::from_raw(0x3f), X64Register::R15b);
    assert_eq!(X64Register::R9w.raw(), 0x29);
}

#[test]
fn resizing_keeps_the_family() {
    for register in all_registers() {
        for size in SIZES {
            let resized = register.of_size(size);
            assert_eq!(resized.word_size(), size);
            assert_eq!(resized.raw() % 16, register.raw() % 16);
            assert_eq!(resized.of_size(register.word_size()), register);
        }
    }
    assert_eq!(X64Register::Sil.of_size(X86WordSize::Qword), X64Register::Rsi);
    assert_eq!(X64Register::R12.of_size(X86WordSize::Word), X64Register::R12w);
}

#[test]
fn width_of_a_register_is_known() {
    assert_eq!(X64Register::Rdx.word_size(), X86WordSize::Qword);
    assert_eq!(X64Register::Edx.word_size(), X86WordSize::Bword);
    assert_eq!(X64Register::Dx.word_size(), X86WordSize::Word);
    assert_eq!(X64Register::Dl.word_size(), X86WordSize::Byte);
}

#[test]
fn widths_have_bytes_and_names() {
    assert_eq!(X86WordSize::Byte.bytes(), 1);
    assert_eq!(X86WordSize::Word.bytes(), 2);
    assert_eq!(X86WordSize::Bword.bytes(), 4);
    assert_eq!(X86WordSize::Qword.bytes(), 8);
    for size in SIZES {
        assert_eq!(X86WordSize::from_bytes(size.bytes()), Some(size));
    }
    assert_eq!(X86WordSize::from_bytes(0), None);
    assert_eq!(X86WordSize::from_bytes(3), None);
    assert_eq!(X86WordSize::from_bytes(16), None);
    assert_eq!(X86WordSize::Byte.fmt_into_asm(), "byte");
    assert_eq!(X86WordSize::Word.fmt_into_asm(), "word");
    assert_eq!(X86WordSize::Bword.fmt_into_asm(), "bword");
    assert_eq!(X86WordSize::Qword.fmt_into_asm(), "qword");
    assert!(X86WordSize::Byte < X86WordSize::Qword);
}

#[test]
fn argument_registers_come_in_calling_order() {
    assert_eq!(
        X64Register::caller_saved(),
        vec![
            X64Register::Rdi,
            X64Register::Rsi,
            X64Register::Rdx,
            X64Register::Rcx,
            X64Register::R8,
            X64Register::R9
        ]
    );
    assert_eq!(
        X64Register::callee_saved(),
        vec![
            X64Register::Rbx,
            X64Register::Rsp,
            X64Register::Rbp,
            X64Register::R10,
            X64Register::R11,
            X64Register::R12,
            X64Register::R13,
            X64Register::R14,
            X64Register::R15
        ]
    );
}
