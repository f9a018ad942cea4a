//! The register naming table of x86-64.
//!
//! A register is one of sixteen families seen at one of four widths. The
//! numeric code of a register is its family plus sixteen times the tag of
//! its width.
use vstd::prelude::*;
use crate::generation::vreg_alloc::Register;

verus! {

/// Operand widths of x86-64.
#[derive(Debug, Clone, Copy, PartialEq, Eq, Structural, PartialOrd, Ord)]
pub enum X86WordSize {
    Byte,
    Word,
    Bword,
    Qword,
}

impl X86WordSize {
    /// Number of bytes of the width.
    pub open spec fn spec_bytes(self) -> u8 {
        match self {
            X86WordSize::Byte => 1,
            X86WordSize::Word => 2,
            X86WordSize::Bword => 4,
            X86WordSize::Qword => 8,
        }
    }

    /// What the width adds to the code of a register family.
    pub open spec fn spec_tag(self) -> int {
        match self {
            X86WordSize::Qword => 0,
            X86WordSize::Bword => 1,
            X86WordSize::Word => 2,
            X86WordSize::Byte => 3,
        }
    }

    /// The name of the width in a memory operand.
    pub open spec fn spec_asm(self) -> Seq<char> {
        match self {
            X86WordSize::Byte => "byte"@,
            X86WordSize::Word => "word"@,
            X86WordSize::Bword => "bword"@,
            X86WordSize::Qword => "qword"@,
        }
    }

    /// Number of bytes of the width.
    pub fn bytes(self) -> (bytes: u8)
        ensures
            bytes == self.spec_bytes(),
    {
        match self {
            X86WordSize::Byte => 1,
            X86WordSize::Word => 2,
            X86WordSize::Bword => 4,
            X86WordSize::Qword => 8,
        }
    }

    /// The width of that many bytes, if there is one.
    pub fn from_bytes(bytes: u8) -> (size: Option<Self>)
        ensures
            match size {
                Some(size) => size.spec_bytes() == bytes,
                None => bytes != 1 && bytes != 2 && bytes != 4 && bytes != 8,
            },
    {
        match bytes {
            1 => Some(X86WordSize::Byte),
            2 => Some(X86WordSize::Word),
            4 => Some(X86WordSize::Bword),
            8 => Some(X86WordSize::Qword),
            _ => None,
        }
    }

    /// The name of the width in a memory operand.
    pub fn fmt_into_asm(&self) -> (text: String)
        ensures
            text@ == self.spec_asm(),
    {
        match self {
            X86WordSize::Byte => String::from_str("byte"),
            X86WordSize::Word => String::from_str("word"),
            X86WordSize::Bword => String::from_str("bword"),
            X86WordSize::Qword => String::from_str("qword"),
        }
    }
}

/// Every register of x86-64 at every width, grouped by width.
#[derive(Debug, Clone, Copy, PartialEq, Eq, Structural)]
pub enum X64Register {
    Rax,
    Rbx,
    Rcx,
    Rdx,
    Rsp,
    Rbp,
    Rsi,
    Rdi,
    R8,
    R9,
    R10,
    R11,
    R12,
    R13,
    R14,
    R15,
    Eax,
    Ebx,
    Ecx,
    Edx,
    Esp,
    Ebp,
    Esi,
    Edi,
    R8d,
    R9d,
    R10d,
    R11d,
    R12d,
    R13d,
    R14d,
    R15d,
    Ax,
    Bx,
    Cx,
    Dx,
    Sp,
    Bp,
    Si,
    Di,
    R8w,
    R9w,
    R10w,
    R11w,
    R12w,
    R13w,
    R14w,
    R15w,
    Al,
    Bl,
    Cl,
    Dl,
    Spl,
    Bpl,
    Sil,
    Dil,
    R8b,
    R9b,
    R10b,
    R11b,
    R12b,
    R13b,
    R14b,
    R15b,
}

impl X64Register {
    /// The numeric code: the family in the low four bits, the width above.
    pub open spec fn spec_raw(self) -> int {
        match self {
            X64Register::Rax => 0,
            X64Register::Rbx => 1,
            X64Register::Rcx => 2,
            X64Register::Rdx => 3,
            X64Register::Rsp => 4,
            X64Register::Rbp => 5,
            X64Register::Rsi => 6,
            X64Register::Rdi => 7,
            X64Register::R8 => 8,
            X64Register::R9 => 9,
            X64Register::R10 => 10,
            X64Register::R11 => 11,
            X64Register::R12 => 12,
            X64Register::R13 => 13,
            X64Register::R14 => 14,
            X64Register::R15 => 15,
            X64Register::Eax => 16,
            X64Register::Ebx => 17,
            X64Register::Ecx => 18,
            X64Register::Edx => 19,
            X64Register::Esp => 20,
            X64Register::Ebp => 21,
            X64Register::Esi => 22,
            X64Register::Edi => 23,
            X64Register::R8d => 24,
            X64Register::R9d => 25,
            X64Register::R10d => 26,
            X64Register::R11d => 27,
            X64Register::R12d => 28,
            X64Register::R13d => 29,
            X64Register::R14d => 30,
            X64Register::R15d => 31,
            X64Register::Ax => 32,
            X64Register::Bx => 33,
            X64Register::Cx => 34,
            X64Register::Dx => 35,
            X64Register::Sp => 36,
            X64Register::Bp => 37,
            X64Register::Si => 38,
            X64Register::Di => 39,
            X64Register::R8w => 40,
            X64Register::R9w => 41,
            X64Register::R10w => 42,
            X64Register::R11w => 43,
            X64Register::R12w => 44,
            X64Register::R13w => 45,
            X64Register::R14w => 46,
            X64Register::R15w => 47,
            X64Register::Al => 48,
            X64Register::Bl => 49,
            X64Register::Cl => 50,
            X64Register::Dl => 51,
            X64Register::Spl => 52,
            X64Register::Bpl => 53,
            X64Register::Sil => 54,
            X64Register::Dil => 55,
            X64Register::R8b => 56,
            X64Register::R9b => 57,
            X64Register::R10b => 58,
            X64Register::R11b => 59,
            X64Register::R12b => 60,
            X64Register::R13b => 61,
            X64Register::R14b => 62,
            X64Register::R15b => 63,
        }
    }

    /// The family of the register: which register it is, whatever the width.
    pub open spec fn spec_family(self) -> int {
        self.spec_raw() % 16
    }

    /// The width the register is seen at.
    pub open spec fn spec_word_size(self) -> X86WordSize {
        let tag = self.spec_raw() / 16;
        if tag == 0 {
            X86WordSize::Qword
        } else if tag == 1 {
            X86WordSize::Bword
        } else if tag == 2 {
            X86WordSize::Word
        } else {
            X86WordSize::Byte
        }
    }

    /// The register with the given numeric code.
    pub open spec fn spec_from_raw(raw: int) -> X64Register {
        if raw == 0 {
            X64Register::Rax
        } else if raw == 1 {
            X64Register::Rbx
        } else if raw == 2 {
            X64Register::Rcx
        } else if raw == 3 {
            X64Register::Rdx
        } else if raw == 4 {
            X64Register::Rsp
        } else if raw == 5 {
            X64Register::Rbp
        } else if raw == 6 {
            X64Register::Rsi
        } else if raw == 7 {
            X64Register::Rdi
        } else if raw == 8 {
            X64Register::R8
        } else if raw == 9 {
            X64Register::R9
        } else if raw == 10 {
            X64Register::R10
        } else if raw == 11 {
            X64Register::R11
        } else if raw == 12 {
            X64Register::R12
        } else if raw == 13 {
            X64Register::R13
        } else if raw == 14 {
            X64Register::R14
        } else if raw == 15 {
            X64Register::R15
        } else if raw == 16 {
            X64Register::Eax
        } else if raw == 17 {
            X64Register::Ebx
        } else if raw == 18 {
            X64Register::Ecx
        } else if raw == 19 {
            X64Register::Edx
        } else if raw == 20 {
            X64Register::Esp
        } else if raw == 21 {
            X64Register::Ebp
        } else if raw == 22 {
            X64Register::Esi
        } else if raw == 23 {
            X64Register::Edi
        } else if raw == 24 {
            X64Register::R8d
        } else if raw == 25 {
            X64Register::R9d
        } else if raw == 26 {
            X64Register::R10d
        } else if raw == 27 {
            X64Register::R11d
        } else if raw == 28 {
            X64Register::R12d
        } else if raw == 29 {
            X64Register::R13d
        } else if raw == 30 {
            X64Register::R14d
        } else if raw == 31 {
            X64Register::R15d
        } else if raw == 32 {
            X64Register::Ax
        } else if raw == 33 {
            X64Register::Bx
        } else if raw == 34 {
            X64Register::Cx
        } else if raw == 35 {
            X64Register::Dx
        } else if raw == 36 {
            X64Register::Sp
        } else if raw == 37 {
            X64Register::Bp
        } else if raw == 38 {
            X64Register::Si
        } else if raw == 39 {
            X64Register::Di
        } else if raw == 40 {
            X64Register::R8w
        } else if raw == 41 {
            X64Register::R9w
        } else if raw == 42 {
            X64Register::R10w
        } else if raw == 43 {
            X64Register::R11w
        } else if raw == 44 {
            X64Register::R12w
        } else if raw == 45 {
            X64Register::R13w
        } else if raw == 46 {
            X64Register::R14w
        } else if raw == 47 {
            X64Register::R15w
        } else if raw == 48 {
            X64Register::Al
        } else if raw == 49 {
            X64Register::Bl
        } else if raw == 50 {
            X64Register::Cl
        } else if raw == 51 {
            X64Register::Dl
        } else if raw == 52 {
            X64Register::Spl
        } else if raw == 53 {
            X64Register::Bpl
        } else if raw == 54 {
            X64Register::Sil
        } else if raw == 55 {
            X64Register::Dil
        } else if raw == 56 {
            X64Register::R8b
        } else if raw == 57 {
            X64Register::R9b
        } else if raw == 58 {
            X64Register::R10b
        } else if raw == 59 {
            X64Register::R11b
        } else if raw == 60 {
            X64Register::R12b
        } else if raw == 61 {
            X64Register::R13b
        } else if raw == 62 {
            X64Register::R14b
        } else {
            X64Register::R15b
        }
    }

    /// The same register family at another width.
    pub open spec fn spec_of_size(self, size: X86WordSize) -> X64Register {
        Self::spec_from_raw(self.spec_family() + 16 * size.spec_tag())
    }

    /// The assembly name of the register.
    pub open spec fn spec_mnemonic(self) -> Seq<char> {
        match self {
            X64Register::Rax => "rax"@,
            X64Register::Rbx => "rbx"@,
            X64Register::Rcx => "rcx"@,
            X64Register::Rdx => "rdx"@,
            X64Register::Rsp => "rsp"@,
            X64Register::Rbp => "rbp"@,
            X64Register::Rsi => "rsi"@,
            X64Register::Rdi => "rdi"@,
            X64Register::R8 => "r8"@,
            X64Register::R9 => "r9"@,
            X64Register::R10 => "r10"@,
            X64Register::R11 => "r11"@,
            X64Register::R12 => "r12"@,
            X64Register::R13 => "r13"@,
            X64Register::R14 => "r14"@,
            X64Register::R15 => "r15"@,
            X64Register::Eax => "eax"@,
            X64Register::Ebx => "ebx"@,
            X64Register::Ecx => "ecx"@,
            X64Register::Edx => "edx"@,
            X64Register::Esp => "esp"@,
            X64Register::Ebp => "ebp"@,
            X64Register::Esi => "esi"@,
            X64Register::Edi => "edi"@,
            X64Register::R8d => "r8d"@,
            X64Register::R9d => "r9d"@,
            X64Register::R10d => "r10d"@,
            X64Register::R11d => "r11d"@,
            X64Register::R12d => "r12d"@,
            X64Register::R13d => "r13d"@,
            X64Register::R14d => "r14d"@,
            X64Register::R15d => "r15d"@,
            X64Register::Ax => "ax"@,
            X64Register::Bx => "bx"@,
            X64Register::Cx => "cx"@,
            X64Register::Dx => "dx"@,
            X64Register::Sp => "sp"@,
            X64Register::Bp => "bp"@,
            X64Register::Si => "si"@,
            X64Register::Di => "di"@,
            X64Register::R8w => "r8w"@,
            X64Register::R9w => "r9w"@,
            X64Register::R10w => "r10w"@,
            X64Register::R11w => "r11w"@,
            X64Register::R12w => "r12w"@,
            X64Register::R13w => "r13w"@,
            X64Register::R14w => "r14w"@,
            X64Register::R15w => "r15w"@,
            X64Register::Al => "al"@,
            X64Register::Bl => "bl"@,
            X64Register::Cl => "cl"@,
            X64Register::Dl => "dl"@,
            X64Register::Spl => "spl"@,
            X64Register::Bpl => "bpl"@,
            X64Register::Sil => "sil"@,
            X64Register::Dil => "dil"@,
            X64Register::R8b => "r8b"@,
            X64Register::R9b => "r9b"@,
            X64Register::R10b => "r10b"@,
            X64Register::R11b => "r11b"@,
            X64Register::R12b => "r12b"@,
            X64Register::R13b => "r13b"@,
            X64Register::R14b => "r14b"@,
            X64Register::R15b => "r15b"@,
        }
    }

    /// The numeric code of the register.
    pub fn raw(self) -> (raw: usize)
        ensures
            raw == self.spec_raw(),
            raw < 64,
    {
        match self {
            X64Register::Rax => 0,
            X64Register::Rbx => 1,
            X64Register::Rcx => 2,
            X64Register::Rdx => 3,
            X64Register::Rsp => 4,
            X64Register::Rbp => 5,
            X64Register::Rsi => 6,
            X64Register::Rdi => 7,
            X64Register::R8 => 8,
            X64Register::R9 => 9,
            X64Register::R10 => 10,
            X64Register::R11 => 11,
            X64Register::R12 => 12,
            X64Register::R13 => 13,
            X64Register::R14 => 14,
            X64Register::R15 => 15,
            X64Register::Eax => 16,
            X64Register::Ebx => 17,
            X64Register::Ecx => 18,
            X64Register::Edx => 19,
            X64Register::Esp => 20,
            X64Register::Ebp => 21,
            X64Register::Esi => 22,
            X64Register::Edi => 23,
            X64Register::R8d => 24,
            X64Register::R9d => 25,
            X64Register::R10d => 26,
            X64Register::R11d => 27,
            X64Register::R12d => 28,
            X64Register::R13d => 29,
            X64Register::R14d => 30,
            X64Register::R15d => 31,
            X64Register::Ax => 32,
            X64Register::Bx => 33,
            X64Register::Cx => 34,
            X64Register::Dx => 35,
            X64Register::Sp => 36,
            X64Register::Bp => 37,
            X64Register::Si => 38,
            X64Register::Di => 39,
            X64Register::R8w => 40,
            X64Register::R9w => 41,
            X64Register::R10w => 42,
            X64Register::R11w => 43,
            X64Register::R12w => 44,
            X64Register::R13w => 45,
            X64Register::R14w => 46,
            X64Register::R15w => 47,
            X64Register::Al => 48,
            X64Register::Bl => 49,
            X64Register::Cl => 50,
            X64Register::Dl => 51,
            X64Register::Spl => 52,
            X64Register::Bpl => 53,
            X64Register::Sil => 54,
            X64Register::Dil => 55,
            X64Register::R8b => 56,
            X64Register::R9b => 57,
            X64Register::R10b => 58,
            X64Register::R11b => 59,
            X64Register::R12b => 60,
            X64Register::R13b => 61,
            X64Register::R14b => 62,
            X64Register::R15b => 63,
        }
    }

    /// The register with the given numeric code.
    pub fn from_raw(raw: usize) -> (register: Self)
        requires
            raw < 64,
        ensures
            register.spec_raw() == raw,
            register == Self::spec_from_raw(raw as int),
    {
        match raw {
            0 => X64Register::Rax,
            1 => X64Register::Rbx,
            2 => X64Register::Rcx,
            3 => X64Register::Rdx,
            4 => X64Register::Rsp,
            5 => X64Register::Rbp,
            6 => X64Register::Rsi,
            7 => X64Register::Rdi,
            8 => X64Register::R8,
            9 => X64Register::R9,
            10 => X64Register::R10,
            11 => X64Register::R11,
            12 => X64Register::R12,
            13 => X64Register::R13,
            14 => X64Register::R14,
            15 => X64Register::R15,
            16 => X64Register::Eax,
            17 => X64Register::Ebx,
            18 => X64Register::Ecx,
            19 => X64Register::Edx,
            20 => X64Register::Esp,
            21 => X64Register::Ebp,
            22 => X64Register::Esi,
            23 => X64Register::Edi,
            24 => X64Register::R8d,
            25 => X64Register::R9d,
            26 => X64Register::R10d,
            27 => X64Register::R11d,
            28 => X64Register::R12d,
            29 => X64Register::R13d,
            30 => X64Register::R14d,
            31 => X64Register::R15d,
            32 => X64Register::Ax,
            33 => X64Register::Bx,
            34 => X64Register::Cx,
            35 => X64Register::Dx,
            36 => X64Register::Sp,
            37 => X64Register::Bp,
            38 => X64Register::Si,
            39 => X64Register::Di,
            40 => X64Register::R8w,
            41 => X64Register::R9w,
            42 => X64Register::R10w,
            43 => X64Register::R11w,
            44 => X64Register::R12w,
            45 => X64Register::R13w,
            46 => X64Register::R14w,
            47 => X64Register::R15w,
            48 => X64Register::Al,
            49 => X64Register::Bl,
            50 => X64Register::Cl,
            51 => X64Register::Dl,
            52 => X64Register::Spl,
            53 => X64Register::Bpl,
            54 => X64Register::Sil,
            55 => X64Register::Dil,
            56 => X64Register::R8b,
            57 => X64Register::R9b,
            58 => X64Register::R10b,
            59 => X64Register::R11b,
            60 => X64Register::R12b,
            61 => X64Register::R13b,
            62 => X64Register::R14b,
            _ => X64Register::R15b,
        }
    }

    /// The same register family at another width.
    pub fn of_size(self, size: X86WordSize) -> (register: Self)
        ensures
            register == self.spec_of_size(size),
            register.spec_family() == self.spec_family(),
            register.spec_word_size() == size,
    {
        let family: usize = self.raw() % 16;
        match size {
            X86WordSize::Byte => Self::from_raw(family + 48),
            X86WordSize::Word => Self::from_raw(family + 32),
            X86WordSize::Bword => Self::from_raw(family + 16),
            X86WordSize::Qword => Self::from_raw(family),
        }
    }

    /// The width the register is seen at.
    pub fn word_size(self) -> (size: X86WordSize)
        ensures
            size == self.spec_word_size(),
    {
        let tag: usize = self.raw() / 16;
        if tag == 0 {
            X86WordSize::Qword
        } else if tag == 1 {
            X86WordSize::Bword
        } else if tag == 2 {
            X86WordSize::Word
        } else {
            X86WordSize::Byte
        }
    }

    /// The assembly name of the register.
    pub fn mnemonic(self) -> (name: &'static str)
        ensures
            name@ == self.spec_mnemonic(),
    {
        match self {
            X64Register::Rax => "rax",
            X64Register::Rbx => "rbx",
            X64Register::Rcx => "rcx",
            X64Register::Rdx => "rdx",
            X64Register::Rsp => "rsp",
            X64Register::Rbp => "rbp",
            X64Register::Rsi => "rsi",
            X64Register::Rdi => "rdi",
            X64Register::R8 => "r8",
            X64Register::R9 => "r9",
            X64Register::R10 => "r10",
            X64Register::R11 => "r11",
            X64Register::R12 => "r12",
            X64Register::R13 => "r13",
            X64Register::R14 => "r14",
            X64Register::R15 => "r15",
            X64Register::Eax => "eax",
            X64Register::Ebx => "ebx",
            X64Register::Ecx => "ecx",
            X64Register::Edx => "edx",
            X64Register::Esp => "esp",
            X64Register::Ebp => "ebp",
            X64Register::Esi => "esi",
            X64Register::Edi => "edi",
            X64Register::R8d => "r8d",
            X64Register::R9d => "r9d",
            X64Register::R10d => "r10d",
            X64Register::R11d => "r11d",
            X64Register::R12d => "r12d",
            X64Register::R13d => "r13d",
            X64Register::R14d => "r14d",
            X64Register::R15d => "r15d",
            X64Register::Ax => "ax",
            X64Register::Bx => "bx",
            X64Register::Cx => "cx",
            X64Register::Dx => "dx",
            X64Register::Sp => "sp",
            X64Register::Bp => "bp",
            X64Register::Si => "si",
            X64Register::Di => "di",
            X64Register::R8w => "r8w",
            X64Register::R9w => "r9w",
            X64Register::R10w => "r10w",
            X64Register::R11w => "r11w",
            X64Register::R12w => "r12w",
            X64Register::R13w => "r13w",
            X64Register::R14w => "r14w",
            X64Register::R15w => "r15w",
            X64Register::Al => "al",
            X64Register::Bl => "bl",
            X64Register::Cl => "cl",
            X64Register::Dl => "dl",
            X64Register::Spl => "spl",
            X64Register::Bpl => "bpl",
            X64Register::Sil => "sil",
            X64Register::Dil => "dil",
            X64Register::R8b => "r8b",
            X64Register::R9b => "r9b",
            X64Register::R10b => "r10b",
            X64Register::R11b => "r11b",
            X64Register::R12b => "r12b",
            X64Register::R13b => "r13b",
            X64Register::R14b => "r14b",
            X64Register::R15b => "r15b",
        }
    }

    /// The assembly name of the register as an owned string.
    pub fn to_string(&self) -> (name: String)
        ensures
            name@ == self.spec_mnemonic(),
    {
        String::from_str(self.mnemonic())
    }
}

/// A register is determined by its numeric code.
pub proof fn lemma_raw_injective(a: X64Register, b: X64Register)
    requires
        a.spec_raw() == b.spec_raw(),
    ensures
        a == b,
{
}

/// A register is determined by its family and its width.
pub proof fn lemma_family_and_size_determine(a: X64Register, b: X64Register)
    requires
        a.spec_family() == b.spec_family(),
        a.spec_word_size() == b.spec_word_size(),
    ensures
        a == b,
{
}

/// The naming table is a bijection: two registers share a name exactly
/// when they are the same family at the same width.
pub proof fn lemma_naming_is_bijective(a: X64Register, b: X64Register)
    ensures
        a.spec_mnemonic() == b.spec_mnemonic() <==> (a.spec_family() == b.spec_family()
            && a.spec_word_size() == b.spec_word_size()),
{
    if a.spec_mnemonic() == b.spec_mnemonic() {
        lemma_mnemonic_injective(a, b);
    }
    if a.spec_family() == b.spec_family() && a.spec_word_size() == b.spec_word_size() {
        lemma_family_and_size_determine(a, b);
    }
}

/// Length and leading characters of a name: enough to tell all names apart.
spec fn name_key(name: Seq<char>) -> (nat, char, char, char, char) {
    (name.len(), name[0], name[1], name[2], name[3])
}

/// No two registers share a name.
pub proof fn lemma_mnemonic_injective(a: X64Register, b: X64Register)
    requires
        a.spec_mnemonic() == b.spec_mnemonic(),
    ensures
        a == b,
{
    assert(name_key(a.spec_mnemonic()) == name_key(b.spec_mnemonic()));
    reveal_strlit("rax");
    reveal_strlit("rbx");
    reveal_strlit("rcx");
    reveal_strlit("rdx");
    reveal_strlit("rsp");
    reveal_strlit("rbp");
    reveal_strlit("rsi");
    reveal_strlit("rdi");
    reveal_strlit("r8");
    reveal_strlit("r9");
    reveal_strlit("r10");
    reveal_strlit("r11");
    reveal_strlit("r12");
    reveal_strlit("r13");
    reveal_strlit("r14");
    reveal_strlit("r15");
    reveal_strlit("eax");
    reveal_strlit("ebx");
    reveal_strlit("ecx");
    reveal_strlit("edx");
    reveal_strlit("esp");
    reveal_strlit("ebp");
    reveal_strlit("esi");
    reveal_strlit("edi");
    reveal_strlit("r8d");
    reveal_strlit("r9d");
    reveal_strlit("r10d");
    reveal_strlit("r11d");
    reveal_strlit("r12d");
    reveal_strlit("r13d");
    reveal_strlit("r14d");
    reveal_strlit("r15d");
    reveal_strlit("ax");
    reveal_strlit("bx");
    reveal_strlit("cx");
    reveal_strlit("dx");
    reveal_strlit("sp");
    reveal_strlit("bp");
    reveal_strlit("si");
    reveal_strlit("di");
    reveal_strlit("r8w");
    reveal_strlit("r9w");
    reveal_strlit("r10w");
    reveal_strlit("r11w");
    reveal_strlit("r12w");
    reveal_strlit("r13w");
    reveal_strlit("r14w");
    reveal_strlit("r15w");
    reveal_strlit("al");
    reveal_strlit("bl");
    reveal_strlit("cl");
    reveal_strlit("dl");
    reveal_strlit("spl");
    reveal_strlit("bpl");
    reveal_strlit("sil");
    reveal_strlit("dil");
    reveal_strlit("r8b");
    reveal_strlit("r9b");
    reveal_strlit("r10b");
    reveal_strlit("r11b");
    reveal_strlit("r12b");
    reveal_strlit("r13b");
    reveal_strlit("r14b");
    reveal_strlit("r15b");
}

impl Register for X64Register {
    open spec fn spec_name(self) -> Seq<char> {
        self.spec_mnemonic()
    }

    fn name(&self) -> String {
        self.to_string()
    }

    open spec fn spec_caller_saved() -> Seq<Self> {
        seq![
            X64Register::Rdi,
            X64Register::Rsi,
            X64Register::Rdx,
            X64Register::Rcx,
            X64Register::R8,
            X64Register::R9,
        ]
    }

    open spec fn spec_callee_saved() -> Seq<Self> {
        seq![
            X64Register::Rbx,
            X64Register::Rsp,
            X64Register::Rbp,
            X64Register::R10,
            X64Register::R11,
            X64Register::R12,
            X64Register::R13,
            X64Register::R14,
            X64Register::R15,
        ]
    }

    fn caller_saved() -> Vec<Self> {
        let registers = vec![
            X64Register::Rdi,
            X64Register::Rsi,
            X64Register::Rdx,
            X64Register::Rcx,
            X64Register::R8,
            X64Register::R9,
        ];
        assert(registers@ =~= Self::spec_caller_saved());
        registers
    }

    fn callee_saved() -> Vec<Self> {
        let registers = vec![
            X64Register::Rbx,
            X64Register::Rsp,
            X64Register::Rbp,
            X64Register::R10,
            X64Register::R11,
            X64Register::R12,
            X64Register::R13,
            X64Register::R14,
            X64Register::R15,
        ];
        assert(registers@ =~= Self::spec_callee_saved());
        registers
    }
}

} // verus!
