//! Code generation: stack layout, register allocation and instruction selection.
pub mod bytes;
pub mod platform;
pub mod stack_alloc;
pub mod stack_laws;
pub mod str_fmt;
pub mod virt_reg;
pub mod vreg_alloc;
pub mod vreg_laws;
pub mod vreg_model;
pub mod vreg_text;
