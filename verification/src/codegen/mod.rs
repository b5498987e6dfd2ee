pub mod quadruple;
pub mod quadruple_gen;
pub mod assembly;
pub mod asm_text;
pub mod asm_gen;
