pub mod ir_compiler;
pub mod laws;
pub mod lowering;
pub mod typing;
pub mod unifier;
