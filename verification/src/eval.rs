pub mod data;
pub mod error;
pub mod laws;
pub mod model;
pub mod typing;
pub mod vm;
