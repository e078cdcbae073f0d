//! An interpreter for the Universal Machine: eight 32-bit registers, a store of
//! word segments (segment 0 holds the running program) and fourteen opcodes.
pub mod decode;
pub mod fault;
pub mod memory;
pub mod ops;
pub mod machine;
pub mod image;
pub mod laws;
