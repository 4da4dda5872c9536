//! A small runtime core for BEAM bytecode: a loader for the chunked module
//! container and the control-transfer part of the instruction engine.

pub mod bif_sys;
pub mod code;
pub mod compact_term;
pub mod dispatch;
pub mod foreign;
pub mod heap;
pub mod loader;
pub mod module;
pub mod op_execution;
pub mod process;
pub mod reader;
pub mod rterror;
pub mod runtime_ctx;
pub mod term;
pub mod vm;
