//! Gaia: a verified core for a multi-target assembler.
pub mod text;
pub mod debug_text;
pub mod target;
pub mod target_key;
pub mod error;
pub mod ir;
pub mod bytes;
pub mod export_adapters;
pub mod import_adapters;
pub mod frontend;
pub mod jit;
pub mod types;
pub mod instruction;
pub mod program;
pub mod config;
pub mod textmap;
pub mod adapters;
pub mod adapter_manager;
pub mod backends;
pub mod assembler;
