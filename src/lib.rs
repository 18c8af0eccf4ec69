pub mod types;
pub mod format;
pub mod class;
pub mod host;
pub mod loader;
pub mod opcodes;
pub mod semantics;
pub mod frame;
pub mod laws;
