pub mod source_map;
pub mod symbol_table;
pub mod error;
pub mod analysis;
pub mod analyzer_core;
pub mod laws;
