//! Parser for Telegram Type Language definitions and the pure logic of the
//! TDLib client generator.

pub mod text;
pub mod domain;
pub mod tl;
pub mod graph;
pub mod rustifier;
pub mod metadata;
pub mod codegen;
pub mod stats;
pub mod tool;
pub mod runtime;
pub mod bare;
