//! Decoder, disassembler and interpreter for a subset of the Intel 8086
//! instruction set.

pub mod decoder;
pub mod format;
pub mod clocks;
pub mod machine;
pub mod simulator;
pub mod report;
pub mod json;
pub mod pointer;
