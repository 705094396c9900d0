//! A model of a 16-bit MSP430-family instruction set: a reader for assembly
//! listings, an encoder that lays an instruction list out as the bytes the CPU
//! expects, and an emulator that decodes those bytes again and executes them
//! in a six-stage pipeline.

pub mod operand;
pub mod ccode;
pub mod asm_line;
pub mod byte_generator;
pub mod alu;
pub mod stages;
pub mod emulator;
pub mod source_cursor;
pub mod get_verbs;
pub mod parse_operand;
pub mod round_trip;
