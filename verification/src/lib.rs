pub mod assembler;
pub mod bytes;
pub mod opcode;
pub mod utils;
pub mod vm;
mod sys;
