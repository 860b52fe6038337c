//! Turns the code of a 32-bit binary image into decoded instructions.
//!
//! An image is either a flat buffer of instruction words or an ELF
//! executable for the target architecture. In both cases the code bytes
//! are cut into little-endian 32-bit words and each word is handed to a
//! decoder that the caller supplies; what the decoder recognises is
//! returned in order, what it does not recognise is passed over.
//!
//! - [`words`] cuts bytes into words.
//! - [`container`] states what the ELF parser finds in a buffer.
//! - [`validate`] accepts or turns down a buffer as an image.
//! - [`select`] finds the code-bearing sections of an accepted image.
//! - [`decode`] runs the decoder over words and collects the results.
//! - [`pipeline`] puts these together for ELF images.
//! - [`category`] holds the ordered set of instruction categories.
//! - [`error`] holds the errors with which an image is turned down.

pub mod category;
pub mod container;
pub mod decode;
pub mod error;
pub mod pipeline;
pub mod select;
pub mod validate;
pub mod words;

pub use category::{get_instruction_categories, InstructionCategory};
pub use decode::{decode_bin_instructions, decode_raw, Instruction, WasmDecodedInstruction};
pub use error::ElfError;
pub use pipeline::decode_elf_instructions;
