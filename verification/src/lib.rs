//! A verified interpreter core for the classic 64x32 monochrome 8-bit
//! virtual machine. The machine state, the loader and the fetch-decode-
//! execute engine live in [`chip8`]; their behaviour is specified against
//! the mathematical step semantics in [`model`] and [`decode`], and the
//! laws the instruction set obeys are proved in [`laws`]. Presentation,
//! input and file handling are left to the embedding program.

pub mod chip8;
pub mod decode;
pub mod errors;
pub mod laws;
pub mod model;
