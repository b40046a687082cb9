//! An emulator core for the RV64I base integer instruction set.
//!
//! The crate is split along the hardware it models:
//!
//! - [`dram`] holds the byte store and the bus in front of it;
//! - [`decode`] holds the bit-field arithmetic of the instruction encodings;
//! - [`cpu`] holds the register file and the fetch, decode and execute
//!   cycle;
//! - [`fault`] names the reasons for which an access or an instruction is
//!   refused;
//! - [`laws`] states what holds of every step of the cycle.
//!
//! No function of the crate panics: what cannot be carried out is answered
//! with a [`fault::Fault`], and the processor stalls on it.
pub mod cpu;
pub mod decode;
pub mod dram;
pub mod fault;
pub mod laws;
