//! An emulator for osci, a minimalistic one instruction set computer.
//!
//! osci has a single instruction in the spirit of SUBLEQ: subtract, store, and
//! branch if the result is not positive. The crate is laid out leaf first:
//!
//! - `memory`: what a store is, the kinds of store, and the address space that
//!   overlays several stores,
//! - `instruction`: decoding and executing the one instruction,
//! - `emulator`: the machine itself,
//! - `loader`: memory images in raw and in hex form,
//! - `utils`: helpers for programs that drive an emulator.
//!
//! Addresses count words, not bytes: each address names one 32 bit cell, so
//! every address lies on a word boundary.
pub mod emulator;
pub mod instruction;
pub mod loader;
pub mod memory;
pub mod utils;

