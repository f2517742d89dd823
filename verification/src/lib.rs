//! An inline-hook (redirect-and-trampoline) code patcher together with an
//! address-space scanner for pointer-sized values.
//!
//! The engine computes every byte it would place in a target process: the
//! 14-byte redirect written at a hook site, the no-op padding behind it, and
//! the trampoline block that runs the caller's preamble, calls the callback,
//! runs the postamble, replays the displaced original instructions and jumps
//! back. The scanner walks a snapshot of the committed, accessible regions of
//! an address space and reports every 8-byte-aligned occurrence of a word.
//! Reading and writing the foreign address space itself is left to the
//! surrounding application; this crate decides exactly what to write where,
//! and what a snapshot contains.

pub mod asmb;
pub mod bytes;
pub mod descriptors;
pub mod hook;
pub mod offsets;
pub mod patch;
pub mod region;
pub mod registry;
pub mod scan;
pub mod sync;
pub mod text;
pub mod view;

pub use patch::MIN_REDIRECT_LEN;
