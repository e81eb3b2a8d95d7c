//! A verified CHIP-8 virtual machine core.
//!
//! The crate models the classic 8-bit virtual machine: 4096 bytes of
//! memory seeded with a hexadecimal glyph table, sixteen general-purpose
//! registers, an address register, a call stack, a 64x32 monochrome
//! framebuffer composed with XOR, a 16-key input matrix with a blocking
//! key-wait state, and two countdown timers.  Every instruction's effect
//! on that state is stated as a specification and proved.

mod cpu;
mod decode;
mod laws;
mod state;
mod step;

pub use cpu::CPU;
pub use decode::Instr;
pub use state::CpuView;
pub use state::Fault;
pub use state::Wait;
