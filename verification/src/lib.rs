//! A verified core for a classic 8-bit virtual machine: a 4 KiB memory,
//! sixteen 8-bit registers, a monochrome 64x32 framebuffer, a call stack,
//! two countdown timers and a 16-key input device, driven by a
//! fetch-decode-execute cycle at a fixed clock rate.

pub mod base;
pub mod cpu;
pub mod exec;
pub mod laws;
pub mod model;
pub mod opcode;
mod rng;

pub use base::InstructionError;
pub use base::Key;
pub use base::LoadError;
pub use cpu::font_table;
pub use cpu::Cpu;
pub use opcode::get_opcode;
pub use opcode::Opcode;
