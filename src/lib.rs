//! An interpreter for a small 8-bit virtual machine: sixteen registers, 4 KiB
//! of memory, a sixteen-level call stack, a 64 by 32 monochrome framebuffer,
//! sixteen keys and two countdown timers. Every step fetches a two-byte
//! instruction word, decodes it and executes it, then ticks the timers; each
//! of these is specified over the mathematical model in `model`.
pub mod cpu;
pub mod instruction;
pub mod laws;
pub mod model;
pub mod schedule;

pub use cpu::{font, Cpu};
pub use instruction::{Instruction, Opcode};
pub use model::Error;
pub use schedule::{Actions, Scheduler};
