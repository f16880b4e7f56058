//! A verified CHIP-8 virtual machine core.
//!
//! CHIP-8 is a small virtual machine: 4096 bytes of memory, sixteen 8-bit
//! registers, a stack of sixteen return addresses, a monochrome display of
//! 64 by 32 pixels, two countdown timers and a pad of sixteen keys. This
//! crate holds its instruction decoder, its state and its execution engine.
//! Every executable function carries a contract, stated over a mathematical
//! model of the machine ([`machine::Machine`]) and proved by Verus.
//!
//! # Modules
//!
//! - [`opcode`]: the instruction type, the decoder and the encoder.
//! - [`machine`]: the model, one function per instruction, and the laws that
//!   hold of it.
//! - [`cpu`]: the engine, which carries the model out on vectors and
//!   integers.
//! - [`status`]: what a step reports, outcome or fault.
//! - [`sprite`]: drawing sprites by exclusive or.
//! - [`disp`], [`mem`], [`reg`], [`font`]: display, memory, register file and
//!   glyph table as parts of their own.
//!
//! # Driving the machine
//!
//! A driver builds a machine with [`cpu::Cpu::init`], loads a program with
//! [`cpu::Cpu::load_rom`] and then calls [`cpu::Cpu::step`] once per cycle.
//! A step never blocks. It reports [`status::Outcome::RedrawRequested`] when
//! the display should be presented ([`cpu::Cpu::draw`]) and
//! [`status::Outcome::AwaitInput`] when the program waits for a key; the
//! step then has changed nothing, and the same instruction runs again on the
//! next step. A fault is returned, never swallowed, and leaves the machine as
//! it was. Sixty times a second the driver calls
//! [`cpu::Cpu::tick_timers`], and between steps it records in `kp` which keys
//! are down.
//!
//! A driver may also run the cycle by hand: [`cpu::Cpu::fetch`], then
//! [`opcode::Instruction::decode`], then [`cpu::Cpu::execute`]. A wait for a
//! key that finds none then moves the program counter back onto itself, so
//! the next fetch meets it again; after a fault the program counter stands
//! where the fetch left it.
//!
//! # Conventions
//!
//! - The glyph table starts memory, at addresses 0x000 to 0x04F, so that the
//!   glyph of digit `d` lies at `5 * d`; programs start at 0x200.
//! - Keys are level-triggered: a key is down until the driver says it is up.
//! - The shift instructions shift register `x` in place and do not read
//!   register `y`.
//! - An instruction reads its operands before it writes anything. Where it
//!   writes both the flag register and a destination, the flag is written
//!   first, so a destination that is the flag register keeps the result.

pub mod status;
pub mod opcode;
pub mod font;
pub mod mem;
pub mod reg;
pub mod sprite;
pub mod disp;
pub mod machine;
pub mod cpu;
