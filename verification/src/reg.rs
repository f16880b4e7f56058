//! The register file: general registers, index register, program counter,
//! stack pointer, timers and key states.

use rand::Rng;
use vstd::prelude::*;
use crate::mem::filled;

verus! {

/// Number of general registers and of keys.
pub const REGISTERS: usize = 16;

/// Value of both timers in a new machine.
pub const TIMER_START: u8 = 60;

/// Draws one byte from the thread-local generator of the `rand` crate:
/// `rand::rng()` hands out the generator and `Rng::random_range` samples the
/// whole range 0 to 255 from it. The range is not empty, so the sampling does
/// not panic. `rand` seeds the generator from the operating system when a
/// thread first uses it, and seeds it anew after every 64 KiB of output; it
/// panics at either point if the system gives no seed. No argument decides
/// that, so no precondition can leave it out. Nothing is claimed of the byte
/// beyond its type: any value may come back, and two calls may differ.
#[verifier::external_body]
pub(crate) fn random_byte() -> (byte: u8) {
    let mut rng = rand::rng();
    rng.random_range(0..=255)
}

/// The registers of the machine.
pub struct Registers {
    /// Program counter.
    pub pc: u16,
    /// Index register.
    pub ir: u16,
    /// General registers.
    pub vx: Vec<u8>,
    /// Sound timer.
    pub st: u8,
    /// Delay timer.
    pub dt: u8,
    /// Stack pointer.
    pub sp: u8,
    /// Key states.
    pub kp: Vec<bool>,
}

impl Registers {
    /// The registers of a new machine: all clear, the program counter at
    /// 0x200 and both timers at their start value.
    pub fn init() -> (registers: Registers)
        ensures
            registers.pc == 0x200,
            registers.ir == 0,
            registers.vx@ == Seq::new(REGISTERS as nat, |i: int| 0u8),
            registers.st == TIMER_START,
            registers.dt == TIMER_START,
            registers.sp == 0,
            registers.kp@ == Seq::new(REGISTERS as nat, |i: int| false),
    {
        Registers {
            pc: 0x200,
            ir: 0,
            vx: filled(0, REGISTERS),
            st: TIMER_START,
            dt: TIMER_START,
            sp: 0,
            kp: filled(false, REGISTERS),
        }
    }

    /// A random byte. Any value may come back.
    pub fn gen_random(&self) -> u8 {
        random_byte()
    }
}

} // verus!
