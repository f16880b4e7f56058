//! Main memory and the return stack, and the block copies that fill memory.

use vstd::prelude::*;
use crate::font::{font_table, FONT};
use crate::status::Fault;

verus! {

/// Number of addressable bytes.
pub const MEMORY_SIZE: usize = 4096;

/// Number of stack slots.
pub const STACK_SLOTS: usize = 16;

/// Address of the first glyph byte. The table starts memory, so that the
/// glyph of digit `d` begins at address `5 * d`, which is where the glyph
/// instruction points the index register.
pub const FONT_START: usize = 0x000;

/// Address at which a program image is loaded.
pub const PROGRAM_START: usize = 0x200;

/// Memory with `block` written from `start` on and every other byte kept.
pub open spec fn with_block(ram: Seq<u8>, start: int, block: Seq<u8>) -> Seq<u8> {
    Seq::new(
        ram.len(),
        |a: int|
            if start <= a < start + block.len() {
                block[a - start]
            } else {
                ram[a]
            },
    )
}

/// Copies `block` into `ram` from `start` on.
pub fn write_block(ram: &mut Vec<u8>, start: usize, block: &[u8])
    requires
        start + block.len() <= old(ram).len(),
    ensures
        final(ram)@ == with_block(old(ram)@, start as int, block@),
{
    let mut i: usize = 0;
    while i < block.len()
        invariant
            i <= block.len(),
            start + block.len() <= ram.len(),
            ram.len() == old(ram).len(),
            forall|a: int|
                0 <= a < ram.len() ==> ram[a] == if start <= a < start + i {
                    block[a - start]
                } else {
                    old(ram)[a]
                },
        decreases block.len() - i,
    {
        ram[start + i] = block[i];
        i += 1;
    }
}

/// A vector of `len` copies of `value`.
pub fn filled<T: Copy>(value: T, len: usize) -> (v: Vec<T>)
    ensures
        v@ == Seq::new(len as nat, |i: int| value),
{
    let mut v: Vec<T> = Vec::new();
    let mut i: usize = 0;
    while i < len
        invariant
            i <= len,
            v@ == Seq::new(i as nat, |j: int| value),
        decreases len - i,
    {
        v.push(value);
        i += 1;
    }
    v
}

/// Main memory and the return stack.
pub struct Memory {
    /// Memory, one byte per address.
    pub ram: Vec<u8>,
    /// Return addresses.
    pub stack: Vec<u16>,
}

impl Memory {
    /// Memory and stack have their full sizes.
    pub open spec fn wf(&self) -> bool {
        self.ram.len() == MEMORY_SIZE && self.stack.len() == STACK_SLOTS
    }

    /// Zeroed memory and a zeroed stack.
    pub fn init() -> (memory: Memory)
        ensures
            memory.wf(),
            memory.ram@ == Seq::new(MEMORY_SIZE as nat, |a: int| 0u8),
            memory.stack@ == Seq::new(STACK_SLOTS as nat, |i: int| 0u16),
    {
        Memory { ram: filled(0x00, MEMORY_SIZE), stack: filled(0x0000, STACK_SLOTS) }
    }

    /// Writes the glyph table to its place and leaves the rest of memory and
    /// the stack as they are.
    pub fn load_font(&mut self)
        requires
            old(self).wf(),
        ensures
            final(self).wf(),
            final(self).ram@ == with_block(old(self).ram@, FONT_START as int, font_table()),
            final(self).stack@ == old(self).stack@,
    {
        write_block(&mut self.ram, FONT_START, FONT.as_slice());
    }

    /// Copies a program image to the program start. An image that does not
    /// fit between the program start and the end of memory is refused, and
    /// memory stays as it is.
    pub fn load_rom(&mut self, image: &[u8]) -> (loaded: Result<(), Fault>)
        requires
            old(self).wf(),
        ensures
            final(self).wf(),
            final(self).stack@ == old(self).stack@,
            PROGRAM_START + image.len() <= MEMORY_SIZE ==> loaded == Ok::<(), Fault>(())
                && final(self).ram@ == with_block(old(self).ram@, PROGRAM_START as int, image@),
            PROGRAM_START + image.len() > MEMORY_SIZE ==> loaded == Err::<(), Fault>(
                Fault::OutOfBoundsMemoryAccess,
            ) && final(self).ram@ == old(self).ram@,
    {
        if image.len() > MEMORY_SIZE - PROGRAM_START {
            return Err(Fault::OutOfBoundsMemoryAccess);
        }
        write_block(&mut self.ram, PROGRAM_START, image);
        Ok(())
    }
}

} // verus!
