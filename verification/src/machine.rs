//! The mathematical model of the machine: its state as plain values and each
//! instruction as a function from state to state.
//!
//! The executable engine in [`crate::cpu`] is specified against this model:
//! the view of a [`crate::cpu::Cpu`] is a [`Machine`], and every handler
//! ensures that the view after the call is the model's successor state.

use vstd::prelude::*;
use crate::disp::{HEIGHT, WIDTH};
use crate::font::font_table;
use crate::mem::{with_block, FONT_START, MEMORY_SIZE, PROGRAM_START};
use crate::reg::TIMER_START;
use crate::opcode::{spec_decode, AddType, Instruction, JPType, LDType, SEType};
use crate::sprite::{
    collided, lemma_plot_by_pixel, lemma_plotted_len, lit_by, plotted, row_bit, rows_at,
};
use crate::status::{Fault, Outcome};

verus! {

/// Number of stack slots, of general registers and of keys.
pub const SLOTS: usize = 16;

/// Number of the register that doubles as carry, borrow and collision flag.
pub const FLAG: u8 = 0xF;

/// The complete state of the machine.
#[verifier::ext_equal]
pub struct Machine {
    /// Memory, one byte per address.
    pub ram: Seq<u8>,
    /// Return addresses. Slot 0 stays unused: a call fills the slot that the
    /// stack pointer moves to.
    pub stack: Seq<u16>,
    /// Program counter.
    pub pc: u16,
    /// Index register.
    pub ir: u16,
    /// General registers.
    pub vx: Seq<u8>,
    /// Sound timer.
    pub st: u8,
    /// Delay timer.
    pub dt: u8,
    /// Stack pointer: the slot of the innermost outstanding call, 0 if none.
    pub sp: u8,
    /// Key states, `true` while a key is held down. The driver sets and
    /// clears them; the engine only reads them.
    pub kp: Seq<bool>,
    /// Display height.
    pub height: u8,
    /// Display width.
    pub width: u8,
    /// Pixels, row after row.
    pub screen: Seq<bool>,
}

/// An instruction's effect: the state it leaves and what it reports.
pub type Effect = (Machine, Result<Outcome, Fault>);

/// The index of the lowest `true` entry, if there is one.
pub open spec fn lowest_pressed(keys: Seq<bool>) -> Option<int>
    decreases keys.len(),
{
    if keys.len() == 0 {
        None
    } else {
        match lowest_pressed(keys.drop_last()) {
            Some(k) => Some(k),
            None => if keys.last() {
                Some(keys.len() - 1)
            } else {
                None
            },
        }
    }
}

/// `lowest_pressed` finds a pressed key before which none is pressed, and
/// finds none only where none is pressed.
pub proof fn lemma_lowest_pressed(keys: Seq<bool>)
    ensures
        match lowest_pressed(keys) {
            Some(k) => 0 <= k < keys.len() && keys[k] && forall|j: int| 0 <= j < k ==> !keys[j],
            None => forall|j: int| 0 <= j < keys.len() ==> !keys[j],
        },
    decreases keys.len(),
{
    if keys.len() > 0 {
        let front = keys.drop_last();
        lemma_lowest_pressed(front);
        assert(forall|j: int| 0 <= j < front.len() ==> front[j] == keys[j]);
    }
}

impl Machine {
    /// The sizes are those of the machine and the stack pointer names a slot.
    pub open spec fn wf(self) -> bool {
        &&& self.ram.len() == MEMORY_SIZE
        &&& self.stack.len() == SLOTS
        &&& self.vx.len() == SLOTS
        &&& self.kp.len() == SLOTS
        &&& self.width == WIDTH
        &&& self.height == HEIGHT
        &&& self.screen.len() == WIDTH * HEIGHT
        &&& self.sp < SLOTS
    }

    /// The state of a new machine: memory zero but for the glyph table,
    /// registers, stack and keys clear, both timers at their start value, the
    /// display blank and the program counter at the program start.
    pub open spec fn initial() -> Machine {
        Machine {
            ram: with_block(
                Seq::new(MEMORY_SIZE as nat, |a: int| 0u8),
                FONT_START as int,
                font_table(),
            ),
            stack: Seq::new(SLOTS as nat, |i: int| 0u16),
            pc: PROGRAM_START as u16,
            ir: 0,
            vx: Seq::new(SLOTS as nat, |i: int| 0u8),
            st: TIMER_START,
            dt: TIMER_START,
            sp: 0,
            kp: Seq::new(SLOTS as nat, |i: int| false),
            height: HEIGHT,
            width: WIDTH,
            screen: Seq::new((WIDTH * HEIGHT) as nat, |i: int| false),
        }
    }

    /// The glyph table stands in its place in memory.
    pub open spec fn font_in_place(self) -> bool {
        forall|a: int|
            0 <= a < font_table().len() ==> #[trigger] self.ram[FONT_START + a] == font_table()[a]
    }

    /// The state with register `x` holding `value`.
    pub open spec fn set_reg(self, x: u8, value: u8) -> Machine {
        Machine { vx: self.vx.update(x as int, value), ..self }
    }

    /// The state with the flag register holding 1 if `on`, else 0.
    pub open spec fn set_flag(self, on: bool) -> Machine {
        self.set_reg(FLAG, if on { 1u8 } else { 0u8 })
    }

    /// The state with the program counter moved past one more instruction if
    /// `taken` holds.
    pub open spec fn skip_if(self, taken: bool) -> Machine {
        if taken {
            Machine { pc: (self.pc + 2) as u16, ..self }
        } else {
            self
        }
    }

    /// The instruction word at the program counter, high byte first.
    pub open spec fn word_at_pc(self) -> u16 {
        (self.ram[self.pc as int] * 0x100 + self.ram[self.pc + 1]) as u16
    }

    /// The state after a fetch: the program counter has moved past the word.
    pub open spec fn fetched(self) -> Machine {
        Machine { pc: (self.pc + 2) as u16, ..self }
    }

    /// The state before a fetch: the program counter is back on the word.
    pub open spec fn unfetched(self) -> Machine {
        Machine { pc: (self.pc - 2) as u16, ..self }
    }

    /// Clear: every pixel off.
    pub open spec fn clear(self) -> Machine {
        Machine { screen: Seq::new(self.screen.len(), |i: int| false), ..self }
    }

    /// Return: the program counter takes the address in the stack pointer's
    /// slot and the stack pointer moves down. With no call outstanding the
    /// instruction faults.
    pub open spec fn ret(self) -> Effect {
        if self.sp == 0 {
            (self, Err(Fault::StackUnderflow))
        } else {
            (
                Machine { pc: self.stack[self.sp as int], sp: (self.sp - 1) as u8, ..self },
                Ok(Outcome::Continue),
            )
        }
    }

    /// Call: the stack pointer moves up, the program counter is saved in the
    /// slot it moved to, and execution goes on at `nnn`. With the last slot
    /// taken the instruction faults.
    pub open spec fn call(self, nnn: u16) -> Effect {
        if self.sp + 1 >= SLOTS {
            (self, Err(Fault::StackOverflow))
        } else {
            (
                Machine {
                    sp: (self.sp + 1) as u8,
                    stack: self.stack.update(self.sp + 1, self.pc),
                    pc: nnn,
                    ..self
                },
                Ok(Outcome::Continue),
            )
        }
    }

    /// Jump to `nnn`.
    pub open spec fn jump(self, nnn: u16) -> Machine {
        Machine { pc: nnn, ..self }
    }

    /// Jump to `nnn` plus register 0.
    pub open spec fn jump_v0(self, nnn: u16) -> Machine {
        Machine { pc: (self.vx[0] + nnn) as u16, ..self }
    }

    /// Add an immediate byte to register `x`, modulo 256; no flag.
    pub open spec fn add_byte(self, x: u8, kk: u8) -> Machine {
        self.set_reg(x, ((self.vx[x as int] + kk) % 0x100) as u8)
    }

    /// Add register `y` to register `x`: the flag is 1 iff the sum passes
    /// 255, and `x` gets the sum modulo 256. The flag is written first, so a
    /// destination that is the flag register ends up holding the sum.
    pub open spec fn add_reg(self, x: u8, y: u8) -> Machine {
        let sum = self.vx[x as int] + self.vx[y as int];
        self.set_flag(sum > 0xFF).set_reg(x, (sum % 0x100) as u8)
    }

    /// Subtract register `y` from register `x`: the flag is 1 iff nothing is
    /// borrowed, and `x` gets the difference modulo 256. Both are taken from
    /// the registers as they stood before the instruction.
    pub open spec fn sub(self, x: u8, y: u8) -> Machine {
        let minuend = self.vx[x as int];
        let subtrahend = self.vx[y as int];
        self.set_flag(minuend >= subtrahend).set_reg(x, ((minuend - subtrahend) % 0x100) as u8)
    }

    /// Subtract register `x` from register `y` and store in `x`: the mirror
    /// image of `sub`.
    pub open spec fn subn(self, x: u8, y: u8) -> Machine {
        let minuend = self.vx[y as int];
        let subtrahend = self.vx[x as int];
        self.set_flag(minuend >= subtrahend).set_reg(x, ((minuend - subtrahend) % 0x100) as u8)
    }

    /// Shift register `x` right by one: the flag gets the bit that falls
    /// out, the lowest of the value before the shift. The instruction word
    /// names a second register, which is not read.
    pub open spec fn shr(self, x: u8) -> Machine {
        let value = self.vx[x as int];
        self.set_flag(value % 2 == 1).set_reg(x, (value / 2) as u8)
    }

    /// Shift register `x` left by one: the flag gets the bit that falls out,
    /// the highest of the value before the shift. The instruction word names
    /// a second register, which is not read.
    pub open spec fn shl(self, x: u8) -> Machine {
        let value = self.vx[x as int];
        self.set_flag(value >= 0x80).set_reg(x, ((value * 2) % 0x100) as u8)
    }

    /// Random: register `x` gets the random byte masked by `kk`.
    pub open spec fn random(self, x: u8, kk: u8, byte: u8) -> Machine {
        self.set_reg(x, byte & kk)
    }

    /// The key that register `x` names: its low four bits.
    pub open spec fn key_of(self, x: u8) -> int {
        (self.vx[x as int] % 16) as int
    }

    /// Wait for a key: with a key down, register `x` gets the number of the
    /// lowest one. With none down input is awaited, and the program counter
    /// moves back over the instruction's own word, which the fetch had moved
    /// it past: the program counter has not advanced, and the next fetch meets
    /// the same instruction again. Nothing else changes.
    pub open spec fn wait_key(self, x: u8) -> Effect {
        match lowest_pressed(self.kp) {
            Some(key) => (self.set_reg(x, key as u8), Ok(Outcome::Continue)),
            None => (self.unfetched(), Ok(Outcome::AwaitInput)),
        }
    }

    /// Index add: the index register grows by register `x`, modulo 65536.
    pub open spec fn add_index(self, x: u8) -> Machine {
        Machine { ir: ((self.ir + self.vx[x as int]) % 0x10000) as u16, ..self }
    }

    /// Glyph address: the index register gets five times register `x`. With
    /// a digit in the register and the glyph table in its place, that is the
    /// address of the digit's glyph ([`Machine::lemma_glyph_address`]).
    pub open spec fn glyph(self, x: u8) -> Machine {
        Machine { ir: (5 * self.vx[x as int]) as u16, ..self }
    }

    /// Decimal digits: the hundreds, tens and ones of register `x` go to the
    /// three bytes at the index register. If they do not all lie in memory the
    /// instruction faults.
    pub open spec fn bcd(self, x: u8) -> Effect {
        let value = self.vx[x as int];
        if self.ir + 2 >= MEMORY_SIZE {
            (self, Err(Fault::OutOfBoundsMemoryAccess))
        } else {
            (
                Machine {
                    ram: self.ram.update(self.ir as int, value / 100).update(
                        self.ir + 1,
                        (value % 100) / 10,
                    ).update(self.ir + 2, value % 10),
                    ..self
                },
                Ok(Outcome::Continue),
            )
        }
    }

    /// Store: registers 0 to `x`, both included, go to memory from the index
    /// register on. If the range does not lie in memory the instruction
    /// faults.
    pub open spec fn store(self, x: u8) -> Effect {
        if self.ir + x >= MEMORY_SIZE {
            (self, Err(Fault::OutOfBoundsMemoryAccess))
        } else {
            (
                Machine {
                    ram: Seq::new(
                        self.ram.len(),
                        |a: int|
                            if self.ir <= a <= self.ir + x {
                                self.vx[a - self.ir]
                            } else {
                                self.ram[a]
                            },
                    ),
                    ..self
                },
                Ok(Outcome::Continue),
            )
        }
    }

    /// Load: registers 0 to `x`, both included, are read from memory from the
    /// index register on. If the range does not lie in memory the instruction
    /// faults.
    pub open spec fn load(self, x: u8) -> Effect {
        if self.ir + x >= MEMORY_SIZE {
            (self, Err(Fault::OutOfBoundsMemoryAccess))
        } else {
            (
                Machine {
                    vx: Seq::new(
                        self.vx.len(),
                        |i: int|
                            if i <= x {
                                self.ram[self.ir + i]
                            } else {
                                self.vx[i]
                            },
                    ),
                    ..self
                },
                Ok(Outcome::Continue),
            )
        }
    }

    /// Draw: the `n` bytes at the index register are the rows of a sprite,
    /// which is combined into the display by exclusive or with its top left
    /// corner at the point that registers `x` and `y` named before the
    /// instruction; each pixel wraps round the edges on its own. The flag is
    /// 1 if a lit pixel was put out and 0 otherwise. If a row does not lie in
    /// memory the instruction faults.
    pub open spec fn draw(self, x: u8, y: u8, n: u8) -> Effect {
        if n > 0 && self.ir + n > MEMORY_SIZE {
            (self, Err(Fault::OutOfBoundsMemoryAccess))
        } else {
            let rows = self.sprite_rows(n);
            let left = self.vx[x as int] as int;
            let top = self.vx[y as int] as int;
            let width = self.width as int;
            let height = self.height as int;
            let bits = 8 * n as nat;
            (
                Machine {
                    screen: plotted(self.screen, rows, left, top, width, height, bits),
                    vx: self.vx.update(
                        FLAG as int,
                        if collided(self.screen, rows, left, top, width, height, bits) {
                            1u8
                        } else {
                            0u8
                        },
                    ),
                    ..self
                },
                Ok(Outcome::RedrawRequested),
            )
        }
    }

    /// The `n` bytes at the index register.
    pub open spec fn sprite_rows(self, n: u8) -> Seq<u8> {
        rows_at(self.ram, self.ir as int, n as nat)
    }

    /// Whether the instruction may move the program counter past the next
    /// instruction.
    pub open spec fn may_skip(instruction: Instruction) -> bool {
        instruction is SE || instruction is SNE || instruction is SKP || instruction is SKNP
    }

    /// Whether the instruction may move the program counter back onto its
    /// own word.
    pub open spec fn may_wait(instruction: Instruction) -> bool {
        instruction matches Instruction::LD(_, LDType::KeyPress)
    }

    /// What the engine needs to carry an instruction out: a well-formed
    /// instruction; for one that may skip, a program counter that can still
    /// move up by 2; and for one that may wait, a program counter that can
    /// move down by 2, as it can after any fetch.
    pub open spec fn accepts(self, instruction: Instruction) -> bool {
        &&& instruction.wf()
        &&& Self::may_skip(instruction) ==> self.pc + 2 <= u16::MAX
        &&& Self::may_wait(instruction) ==> self.pc >= 2
    }

    /// The effect of one instruction. `byte` is the random byte that the
    /// random instruction uses; no other instruction looks at it.
    pub open spec fn execute(self, instruction: Instruction, byte: u8) -> Effect {
        match instruction {
            Instruction::RAW0 => (self, Ok(Outcome::Continue)),
            Instruction::CLS => (self.clear(), Ok(Outcome::Continue)),
            Instruction::RET => self.ret(),
            Instruction::SYS(_) => (self, Ok(Outcome::Continue)),
            Instruction::JP(JPType::Addr(nnn)) => (self.jump(nnn), Ok(Outcome::Continue)),
            Instruction::CALL(nnn) => self.call(nnn),
            Instruction::SE(x, SEType::Byte(kk)) => (
                self.skip_if(self.vx[x as int] == kk),
                Ok(Outcome::Continue),
            ),
            Instruction::SNE(x, SEType::Byte(kk)) => (
                self.skip_if(self.vx[x as int] != kk),
                Ok(Outcome::Continue),
            ),
            Instruction::SE(x, SEType::Reg(y)) => (
                self.skip_if(self.vx[x as int] == self.vx[y as int]),
                Ok(Outcome::Continue),
            ),
            Instruction::LD(x, LDType::Byte(kk)) => (self.set_reg(x, kk), Ok(Outcome::Continue)),
            Instruction::ADD(x, AddType::Byte(kk)) => (
                self.add_byte(x, kk),
                Ok(Outcome::Continue),
            ),
            Instruction::LD(x, LDType::Reg(y)) => (
                self.set_reg(x, self.vx[y as int]),
                Ok(Outcome::Continue),
            ),
            Instruction::OR(x, y) => (
                self.set_reg(x, self.vx[x as int] | self.vx[y as int]),
                Ok(Outcome::Continue),
            ),
            Instruction::AND(x, y) => (
                self.set_reg(x, self.vx[x as int] & self.vx[y as int]),
                Ok(Outcome::Continue),
            ),
            Instruction::XOR(x, y) => (
                self.set_reg(x, self.vx[x as int] ^ self.vx[y as int]),
                Ok(Outcome::Continue),
            ),
            Instruction::ADD(x, AddType::Reg(y)) => (self.add_reg(x, y), Ok(Outcome::Continue)),
            Instruction::SUB(x, y) => (self.sub(x, y), Ok(Outcome::Continue)),
            Instruction::SHR(x, _) => (self.shr(x), Ok(Outcome::Continue)),
            Instruction::SUBN(x, y) => (self.subn(x, y), Ok(Outcome::Continue)),
            Instruction::SHL(x, _) => (self.shl(x), Ok(Outcome::Continue)),
            Instruction::SNE(x, SEType::Reg(y)) => (
                self.skip_if(self.vx[x as int] != self.vx[y as int]),
                Ok(Outcome::Continue),
            ),
            Instruction::LD(_, LDType::Addr(nnn)) => (
                Machine { ir: nnn, ..self },
                Ok(Outcome::Continue),
            ),
            Instruction::JP(JPType::FromV0(nnn)) => (self.jump_v0(nnn), Ok(Outcome::Continue)),
            Instruction::RND(x, kk) => (self.random(x, kk, byte), Ok(Outcome::Continue)),
            Instruction::DRW(x, y, n) => self.draw(x, y, n),
            Instruction::SKP(x) => (self.skip_if(self.kp[self.key_of(x)]), Ok(Outcome::Continue)),
            Instruction::SKNP(x) => (
                self.skip_if(!self.kp[self.key_of(x)]),
                Ok(Outcome::Continue),
            ),
            Instruction::LD(x, LDType::FromDT) => (self.set_reg(x, self.dt), Ok(Outcome::Continue)),
            Instruction::LD(x, LDType::KeyPress) => self.wait_key(x),
            Instruction::LD(x, LDType::ToDT) => (
                Machine { dt: self.vx[x as int], ..self },
                Ok(Outcome::Continue),
            ),
            Instruction::LD(x, LDType::ToST) => (
                Machine { st: self.vx[x as int], ..self },
                Ok(Outcome::Continue),
            ),
            Instruction::ADD(x, AddType::I) => (self.add_index(x), Ok(Outcome::Continue)),
            Instruction::LD(x, LDType::F) => (self.glyph(x), Ok(Outcome::Continue)),
            Instruction::LD(x, LDType::B) => self.bcd(x),
            Instruction::LD(x, LDType::ToI) => self.store(x),
            Instruction::LD(x, LDType::FromI) => self.load(x),
        }
    }

    /// One timer tick: each timer that is not 0 goes down by 1.
    pub open spec fn tick(self) -> Machine {
        Machine {
            dt: if self.dt > 0 { (self.dt - 1) as u8 } else { 0u8 },
            st: if self.st > 0 { (self.st - 1) as u8 } else { 0u8 },
            ..self
        }
    }

    /// The state after `count` timer ticks.
    pub open spec fn ticks(self, count: nat) -> Machine
        decreases count,
    {
        if count == 0 {
            self
        } else {
            self.ticks((count - 1) as nat).tick()
        }
    }

    /// One whole cycle: fetch the word at the program counter, decode it and
    /// carry it out. The cycle faults if the word does not lie in memory, if
    /// it does not decode, or if the instruction faults; after a fault the
    /// machine is as it was before the cycle, the program counter included.
    /// So it is after a wait for a key that found none, by the instruction's
    /// own doing ([`Machine::lemma_wait_key_cycles`]).
    pub open spec fn step(self, byte: u8) -> Effect {
        if self.pc + 1 >= MEMORY_SIZE {
            (self, Err(Fault::OutOfBoundsMemoryAccess))
        } else {
            match spec_decode(self.word_at_pc()) {
                Err(fault) => (self, Err(fault)),
                Ok(instruction) => {
                    let (next, result) = self.fetched().execute(instruction, byte);
                    match result {
                        Ok(_) => (next, result),
                        Err(_) => (self, result),
                    }
                },
            }
        }
    }
}

impl Machine {
    /// Every instruction that the engine accepts keeps a machine
    /// well-formed.
    pub proof fn lemma_execute_wf(self, instruction: Instruction, byte: u8)
        requires
            self.wf(),
            self.accepts(instruction),
        ensures
            self.execute(instruction, byte).0.wf(),
    {
        if let Instruction::DRW(x, y, n) = instruction {
            lemma_plotted_len(
                self.screen,
                self.sprite_rows(n),
                self.vx[x as int] as int,
                self.vx[y as int] as int,
                self.width as int,
                self.height as int,
                8 * n as nat,
            );
        }
    }

    /// A fault leaves the machine as it was. A wait for a key that found
    /// none leaves everything but the program counter, which it moves back
    /// onto the instruction.
    pub proof fn lemma_no_partial_effect(self, instruction: Instruction, byte: u8)
        ensures
            self.execute(instruction, byte).1 is Err ==> self.execute(instruction, byte).0 == self,
            self.execute(instruction, byte).1 == Ok::<Outcome, Fault>(Outcome::AwaitInput)
                ==> self.execute(instruction, byte).0 == self.unfetched(),
    {
    }

    /// Fetching and then executing an instruction that ends in a fault or in
    /// a wait for a key leaves the machine as it was before the fetch.
    pub proof fn lemma_fetch_undone(self, instruction: Instruction, byte: u8)
        requires
            self.pc + 2 <= u16::MAX,
        ensures
            self.fetched().execute(instruction, byte).1 == Ok::<Outcome, Fault>(
                Outcome::AwaitInput,
            ) ==> self.fetched().execute(instruction, byte).0 == self,
            self.fetched().execute(instruction, byte).1 is Err ==> self.fetched().execute(
                instruction,
                byte,
            ).0 == self.fetched(),
    {
        self.fetched().lemma_no_partial_effect(instruction, byte);
    }

    /// A redraw is asked for by the draw instruction only, and input is
    /// awaited only by the wait for a key, and only while no key is down.
    pub proof fn lemma_outcomes(self, instruction: Instruction, byte: u8)
        requires
            self.wf(),
        ensures
            self.execute(instruction, byte).1 == Ok::<Outcome, Fault>(Outcome::RedrawRequested)
                ==> instruction is DRW,
            self.execute(instruction, byte).1 == Ok::<Outcome, Fault>(Outcome::AwaitInput) ==> (
            instruction matches Instruction::LD(_, LDType::KeyPress)) && forall|k: int|
                0 <= k < self.kp.len() ==> !self.kp[k],
    {
        lemma_lowest_pressed(self.kp);
    }

    /// A new machine has the glyph table in its place.
    pub proof fn lemma_initial_font()
        ensures
            Machine::initial().wf(),
            Machine::initial().font_in_place(),
    {
    }

    /// The glyph address matches the glyph table: with the table in its
    /// place and a digit in register `x`, the glyph instruction leaves the
    /// index register at five times the digit, and the five bytes it then
    /// points at are the five rows of that digit's glyph. Nothing but the
    /// index register changes.
    pub proof fn lemma_glyph_address(self, x: u8, byte: u8)
        requires
            self.wf(),
            self.font_in_place(),
            self.vx[x as int] < 16,
        ensures
            ({
                let digit = self.vx[x as int];
                let (next, result) = self.execute(Instruction::LD(x, LDType::F), byte);
                &&& result == Ok::<Outcome, Fault>(Outcome::Continue)
                &&& next == Machine { ir: next.ir, ..self }
                &&& next.ir == FONT_START + 5 * digit
                &&& next.ir == 5 * digit
                &&& forall|i: int|
                    0 <= i < 5 ==> #[trigger] next.ram[next.ir + i] == font_table()[5 * digit + i]
                &&& next.sprite_rows(5) == font_table().subrange(5 * digit, 5 * digit + 5)
            }),
    {
        let digit = self.vx[x as int];
        let next = self.execute(Instruction::LD(x, LDType::F), byte).0;
        assert forall|i: int| 0 <= i < 5 implies #[trigger] next.ram[next.ir + i] == font_table()[5
            * digit + i] by {
            assert(self.ram[FONT_START + (5 * digit + i)] == font_table()[5 * digit + i]);
        }
        assert(next.sprite_rows(5) =~= font_table().subrange(5 * digit, 5 * digit + 5));
    }

    /// In a new machine the glyph address of every digit points at the
    /// digit's glyph: once register `x` holds the digit `d`, the glyph
    /// instruction leaves the index register at `5 * d`, and the five bytes
    /// there are rows `5 * d` to `5 * d + 4` of the glyph table.
    pub proof fn lemma_initial_glyph(x: u8, d: u8)
        requires
            x < 16,
            d < 16,
        ensures
            ({
                let next = Machine::initial().set_reg(x, d).glyph(x);
                &&& next.ir == 5 * d
                &&& forall|i: int|
                    0 <= i < 5 ==> #[trigger] next.ram[next.ir + i] == font_table()[5 * d + i]
            }),
    {
        let start = Machine::initial().set_reg(x, d);
        Self::lemma_initial_font();
        assert(start.ram == Machine::initial().ram);
        assert(start.font_in_place());
        start.lemma_glyph_address(x, 0);
    }

    /// Memory changes under the decimal-digits and the store instruction
    /// only; the glyph table and the program are safe from every other.
    pub proof fn lemma_memory_writers(self, instruction: Instruction, byte: u8)
        requires
            !(instruction matches Instruction::LD(_, LDType::B)),
            !(instruction matches Instruction::LD(_, LDType::ToI)),
        ensures
            self.execute(instruction, byte).0.ram == self.ram,
    {
    }

    /// The display changes under the clear and the draw instruction only.
    pub proof fn lemma_display_writers(self, instruction: Instruction, byte: u8)
        requires
            !(instruction is CLS),
            !(instruction is DRW),
        ensures
            self.execute(instruction, byte).0.screen == self.screen,
    {
    }

    /// Keys are level-triggered: a key is down for as long as the driver
    /// says so. No instruction and no timer tick changes a key state.
    pub proof fn lemma_keys_held(self, instruction: Instruction, byte: u8)
        ensures
            self.execute(instruction, byte).0.kp == self.kp,
            self.tick().kp == self.kp,
    {
    }

    /// No instruction but the random one looks at the random byte.
    pub proof fn lemma_byte_unused(self, instruction: Instruction, byte: u8, other: u8)
        requires
            !(instruction is RND),
        ensures
            self.execute(instruction, byte) == self.execute(instruction, other),
    {
    }

    /// An instruction and its canonical form have the same effect.
    pub proof fn lemma_canonical_effect(self, instruction: Instruction, byte: u8)
        ensures
            self.execute(instruction.canonical(), byte) == self.execute(instruction, byte),
    {
    }

    /// Whether the draw instruction puts a set sprite bit on pixel `p`: the
    /// pixel lies `col` columns right of the point that registers `x` and `y`
    /// name and `row` rows below it, both counted round the display's edges,
    /// the sprite has such a row and column, and the bit there is set.
    pub open spec fn sprite_over(self, x: u8, y: u8, n: u8, p: int) -> bool {
        let col = (p % 64 - self.vx[x as int]) % 64;
        let row = (p / 64 - self.vx[y as int]) % 32;
        col < 8 && row < n && row_bit(self.ram[self.ir + row], col as u8)
    }

    /// Draw, pixel by pixel. A sprite of at most 32 rows falls on each pixel
    /// at most once: a pixel is lit afterwards iff exactly one of two things
    /// holds, that it was lit before and that a set bit fell on it. The flag
    /// is 1 iff a set bit fell on a pixel that was lit before, and 0
    /// otherwise. Nothing else changes.
    pub proof fn lemma_draw_by_pixel(self, x: u8, y: u8, n: u8)
        requires
            self.wf(),
            n <= 32,
            n > 0 ==> self.ir + n <= MEMORY_SIZE,
        ensures
            ({
                let (next, result) = self.draw(x, y, n);
                let hit = exists|p: int|
                    0 <= p < 64 * 32 && self.screen[p] && #[trigger] self.sprite_over(x, y, n, p);
                &&& result == Ok::<Outcome, Fault>(Outcome::RedrawRequested)
                &&& next.screen.len() == 64 * 32
                &&& forall|p: int|
                    0 <= p < 64 * 32 ==> #[trigger] next.screen[p] == (self.screen[p]
                        != self.sprite_over(x, y, n, p))
                &&& next.vx == self.vx.update(FLAG as int, if hit { 1u8 } else { 0u8 })
                &&& next == Machine { screen: next.screen, vx: next.vx, ..self }
            }),
    {
        let rows = self.sprite_rows(n);
        let left = self.vx[x as int] as int;
        let top = self.vx[y as int] as int;
        lemma_plot_by_pixel(self.screen, rows, left, top, 8 * n as nat);
        lemma_plotted_len(self.screen, rows, left, top, 64, 32, 8 * n as nat);
        assert forall|p: int| 0 <= p < 64 * 32 implies self.sprite_over(x, y, n, p) == lit_by(
            rows,
            left,
            top,
            p,
            8 * n,
        ) by {}
        let next = self.draw(x, y, n).0;
        assert forall|p: int| 0 <= p < 64 * 32 implies #[trigger] next.screen[p] == (self.screen[p]
            != self.sprite_over(x, y, n, p)) by {}
        if collided(self.screen, rows, left, top, 64, 32, 8 * n as nat) {
            let p = choose|p: int|
                0 <= p < 64 * 32 && self.screen[p] && #[trigger] lit_by(rows, left, top, p, 8 * n);
            assert(self.sprite_over(x, y, n, p));
        }
        if exists|p: int|
            0 <= p < 64 * 32 && self.screen[p] && #[trigger] self.sprite_over(x, y, n, p) {
            let p = choose|p: int|
                0 <= p < 64 * 32 && self.screen[p] && #[trigger] self.sprite_over(x, y, n, p);
            assert(lit_by(rows, left, top, p, 8 * n));
        }
    }

    /// Call and return are symmetric: from any stack pointer that leaves a
    /// slot free, a call followed at once by a return succeeds twice, brings
    /// the program counter back to where it stood at the call, which is the
    /// instruction after the call, and brings the stack pointer back. All
    /// that remains of the pair is the return address in the slot it used.
    pub proof fn lemma_call_ret(self, nnn: u16, byte: u8)
        requires
            self.wf(),
            self.sp + 1 < SLOTS,
        ensures
            ({
                let (called, first) = self.execute(Instruction::CALL(nnn), byte);
                let (back, second) = called.execute(Instruction::RET, byte);
                &&& first == Ok::<Outcome, Fault>(Outcome::Continue)
                &&& second == Ok::<Outcome, Fault>(Outcome::Continue)
                &&& called.pc == nnn
                &&& called.sp == self.sp + 1
                &&& back.pc == self.pc
                &&& back.sp == self.sp
                &&& back == Machine { stack: self.stack.update(self.sp + 1, self.pc), ..self }
            }),
    {
    }

    /// The same symmetry over whole cycles: with a call at the program
    /// counter and a return at the call's target, two cycles leave the
    /// program counter just past the call and the stack pointer where it
    /// was.
    pub proof fn lemma_call_ret_cycles(self, nnn: u16, byte: u8)
        requires
            self.wf(),
            self.sp + 1 < SLOTS,
            self.pc + 1 < MEMORY_SIZE,
            nnn + 1 < MEMORY_SIZE,
            spec_decode(self.word_at_pc()) == Ok::<Instruction, Fault>(Instruction::CALL(nnn)),
            spec_decode((Machine { pc: nnn, ..self }).word_at_pc()) == Ok::<Instruction, Fault>(
                Instruction::RET,
            ),
        ensures
            ({
                let (called, first) = self.step(byte);
                let (back, second) = called.step(byte);
                &&& first == Ok::<Outcome, Fault>(Outcome::Continue)
                &&& second == Ok::<Outcome, Fault>(Outcome::Continue)
                &&& called.pc == nnn
                &&& back.pc == self.pc + 2
                &&& back.sp == self.sp
            }),
    {
        let (called, first) = self.step(byte);
        assert(called.ram == self.ram);
        assert(called.word_at_pc() == (Machine { pc: nnn, ..self }).word_at_pc());
    }

    /// Timers stop at 0: after any number of ticks each timer holds what is
    /// left of its value, or 0 once as many ticks have passed as it held, and
    /// nothing else has changed.
    pub proof fn lemma_timer_floor(self, count: nat)
        ensures
            self.ticks(count) == (Machine {
                dt: if count >= self.dt { 0u8 } else { (self.dt - count) as u8 },
                st: if count >= self.st { 0u8 } else { (self.st - count) as u8 },
                ..self
            }),
        decreases count,
    {
        if count > 0 {
            self.lemma_timer_floor((count - 1) as nat);
        }
    }

    /// The wait for a key with no key down: input is awaited, the program
    /// counter goes back by 2, onto the instruction that the fetch had moved
    /// it past, and nothing else changes, the destination register included.
    pub proof fn lemma_wait_key_idle(self, x: u8, byte: u8)
        requires
            forall|k: int| 0 <= k < self.kp.len() ==> !self.kp[k],
        ensures
            self.execute(Instruction::LD(x, LDType::KeyPress), byte) == (
                self.unfetched(),
                Ok::<Outcome, Fault>(Outcome::AwaitInput),
            ),
    {
        lemma_lowest_pressed(self.kp);
    }

    /// The wait for a key with a key down: the instruction goes through and
    /// the destination register holds the number of the lowest key that is
    /// down.
    pub proof fn lemma_wait_key_pressed(self, x: u8, key: int, byte: u8)
        requires
            0 <= key < self.kp.len(),
            self.kp[key],
            forall|j: int| 0 <= j < key ==> !self.kp[j],
        ensures
            self.execute(Instruction::LD(x, LDType::KeyPress), byte) == (
                self.set_reg(x, key as u8),
                Ok::<Outcome, Fault>(Outcome::Continue),
            ),
    {
        lemma_lowest_pressed(self.kp);
    }

    /// The wait for a key is retried. Fetched and executed with no key down,
    /// it awaits input and leaves the machine as it was before the fetch: the
    /// program counter has not advanced and the destination register is
    /// untouched. Fetched and executed again once the keys have changed to
    /// `keys`, of which `key` is the lowest that is down, it goes through,
    /// loads `key` and leaves the program counter past the instruction.
    pub proof fn lemma_wait_key_retry(self, x: u8, keys: Seq<bool>, key: int, byte: u8)
        requires
            self.pc + 2 <= u16::MAX,
            forall|k: int| 0 <= k < self.kp.len() ==> !self.kp[k],
            0 <= key < keys.len(),
            keys[key],
            forall|j: int| 0 <= j < key ==> !keys[j],
        ensures
            ({
                let wait = Instruction::LD(x, LDType::KeyPress);
                let (idle, first) = self.fetched().execute(wait, byte);
                let later = Machine { kp: keys, ..idle };
                let (loaded, second) = later.fetched().execute(wait, byte);
                &&& first == Ok::<Outcome, Fault>(Outcome::AwaitInput)
                &&& idle == self
                &&& second == Ok::<Outcome, Fault>(Outcome::Continue)
                &&& loaded == (Machine { kp: keys, pc: (self.pc + 2) as u16, ..self }).set_reg(
                    x,
                    key as u8,
                )
            }),
    {
        self.fetched().lemma_wait_key_idle(x, byte);
        (Machine { kp: keys, ..self }).fetched().lemma_wait_key_pressed(x, key, byte);
    }

    /// The same over whole cycles: a cycle that meets the wait for a key with
    /// no key down leaves the machine as it was, so the next cycle meets the
    /// same instruction; once a key is down that cycle loads the lowest such
    /// key and moves on to the next instruction.
    pub proof fn lemma_wait_key_cycles(self, x: u8, keys: Seq<bool>, key: int, byte: u8)
        requires
            self.pc + 1 < MEMORY_SIZE,
            spec_decode(self.word_at_pc()) == Ok::<Instruction, Fault>(
                Instruction::LD(x, LDType::KeyPress),
            ),
            forall|k: int| 0 <= k < self.kp.len() ==> !self.kp[k],
            0 <= key < keys.len(),
            keys[key],
            forall|j: int| 0 <= j < key ==> !keys[j],
        ensures
            ({
                let (idle, first) = self.step(byte);
                let (loaded, second) = (Machine { kp: keys, ..idle }).step(byte);
                &&& first == Ok::<Outcome, Fault>(Outcome::AwaitInput)
                &&& idle == self
                &&& second == Ok::<Outcome, Fault>(Outcome::Continue)
                &&& loaded == (Machine { kp: keys, pc: (self.pc + 2) as u16, ..self }).set_reg(
                    x,
                    key as u8,
                )
            }),
    {
        self.fetched().lemma_wait_key_idle(x, byte);
        let later = Machine { kp: keys, ..self };
        later.fetched().lemma_wait_key_pressed(x, key, byte);
        assert(later.word_at_pc() == self.word_at_pc());
    }
}

} // verus!
