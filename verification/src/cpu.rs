//! The execution engine: the machine state as executable data, the fetch,
//! execute and timer steps, and one handler per instruction. The handlers
//! are named after their instruction words, `op_8xy4` for `8xy4`, and take
//! the operand fields of the word.
//!
//! The state is one owned aggregate. Its view is a
//! [`Machine`](crate::machine::Machine), and each function here ensures that
//! the view after the call is what the model says.

use vstd::prelude::*;
use crate::disp::{paint, painted, HEIGHT, WIDTH};
use crate::font::{font_table, FONT};
use crate::machine::{lemma_lowest_pressed, Machine, SLOTS};
use crate::mem::{filled, with_block, write_block, FONT_START, MEMORY_SIZE, PROGRAM_START};
use crate::opcode::{spec_decode, AddType, Instruction, JPType, LDType, SEType};
use crate::reg::{random_byte, TIMER_START};
use crate::sprite::blit;
use crate::status::{Fault, Outcome};

verus! {

/// The whole machine: memory, stack, registers, timers, keypad and display.
/// The fields are open to the driver, which loads programs, reports keys and
/// reads the display through them; the engine asks that they stay
/// well-formed ([`Cpu::wf`]).
pub struct Cpu {
    /// Memory, one byte per address.
    pub ram: Vec<u8>,
    /// Return addresses; slot 0 stays unused.
    pub stack: Vec<u16>,
    /// Program counter.
    pub pc: u16,
    /// Index register.
    pub ir: u16,
    /// General registers.
    pub vx: Vec<u8>,
    /// Sound timer.
    pub st: u8,
    /// Delay timer.
    pub dt: u8,
    /// Stack pointer.
    pub sp: u8,
    /// Key states, `true` while a key is held down. The driver sets a key
    /// when it goes down and clears it when it comes up; the engine only
    /// reads them.
    pub kp: Vec<bool>,
    /// Display height in pixels.
    pub height: u8,
    /// Display width in pixels.
    pub width: u8,
    /// Pixels, row after row.
    pub screen: Vec<bool>,
}

impl View for Cpu {
    type V = Machine;

    open spec fn view(&self) -> Machine {
        Machine {
            ram: self.ram@,
            stack: self.stack@,
            pc: self.pc,
            ir: self.ir,
            vx: self.vx@,
            st: self.st,
            dt: self.dt,
            sp: self.sp,
            kp: self.kp@,
            height: self.height,
            width: self.width,
            screen: self.screen@,
        }
    }
}

impl Cpu {
    /// The state is that of a machine: see [`Machine::wf`].
    pub open spec fn wf(&self) -> bool {
        self@.wf()
    }

    /// Tests at run time whether the state is that of a machine. A caller
    /// that Verus does not check can use it before it calls into the engine.
    pub fn is_wf(&self) -> (ok: bool)
        ensures
            ok == self.wf(),
    {
        self.ram.len() == MEMORY_SIZE && self.stack.len() == SLOTS && self.vx.len() == SLOTS
            && self.kp.len() == SLOTS && self.width == WIDTH && self.height == HEIGHT
            && self.screen.len() == 64 * 32 && (self.sp as usize) < SLOTS
    }

    /// A new machine, with the glyph table in place.
    pub fn init() -> (cpu: Cpu)
        ensures
            cpu.wf(),
            cpu@ == Machine::initial(),
            cpu@.font_in_place(),
    {
        let mut ret = Cpu {
            ram: filled(0x00, MEMORY_SIZE),
            stack: filled(0x0000, SLOTS),
            pc: 0x200,
            ir: 0,
            vx: filled(0, SLOTS),
            st: TIMER_START,
            dt: TIMER_START,
            sp: 0,
            kp: filled(false, SLOTS),
            height: HEIGHT,
            width: WIDTH,
            screen: filled(false, 64 * 32),
        };

        ret.load_font();

        ret
    }

    /// Writes the glyph table to its place in memory.
    pub fn load_font(&mut self)
        requires
            old(self).wf(),
        ensures
            final(self).wf(),
            final(self)@ == (Machine {
                ram: with_block(old(self)@.ram, FONT_START as int, font_table()),
                ..old(self)@
            }),
            final(self)@.font_in_place(),
    {
        write_block(&mut self.ram, FONT_START, FONT.as_slice());
    }

    /// Copies a program image to the program start. An image that does not
    /// fit between the program start and the end of memory is refused, and
    /// the machine stays as it is.
    pub fn load_rom(&mut self, image: &[u8]) -> (loaded: Result<(), Fault>)
        requires
            old(self).wf(),
        ensures
            final(self).wf(),
            PROGRAM_START + image.len() <= MEMORY_SIZE ==> loaded == Ok::<(), Fault>(())
                && final(self)@ == (Machine {
                ram: with_block(old(self)@.ram, PROGRAM_START as int, image@),
                ..old(self)@
            }),
            PROGRAM_START + image.len() > MEMORY_SIZE ==> loaded == Err::<(), Fault>(
                Fault::OutOfBoundsMemoryAccess,
            ) && final(self)@ == old(self)@,
    {
        if image.len() > MEMORY_SIZE - PROGRAM_START {
            return Err(Fault::OutOfBoundsMemoryAccess);
        }
        write_block(&mut self.ram, PROGRAM_START, image);
        Ok(())
    }

    /// Renders the display into `frame`, one pixel to four RGBA bytes.
    pub fn draw(&self, frame: &mut [u8])
        requires
            old(frame).len() / 4 <= self.screen.len(),
        ensures
            final(frame)@ == painted(self.screen@, old(frame)@),
    {
        paint(&self.screen, frame);
    }

    /// The instruction word at the program counter, high byte first, if both
    /// its bytes lie in memory. The machine is not changed.
    pub fn peek(&self) -> (word: Option<u16>)
        requires
            self.wf(),
        ensures
            word == if self.pc + 1 < MEMORY_SIZE {
                Some(self@.word_at_pc())
            } else {
                None::<u16>
            },
    {
        if self.pc as usize + 1 >= MEMORY_SIZE {
            return None;
        }
        let n1: u16 = self.ram[self.pc as usize] as u16;
        let n2: u16 = self.ram[self.pc as usize + 1] as u16;

        assert((n1 << 8) | n2 == n1 * 0x100 + n2) by (bit_vector)
            requires
                n1 < 0x100,
                n2 < 0x100,
        ;
        Some((n1 << 8) | n2)
    }

    /// Reads the instruction word at the program counter, high byte first,
    /// and moves the program counter past it, if both bytes of the word lie
    /// in memory. Otherwise the fetch faults and the machine is unchanged.
    pub fn fetch(&mut self) -> (fetched: Result<u16, Fault>)
        requires
            old(self).wf(),
        ensures
            final(self).wf(),
            old(self).pc + 1 < MEMORY_SIZE ==> fetched == Ok::<u16, Fault>(
                old(self)@.word_at_pc(),
            ) && final(self)@ == old(self)@.fetched(),
            old(self).pc + 1 >= MEMORY_SIZE ==> fetched == Err::<u16, Fault>(
                Fault::OutOfBoundsMemoryAccess,
            ) && final(self)@ == old(self)@,
    {
        if self.pc as usize + 1 >= MEMORY_SIZE {
            return Err(Fault::OutOfBoundsMemoryAccess);
        }
        let n1: u16 = self.ram[self.pc as usize] as u16;
        let n2: u16 = self.ram[(self.pc + 1) as usize] as u16;
        self.pc += 2;

        assert((n1 << 8) | n2 == n1 * 0x100 + n2) by (bit_vector)
            requires
                n1 < 0x100,
                n2 < 0x100,
        ;
        Ok((n1 << 8) | n2)
    }

    /// Lets one timer tick pass: each timer that is not 0 goes down by 1, and
    /// a timer at 0 stays there.
    pub fn tick_timers(&mut self)
        ensures
            final(self)@ == old(self)@.tick(),
    {
        if self.dt > 0 {
            self.dt -= 1;
        }
        if self.st > 0 {
            self.st -= 1;
        }
    }

    /// Carries out one instruction, with `byte` as the random byte for the
    /// random instruction. The machine goes to the state the model gives, and
    /// the result is the model's; after a fault the machine is unchanged.
    pub fn execute_with(&mut self, instruction: Instruction, byte: u8) -> (result: Result<
        Outcome,
        Fault,
    >)
        requires
            old(self).wf(),
            old(self)@.accepts(instruction),
        ensures
            final(self).wf(),
            final(self)@ == old(self)@.execute(instruction, byte).0,
            result == old(self)@.execute(instruction, byte).1,
    {
        match instruction {
            Instruction::RAW0 => Ok(Outcome::Continue),
            Instruction::CLS => self.op_00e0(),
            Instruction::RET => self.op_00ee(),
            Instruction::SYS(nnn) => self.op_0nnn(nnn),
            Instruction::JP(JPType::Addr(nnn)) => self.op_1nnn(nnn),
            Instruction::CALL(nnn) => self.op_2nnn(nnn),
            Instruction::SE(x, SEType::Byte(kk)) => self.op_3xkk(x, kk),
            Instruction::SNE(x, SEType::Byte(kk)) => self.op_4xkk(x, kk),
            Instruction::SE(x, SEType::Reg(y)) => self.op_5xy0(x, y),
            Instruction::LD(x, LDType::Byte(kk)) => self.op_6xkk(x, kk),
            Instruction::ADD(x, AddType::Byte(kk)) => self.op_7xkk(x, kk),
            Instruction::LD(x, LDType::Reg(y)) => self.op_8xy0(x, y),
            Instruction::OR(x, y) => self.op_8xy1(x, y),
            Instruction::AND(x, y) => self.op_8xy2(x, y),
            Instruction::XOR(x, y) => self.op_8xy3(x, y),
            Instruction::ADD(x, AddType::Reg(y)) => self.op_8xy4(x, y),
            Instruction::SUB(x, y) => self.op_8xy5(x, y),
            Instruction::SHR(x, y) => self.op_8xy6(x, y),
            Instruction::SUBN(x, y) => self.op_8xy7(x, y),
            Instruction::SHL(x, y) => self.op_8xye(x, y),
            Instruction::SNE(x, SEType::Reg(y)) => self.op_9xy0(x, y),
            Instruction::LD(_, LDType::Addr(nnn)) => self.op_annn(nnn),
            Instruction::JP(JPType::FromV0(nnn)) => self.op_bnnn(nnn),
            Instruction::RND(x, kk) => self.op_cxkk(x, kk, byte),
            Instruction::DRW(x, y, n) => self.op_dxyn(x, y, n),
            Instruction::SKP(x) => self.op_ex9e(x),
            Instruction::SKNP(x) => self.op_exa1(x),
            Instruction::LD(x, LDType::FromDT) => self.op_fx07(x),
            Instruction::LD(x, LDType::KeyPress) => self.op_fx0a(x),
            Instruction::LD(x, LDType::ToDT) => self.op_fx15(x),
            Instruction::LD(x, LDType::ToST) => self.op_fx18(x),
            Instruction::ADD(x, AddType::I) => self.op_fx1e(x),
            Instruction::LD(x, LDType::F) => self.op_fx29(x),
            Instruction::LD(x, LDType::B) => self.op_fx33(x),
            Instruction::LD(x, LDType::ToI) => self.op_fx55(x),
            Instruction::LD(x, LDType::FromI) => self.op_fx65(x),
        }
    }

    /// Carries out one instruction. The random instruction draws its byte
    /// from the random generator, so its effect is the model's for some byte;
    /// every other instruction has exactly the model's effect.
    ///
    /// The instruction is taken to have just been fetched: when the wait for
    /// a key reports [`Outcome::AwaitInput`] it has moved the program counter
    /// back by 2, onto its own word, so that the next fetch meets it again.
    pub fn execute(&mut self, instruction: Instruction) -> (result: Result<Outcome, Fault>)
        requires
            old(self).wf(),
            old(self)@.accepts(instruction),
        ensures
            final(self).wf(),
            exists|byte: u8|
                final(self)@ == (#[trigger] old(self)@.execute(instruction, byte)).0 && result
                    == old(self)@.execute(instruction, byte).1,
            !(instruction is RND) ==> final(self)@ == old(self)@.execute(instruction, 0).0
                && result == old(self)@.execute(instruction, 0).1,
    {
        let byte = match instruction {
            Instruction::RND(_, _) => random_byte(),
            _ => 0,
        };
        self.execute_with(instruction, byte)
    }

    /// Runs one whole cycle with `byte` as the random byte: fetch, decode,
    /// execute. See [`Machine::step`].
    pub fn step_with(&mut self, byte: u8) -> (result: Result<Outcome, Fault>)
        requires
            old(self).wf(),
        ensures
            final(self).wf(),
            final(self)@ == old(self)@.step(byte).0,
            result == old(self)@.step(byte).1,
    {
        let start = self.pc;
        let word = match self.fetch() {
            Ok(word) => word,
            Err(fault) => {
                return Err(fault);
            },
        };
        match Instruction::decode(word) {
            Err(fault) => {
                self.pc = start;
                Err(fault)
            },
            Ok(instruction) => {
                proof {
                    Instruction::lemma_encode_decode(word);
                }
                let result = self.execute_with(instruction, byte);
                self.settle(start, result)
            },
        }
    }

    /// Runs one whole cycle: fetch, decode, execute. A random instruction
    /// draws its byte from the random generator, so the cycle is the model's
    /// for some byte; every other cycle is exactly the model's.
    pub fn step(&mut self) -> (result: Result<Outcome, Fault>)
        requires
            old(self).wf(),
        ensures
            final(self).wf(),
            exists|byte: u8|
                final(self)@ == (#[trigger] old(self)@.step(byte)).0 && result == old(
                    self,
                )@.step(byte).1,
            !(spec_decode(old(self)@.word_at_pc()) matches Ok(Instruction::RND(_, _)))
                ==> final(self)@ == old(self)@.step(0).0 && result == old(self)@.step(0).1,
    {
        let byte = match self.peek() {
            Some(word) => match Instruction::decode(word) {
                Ok(Instruction::RND(_, _)) => random_byte(),
                _ => 0,
            },
            None => 0,
        };
        self.step_with(byte)
    }

    /// Ends a cycle that began at `start`: after a fault the program counter
    /// goes back to `start`.
    fn settle(&mut self, start: u16, result: Result<Outcome, Fault>) -> (settled: Result<
        Outcome,
        Fault,
    >)
        ensures
            settled == result,
            final(self)@ == match result {
                Ok(_) => old(self)@,
                Err(_) => Machine { pc: start, ..old(self)@ },
            },
    {
        if result.is_err() {
            self.pc = start;
        }
        result
    }

    /// CLS: puts every pixel out.
    pub fn op_00e0(&mut self) -> (result: Result<Outcome, Fault>)
        requires
            old(self).wf(),
        ensures
            final(self).wf(),
            final(self)@ == old(self)@.clear(),
            result == Ok::<Outcome, Fault>(Outcome::Continue),
    {
        let mut i: usize = 0;
        while i < self.screen.len()
            invariant
                i <= self.screen.len(),
                self.screen.len() == old(self).screen.len(),
                forall|p: int| 0 <= p < i ==> !self.screen[p],
                self@ == (Machine { screen: self.screen@, ..old(self)@ }),
            decreases self.screen.len() - i,
        {
            self.screen[i] = false;
            i += 1;
        }

        Ok(Outcome::Continue)
    }

    /// RET: returns to the address in the stack pointer's slot, or faults
    /// with no call outstanding.
    pub fn op_00ee(&mut self) -> (result: Result<Outcome, Fault>)
        requires
            old(self).wf(),
        ensures
            final(self).wf(),
            final(self)@ == old(self)@.ret().0,
            result == old(self)@.ret().1,
    {
        if self.sp == 0 {
            return Err(Fault::StackUnderflow);
        }
        self.pc = self.stack[self.sp as usize];
        self.sp -= 1;

        Ok(Outcome::Continue)
    }

    /// SYS addr: recognised, without effect.
    pub fn op_0nnn(&mut self, nnn: u16) -> (result: Result<Outcome, Fault>)
        requires
            old(self).wf(),
        ensures
            final(self).wf(),
            final(self)@ == old(self)@,
            result == Ok::<Outcome, Fault>(Outcome::Continue),
    {
        Ok(Outcome::Continue)
    }

    /// JP addr: goes on at `nnn`.
    pub fn op_1nnn(&mut self, nnn: u16) -> (result: Result<Outcome, Fault>)
        requires
            old(self).wf(),
        ensures
            final(self).wf(),
            final(self)@ == old(self)@.jump(nnn),
            result == Ok::<Outcome, Fault>(Outcome::Continue),
    {
        self.pc = nnn;

        Ok(Outcome::Continue)
    }

    /// CALL addr: saves the program counter in the next stack slot and goes on
    /// at `nnn`, or faults with the last slot taken.
    pub fn op_2nnn(&mut self, nnn: u16) -> (result: Result<Outcome, Fault>)
        requires
            old(self).wf(),
        ensures
            final(self).wf(),
            final(self)@ == old(self)@.call(nnn).0,
            result == old(self)@.call(nnn).1,
    {
        if self.sp as usize + 1 >= SLOTS {
            return Err(Fault::StackOverflow);
        }
        self.sp += 1;
        self.stack[self.sp as usize] = self.pc;
        self.pc = nnn;

        Ok(Outcome::Continue)
    }

    /// SE x, kk: skips the next instruction if register `x` holds `kk`.
    pub fn op_3xkk(&mut self, x: u8, kk: u8) -> (result: Result<Outcome, Fault>)
        requires
            old(self).wf(),
            x < 16,
            old(self).pc + 2 <= u16::MAX,
        ensures
            final(self).wf(),
            final(self)@ == old(self)@.skip_if(old(self)@.vx[x as int] == kk),
            result == Ok::<Outcome, Fault>(Outcome::Continue),
    {
        if self.vx[x as usize] == kk {
            self.pc += 2;
        }

        Ok(Outcome::Continue)
    }

    /// SNE x, kk: skips the next instruction unless register `x` holds `kk`.
    pub fn op_4xkk(&mut self, x: u8, kk: u8) -> (result: Result<Outcome, Fault>)
        requires
            old(self).wf(),
            x < 16,
            old(self).pc + 2 <= u16::MAX,
        ensures
            final(self).wf(),
            final(self)@ == old(self)@.skip_if(old(self)@.vx[x as int] != kk),
            result == Ok::<Outcome, Fault>(Outcome::Continue),
    {
        if self.vx[x as usize] != kk {
            self.pc += 2;
        }

        Ok(Outcome::Continue)
    }

    /// SE x, y: skips the next instruction if registers `x` and `y` are equal.
    pub fn op_5xy0(&mut self, x: u8, y: u8) -> (result: Result<Outcome, Fault>)
        requires
            old(self).wf(),
            x < 16,
            y < 16,
            old(self).pc + 2 <= u16::MAX,
        ensures
            final(self).wf(),
            final(self)@ == old(self)@.skip_if(old(self)@.vx[x as int] == old(self)@.vx[y as int]),
            result == Ok::<Outcome, Fault>(Outcome::Continue),
    {
        if self.vx[x as usize] == self.vx[y as usize] {
            self.pc += 2;
        }

        Ok(Outcome::Continue)
    }

    /// LD x, kk: register `x` gets `kk`.
    pub fn op_6xkk(&mut self, x: u8, kk: u8) -> (result: Result<Outcome, Fault>)
        requires
            old(self).wf(),
            x < 16,
        ensures
            final(self).wf(),
            final(self)@ == old(self)@.set_reg(x, kk),
            result == Ok::<Outcome, Fault>(Outcome::Continue),
    {
        self.vx[x as usize] = kk;

        Ok(Outcome::Continue)
    }

    /// ADD x, kk: register `x` grows by `kk` modulo 256; the flag is left alone.
    pub fn op_7xkk(&mut self, x: u8, kk: u8) -> (result: Result<Outcome, Fault>)
        requires
            old(self).wf(),
            x < 16,
        ensures
            final(self).wf(),
            final(self)@ == old(self)@.add_byte(x, kk),
            result == Ok::<Outcome, Fault>(Outcome::Continue),
    {
        self.vx[x as usize] = self.vx[x as usize].wrapping_add(kk);

        Ok(Outcome::Continue)
    }

    /// LD x, y: register `x` gets register `y`.
    pub fn op_8xy0(&mut self, x: u8, y: u8) -> (result: Result<Outcome, Fault>)
        requires
            old(self).wf(),
            x < 16,
            y < 16,
        ensures
            final(self).wf(),
            final(self)@ == old(self)@.set_reg(x, old(self)@.vx[y as int]),
            result == Ok::<Outcome, Fault>(Outcome::Continue),
    {
        self.vx[x as usize] = self.vx[y as usize];

        Ok(Outcome::Continue)
    }

    /// OR x, y: register `x` gets the bitwise or of both registers.
    pub fn op_8xy1(&mut self, x: u8, y: u8) -> (result: Result<Outcome, Fault>)
        requires
            old(self).wf(),
            x < 16,
            y < 16,
        ensures
            final(self).wf(),
            final(self)@ == old(self)@.set_reg(
                x,
                old(self)@.vx[x as int] | old(self)@.vx[y as int],
            ),
            result == Ok::<Outcome, Fault>(Outcome::Continue),
    {
        self.vx[x as usize] |= self.vx[y as usize];

        Ok(Outcome::Continue)
    }

    /// AND x, y: register `x` gets the bitwise and of both registers.
    pub fn op_8xy2(&mut self, x: u8, y: u8) -> (result: Result<Outcome, Fault>)
        requires
            old(self).wf(),
            x < 16,
            y < 16,
        ensures
            final(self).wf(),
            final(self)@ == old(self)@.set_reg(
                x,
                old(self)@.vx[x as int] & old(self)@.vx[y as int],
            ),
            result == Ok::<Outcome, Fault>(Outcome::Continue),
    {
        self.vx[x as usize] &= self.vx[y as usize];

        Ok(Outcome::Continue)
    }

    /// XOR x, y: register `x` gets the bitwise exclusive or of both registers.
    pub fn op_8xy3(&mut self, x: u8, y: u8) -> (result: Result<Outcome, Fault>)
        requires
            old(self).wf(),
            x < 16,
            y < 16,
        ensures
            final(self).wf(),
            final(self)@ == old(self)@.set_reg(
                x,
                old(self)@.vx[x as int] ^ old(self)@.vx[y as int],
            ),
            result == Ok::<Outcome, Fault>(Outcome::Continue),
    {
        self.vx[x as usize] ^= self.vx[y as usize];

        Ok(Outcome::Continue)
    }

    /// ADD x, y: register `x` gets the sum modulo 256, the flag the carry.
    pub fn op_8xy4(&mut self, x: u8, y: u8) -> (result: Result<Outcome, Fault>)
        requires
            old(self).wf(),
            x < 16,
            y < 16,
        ensures
            final(self).wf(),
            final(self)@ == old(self)@.add_reg(x, y),
            result == Ok::<Outcome, Fault>(Outcome::Continue),
    {
        let sum: u16 = (self.vx[x as usize] as u16) + (self.vx[y as usize] as u16);

        self.vx[0xF] = if sum > 0xFF {
            1
        } else {
            0
        };

        self.vx[x as usize] = (sum % 0x100) as u8;

        Ok(Outcome::Continue)
    }

    /// SUB x, y: register `x` gets `x - y` modulo 256; the flag is 1 iff
    /// nothing was borrowed.
    pub fn op_8xy5(&mut self, x: u8, y: u8) -> (result: Result<Outcome, Fault>)
        requires
            old(self).wf(),
            x < 16,
            y < 16,
        ensures
            final(self).wf(),
            final(self)@ == old(self)@.sub(x, y),
            result == Ok::<Outcome, Fault>(Outcome::Continue),
    {
        let minuend = self.vx[x as usize];
        let subtrahend = self.vx[y as usize];

        self.vx[0xF] = if minuend >= subtrahend {
            1
        } else {
            0
        };

        self.vx[x as usize] = minuend.wrapping_sub(subtrahend);

        Ok(Outcome::Continue)
    }

    /// SHR x {, y}: register `x` is halved, the flag gets the bit that fell
    /// out; `y` is not read.
    pub fn op_8xy6(&mut self, x: u8, _y: u8) -> (result: Result<Outcome, Fault>)
        requires
            old(self).wf(),
            x < 16,
        ensures
            final(self).wf(),
            final(self)@ == old(self)@.shr(x),
            result == Ok::<Outcome, Fault>(Outcome::Continue),
    {
        let value = self.vx[x as usize];
        assert(value & 1 == value % 2 && value >> 1 == value / 2) by (bit_vector);

        self.vx[0xF] = value & 1;
        self.vx[x as usize] = value >> 1;

        Ok(Outcome::Continue)
    }

    /// SUBN x, y: register `x` gets `y - x` modulo 256; the flag is 1 iff
    /// nothing was borrowed.
    pub fn op_8xy7(&mut self, x: u8, y: u8) -> (result: Result<Outcome, Fault>)
        requires
            old(self).wf(),
            x < 16,
            y < 16,
        ensures
            final(self).wf(),
            final(self)@ == old(self)@.subn(x, y),
            result == Ok::<Outcome, Fault>(Outcome::Continue),
    {
        let minuend = self.vx[y as usize];
        let subtrahend = self.vx[x as usize];

        self.vx[0xF] = if minuend >= subtrahend {
            1
        } else {
            0
        };

        self.vx[x as usize] = minuend.wrapping_sub(subtrahend);

        Ok(Outcome::Continue)
    }

    /// SHL x {, y}: register `x` is doubled modulo 256, the flag gets the bit
    /// that fell out; `y` is not read.
    pub fn op_8xye(&mut self, x: u8, _y: u8) -> (result: Result<Outcome, Fault>)
        requires
            old(self).wf(),
            x < 16,
        ensures
            final(self).wf(),
            final(self)@ == old(self)@.shl(x),
            result == Ok::<Outcome, Fault>(Outcome::Continue),
    {
        let value = self.vx[x as usize];
        assert((value >> 7 == 1 <==> value >= 0x80) && value >> 7 <= 1 && value << 1 == (value * 2)
            % 0x100) by (bit_vector);

        self.vx[0xF] = value >> 7;
        self.vx[x as usize] = value << 1;

        Ok(Outcome::Continue)
    }

    /// SNE x, y: skips the next instruction unless registers `x` and `y` are
    /// equal.
    pub fn op_9xy0(&mut self, x: u8, y: u8) -> (result: Result<Outcome, Fault>)
        requires
            old(self).wf(),
            x < 16,
            y < 16,
            old(self).pc + 2 <= u16::MAX,
        ensures
            final(self).wf(),
            final(self)@ == old(self)@.skip_if(old(self)@.vx[x as int] != old(self)@.vx[y as int]),
            result == Ok::<Outcome, Fault>(Outcome::Continue),
    {
        if self.vx[x as usize] != self.vx[y as usize] {
            self.pc += 2;
        }

        Ok(Outcome::Continue)
    }

    /// LD I, addr: the index register gets `nnn`.
    pub fn op_annn(&mut self, nnn: u16) -> (result: Result<Outcome, Fault>)
        requires
            old(self).wf(),
        ensures
            final(self).wf(),
            final(self)@ == (Machine { ir: nnn, ..old(self)@ }),
            result == Ok::<Outcome, Fault>(Outcome::Continue),
    {
        self.ir = nnn;

        Ok(Outcome::Continue)
    }

    /// JP V0, addr: goes on at `nnn` plus register 0.
    pub fn op_bnnn(&mut self, nnn: u16) -> (result: Result<Outcome, Fault>)
        requires
            old(self).wf(),
            nnn < 0x1000,
        ensures
            final(self).wf(),
            final(self)@ == old(self)@.jump_v0(nnn),
            result == Ok::<Outcome, Fault>(Outcome::Continue),
    {
        self.pc = (self.vx[0] as u16) + nnn;

        Ok(Outcome::Continue)
    }

    /// RND x, kk: register `x` gets `byte`, the random byte, masked by `kk`.
    pub fn op_cxkk(&mut self, x: u8, kk: u8, byte: u8) -> (result: Result<Outcome, Fault>)
        requires
            old(self).wf(),
            x < 16,
        ensures
            final(self).wf(),
            final(self)@ == old(self)@.random(x, kk, byte),
            result == Ok::<Outcome, Fault>(Outcome::Continue),
    {
        self.vx[x as usize] = byte & kk;

        Ok(Outcome::Continue)
    }

    /// DRW x, y, n: draws the `n` rows at the index register at the point that
    /// registers `x` and `y` name, sets the flag on a collision and clears it
    /// otherwise, or faults if a row lies outside memory.
    pub fn op_dxyn(&mut self, x: u8, y: u8, n: u8) -> (result: Result<Outcome, Fault>)
        requires
            old(self).wf(),
            x < 16,
            y < 16,
        ensures
            final(self).wf(),
            final(self)@ == old(self)@.draw(x, y, n).0,
            result == old(self)@.draw(x, y, n).1,
    {
        if n > 0 && self.ir as usize + n as usize > MEMORY_SIZE {
            return Err(Fault::OutOfBoundsMemoryAccess);
        }
        let left = self.vx[x as usize];
        let top = self.vx[y as usize];
        let start = if n > 0 {
            self.ir as usize
        } else {
            0
        };
        let hit = blit(
            &mut self.screen,
            self.width,
            self.height,
            &self.ram,
            start,
            n as u16,
            left,
            top,
        );
        self.vx[0xF] = if hit {
            1
        } else {
            0
        };

        // Asks the driver to present the display.
        Ok(Outcome::RedrawRequested)
    }

    /// SKP x: skips the next instruction if the key that register `x` names is
    /// down.
    pub fn op_ex9e(&mut self, x: u8) -> (result: Result<Outcome, Fault>)
        requires
            old(self).wf(),
            x < 16,
            old(self).pc + 2 <= u16::MAX,
        ensures
            final(self).wf(),
            final(self)@ == old(self)@.skip_if(old(self)@.kp[old(self)@.key_of(x)]),
            result == Ok::<Outcome, Fault>(Outcome::Continue),
    {
        let value = self.vx[x as usize];
        assert(value & 0x0F == value % 16) by (bit_vector);
        let key = (value & 0x0F) as usize;
        if self.kp[key] {
            self.pc += 2;
        }

        Ok(Outcome::Continue)
    }

    /// SKNP x: skips the next instruction if the key that register `x` names
    /// is up.
    pub fn op_exa1(&mut self, x: u8) -> (result: Result<Outcome, Fault>)
        requires
            old(self).wf(),
            x < 16,
            old(self).pc + 2 <= u16::MAX,
        ensures
            final(self).wf(),
            final(self)@ == old(self)@.skip_if(!old(self)@.kp[old(self)@.key_of(x)]),
            result == Ok::<Outcome, Fault>(Outcome::Continue),
    {
        let value = self.vx[x as usize];
        assert(value & 0x0F == value % 16) by (bit_vector);
        let key = (value & 0x0F) as usize;
        if !self.kp[key] {
            self.pc += 2;
        }

        Ok(Outcome::Continue)
    }

    /// LD x, DT: register `x` gets the delay timer.
    pub fn op_fx07(&mut self, x: u8) -> (result: Result<Outcome, Fault>)
        requires
            old(self).wf(),
            x < 16,
        ensures
            final(self).wf(),
            final(self)@ == old(self)@.set_reg(x, old(self).dt),
            result == Ok::<Outcome, Fault>(Outcome::Continue),
    {
        self.vx[x as usize] = self.dt;

        Ok(Outcome::Continue)
    }

    /// LD x, K: register `x` gets the lowest key that is down. With none down
    /// input is awaited and the program counter goes back by 2, onto this
    /// instruction; nothing else changes.
    pub fn op_fx0a(&mut self, x: u8) -> (result: Result<Outcome, Fault>)
        requires
            old(self).wf(),
            x < 16,
            old(self).pc >= 2,
        ensures
            final(self).wf(),
            final(self)@ == old(self)@.wait_key(x).0,
            result == old(self)@.wait_key(x).1,
    {
        let mut key: usize = 0;
        while key < self.kp.len() && !self.kp[key]
            invariant
                key <= self.kp.len(),
                self@ == old(self)@,
                forall|j: int| 0 <= j < key ==> !self.kp[j],
            decreases self.kp.len() - key,
        {
            key += 1;
        }
        proof {
            lemma_lowest_pressed(self.kp@);
        }
        if key < self.kp.len() {
            self.vx[x as usize] = key as u8;

            Ok(Outcome::Continue)
        } else {
            // Asks the driver to hold the machine until a key goes down, and
            // stays on this instruction.
            self.pc -= 2;

            Ok(Outcome::AwaitInput)
        }
    }

    /// LD DT, x: the delay timer gets register `x`.
    pub fn op_fx15(&mut self, x: u8) -> (result: Result<Outcome, Fault>)
        requires
            old(self).wf(),
            x < 16,
        ensures
            final(self).wf(),
            final(self)@ == (Machine { dt: old(self)@.vx[x as int], ..old(self)@ }),
            result == Ok::<Outcome, Fault>(Outcome::Continue),
    {
        self.dt = self.vx[x as usize];

        Ok(Outcome::Continue)
    }

    /// LD ST, x: the sound timer gets register `x`.
    pub fn op_fx18(&mut self, x: u8) -> (result: Result<Outcome, Fault>)
        requires
            old(self).wf(),
            x < 16,
        ensures
            final(self).wf(),
            final(self)@ == (Machine { st: old(self)@.vx[x as int], ..old(self)@ }),
            result == Ok::<Outcome, Fault>(Outcome::Continue),
    {
        self.st = self.vx[x as usize];

        Ok(Outcome::Continue)
    }

    /// ADD I, x: the index register grows by register `x` modulo 65536.
    pub fn op_fx1e(&mut self, x: u8) -> (result: Result<Outcome, Fault>)
        requires
            old(self).wf(),
            x < 16,
        ensures
            final(self).wf(),
            final(self)@ == old(self)@.add_index(x),
            result == Ok::<Outcome, Fault>(Outcome::Continue),
    {
        self.ir = self.ir.wrapping_add(self.vx[x as usize] as u16);

        Ok(Outcome::Continue)
    }

    /// LD F, x: the index register gets five times register `x`.
    pub fn op_fx29(&mut self, x: u8) -> (result: Result<Outcome, Fault>)
        requires
            old(self).wf(),
            x < 16,
        ensures
            final(self).wf(),
            final(self)@ == old(self)@.glyph(x),
            result == Ok::<Outcome, Fault>(Outcome::Continue),
    {
        self.ir = (self.vx[x as usize] as u16) * 5;

        Ok(Outcome::Continue)
    }

    /// LD B, x: the three bytes at the index register get the decimal digits
    /// of register `x`, or the instruction faults if they lie outside memory.
    pub fn op_fx33(&mut self, x: u8) -> (result: Result<Outcome, Fault>)
        requires
            old(self).wf(),
            x < 16,
        ensures
            final(self).wf(),
            final(self)@ == old(self)@.bcd(x).0,
            result == old(self)@.bcd(x).1,
    {
        let start_addr = self.ir as usize;
        if start_addr + 2 >= MEMORY_SIZE {
            return Err(Fault::OutOfBoundsMemoryAccess);
        }
        let value = self.vx[x as usize];
        self.ram[start_addr] = value / 100;
        self.ram[start_addr + 1] = (value % 100) / 10;
        self.ram[start_addr + 2] = value % 10;

        Ok(Outcome::Continue)
    }

    /// LD [I], x: memory from the index register on gets registers 0 to `x`,
    /// or the instruction faults if the range lies outside memory.
    pub fn op_fx55(&mut self, x: u8) -> (result: Result<Outcome, Fault>)
        requires
            old(self).wf(),
            x < 16,
        ensures
            final(self).wf(),
            final(self)@ == old(self)@.store(x).0,
            result == old(self)@.store(x).1,
    {
        let start_addr = self.ir as usize;
        if start_addr + x as usize >= MEMORY_SIZE {
            return Err(Fault::OutOfBoundsMemoryAccess);
        }
        let mut i: usize = 0;
        while i <= x as usize
            invariant
                i <= x + 1,
                x < 16,
                start_addr == old(self).ir,
                start_addr + x < MEMORY_SIZE,
                old(self).wf(),
                self.ram.len() == MEMORY_SIZE,
                self@ == (Machine { ram: self.ram@, ..old(self)@ }),
                forall|a: int|
                    0 <= a < MEMORY_SIZE ==> self.ram[a] == if start_addr <= a < start_addr + i {
                        old(self).vx[a - start_addr]
                    } else {
                        old(self).ram[a]
                    },
            decreases x + 1 - i,
        {
            self.ram[start_addr + i] = self.vx[i];
            i += 1;
        }

        Ok(Outcome::Continue)
    }

    /// LD x, [I]: registers 0 to `x` get memory from the index register on, or
    /// the instruction faults if the range lies outside memory.
    pub fn op_fx65(&mut self, x: u8) -> (result: Result<Outcome, Fault>)
        requires
            old(self).wf(),
            x < 16,
        ensures
            final(self).wf(),
            final(self)@ == old(self)@.load(x).0,
            result == old(self)@.load(x).1,
    {
        let start_addr = self.ir as usize;
        if start_addr + x as usize >= MEMORY_SIZE {
            return Err(Fault::OutOfBoundsMemoryAccess);
        }
        let mut i: usize = 0;
        while i <= x as usize
            invariant
                i <= x + 1,
                x < 16,
                start_addr == old(self).ir,
                start_addr + x < MEMORY_SIZE,
                old(self).wf(),
                self.vx.len() == SLOTS,
                self@ == (Machine { vx: self.vx@, ..old(self)@ }),
                forall|r: int|
                    0 <= r < SLOTS ==> self.vx[r] == if r < i {
                        old(self).ram[start_addr + r]
                    } else {
                        old(self).vx[r]
                    },
            decreases x + 1 - i,
        {
            self.vx[i] = self.ram[start_addr + i];
            i += 1;
        }

        Ok(Outcome::Continue)
    }
}

} // verus!
