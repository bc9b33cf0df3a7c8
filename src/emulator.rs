//! The execution engine: owns the whole machine and carries out one
//! instruction, one cycle or one 60 Hz tick at a time.
use vstd::prelude::*;
use rand::rngs::StdRng;
use crate::Fault;
use crate::font::{Font, FONT_START, GLYPH_BYTES, glyphs};
use crate::keyboard::{Keyboard, KEY_COUNT};
use crate::machine::{
    executed, fetched, operands_valid, outcome_of, running, step_outcome, stepped, ticked,
    timers_ticked, run_steps, unknowns_met, word_at, Machine, Outcome,
};
use crate::memory::{with_bytes_at, Memory, MEMORY_SIZE};
use crate::opcode::{Instruction, Opcode};
use crate::random::{random_byte, seeded};
use crate::registers::{
    add_with_carry, shift_left, shift_right, sub_with_borrow, Registers, FLAG, REGISTER_COUNT,
};
use crate::stack::{Stack, STACK_DEPTH};
use crate::video::{blank_rows, pixel_on, Video, SCREEN_HEIGHT, SCREEN_WIDTH};

verus! {

/// The whole machine: memory, registers, stack, screen, keys, timers, and the
/// generator that `Cxkk` draws from.
pub struct Emulator {
    font: Font,
    video: Video,
    keyboard: Keyboard,
    registers: Registers,
    memory: Memory,
    stack: Stack,
    pc: usize,
    i: u16,
    delay_timer: u8,
    sound_timer: u8,
    fault: Option<Fault>,
    rng: StdRng,
}

impl View for Emulator {
    type V = Machine;

    closed spec fn view(&self) -> Machine {
        Machine {
            memory: self.memory@,
            registers: self.registers@,
            stack: self.stack@,
            screen: self.video@,
            dirty: self.video.dirty(),
            keys: self.keyboard@,
            pc: self.pc as int,
            index: self.i as int,
            delay: self.delay_timer,
            sound: self.sound_timer,
            fault: self.fault,
        }
    }
}

impl Emulator {
    /// Where programs are loaded, and where execution starts.
    pub const ROM_START: usize = 512;

    /// Instruction cycles per second.
    pub const HZ: usize = 600;

    /// Timer ticks, and screen refreshes, per second.
    pub const TIMER_HZ: usize = 60;

    pub closed spec fn wf(&self) -> bool {
        &&& self.memory.wf()
        &&& self.registers.wf()
        &&& self.stack.wf()
        &&& self.video.wf()
        &&& self.keyboard.wf()
        &&& self.font@ == glyphs()
        &&& self.i < MEMORY_SIZE
    }

    /// What holds of every valid machine: sixteen registers, the whole
    /// address space, thirty-two screen rows, sixteen keys, at most sixteen
    /// return addresses, and `I` inside memory.
    pub proof fn lemma_wf_shape(&self)
        requires
            self.wf(),
        ensures
            self@.registers.len() == REGISTER_COUNT,
            self@.memory.len() == MEMORY_SIZE,
            self@.screen.len() == SCREEN_HEIGHT,
            self@.keys.len() == KEY_COUNT,
            self@.stack.len() <= STACK_DEPTH,
            0 <= self@.index < MEMORY_SIZE,
    {
    }

    /// A machine with zeroed memory, registers and timers, an empty stack, a
    /// dark screen, all keys up, and the program counter at 0. The
    /// bytes of `Cxkk` come from a generator seeded with `seed`.
    pub fn new(seed: u64) -> (r: Emulator)
        ensures
            r.wf(),
            r@ == (Machine {
                memory: Seq::new(MEMORY_SIZE as nat, |a: int| 0u8),
                registers: Seq::new(REGISTER_COUNT as nat, |k: int| 0u8),
                stack: Seq::empty(),
                screen: blank_rows(),
                dirty: true,
                keys: Seq::new(KEY_COUNT as nat, |k: int| false),
                pc: 0,
                index: 0,
                delay: 0,
                sound: 0,
                fault: None,
            }),
    {
        Emulator {
            font: Font::new(),
            video: Video::new(),
            keyboard: Keyboard::new(),
            registers: Registers::new(),
            memory: Memory::new(),
            stack: Stack::new(),
            pc: 0,
            i: 0,
            delay_timer: 0,
            sound_timer: 0,
            fault: None,
            rng: seeded(seed),
        }
    }

    /// Copies `rom` verbatim to `ROM_START` and points the program counter
    /// there. A program too long for memory is refused and nothing changes.
    pub fn load_rom(&mut self, rom: &Vec<u8>) -> (r: Result<(), Fault>)
        requires
            old(self).wf(),
        ensures
            final(self).wf(),
            Self::ROM_START + rom@.len() <= MEMORY_SIZE ==> r is Ok && final(self)@ == (Machine {
                memory: with_bytes_at(old(self)@.memory, Self::ROM_START as int, rom@),
                pc: Self::ROM_START as int,
                ..old(self)@
            }),
            Self::ROM_START + rom@.len() > MEMORY_SIZE ==> r == Err::<(), Fault>(
                Fault::OutOfBounds,
            ) && final(self)@ == old(self)@,
    {
        let loaded = self.memory.load(Self::ROM_START, rom);
        if loaded.is_ok() {
            self.pc = Self::ROM_START;
        }
        loaded
    }

    /// Copies the glyphs to `FONT_START`.
    pub fn load_font(&mut self)
        requires
            old(self).wf(),
        ensures
            final(self).wf(),
            final(self)@ == (Machine {
                memory: with_bytes_at(old(self)@.memory, FONT_START as int, glyphs()),
                ..old(self)@
            }),
    {
        let r = self.memory.load(FONT_START as usize, self.font.bytes());
        assert(r is Ok);
    }

    /// Whether the machine still runs.
    pub fn is_running(&self) -> (r: bool)
        requires
            self.wf(),
        ensures
            r == running(self@),
    {
        self.fault.is_none() && self.pc < MEMORY_SIZE
    }

    /// The word at the program counter, or `OutOfBounds` when it does not lie
    /// wholly in memory.
    pub fn read_opcode(&self) -> (r: Result<Opcode, Fault>)
        requires
            self.wf(),
        ensures
            self@.pc + 1 < MEMORY_SIZE ==> r == Ok::<Opcode, Fault>(
                Opcode { number: word_at(self@.memory, self@.pc) },
            ),
            self@.pc + 1 >= MEMORY_SIZE ==> r == Err::<Opcode, Fault>(Fault::OutOfBounds),
    {
        if self.pc >= MEMORY_SIZE - 1 {
            return Err(Fault::OutOfBounds);
        }
        let hi = self.memory.read(self.pc);
        let lo = self.memory.read(self.pc + 1);
        match (hi, lo) {
            (Ok(h), Ok(l)) => {
                assert(((h as u16) << 8u16) | (l as u16) == (h * 256 + l) as u16) by (bit_vector);
                Ok(Opcode::new(((h as u16) << 8u16) | (l as u16)))
            },
            _ => Err(Fault::OutOfBounds),
        }
    }

    /// Moves the program counter to the next instruction.
    pub fn next_opcode(&mut self)
        requires
            old(self).wf(),
            old(self)@.pc + 2 <= usize::MAX,
        ensures
            final(self).wf(),
            final(self)@ == (Machine { pc: old(self)@.pc + 2, ..old(self)@ }),
    {
        self.pc = self.pc + 2;
    }

    /// Moves the program counter past the next instruction when `c` holds,
    /// else to it.
    fn skip_if(&mut self, c: bool)
        requires
            old(self).wf(),
            old(self).pc < MEMORY_SIZE,
        ensures
            final(self).wf(),
            final(self)@ == (Machine {
                pc: old(self)@.pc + if c {
                    4int
                } else {
                    2int
                },
                ..old(self)@
            }),
    {
        if c {
            self.pc = self.pc + 4;
        } else {
            self.pc = self.pc + 2;
        }
    }

    /// Stops the machine with `f`.
    fn halt(&mut self, f: Fault)
        requires
            old(self).wf(),
        ensures
            final(self).wf(),
            final(self)@ == (Machine { fault: Some(f), ..old(self)@ }),
    {
        self.fault = Some(f);
    }

    /// What the caller learns after `ins` ran.
    fn outcome(&self, ins: Instruction) -> (r: Outcome)
        requires
            self.wf(),
        ensures
            r == outcome_of(self@, ins),
    {
        if !self.is_running() {
            Outcome::Halted
        } else {
            match ins {
                Instruction::Unknown(w) => Outcome::Unknown(w),
                _ => Outcome::Executed,
            }
        }
    }

    /// Carries out `ins`, with `random` as the byte that `Cxkk` draws.
    #[verifier::rlimit(50)]
    pub fn execute(&mut self, ins: Instruction, random: u8) -> (r: Outcome)
        requires
            old(self).wf(),
            operands_valid(ins),
        ensures
            final(self).wf(),
            final(self)@ == executed(old(self)@, ins, random),
            r == outcome_of(final(self)@, ins),
    {
        if !self.is_running() {
            return Outcome::Halted;
        }
        match ins {
            Instruction::Clear => {
                self.video.clear();
                self.next_opcode();
            },
            Instruction::Return => {
                match self.stack.pop() {
                    Ok(a) => {
                        self.pc = a as usize;
                    },
                    Err(f) => self.halt(f),
                }
            },
            Instruction::Jump(a) => {
                self.pc = a as usize;
            },
            Instruction::Call(a) => {
                match self.stack.push((self.pc + 2) as u16) {
                    Ok(()) => {
                        self.pc = a as usize;
                    },
                    Err(f) => self.halt(f),
                }
            },
            Instruction::SkipEqImm(x, kk) => {
                let c = self.registers.get(x) == kk;
                self.skip_if(c);
            },
            Instruction::SkipNeImm(x, kk) => {
                let c = self.registers.get(x) != kk;
                self.skip_if(c);
            },
            Instruction::SkipEqReg(x, y) => {
                let c = self.registers.get(x) == self.registers.get(y);
                self.skip_if(c);
            },
            Instruction::LoadImm(x, kk) => {
                self.registers.set(x, kk);
                self.next_opcode();
            },
            Instruction::AddImm(x, kk) => {
                let v = self.registers.get(x).wrapping_add(kk);
                self.registers.set(x, v);
                self.next_opcode();
            },
            Instruction::Move(x, y) => {
                let v = self.registers.get(y);
                self.registers.set(x, v);
                self.next_opcode();
            },
            Instruction::Or(x, y) => {
                let v = self.registers.get(x) | self.registers.get(y);
                self.registers.set(x, v);
                self.next_opcode();
            },
            Instruction::And(x, y) => {
                let v = self.registers.get(x) & self.registers.get(y);
                self.registers.set(x, v);
                self.next_opcode();
            },
            Instruction::Xor(x, y) => {
                let v = self.registers.get(x) ^ self.registers.get(y);
                self.registers.set(x, v);
                self.next_opcode();
            },
            Instruction::AddReg(x, y) => {
                let (v, flag) = add_with_carry(self.registers.get(x), self.registers.get(y));
                self.set_flag_then(x, v, flag);
            },
            Instruction::Sub(x, y) => {
                let (v, flag) = sub_with_borrow(self.registers.get(x), self.registers.get(y));
                self.set_flag_then(x, v, flag);
            },
            Instruction::ShiftRight(x, _) => {
                let (v, flag) = shift_right(self.registers.get(x));
                self.set_flag_then(x, v, flag);
            },
            Instruction::SubN(x, y) => {
                let (v, flag) = sub_with_borrow(self.registers.get(y), self.registers.get(x));
                self.set_flag_then(x, v, flag);
            },
            Instruction::ShiftLeft(x, _) => {
                let (v, flag) = shift_left(self.registers.get(x));
                self.set_flag_then(x, v, flag);
            },
            Instruction::SkipNeReg(x, y) => {
                let c = self.registers.get(x) != self.registers.get(y);
                self.skip_if(c);
            },
            Instruction::LoadIndex(a) => {
                self.i = a;
                self.next_opcode();
            },
            Instruction::JumpOffset(a) => {
                self.pc = a as usize + self.registers.get(0) as usize;
            },
            Instruction::Random(x, kk) => {
                self.registers.set(x, random & kk);
                self.next_opcode();
            },
            Instruction::Draw(x, y, n) => {
                self.draw(x, y, n);
            },
            Instruction::SkipKey(x) => {
                let c = self.keyboard.is_key_pressed(self.registers.get(x));
                self.skip_if(c);
            },
            Instruction::SkipNoKey(x) => {
                let c = !self.keyboard.is_key_pressed(self.registers.get(x));
                self.skip_if(c);
            },
            Instruction::ReadDelay(x) => {
                self.registers.set(x, self.delay_timer);
                self.next_opcode();
            },
            Instruction::WaitKey(x) => {
                match self.keyboard.first_pressed_key() {
                    Some(k) => {
                        self.registers.set(x, k);
                        self.next_opcode();
                    },
                    None => {},
                }
            },
            Instruction::SetDelay(x) => {
                self.delay_timer = self.registers.get(x);
                self.next_opcode();
            },
            Instruction::SetSound(x) => {
                self.sound_timer = self.registers.get(x);
                self.next_opcode();
            },
            Instruction::AddIndex(x) => {
                self.i = (self.i + self.registers.get(x) as u16) % (MEMORY_SIZE as u16);
                self.next_opcode();
            },
            Instruction::FontChar(x) => {
                self.i = FONT_START + self.registers.get(x) as u16 * GLYPH_BYTES;
                self.next_opcode();
            },
            Instruction::Bcd(x) => {
                let v = self.registers.get(x);
                let digits: Vec<u8> = vec![v / 100, (v / 10) % 10, v % 10];
                self.store(&digits);
            },
            Instruction::StoreRegs(x) => {
                let values = self.registers.prefix(x as usize + 1);
                self.store(&values);
            },
            Instruction::LoadRegs(x) => {
                match self.memory.read_range(self.i as usize, x as usize + 1) {
                    Ok(values) => {
                        self.registers.load_prefix(&values);
                        self.next_opcode();
                    },
                    Err(f) => self.halt(f),
                }
            },
            Instruction::Unknown(_) => {
                self.next_opcode();
            },
        }
        self.outcome(ins)
    }

    /// `VF = flag`, then `Vx = v`, then on to the next instruction.
    fn set_flag_then(&mut self, x: u8, v: u8, flag: u8)
        requires
            old(self).wf(),
            old(self).pc < MEMORY_SIZE,
            x < REGISTER_COUNT,
        ensures
            final(self).wf(),
            final(self)@ == (Machine {
                registers: old(self)@.registers.update(FLAG as int, flag).update(x as int, v),
                pc: old(self)@.pc + 2,
                ..old(self)@
            }),
    {
        self.registers.set(FLAG, flag);
        self.registers.set(x, v);
        self.next_opcode();
    }

    /// Writes `bytes` from `I` on and moves on, or stops the machine when
    /// they do not fit.
    fn store(&mut self, bytes: &Vec<u8>)
        requires
            old(self).wf(),
            old(self).pc < MEMORY_SIZE,
        ensures
            final(self).wf(),
            old(self)@.index + bytes@.len() > MEMORY_SIZE ==> final(self)@ == (Machine {
                fault: Some(Fault::OutOfBounds),
                ..old(self)@
            }),
            old(self)@.index + bytes@.len() <= MEMORY_SIZE ==> final(self)@ == (Machine {
                memory: with_bytes_at(old(self)@.memory, old(self)@.index, bytes@),
                pc: old(self)@.pc + 2,
                ..old(self)@
            }),
    {
        match self.memory.load(self.i as usize, bytes) {
            Ok(()) => self.next_opcode(),
            Err(f) => self.halt(f),
        }
    }

    /// `Dxyn`: draws the `n` bytes at `I` at `(Vx, Vy)` and sets `VF` to
    /// whether a lit pixel went dark.
    fn draw(&mut self, x: u8, y: u8, n: u8)
        requires
            old(self).wf(),
            old(self).pc < MEMORY_SIZE,
            old(self).fault is None,
            operands_valid(Instruction::Draw(x, y, n)),
        ensures
            final(self).wf(),
            final(self)@ == executed(old(self)@, Instruction::Draw(x, y, n), 0),
    {
        match self.memory.read_range(self.i as usize, n as usize) {
            Ok(sprite) => {
                let vx = self.registers.get(x);
                let vy = self.registers.get(y);
                let hit = self.video.draw_sprite(&sprite, vx, vy);
                self.registers.set(FLAG, hit);
                self.next_opcode();
            },
            Err(f) => self.halt(f),
        }
    }

    /// One cycle: fetch, decode and carry out the instruction at the program
    /// counter. A stopped machine stays as it is. Only `Cxkk` draws a byte
    /// from the generator; whatever byte comes, the machine moves as
    /// `stepped` says for it.
    pub fn step(&mut self) -> (r: Outcome)
        requires
            old(self).wf(),
        ensures
            final(self).wf(),
            exists|random: u8| final(self)@ == #[trigger] stepped(old(self)@, random),
            !(fetched(old(self)@) is Random) ==> final(self)@ == stepped(old(self)@, 0),
            r == outcome_of(final(self)@, fetched(old(self)@)),
    {
        if !self.is_running() {
            assert(self@ == stepped(self@, 0));
            return Outcome::Halted;
        }
        match self.read_opcode() {
            Err(f) => {
                self.halt(f);
                assert(self@ == stepped(old(self)@, 0));
                Outcome::Halted
            },
            Ok(op) => {
                let ins = op.decode();
                proof {
                    crate::machine::lemma_decode_valid(op.number);
                }
                let random: u8 = match ins {
                    Instruction::Random(_, _) => random_byte(&mut self.rng),
                    _ => 0,
                };
                let r = self.execute(ins, random);
                assert(self@ == stepped(old(self)@, random));
                r
            },
        }
    }

    /// Counts both timers down by one, stopping at zero.
    pub fn tick_timers(&mut self)
        requires
            old(self).wf(),
        ensures
            final(self).wf(),
            final(self)@ == timers_ticked(old(self)@),
    {
        if self.delay_timer > 0 {
            self.delay_timer = self.delay_timer - 1;
        }
        if self.sound_timer > 0 {
            self.sound_timer = self.sound_timer - 1;
        }
    }

    /// One 60 Hz tick: the timers count down, then `cycles` instruction
    /// cycles run; cycles after the machine stops change nothing. Returns the
    /// unknown words that were skipped, in order.
    pub fn tick(&mut self, cycles: usize) -> (r: Vec<u16>)
        requires
            old(self).wf(),
        ensures
            final(self).wf(),
            exists|randoms: Seq<u8>|
                randoms.len() == cycles && final(self)@ == #[trigger] ticked(old(self)@, randoms)
                    && r@ == unknowns_met(timers_ticked(old(self)@), randoms),
    {
        self.tick_timers();
        let ghost start = self@;
        let ghost mut randoms: Seq<u8> = Seq::empty();
        let mut unknown: Vec<u16> = Vec::new();
        let mut k: usize = 0;
        while k < cycles
            invariant
                self.wf(),
                k <= cycles,
                start == timers_ticked(old(self)@),
                randoms.len() == k,
                self@ == run_steps(start, randoms),
                unknown@ == unknowns_met(start, randoms),
            decreases cycles - k,
        {
            let ghost before = self@;
            let outcome = self.step();
            let ghost r = choose|r: u8| self@ == #[trigger] stepped(before, r);
            proof {
                let prev = randoms;
                randoms = randoms.push(r);
                assert(randoms.drop_last() =~= prev);
                assert(outcome == step_outcome(before, r));
            }
            match outcome {
                Outcome::Unknown(w) => unknown.push(w),
                _ => {},
            }
            k = k + 1;
        }
        assert(self@ == ticked(old(self)@, randoms));
        unknown
    }

    /// Records that logical key `key` went down.
    pub fn key_down(&mut self, key: u8)
        requires
            old(self).wf(),
        ensures
            final(self).wf(),
            final(self)@ == (Machine {
                keys: if key < KEY_COUNT {
                    old(self)@.keys.update(key as int, true)
                } else {
                    old(self)@.keys
                },
                ..old(self)@
            }),
    {
        self.keyboard.key_down(key);
    }

    /// Records that logical key `key` went up.
    pub fn key_up(&mut self, key: u8)
        requires
            old(self).wf(),
        ensures
            final(self).wf(),
            final(self)@ == (Machine {
                keys: if key < KEY_COUNT {
                    old(self)@.keys.update(key as int, false)
                } else {
                    old(self)@.keys
                },
                ..old(self)@
            }),
    {
        self.keyboard.key_up(key);
    }

    /// Whether the screen is due to be presented; answering true clears that
    /// until the screen changes again.
    pub fn refresh(&mut self) -> (r: bool)
        requires
            old(self).wf(),
        ensures
            final(self).wf(),
            r == old(self)@.dirty,
            final(self)@ == (Machine { dirty: false, ..old(self)@ }),
    {
        self.video.refresh()
    }

    /// Whether the pixel at column `col`, row `row` is lit.
    pub fn pixel(&self, col: usize, row: usize) -> (r: bool)
        requires
            self.wf(),
            col < SCREEN_WIDTH,
            row < SCREEN_HEIGHT,
        ensures
            r == pixel_on(self@.screen[row as int], col as int),
    {
        self.video.pixel(col, row)
    }

    /// The value of `Vx`.
    pub fn register(&self, x: u8) -> (r: u8)
        requires
            self.wf(),
            x < REGISTER_COUNT,
        ensures
            r == self@.registers[x as int],
    {
        self.registers.get(x)
    }

    /// The byte at `addr`, or `OutOfBounds` past the end of memory.
    pub fn read_memory(&self, addr: usize) -> (r: Result<u8, Fault>)
        requires
            self.wf(),
        ensures
            addr < MEMORY_SIZE ==> r == Ok::<u8, Fault>(self@.memory[addr as int]),
            addr >= MEMORY_SIZE ==> r == Err::<u8, Fault>(Fault::OutOfBounds),
    {
        self.memory.read(addr)
    }

    /// The program counter.
    pub fn pc(&self) -> (r: usize)
        ensures
            r == self@.pc,
    {
        self.pc
    }

    /// The index register `I`.
    pub fn index(&self) -> (r: u16)
        ensures
            r == self@.index,
    {
        self.i
    }

    pub fn delay_timer(&self) -> (r: u8)
        ensures
            r == self@.delay,
    {
        self.delay_timer
    }

    pub fn sound_timer(&self) -> (r: u8)
        ensures
            r == self@.sound,
    {
        self.sound_timer
    }

    /// The number of return addresses on the stack.
    pub fn stack_depth(&self) -> (r: usize)
        ensures
            r == self@.stack.len(),
    {
        self.stack.len()
    }

    /// What stopped the machine, if anything did.
    pub fn fault(&self) -> (r: Option<Fault>)
        ensures
            r == self@.fault,
    {
        self.fault
    }
}

} // verus!
