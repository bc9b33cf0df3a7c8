//! The mathematical model of the whole machine, and what each instruction,
//! each step and each 60 Hz tick does to it.
use vstd::prelude::*;
use crate::Fault;
use crate::font::{FONT_START, GLYPH_BYTES};
use crate::keyboard::{first_down, key_down_in};
use crate::memory::{with_bytes_at, MEMORY_SIZE};
use crate::opcode::{decode_word, word_kk, word_n, word_nnn, word_w, word_x, word_y, Instruction};
use crate::registers::{
    carry, diff_byte, no_borrow, shl_parts, shr_parts, sum_byte, FLAG, REGISTER_COUNT,
};
use crate::stack::{popped, pushed};
use crate::video::{blank_rows, collides, drawn_rows, pixel_on};

verus! {

/// The state of the machine, as values.
pub struct Machine {
    pub memory: Seq<u8>,
    pub registers: Seq<u8>,
    pub stack: Seq<u16>,
    pub screen: Seq<u64>,
    /// Whether the screen changed since it was last presented.
    pub dirty: bool,
    pub keys: Seq<bool>,
    pub pc: int,
    /// The index register `I`.
    pub index: int,
    pub delay: u8,
    pub sound: u8,
    pub fault: Option<Fault>,
}

/// What became of one instruction.
#[derive(Clone, Copy, Debug, PartialEq, Eq, Structural)]
pub enum Outcome {
    /// It ran, and the machine runs on.
    Executed,
    /// The word means nothing; it was skipped.
    Unknown(u16),
    /// The machine has stopped: a fault, or the program counter left memory.
    Halted,
}

/// Whether the operands of `ins` are in range: registers below 16, addresses
/// below the end of memory, sprite heights below 16. Every decoded word has
/// such operands.
pub open spec fn operands_valid(ins: Instruction) -> bool {
    match ins {
        Instruction::Jump(a) | Instruction::Call(a) | Instruction::LoadIndex(a)
        | Instruction::JumpOffset(a) => a < MEMORY_SIZE,
        Instruction::SkipEqImm(x, _) | Instruction::SkipNeImm(x, _) | Instruction::LoadImm(x, _)
        | Instruction::AddImm(x, _) | Instruction::Random(x, _) => x < REGISTER_COUNT,
        Instruction::SkipEqReg(x, y) | Instruction::Move(x, y) | Instruction::Or(x, y)
        | Instruction::And(x, y) | Instruction::Xor(x, y) | Instruction::AddReg(x, y)
        | Instruction::Sub(x, y) | Instruction::ShiftRight(x, y) | Instruction::SubN(x, y)
        | Instruction::ShiftLeft(x, y) | Instruction::SkipNeReg(x, y) => x < REGISTER_COUNT && y
            < REGISTER_COUNT,
        Instruction::Draw(x, y, n) => x < REGISTER_COUNT && y < REGISTER_COUNT && n < 16,
        Instruction::SkipKey(x) | Instruction::SkipNoKey(x) | Instruction::ReadDelay(x)
        | Instruction::WaitKey(x) | Instruction::SetDelay(x) | Instruction::SetSound(x)
        | Instruction::AddIndex(x) | Instruction::FontChar(x) | Instruction::Bcd(x)
        | Instruction::StoreRegs(x) | Instruction::LoadRegs(x) => x < REGISTER_COUNT,
        _ => true,
    }
}

/// Every word decodes to an instruction with operands in range.
pub proof fn lemma_decode_valid(word: u16)
    ensures
        operands_valid(decode_word(word)),
{
    assert(word_x(word) < 16 && word_y(word) < 16 && word_n(word) < 16);
    assert(word_nnn(word) < 4096);
}

/// Whether the machine still runs: no fault, and the program counter inside
/// memory.
pub open spec fn running(m: Machine) -> bool {
    m.fault is None && 0 <= m.pc < MEMORY_SIZE
}

/// The machine stopped by `f`, otherwise unchanged.
pub open spec fn halted_by(m: Machine, f: Fault) -> Machine {
    Machine { fault: Some(f), ..m }
}

/// The program counter moved to the next instruction.
pub open spec fn advanced(m: Machine) -> Machine {
    Machine { pc: m.pc + 2, ..m }
}

/// The program counter moved past the next instruction when `c` holds, else
/// to it.
pub open spec fn skipped_if(m: Machine, c: bool) -> Machine {
    Machine { pc: m.pc + if c { 4int } else { 2int }, ..m }
}

/// `Vx` set to `v`, then on to the next instruction.
pub open spec fn with_reg(m: Machine, x: u8, v: u8) -> Machine {
    Machine { registers: m.registers.update(x as int, v), pc: m.pc + 2, ..m }
}

/// `VF` set to `flag` first and `Vx` to `v` after it, so that `v` wins when
/// `x` is `VF`; then on to the next instruction.
pub open spec fn with_flag_then_reg(m: Machine, x: u8, v: u8, flag: u8) -> Machine {
    Machine {
        registers: m.registers.update(FLAG as int, flag).update(x as int, v),
        pc: m.pc + 2,
        ..m
    }
}

/// The value of `Vx`.
pub open spec fn reg(m: Machine, x: u8) -> u8 {
    m.registers[x as int]
}

/// The decimal digits of `v`: hundreds, tens, ones.
pub open spec fn bcd_digits(v: u8) -> Seq<u8> {
    seq![(v / 100) as u8, ((v / 10) % 10) as u8, (v % 10) as u8]
}

/// What `ins` does to a running machine; `random` is the byte drawn for
/// `Cxkk`, which every other instruction ignores.
pub open spec fn applied(m: Machine, ins: Instruction, random: u8) -> Machine {
    match ins {
        Instruction::Clear => Machine { screen: blank_rows(), dirty: true, pc: m.pc + 2, ..m },
        Instruction::Return => match popped(m.stack) {
            Some((s, a)) => Machine { stack: s, pc: a as int, ..m },
            None => halted_by(m, Fault::StackUnderflow),
        },
        Instruction::Jump(a) => Machine { pc: a as int, ..m },
        Instruction::Call(a) => match pushed(m.stack, (m.pc + 2) as u16) {
            Some(s) => Machine { stack: s, pc: a as int, ..m },
            None => halted_by(m, Fault::StackOverflow),
        },
        Instruction::SkipEqImm(x, kk) => skipped_if(m, reg(m, x) == kk),
        Instruction::SkipNeImm(x, kk) => skipped_if(m, reg(m, x) != kk),
        Instruction::SkipEqReg(x, y) => skipped_if(m, reg(m, x) == reg(m, y)),
        Instruction::LoadImm(x, kk) => with_reg(m, x, kk),
        Instruction::AddImm(x, kk) => with_reg(m, x, sum_byte(reg(m, x), kk)),
        Instruction::Move(x, y) => with_reg(m, x, reg(m, y)),
        Instruction::Or(x, y) => with_reg(m, x, reg(m, x) | reg(m, y)),
        Instruction::And(x, y) => with_reg(m, x, reg(m, x) & reg(m, y)),
        Instruction::Xor(x, y) => with_reg(m, x, reg(m, x) ^ reg(m, y)),
        Instruction::AddReg(x, y) => with_flag_then_reg(
            m,
            x,
            sum_byte(reg(m, x), reg(m, y)),
            carry(reg(m, x), reg(m, y)),
        ),
        Instruction::Sub(x, y) => with_flag_then_reg(
            m,
            x,
            diff_byte(reg(m, x), reg(m, y)),
            no_borrow(reg(m, x), reg(m, y)),
        ),
        Instruction::ShiftRight(x, _) => with_flag_then_reg(
            m,
            x,
            shr_parts(reg(m, x)).0,
            shr_parts(reg(m, x)).1,
        ),
        Instruction::SubN(x, y) => with_flag_then_reg(
            m,
            x,
            diff_byte(reg(m, y), reg(m, x)),
            no_borrow(reg(m, y), reg(m, x)),
        ),
        Instruction::ShiftLeft(x, _) => with_flag_then_reg(
            m,
            x,
            shl_parts(reg(m, x)).0,
            shl_parts(reg(m, x)).1,
        ),
        Instruction::SkipNeReg(x, y) => skipped_if(m, reg(m, x) != reg(m, y)),
        Instruction::LoadIndex(a) => Machine { index: a as int, pc: m.pc + 2, ..m },
        Instruction::JumpOffset(a) => Machine { pc: a + reg(m, 0), ..m },
        Instruction::Random(x, kk) => with_reg(m, x, random & kk),
        Instruction::Draw(x, y, n) => if m.index + n > MEMORY_SIZE {
            halted_by(m, Fault::OutOfBounds)
        } else {
            let sprite = m.memory.subrange(m.index, m.index + n);
            let hit = collides(m.screen, sprite, reg(m, x), reg(m, y));
            Machine {
                screen: drawn_rows(m.screen, sprite, reg(m, x), reg(m, y)),
                dirty: true,
                registers: m.registers.update(
                    FLAG as int,
                    if hit {
                        1u8
                    } else {
                        0u8
                    },
                ),
                pc: m.pc + 2,
                ..m
            }
        },
        Instruction::SkipKey(x) => skipped_if(m, key_down_in(m.keys, reg(m, x) as int)),
        Instruction::SkipNoKey(x) => skipped_if(m, !key_down_in(m.keys, reg(m, x) as int)),
        Instruction::ReadDelay(x) => with_reg(m, x, m.delay),
        Instruction::WaitKey(x) => match first_down(m.keys) {
            Some(k) => with_reg(m, x, k),
            None => m,
        },
        Instruction::SetDelay(x) => Machine { delay: reg(m, x), pc: m.pc + 2, ..m },
        Instruction::SetSound(x) => Machine { sound: reg(m, x), pc: m.pc + 2, ..m },
        Instruction::AddIndex(x) => Machine {
            index: (m.index + reg(m, x)) % (MEMORY_SIZE as int),
            pc: m.pc + 2,
            ..m
        },
        Instruction::FontChar(x) => Machine {
            index: FONT_START + reg(m, x) * GLYPH_BYTES,
            pc: m.pc + 2,
            ..m
        },
        Instruction::Bcd(x) => if m.index + 3 > MEMORY_SIZE {
            halted_by(m, Fault::OutOfBounds)
        } else {
            Machine {
                memory: with_bytes_at(m.memory, m.index, bcd_digits(reg(m, x))),
                pc: m.pc + 2,
                ..m
            }
        },
        Instruction::StoreRegs(x) => if m.index + x + 1 > MEMORY_SIZE {
            halted_by(m, Fault::OutOfBounds)
        } else {
            Machine {
                memory: with_bytes_at(m.memory, m.index, m.registers.take(x + 1)),
                pc: m.pc + 2,
                ..m
            }
        },
        Instruction::LoadRegs(x) => if m.index + x + 1 > MEMORY_SIZE {
            halted_by(m, Fault::OutOfBounds)
        } else {
            Machine {
                registers: with_bytes_at(
                    m.registers,
                    0,
                    m.memory.subrange(m.index, m.index + x + 1),
                ),
                pc: m.pc + 2,
                ..m
            }
        },
        Instruction::Unknown(_) => advanced(m),
    }
}

/// `ins` carried out: on a running machine it applies, on a stopped one it
/// does nothing.
pub open spec fn executed(m: Machine, ins: Instruction, random: u8) -> Machine {
    if running(m) {
        applied(m, ins, random)
    } else {
        m
    }
}

/// The big-endian word at `addr`.
pub open spec fn word_at(memory: Seq<u8>, addr: int) -> u16 {
    (memory[addr] * 256 + memory[addr + 1]) as u16
}

/// The instruction at the program counter.
pub open spec fn fetched(m: Machine) -> Instruction {
    decode_word(word_at(m.memory, m.pc))
}

/// One cycle: fetch the word at the program counter, decode it, apply it. A
/// word that does not lie wholly in memory stops the machine.
pub open spec fn stepped(m: Machine, random: u8) -> Machine {
    if !running(m) {
        m
    } else if m.pc + 1 >= MEMORY_SIZE {
        halted_by(m, Fault::OutOfBounds)
    } else {
        applied(m, fetched(m), random)
    }
}

/// What the caller learns of an instruction that ended in `after`.
pub open spec fn outcome_of(after: Machine, ins: Instruction) -> Outcome {
    if !running(after) {
        Outcome::Halted
    } else {
        match ins {
            Instruction::Unknown(w) => Outcome::Unknown(w),
            _ => Outcome::Executed,
        }
    }
}

/// Both timers one lower, stopping at zero.
pub open spec fn timers_ticked(m: Machine) -> Machine {
    Machine {
        delay: if m.delay > 0 {
            (m.delay - 1) as u8
        } else {
            0u8
        },
        sound: if m.sound > 0 {
            (m.sound - 1) as u8
        } else {
            0u8
        },
        ..m
    }
}

/// One step per byte of `randoms`, each drawing that byte.
pub open spec fn run_steps(m: Machine, randoms: Seq<u8>) -> Machine
    decreases randoms.len(),
{
    if randoms.len() == 0 {
        m
    } else {
        stepped(run_steps(m, randoms.drop_last()), randoms.last())
    }
}

/// The outcome of one step from `m` drawing `random`.
pub open spec fn step_outcome(m: Machine, random: u8) -> Outcome {
    outcome_of(stepped(m, random), fetched(m))
}

/// The unknown words met, in order, by one step per byte of `randoms`.
pub open spec fn unknowns_met(m: Machine, randoms: Seq<u8>) -> Seq<u16>
    decreases randoms.len(),
{
    if randoms.len() == 0 {
        Seq::empty()
    } else {
        let earlier = unknowns_met(m, randoms.drop_last());
        match step_outcome(run_steps(m, randoms.drop_last()), randoms.last()) {
            Outcome::Unknown(w) => earlier.push(w),
            _ => earlier,
        }
    }
}

/// One 60 Hz tick: the timers count down, then one step per byte of
/// `randoms`.
pub open spec fn ticked(m: Machine, randoms: Seq<u8>) -> Machine {
    run_steps(timers_ticked(m), randoms)
}

/// `8xy4` for any bytes `a` in `Vx` and `b` in `Vy`, `x` not `VF`: `VF`
/// becomes 1 exactly when `a + b > 255` (else 0), and `Vx` becomes
/// `(a + b) mod 256`.
pub proof fn lemma_add_sets_carry(m: Machine, x: u8, y: u8, random: u8)
    requires
        running(m),
        m.registers.len() == REGISTER_COUNT,
        x < REGISTER_COUNT,
        y < REGISTER_COUNT,
        x != FLAG,
    ensures
        ({
            let (a, b) = (reg(m, x), reg(m, y));
            let after = executed(m, Instruction::AddReg(x, y), random);
            &&& after.registers[FLAG as int] == (if a + b > 255 {
                1u8
            } else {
                0u8
            })
            &&& after.registers[x as int] == (a + b) % 256
            &&& after.pc == m.pc + 2
        }),
{
}

proof fn lemma_mod_shift(d: int)
    requires
        -256 < d < 256,
    ensures
        (d + 256) % 256 == d % 256,
{
    if d >= 0 {
        assert((d + 256) % 256 == d) by (nonlinear_arith)
            requires
                0 <= d < 256,
        ;
        assert(d % 256 == d) by (nonlinear_arith)
            requires
                0 <= d < 256,
        ;
    } else {
        assert((d + 256) % 256 == d + 256) by (nonlinear_arith)
            requires
                -256 < d < 0,
        ;
        assert(d % 256 == d + 256) by (nonlinear_arith)
            requires
                -256 < d < 0,
        ;
    }
}

/// `8xy5` and `8xy7` for any bytes `a` in `Vx` and `b` in `Vy`, `x` not `VF`:
/// `SUB` makes `VF` 1 exactly when `a >= b` and `Vx` `(a - b) mod 256`;
/// `SUBN` makes `VF` 1 exactly when `b >= a` and `Vx` `(b - a) mod 256`.
pub proof fn lemma_sub_sets_no_borrow(m: Machine, x: u8, y: u8, random: u8)
    requires
        running(m),
        m.registers.len() == REGISTER_COUNT,
        x < REGISTER_COUNT,
        y < REGISTER_COUNT,
        x != FLAG,
    ensures
        ({
            let (a, b) = (reg(m, x), reg(m, y));
            let sub = executed(m, Instruction::Sub(x, y), random);
            let subn = executed(m, Instruction::SubN(x, y), random);
            &&& sub.registers[FLAG as int] == (if a >= b {
                1u8
            } else {
                0u8
            })
            &&& sub.registers[x as int] == (a - b) % 256
            &&& subn.registers[FLAG as int] == (if b >= a {
                1u8
            } else {
                0u8
            })
            &&& subn.registers[x as int] == (b - a) % 256
        }),
{
    let (a, b) = (reg(m, x), reg(m, y));
    let sub = executed(m, Instruction::Sub(x, y), random);
    let subn = executed(m, Instruction::SubN(x, y), random);
    assert(sub == with_flag_then_reg(m, x, diff_byte(a, b), no_borrow(a, b)));
    assert(subn == with_flag_then_reg(m, x, diff_byte(b, a), no_borrow(b, a)));
    lemma_mod_shift(a as int - b as int);
    lemma_mod_shift(b as int - a as int);
}

/// `8xy6` for any byte `a` in `Vx`: the low bit of `a` goes to `VF` first,
/// and `a` shifted right goes to `Vx` after it, both taken from `a` before
/// the shift. So with `x` not `VF`, `VF` holds the low bit and `Vx` the
/// shifted value; with `x` equal to `VF`, `VF` ends holding the shifted value.
pub proof fn lemma_shift_right_flag_first(m: Machine, x: u8, y: u8, random: u8)
    requires
        running(m),
        m.registers.len() == REGISTER_COUNT,
        x < REGISTER_COUNT,
        y < REGISTER_COUNT,
    ensures
        ({
            let a = reg(m, x);
            let after = executed(m, Instruction::ShiftRight(x, y), random);
            &&& after.registers == m.registers.update(FLAG as int, (a % 2) as u8).update(
                x as int,
                (a / 2) as u8,
            )
            &&& x != FLAG ==> after.registers[FLAG as int] == a % 2 && after.registers[x as int]
                == a / 2
            &&& x == FLAG ==> after.registers[FLAG as int] == a / 2
        }),
{
}

/// A word that means nothing, such as `0xFFFF`, changes nothing but the
/// program counter, which moves to the next instruction.
pub proof fn lemma_unknown_word_skipped(m: Machine, random: u8)
    requires
        running(m),
        m.pc + 1 < MEMORY_SIZE,
        fetched(m) is Unknown,
    ensures
        stepped(m, random) == (Machine { pc: m.pc + 2, ..m }),
        running(stepped(m, random)) == (m.pc + 2 < MEMORY_SIZE),
        decode_word(0xFFFF) == Instruction::Unknown(0xFFFF),
{
    assert(word_w(0xFFFF) == 0xF && word_kk(0xFFFF) == 0xFF);
}

/// `00E0` on a running machine darkens every pixel, moves the program
/// counter to the next instruction, and changes nothing else but the dirty
/// flag, which it sets.
pub proof fn lemma_clear_darkens_screen(m: Machine, random: u8)
    requires
        running(m),
    ensures
        executed(m, Instruction::Clear, random) == (Machine {
            screen: blank_rows(),
            dirty: true,
            pc: m.pc + 2,
            ..m
        }),
        forall|col: int, row: int|
            0 <= col < 64 && 0 <= row < 32 ==> !#[trigger] pixel_on(
                executed(m, Instruction::Clear, random).screen[row],
                col,
            ),
{
    assert forall|col: int, row: int| 0 <= col < 64 && 0 <= row < 32 implies !#[trigger] pixel_on(
        executed(m, Instruction::Clear, random).screen[row],
        col,
    ) by {
        let s = (63 - col) as u64;
        assert((0u64 >> s) & 1 != 1) by (bit_vector);
    }
}

/// `Fx15` on a running machine sets the delay timer to `Vx`, moves the
/// program counter to the next instruction, and changes nothing else.
pub proof fn lemma_set_delay(m: Machine, x: u8, random: u8)
    requires
        running(m),
        x < REGISTER_COUNT,
    ensures
        executed(m, Instruction::SetDelay(x), random) == (Machine {
            delay: reg(m, x),
            pc: m.pc + 2,
            ..m
        }),
{
}

/// Whether `ins` writes a timer.
pub open spec fn writes_timer(ins: Instruction) -> bool {
    ins is SetDelay || ins is SetSound
}

/// A step whose instruction writes no timer leaves both timers as they were.
proof fn lemma_step_keeps_timers(m: Machine, random: u8)
    requires
        !writes_timer(fetched(m)),
    ensures
        stepped(m, random).delay == m.delay,
        stepped(m, random).sound == m.sound,
{
}

/// Steps whose instructions write no timer leave both timers as they were.
proof fn lemma_steps_keep_timers(m: Machine, randoms: Seq<u8>)
    requires
        forall|k: int|
            0 <= k < randoms.len() ==> !writes_timer(
                #[trigger] fetched(run_steps(m, randoms.take(k))),
            ),
    ensures
        run_steps(m, randoms).delay == m.delay,
        run_steps(m, randoms).sound == m.sound,
    decreases randoms.len(),
{
    if randoms.len() > 0 {
        let earlier = randoms.drop_last();
        assert forall|k: int| 0 <= k < earlier.len() implies !writes_timer(
            #[trigger] fetched(run_steps(m, earlier.take(k))),
        ) by {
            assert(earlier.take(k) =~= randoms.take(k));
        }
        lemma_steps_keep_timers(m, earlier);
        let k = earlier.len() as int;
        assert(randoms.take(k) =~= earlier);
        assert(!writes_timer(fetched(run_steps(m, randoms.take(k)))));
        lemma_step_keeps_timers(run_steps(m, earlier), randoms.last());
    }
}

/// Over a tick whose instructions write no timer, each timer goes down by
/// one when above zero and stays at zero otherwise: it never goes below zero
/// and never wraps.
pub proof fn lemma_tick_counts_timers_down(m: Machine, randoms: Seq<u8>)
    requires
        forall|k: int|
            0 <= k < randoms.len() ==> !writes_timer(
                #[trigger] fetched(run_steps(timers_ticked(m), randoms.take(k))),
            ),
    ensures
        ticked(m, randoms).delay == if m.delay > 0 {
            m.delay - 1
        } else {
            0
        },
        ticked(m, randoms).sound == if m.sound > 0 {
            m.sound - 1
        } else {
            0
        },
{
    lemma_steps_keep_timers(timers_ticked(m), randoms);
}

} // verus!
