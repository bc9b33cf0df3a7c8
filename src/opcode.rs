//! Decoding a 16-bit instruction word into its fields and into an instruction.
use vstd::prelude::*;

verus! {

/// The high nibble of a word.
pub open spec fn word_w(word: u16) -> u8 {
    (word / 0x1000) as u8
}

/// The second nibble of a word: the first register operand.
pub open spec fn word_x(word: u16) -> u8 {
    ((word / 0x100) % 0x10) as u8
}

/// The third nibble of a word: the second register operand.
pub open spec fn word_y(word: u16) -> u8 {
    ((word / 0x10) % 0x10) as u8
}

/// The low nibble of a word.
pub open spec fn word_n(word: u16) -> u8 {
    (word % 0x10) as u8
}

/// The low byte of a word.
pub open spec fn word_kk(word: u16) -> u8 {
    (word % 0x100) as u8
}

/// The low twelve bits of a word: an address.
pub open spec fn word_nnn(word: u16) -> u16 {
    (word % 0x1000) as u16
}

/// One instruction of the machine, with its operands.
/// Register operands are always below 16.
#[derive(Clone, Copy, Debug, PartialEq, Eq, Structural)]
pub enum Instruction {
    /// `00E0` (any `0__0`): clear the screen.
    Clear,
    /// `00EE` (any `0__E`): return from a subroutine: continue at the
    /// address popped from the stack.
    Return,
    /// `1nnn`: jump to `nnn`.
    Jump(u16),
    /// `2nnn`: call the subroutine at `nnn`, pushing the address of the
    /// instruction after the call.
    Call(u16),
    /// `3xkk`: skip the next instruction if `Vx == kk`.
    SkipEqImm(u8, u8),
    /// `4xkk`: skip the next instruction if `Vx != kk`.
    SkipNeImm(u8, u8),
    /// `5xy0`: skip the next instruction if `Vx == Vy`.
    SkipEqReg(u8, u8),
    /// `6xkk`: `Vx = kk`.
    LoadImm(u8, u8),
    /// `7xkk`: `Vx += kk`, wrapping, flag untouched.
    AddImm(u8, u8),
    /// `8xy0`: `Vx = Vy`.
    Move(u8, u8),
    /// `8xy1`: `Vx |= Vy`.
    Or(u8, u8),
    /// `8xy2`: `Vx &= Vy`.
    And(u8, u8),
    /// `8xy3`: `Vx ^= Vy`.
    Xor(u8, u8),
    /// `8xy4`: `Vx += Vy`, `VF` = carry.
    AddReg(u8, u8),
    /// `8xy5`: `Vx -= Vy`, `VF` = no borrow.
    Sub(u8, u8),
    /// `8xy6`: `Vx >>= 1`, `VF` = the bit shifted out.
    ShiftRight(u8, u8),
    /// `8xy7`: `Vx = Vy - Vx`, `VF` = no borrow.
    SubN(u8, u8),
    /// `8xyE`: `Vx <<= 1`, `VF` = the bit shifted out.
    ShiftLeft(u8, u8),
    /// `9xy0`: skip the next instruction if `Vx != Vy`.
    SkipNeReg(u8, u8),
    /// `Annn`: `I = nnn`.
    LoadIndex(u16),
    /// `Bnnn`: jump to `nnn + V0`.
    JumpOffset(u16),
    /// `Cxkk`: `Vx = random byte & kk`.
    Random(u8, u8),
    /// `Dxyn`: draw the `n`-byte sprite at `I` at `(Vx, Vy)`; `VF` = collision.
    Draw(u8, u8, u8),
    /// `Ex9E`: skip the next instruction if key `Vx` is down.
    SkipKey(u8),
    /// `ExA1`: skip the next instruction if key `Vx` is up.
    SkipNoKey(u8),
    /// `Fx07`: `Vx = delay timer`.
    ReadDelay(u8),
    /// `Fx0A`: wait for a key, then `Vx = key`.
    WaitKey(u8),
    /// `Fx15`: `delay timer = Vx`.
    SetDelay(u8),
    /// `Fx18`: `sound timer = Vx`.
    SetSound(u8),
    /// `Fx1E`: `I += Vx`, modulo the address space.
    AddIndex(u8),
    /// `Fx29`: `I` = address of the glyph for `Vx`.
    FontChar(u8),
    /// `Fx33`: the decimal digits of `Vx` to `I`, `I+1`, `I+2`.
    Bcd(u8),
    /// `Fx55`: `V0..=Vx` to memory at `I`.
    StoreRegs(u8),
    /// `Fx65`: memory at `I` to `V0..=Vx`.
    LoadRegs(u8),
    /// Any other word: skipped.
    Unknown(u16),
}

/// What a word means, read off its four nibbles.
pub open spec fn decode_word(word: u16) -> Instruction {
    let w = word_w(word);
    let x = word_x(word);
    let y = word_y(word);
    let n = word_n(word);
    let kk = word_kk(word);
    let nnn = word_nnn(word);
    if w == 0 && n == 0 {
        Instruction::Clear
    } else if w == 0 && n == 0xE {
        Instruction::Return
    } else if w == 1 {
        Instruction::Jump(nnn)
    } else if w == 2 {
        Instruction::Call(nnn)
    } else if w == 3 {
        Instruction::SkipEqImm(x, kk)
    } else if w == 4 {
        Instruction::SkipNeImm(x, kk)
    } else if w == 5 && n == 0 {
        Instruction::SkipEqReg(x, y)
    } else if w == 6 {
        Instruction::LoadImm(x, kk)
    } else if w == 7 {
        Instruction::AddImm(x, kk)
    } else if w == 8 && n == 0 {
        Instruction::Move(x, y)
    } else if w == 8 && n == 1 {
        Instruction::Or(x, y)
    } else if w == 8 && n == 2 {
        Instruction::And(x, y)
    } else if w == 8 && n == 3 {
        Instruction::Xor(x, y)
    } else if w == 8 && n == 4 {
        Instruction::AddReg(x, y)
    } else if w == 8 && n == 5 {
        Instruction::Sub(x, y)
    } else if w == 8 && n == 6 {
        Instruction::ShiftRight(x, y)
    } else if w == 8 && n == 7 {
        Instruction::SubN(x, y)
    } else if w == 8 && n == 0xE {
        Instruction::ShiftLeft(x, y)
    } else if w == 9 && n == 0 {
        Instruction::SkipNeReg(x, y)
    } else if w == 0xA {
        Instruction::LoadIndex(nnn)
    } else if w == 0xB {
        Instruction::JumpOffset(nnn)
    } else if w == 0xC {
        Instruction::Random(x, kk)
    } else if w == 0xD {
        Instruction::Draw(x, y, n)
    } else if w == 0xE && kk == 0x9E {
        Instruction::SkipKey(x)
    } else if w == 0xE && kk == 0xA1 {
        Instruction::SkipNoKey(x)
    } else if w == 0xF && kk == 0x07 {
        Instruction::ReadDelay(x)
    } else if w == 0xF && kk == 0x0A {
        Instruction::WaitKey(x)
    } else if w == 0xF && kk == 0x15 {
        Instruction::SetDelay(x)
    } else if w == 0xF && kk == 0x18 {
        Instruction::SetSound(x)
    } else if w == 0xF && kk == 0x1E {
        Instruction::AddIndex(x)
    } else if w == 0xF && kk == 0x29 {
        Instruction::FontChar(x)
    } else if w == 0xF && kk == 0x33 {
        Instruction::Bcd(x)
    } else if w == 0xF && kk == 0x55 {
        Instruction::StoreRegs(x)
    } else if w == 0xF && kk == 0x65 {
        Instruction::LoadRegs(x)
    } else {
        Instruction::Unknown(word)
    }
}

/// A 16-bit instruction word as fetched from memory.
#[derive(Clone, Copy, Debug, PartialEq, Eq, Structural)]
pub struct Opcode {
    pub number: u16,
}

impl Opcode {
    pub fn new(number: u16) -> (r: Opcode)
        ensures
            r.number == number,
    {
        Opcode { number }
    }

    /// The four nibbles, high to low.
    pub fn nibbles(&self) -> (r: (u8, u8, u8, u8))
        ensures
            r == (word_w(self.number), word_x(self.number), word_y(self.number), word_n(self.number)),
    {
        (self.w(), self.x(), self.y(), self.n())
    }

    pub fn nnn(&self) -> (r: u16)
        ensures
            r == word_nnn(self.number),
    {
        let v = self.number;
        assert(v & 0x0fff == v % 0x1000) by (bit_vector);
        v & 0x0fff
    }

    pub fn kk(&self) -> (r: u8)
        ensures
            r == word_kk(self.number),
    {
        let v = self.number;
        assert(v & 0x00ff == v % 0x100) by (bit_vector);
        (v & 0x00ff) as u8
    }

    pub fn w(&self) -> (r: u8)
        ensures
            r == word_w(self.number),
            r < 16,
    {
        let v = self.number;
        assert((v & 0xf000) >> 12 == v / 0x1000) by (bit_vector);
        ((v & 0xf000) >> 12) as u8
    }

    pub fn x(&self) -> (r: u8)
        ensures
            r == word_x(self.number),
            r < 16,
    {
        let v = self.number;
        assert((v & 0x0f00) >> 8 == (v / 0x100) % 0x10) by (bit_vector);
        ((v & 0x0f00) >> 8) as u8
    }

    pub fn y(&self) -> (r: u8)
        ensures
            r == word_y(self.number),
            r < 16,
    {
        let v = self.number;
        assert((v & 0x00f0) >> 4 == (v / 0x10) % 0x10) by (bit_vector);
        ((v & 0x00f0) >> 4) as u8
    }

    pub fn n(&self) -> (r: u8)
        ensures
            r == word_n(self.number),
            r < 16,
    {
        let v = self.number;
        assert(v & 0x000f == v % 0x10) by (bit_vector);
        (v & 0x000f) as u8
    }

    /// The instruction this word encodes; every word decodes to one.
    pub fn decode(&self) -> (r: Instruction)
        ensures
            r == decode_word(self.number),
    {
        let (w, x, y, n) = self.nibbles();
        let kk = self.kk();
        let nnn = self.nnn();
        match (w, n) {
            (0x0, 0x0) => Instruction::Clear,
            (0x0, 0xE) => Instruction::Return,
            (0x1, _) => Instruction::Jump(nnn),
            (0x2, _) => Instruction::Call(nnn),
            (0x3, _) => Instruction::SkipEqImm(x, kk),
            (0x4, _) => Instruction::SkipNeImm(x, kk),
            (0x5, 0x0) => Instruction::SkipEqReg(x, y),
            (0x6, _) => Instruction::LoadImm(x, kk),
            (0x7, _) => Instruction::AddImm(x, kk),
            (0x8, 0x0) => Instruction::Move(x, y),
            (0x8, 0x1) => Instruction::Or(x, y),
            (0x8, 0x2) => Instruction::And(x, y),
            (0x8, 0x3) => Instruction::Xor(x, y),
            (0x8, 0x4) => Instruction::AddReg(x, y),
            (0x8, 0x5) => Instruction::Sub(x, y),
            (0x8, 0x6) => Instruction::ShiftRight(x, y),
            (0x8, 0x7) => Instruction::SubN(x, y),
            (0x8, 0xE) => Instruction::ShiftLeft(x, y),
            (0x9, 0x0) => Instruction::SkipNeReg(x, y),
            (0xA, _) => Instruction::LoadIndex(nnn),
            (0xB, _) => Instruction::JumpOffset(nnn),
            (0xC, _) => Instruction::Random(x, kk),
            (0xD, _) => Instruction::Draw(x, y, n),
            _ => {
                match (w, kk) {
                    (0xE, 0x9E) => Instruction::SkipKey(x),
                    (0xE, 0xA1) => Instruction::SkipNoKey(x),
                    (0xF, 0x07) => Instruction::ReadDelay(x),
                    (0xF, 0x0A) => Instruction::WaitKey(x),
                    (0xF, 0x15) => Instruction::SetDelay(x),
                    (0xF, 0x18) => Instruction::SetSound(x),
                    (0xF, 0x1E) => Instruction::AddIndex(x),
                    (0xF, 0x29) => Instruction::FontChar(x),
                    (0xF, 0x33) => Instruction::Bcd(x),
                    (0xF, 0x55) => Instruction::StoreRegs(x),
                    (0xF, 0x65) => Instruction::LoadRegs(x),
                    _ => Instruction::Unknown(self.number),
                }
            },
        }
    }
}

} // verus!
