//! The sixteen general registers `V0..VF` and the flag arithmetic of the
//! register-to-register instructions.
use vstd::prelude::*;
use crate::memory::with_bytes_at;

verus! {

/// The number of general registers.
pub const REGISTER_COUNT: usize = 16;

/// The index of `VF`, the flag register.
pub const FLAG: u8 = 0xF;

/// `(a + b) mod 256`.
pub open spec fn sum_byte(a: u8, b: u8) -> u8 {
    ((a + b) % 256) as u8
}

/// 1 when `a + b` does not fit in a byte, else 0.
pub open spec fn carry(a: u8, b: u8) -> u8 {
    if a + b > 255 {
        1
    } else {
        0
    }
}

/// `(a - b) mod 256`.
pub open spec fn diff_byte(a: u8, b: u8) -> u8 {
    ((a - b + 256) % 256) as u8
}

/// 1 when `a - b` needs no borrow, that is `a >= b`, else 0.
pub open spec fn no_borrow(a: u8, b: u8) -> u8 {
    if a >= b {
        1
    } else {
        0
    }
}

/// `a` shifted right by one, and the low bit that falls out.
pub open spec fn shr_parts(a: u8) -> (u8, u8) {
    ((a / 2) as u8, (a % 2) as u8)
}

/// `a` shifted left by one within a byte, and 1 when the high bit falls out.
pub open spec fn shl_parts(a: u8) -> (u8, u8) {
    (((a * 2) % 256) as u8, if a >= 128 {
        1u8
    } else {
        0u8
    })
}

/// Wrapping sum and carry flag.
pub fn add_with_carry(a: u8, b: u8) -> (r: (u8, u8))
    ensures
        r == (sum_byte(a, b), carry(a, b)),
{
    let flag: u8 = if b > u8::MAX - a {
        1
    } else {
        0
    };
    (a.wrapping_add(b), flag)
}

/// Wrapping difference and no-borrow flag.
pub fn sub_with_borrow(a: u8, b: u8) -> (r: (u8, u8))
    ensures
        r == (diff_byte(a, b), no_borrow(a, b)),
{
    let flag: u8 = if a >= b {
        1
    } else {
        0
    };
    (a.wrapping_sub(b), flag)
}

/// Shift right by one, with the bit shifted out.
pub fn shift_right(a: u8) -> (r: (u8, u8))
    ensures
        r == shr_parts(a),
{
    assert(a >> 1 == a / 2 && a & 1 == a % 2) by (bit_vector);
    (a >> 1, a & 1)
}

/// Shift left by one, with the bit shifted out.
pub fn shift_left(a: u8) -> (r: (u8, u8))
    ensures
        r == shl_parts(a),
{
    assert(a << 1 == (a * 2) % 256) by (bit_vector);
    assert((a & 0x80 != 0) == (a >= 128)) by (bit_vector);
    let flag: u8 = if a & 0x80 != 0 {
        1
    } else {
        0
    };
    (a << 1, flag)
}

/// The general registers: exactly `REGISTER_COUNT` bytes.
pub struct Registers {
    values: Vec<u8>,
}

impl View for Registers {
    type V = Seq<u8>;

    closed spec fn view(&self) -> Seq<u8> {
        self.values@
    }
}

impl Registers {
    pub open spec fn wf(&self) -> bool {
        self@.len() == REGISTER_COUNT
    }

    /// All registers zero.
    pub fn new() -> (r: Registers)
        ensures
            r.wf(),
            r@ == Seq::new(REGISTER_COUNT as nat, |k: int| 0u8),
    {
        let values: Vec<u8> = vec![0u8; REGISTER_COUNT];
        assert(values@ =~= Seq::new(REGISTER_COUNT as nat, |k: int| 0u8));
        Registers { values }
    }

    /// The value of `Vx`.
    pub fn get(&self, x: u8) -> (r: u8)
        requires
            self.wf(),
            x < REGISTER_COUNT,
        ensures
            r == self@[x as int],
    {
        self.values[x as usize]
    }

    /// Sets `Vx` to `v`.
    pub fn set(&mut self, x: u8, v: u8)
        requires
            old(self).wf(),
            x < REGISTER_COUNT,
        ensures
            final(self).wf(),
            final(self)@ == old(self)@.update(x as int, v),
    {
        self.values.set(x as usize, v);
    }

    /// The first `count` registers, `V0` first.
    pub fn prefix(&self, count: usize) -> (r: Vec<u8>)
        requires
            self.wf(),
            count <= REGISTER_COUNT,
        ensures
            r@ == self@.take(count as int),
    {
        let mut out: Vec<u8> = Vec::new();
        let mut k: usize = 0;
        while k < count
            invariant
                self.wf(),
                k <= count <= REGISTER_COUNT,
                out@ == self@.take(k as int),
            decreases count - k,
        {
            out.push(self.values[k]);
            k = k + 1;
            assert(out@ =~= self@.take(k as int));
        }
        out
    }

    /// Sets `V0`, `V1`, ... to `bytes` in order; the rest keep their values.
    pub fn load_prefix(&mut self, bytes: &Vec<u8>)
        requires
            old(self).wf(),
            bytes@.len() <= REGISTER_COUNT,
        ensures
            final(self).wf(),
            final(self)@ == with_bytes_at(old(self)@, 0, bytes@),
    {
        let ghost base = self@;
        let mut k: usize = 0;
        while k < bytes.len()
            invariant
                self.wf(),
                base.len() == REGISTER_COUNT,
                bytes@.len() <= REGISTER_COUNT,
                k <= bytes@.len(),
                self@ == with_bytes_at(base, 0, bytes@.take(k as int)),
            decreases bytes@.len() - k,
        {
            self.values.set(k, bytes[k]);
            k = k + 1;
            assert(self@ =~= with_bytes_at(base, 0, bytes@.take(k as int)));
        }
        assert(bytes@.take(k as int) =~= bytes@);
    }
}

} // verus!
