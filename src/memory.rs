//! The address space: a fixed buffer of bytes with bounds-checked access.
use vstd::prelude::*;
use crate::Fault;

verus! {

/// The number of addressable bytes.
pub const MEMORY_SIZE: usize = 4096;

/// The machine's memory: exactly `MEMORY_SIZE` bytes.
pub struct Memory {
    bytes: Vec<u8>,
}

/// `base` with `bytes` written from `start` on.
pub open spec fn with_bytes_at(base: Seq<u8>, start: int, bytes: Seq<u8>) -> Seq<u8> {
    Seq::new(
        base.len(),
        |a: int|
            if start <= a < start + bytes.len() {
                bytes[a - start]
            } else {
                base[a]
            },
    )
}

impl View for Memory {
    type V = Seq<u8>;

    closed spec fn view(&self) -> Seq<u8> {
        self.bytes@
    }
}

impl Memory {
    pub open spec fn wf(&self) -> bool {
        self@.len() == MEMORY_SIZE
    }

    /// A memory of zero bytes only.
    pub fn new() -> (r: Memory)
        ensures
            r.wf(),
            r@ == Seq::new(MEMORY_SIZE as nat, |a: int| 0u8),
    {
        let mut bytes: Vec<u8> = Vec::new();
        let mut k: usize = 0;
        while k < MEMORY_SIZE
            invariant
                k <= MEMORY_SIZE,
                bytes@ == Seq::new(k as nat, |a: int| 0u8),
            decreases MEMORY_SIZE - k,
        {
            bytes.push(0);
            k = k + 1;
            assert(bytes@ =~= Seq::new(k as nat, |a: int| 0u8));
        }
        Memory { bytes }
    }

    pub fn size(&self) -> (r: usize)
        requires
            self.wf(),
        ensures
            r == MEMORY_SIZE,
            r == self@.len(),
    {
        self.bytes.len()
    }

    /// The byte at `addr`.
    pub fn read(&self, addr: usize) -> (r: Result<u8, Fault>)
        requires
            self.wf(),
        ensures
            addr < MEMORY_SIZE ==> r == Ok::<u8, Fault>(self@[addr as int]),
            addr >= MEMORY_SIZE ==> r == Err::<u8, Fault>(Fault::OutOfBounds),
    {
        if addr < self.bytes.len() {
            Ok(self.bytes[addr])
        } else {
            Err(Fault::OutOfBounds)
        }
    }

    /// Stores `byte` at `addr`; out of range, nothing changes.
    pub fn write(&mut self, addr: usize, byte: u8) -> (r: Result<(), Fault>)
        requires
            old(self).wf(),
        ensures
            final(self).wf(),
            addr < MEMORY_SIZE ==> r is Ok && final(self)@ == old(self)@.update(addr as int, byte),
            addr >= MEMORY_SIZE ==> r == Err::<(), Fault>(Fault::OutOfBounds) && final(self)@
                == old(self)@,
    {
        if addr < self.bytes.len() {
            self.bytes.set(addr, byte);
            Ok(())
        } else {
            Err(Fault::OutOfBounds)
        }
    }

    /// The `len` bytes from `addr` on.
    pub fn read_range(&self, addr: usize, len: usize) -> (r: Result<Vec<u8>, Fault>)
        requires
            self.wf(),
        ensures
            addr + len <= MEMORY_SIZE ==> r is Ok && r->Ok_0@ == self@.subrange(
                addr as int,
                addr + len,
            ),
            addr + len > MEMORY_SIZE ==> r == Err::<Vec<u8>, Fault>(Fault::OutOfBounds),
    {
        if len > MEMORY_SIZE || addr > MEMORY_SIZE - len {
            return Err(Fault::OutOfBounds);
        }
        let mut out: Vec<u8> = Vec::new();
        let mut k: usize = 0;
        while k < len
            invariant
                self.wf(),
                addr + len <= MEMORY_SIZE,
                k <= len,
                out@ == self@.subrange(addr as int, addr + k),
            decreases len - k,
        {
            out.push(self.bytes[addr + k]);
            k = k + 1;
            assert(out@ =~= self@.subrange(addr as int, addr + k));
        }
        Ok(out)
    }

    /// Copies `bytes` verbatim to `start` onward; where they would not fit,
    /// nothing is written.
    pub fn load(&mut self, start: usize, bytes: &Vec<u8>) -> (r: Result<(), Fault>)
        requires
            old(self).wf(),
        ensures
            final(self).wf(),
            start + bytes@.len() <= MEMORY_SIZE ==> r is Ok && final(self)@ == with_bytes_at(
                old(self)@,
                start as int,
                bytes@,
            ),
            start + bytes@.len() > MEMORY_SIZE ==> r == Err::<(), Fault>(Fault::OutOfBounds)
                && final(self)@ == old(self)@,
    {
        if bytes.len() > MEMORY_SIZE || start > MEMORY_SIZE - bytes.len() {
            return Err(Fault::OutOfBounds);
        }
        let ghost base = self@;
        let mut k: usize = 0;
        while k < bytes.len()
            invariant
                self.wf(),
                base.len() == MEMORY_SIZE,
                start + bytes@.len() <= MEMORY_SIZE,
                k <= bytes@.len(),
                self@ == with_bytes_at(base, start as int, bytes@.take(k as int)),
            decreases bytes@.len() - k,
        {
            self.bytes.set(start + k, bytes[k]);
            k = k + 1;
            assert(self@ =~= with_bytes_at(base, start as int, bytes@.take(k as int)));
        }
        assert(bytes@.take(k as int) =~= bytes@);
        Ok(())
    }
}

} // verus!
