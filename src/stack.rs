//! The call stack: up to sixteen return addresses.
use vstd::prelude::*;
use crate::Fault;

verus! {

/// The number of return addresses the stack holds at most.
pub const STACK_DEPTH: usize = 16;

/// The stack after pushing `v` on `s`, or `None` when `s` is full.
pub open spec fn pushed(s: Seq<u16>, v: u16) -> Option<Seq<u16>> {
    if s.len() < STACK_DEPTH {
        Some(s.push(v))
    } else {
        None
    }
}

/// The stack after popping `s`, with the address popped, or `None` when `s`
/// is empty.
pub open spec fn popped(s: Seq<u16>) -> Option<(Seq<u16>, u16)> {
    if s.len() > 0 {
        Some((s.drop_last(), s.last()))
    } else {
        None
    }
}

/// Return addresses, the most recent last.
pub struct Stack {
    values: Vec<u16>,
}

impl View for Stack {
    type V = Seq<u16>;

    closed spec fn view(&self) -> Seq<u16> {
        self.values@
    }
}

impl Stack {
    pub open spec fn wf(&self) -> bool {
        self@.len() <= STACK_DEPTH
    }

    /// An empty stack.
    pub fn new() -> (r: Stack)
        ensures
            r.wf(),
            r@ == Seq::<u16>::empty(),
    {
        Stack { values: Vec::new() }
    }

    /// The number of addresses held.
    pub fn len(&self) -> (r: usize)
        ensures
            r == self@.len(),
    {
        self.values.len()
    }

    /// Pushes `value`; a full stack is left as it is and overflows.
    pub fn push(&mut self, value: u16) -> (r: Result<(), Fault>)
        requires
            old(self).wf(),
        ensures
            final(self).wf(),
            match pushed(old(self)@, value) {
                Some(s) => r is Ok && final(self)@ == s,
                None => r == Err::<(), Fault>(Fault::StackOverflow) && final(self)@ == old(self)@,
            },
    {
        if self.values.len() < STACK_DEPTH {
            self.values.push(value);
            Ok(())
        } else {
            Err(Fault::StackOverflow)
        }
    }

    /// Pops the most recent address; an empty stack underflows.
    pub fn pop(&mut self) -> (r: Result<u16, Fault>)
        requires
            old(self).wf(),
        ensures
            final(self).wf(),
            match popped(old(self)@) {
                Some((s, v)) => r == Ok::<u16, Fault>(v) && final(self)@ == s,
                None => r == Err::<u16, Fault>(Fault::StackUnderflow) && final(self)@ == old(
                    self,
                )@,
            },
    {
        match self.values.pop() {
            Some(v) => Ok(v),
            None => Err(Fault::StackUnderflow),
        }
    }
}

/// A full stack refuses another push, an empty one refuses a pop, and
/// otherwise a pop undoes a push and hands back the address pushed.
pub proof fn lemma_stack_lifo(s: Seq<u16>, v: u16)
    requires
        s.len() <= STACK_DEPTH,
    ensures
        s.len() == STACK_DEPTH ==> pushed(s, v) is None,
        popped(Seq::<u16>::empty()) is None,
        s.len() < STACK_DEPTH ==> popped(pushed(s, v)->Some_0) == Some((s, v)),
{
    if s.len() < STACK_DEPTH {
        assert(s.push(v).drop_last() =~= s);
    }
}

/// Sixteen pushes onto an empty stack all succeed, and a seventeenth fails.
pub proof fn lemma_stack_depth(vs: Seq<u16>)
    requires
        vs.len() == STACK_DEPTH + 1,
    ensures
        forall|k: int| 0 <= k < STACK_DEPTH ==> #[trigger] pushed(vs.take(k), vs[k]) == Some(vs.take(k + 1)),
        pushed(vs.take(STACK_DEPTH as int), vs[STACK_DEPTH as int]) is None,
{
    assert forall|k: int| 0 <= k < STACK_DEPTH implies #[trigger] pushed(vs.take(k), vs[k]) == Some(vs.take(k + 1)) by {
        assert(vs.take(k).push(vs[k]) =~= vs.take(k + 1));
    }
}

} // verus!
