//! The state of the sixteen logical keys `0x0..=0xF`.
use vstd::prelude::*;

verus! {

/// The number of logical keys.
pub const KEY_COUNT: usize = 16;

/// Whether logical key `key` is down; a number past the last key never is.
pub open spec fn key_down_in(keys: Seq<bool>, key: int) -> bool {
    0 <= key < KEY_COUNT && keys[key]
}

/// The lowest key at or after `from` that is down.
pub open spec fn first_down_from(keys: Seq<bool>, from: int) -> Option<u8>
    decreases KEY_COUNT - from,
{
    if from < 0 || from >= KEY_COUNT {
        None
    } else if keys[from] {
        Some(from as u8)
    } else {
        first_down_from(keys, from + 1)
    }
}

/// The lowest key that is down, if any.
pub open spec fn first_down(keys: Seq<bool>) -> Option<u8> {
    first_down_from(keys, 0)
}

/// What `first_down_from` finds: a key that is down, with every key between
/// `from` and it up; and nothing only when all keys from `from` on are up.
pub proof fn lemma_first_down_from(keys: Seq<bool>, from: int)
    requires
        keys.len() == KEY_COUNT,
        0 <= from <= KEY_COUNT,
    ensures
        match first_down_from(keys, from) {
            Some(k) => from <= k < KEY_COUNT && keys[k as int] && forall|j: int|
                from <= j < k ==> !keys[j],
            None => forall|j: int| from <= j < KEY_COUNT ==> !keys[j],
        },
    decreases KEY_COUNT - from,
{
    if from < KEY_COUNT && !keys[from] {
        lemma_first_down_from(keys, from + 1);
    }
}

/// Which logical keys are down.
pub struct Keyboard {
    memory: Vec<bool>,
}

impl View for Keyboard {
    type V = Seq<bool>;

    closed spec fn view(&self) -> Seq<bool> {
        self.memory@
    }
}

impl Keyboard {
    pub open spec fn wf(&self) -> bool {
        self@.len() == KEY_COUNT
    }

    /// All keys up.
    pub fn new() -> (r: Keyboard)
        ensures
            r.wf(),
            r@ == Seq::new(KEY_COUNT as nat, |k: int| false),
    {
        let memory: Vec<bool> = vec![false; KEY_COUNT];
        assert(memory@ =~= Seq::new(KEY_COUNT as nat, |k: int| false));
        Keyboard { memory }
    }

    /// Records that `key` went down; a number past the last key is ignored.
    pub fn key_down(&mut self, key: u8)
        requires
            old(self).wf(),
        ensures
            final(self).wf(),
            key < KEY_COUNT ==> final(self)@ == old(self)@.update(key as int, true),
            key >= KEY_COUNT ==> final(self)@ == old(self)@,
    {
        if (key as usize) < KEY_COUNT {
            self.memory.set(key as usize, true);
        }
    }

    /// Records that `key` went up; a number past the last key is ignored.
    pub fn key_up(&mut self, key: u8)
        requires
            old(self).wf(),
        ensures
            final(self).wf(),
            key < KEY_COUNT ==> final(self)@ == old(self)@.update(key as int, false),
            key >= KEY_COUNT ==> final(self)@ == old(self)@,
    {
        if (key as usize) < KEY_COUNT {
            self.memory.set(key as usize, false);
        }
    }

    /// Whether `key` is down.
    pub fn is_key_pressed(&self, key: u8) -> (r: bool)
        requires
            self.wf(),
        ensures
            r == key_down_in(self@, key as int),
    {
        (key as usize) < KEY_COUNT && self.memory[key as usize]
    }

    /// The lowest key that is down, if any.
    pub fn first_pressed_key(&self) -> (r: Option<u8>)
        requires
            self.wf(),
        ensures
            r == first_down(self@),
    {
        let mut k: usize = 0;
        while k < KEY_COUNT
            invariant
                self.wf(),
                k <= KEY_COUNT,
                first_down_from(self@, k as int) == first_down(self@),
            decreases KEY_COUNT - k,
        {
            if self.memory[k] {
                return Some(k as u8);
            }
            k = k + 1;
        }
        None
    }

    /// Whether any key is down.
    pub fn is_any_key_pressed(&self) -> (r: bool)
        requires
            self.wf(),
        ensures
            r == exists|k: int| 0 <= k < KEY_COUNT && self@[k],
            r == (first_down(self@) is Some),
    {
        proof {
            lemma_first_down_from(self@, 0);
        }
        self.first_pressed_key().is_some()
    }
}

} // verus!
