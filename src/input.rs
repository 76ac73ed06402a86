use vstd::prelude::*;

verus! {

/// Number of keys on the keypad.
pub const KEY_COUNT: usize = 16;

/// The pressed/released state of the sixteen keys, set by the host.
pub struct Input {
    keys: [bool; 16],
}

impl View for Input {
    type V = Seq<bool>;

    closed spec fn view(&self) -> Seq<bool> {
        self.keys@
    }
}

impl Input {
    /// A keypad with every key released.
    pub fn new() -> (r: Input)
        ensures
            r@ == Seq::new(16, |k: int| false),
    {
        let r = Input { keys: [false; 16] };
        assert(r@ =~= Seq::new(16, |k: int| false));
        r
    }

    /// Marks `key` as pressed (`state == true`) or released.
    pub fn press(&mut self, key: u8, state: bool)
        requires
            key < KEY_COUNT,
        ensures
            final(self)@ == old(self)@.update(key as int, state),
    {
        self.keys[key as usize] = state;
    }

    /// Whether `key` is a key of the keypad and is held down.
    pub fn pressed(&self, key: u8) -> (r: bool)
        ensures
            r == key_down(self@, key),
    {
        key < 16 && self.keys[key as usize]
    }
}

/// Whether `key` names one of the sixteen keys and that key is held down.
pub open spec fn key_down(keys: Seq<bool>, key: u8) -> bool {
    key < KEY_COUNT && keys[key as int]
}

/// The lowest key at or above `from` that is held down, or 16 if there is none.
pub open spec fn lowest_pressed(keys: Seq<bool>, from: int) -> int
    decreases KEY_COUNT - from,
{
    if from >= KEY_COUNT || from < 0 {
        KEY_COUNT as int
    } else if keys[from] {
        from
    } else {
        lowest_pressed(keys, from + 1)
    }
}

/// With no key held down, there is no lowest pressed key.
pub proof fn lemma_none_pressed(keys: Seq<bool>, from: int)
    requires
        keys.len() == KEY_COUNT,
        0 <= from,
        forall|k: int| 0 <= k < KEY_COUNT ==> !#[trigger] keys[k],
    ensures
        lowest_pressed(keys, from) == KEY_COUNT,
    decreases KEY_COUNT - from,
{
    if from < KEY_COUNT {
        lemma_none_pressed(keys, from + 1);
    }
}

/// With only key `k` held down, the lowest pressed key at or below `k` is `k`.
pub proof fn lemma_only_pressed(keys: Seq<bool>, k: int, from: int)
    requires
        keys.len() == KEY_COUNT,
        0 <= from <= k < KEY_COUNT,
        keys[k],
        forall|j: int| 0 <= j < KEY_COUNT && j != k ==> !#[trigger] keys[j],
    ensures
        lowest_pressed(keys, from) == k,
    decreases k - from,
{
    if from < k {
        lemma_only_pressed(keys, k, from + 1);
    }
}

} // verus!
