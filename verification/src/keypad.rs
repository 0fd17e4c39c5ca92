//! The sixteen-key hexadecimal keypad.

use vstd::prelude::*;

verus! {

/// Number of keys on the keypad.
pub const KEY_COUNT: usize = 16;

/// Sixteen independent key states; `true` means the key is held down.
pub struct KeyPad {
    keypad: [bool; 16],
}

impl View for KeyPad {
    type V = Seq<bool>;

    closed spec fn view(&self) -> Seq<bool> {
        self.keypad@
    }
}

/// The keypad with every key up.
pub open spec fn all_keys_up() -> Seq<bool> {
    Seq::new(KEY_COUNT as nat, |k: int| false)
}

/// `key` is down in `keys` and no key below it is.
pub open spec fn is_lowest_key_down(keys: Seq<bool>, key: int) -> bool {
    &&& 0 <= key < keys.len()
    &&& keys[key]
    &&& forall|j: int| 0 <= j < key ==> !keys[j]
}

/// The lowest key index that is down in `keys`, or `None` when every key is up.
pub open spec fn lowest_key_down(keys: Seq<bool>) -> Option<u8> {
    if exists|k: int| is_lowest_key_down(keys, k) {
        Some((choose|k: int| is_lowest_key_down(keys, k)) as u8)
    } else {
        None
    }
}

/// `lowest_key_down` answers `Some(key)` exactly for the one lowest key that is down, and
/// `None` exactly when no key is down.
pub proof fn lemma_lowest_key_down(keys: Seq<bool>)
    requires
        keys.len() <= 256,
    ensures
        lowest_key_down(keys) is None <==> forall|k: int| 0 <= k < keys.len() ==> !keys[k],
        forall|k: int| is_lowest_key_down(keys, k) ==> lowest_key_down(keys) == Some(k as u8),
        lowest_key_down(keys) matches Some(key) ==> is_lowest_key_down(keys, key as int),
{
    assert forall|k: int| is_lowest_key_down(keys, k) implies lowest_key_down(keys) == Some(
        k as u8,
    ) by {
        let c = choose|c: int| is_lowest_key_down(keys, c);
        assert(c == k);
    }
    if lowest_key_down(keys) is None {
        assert forall|k: int| 0 <= k < keys.len() implies !keys[k] by {
            if keys[k] {
                lemma_some_key_is_lowest(keys, k);
            }
        }
    }
}

/// If any key up to `k` is down, some key is the lowest one down.
proof fn lemma_some_key_is_lowest(keys: Seq<bool>, k: int)
    requires
        0 <= k < keys.len(),
        keys[k],
    ensures
        exists|m: int| is_lowest_key_down(keys, m),
    decreases k,
{
    if forall|j: int| 0 <= j < k ==> !keys[j] {
        assert(is_lowest_key_down(keys, k));
    } else {
        let j = choose|j: int| 0 <= j < k && keys[j];
        lemma_some_key_is_lowest(keys, j);
    }
}

impl KeyPad {
    /// A keypad has `KEY_COUNT` keys.
    pub proof fn lemma_key_count(&self)
        ensures
            self@.len() == KEY_COUNT,
    {
    }

    /// A keypad with every key up.
    pub fn new() -> (r: KeyPad)
        ensures
            r@ == all_keys_up(),
    {
        let r = KeyPad { keypad: [false; 16] };
        assert(r@ =~= all_keys_up());
        r
    }

    /// The lowest-numbered key that is currently down, or `None` when all keys are up.
    pub fn any_key_pressed(&self) -> (r: Option<u8>)
        ensures
            r == lowest_key_down(self@),
    {
        let mut i: usize = 0;
        while i < 16
            invariant
                i <= 16,
                self@.len() == 16,
                forall|j: int| 0 <= j < i ==> !self@[j],
            decreases 16 - i,
        {
            if self.keypad[i] {
                proof {
                    assert(is_lowest_key_down(self@, i as int));
                    lemma_lowest_key_down(self@);
                }
                return Some(i as u8);
            }
            i += 1;
        }
        proof {
            lemma_lowest_key_down(self@);
        }
        None
    }

    /// Records that `key` is down (`status == true`) or up; the last write wins.
    pub fn on_key(&mut self, key: u8, status: bool)
        requires
            key < KEY_COUNT,
        ensures
            final(self)@ == old(self)@.update(key as int, status),
    {
        self.keypad[key as usize] = status;
    }

    /// Whether the key `index` is down.
    pub fn is_key_down(&self, index: usize) -> (r: bool)
        requires
            index < KEY_COUNT,
        ensures
            r == self@[index as int],
    {
        self.keypad[index]
    }
}

} // verus!
