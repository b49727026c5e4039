use vstd::prelude::*;

verus! {

/// Number of logical keys on the keypad.
pub const KEY_COUNT: usize = 16;

/// The host key, by its label, that stands for each logical key: the left four
/// columns of a keyboard, `1 2 3 4 / Q W E R / A S D F / Z X C V`, arranged as
/// the keypad `1 2 3 C / 4 5 6 D / 7 8 9 E / A 0 B F`.
pub open spec fn layout() -> Seq<char> {
    seq!['X', '1', '2', '3', 'Q', 'W', 'E', 'A', 'S', 'D', 'Z', 'C', '4', 'R', 'F', 'V']
}

/// The lowest logical key that is down, if any.
pub open spec fn lowest_down(keys: Seq<bool>) -> Option<u8> {
    if exists|k: int| 0 <= k < keys.len() && keys[k] {
        let k = choose|k: int|
            0 <= k < keys.len() && keys[k] && forall|j: int| 0 <= j < k ==> !keys[j];
        Some(k as u8)
    } else {
        None
    }
}

/// Which of the sixteen logical keys are held down.
pub struct Keypad {
    keys: [bool; 16],
}

impl View for Keypad {
    type V = Seq<bool>;

    closed spec fn view(&self) -> Seq<bool> {
        self.keys@
    }
}

impl Keypad {
    /// The view holds one entry per logical key.
    pub proof fn lemma_len(&self)
        ensures
            self@.len() == KEY_COUNT,
    {
    }

    /// A keypad with no key down.
    pub fn new() -> (r: Keypad)
        ensures
            r@ == Seq::new(KEY_COUNT as nat, |k: int| false),
    {
        let r = Keypad { keys: [false; 16] };
        assert(r@ =~= Seq::new(KEY_COUNT as nat, |k: int| false));
        r
    }

    /// The logical key that the host key with this label stands for.
    pub fn key_for_label(label: char) -> (r: Option<u8>)
        ensures
            r matches Some(k) ==> k < KEY_COUNT && layout()[k as int] == label,
            r is None ==> !layout().contains(label),
    {
        let table: [char; 16] = ['X', '1', '2', '3', 'Q', 'W', 'E', 'A', 'S', 'D', 'Z', 'C', '4', 'R', 'F', 'V'];
        assert(table@ =~= layout());
        let mut k: usize = 0;
        while k < KEY_COUNT
            invariant
                k <= KEY_COUNT,
                table@ == layout(),
                forall|j: int| 0 <= j < k ==> layout()[j] != label,
            decreases KEY_COUNT - k,
        {
            if table[k] == label {
                return Some(k as u8);
            }
            k = k + 1;
        }
        None
    }

    /// Records which logical keys are down now: exactly those listed in
    /// `pressed`. Entries that name no logical key are ignored.
    pub fn is_key_down(&mut self, pressed: &[u8])
        ensures
            forall|k: int| 0 <= k < KEY_COUNT ==> #[trigger] final(self)@[k] == pressed@.contains(k as u8),
    {
        let mut keys: [bool; 16] = [false; 16];
        let mut i: usize = 0;
        while i < pressed.len()
            invariant
                i <= pressed@.len(),
                forall|k: int| 0 <= k < KEY_COUNT ==> #[trigger] keys@[k] == pressed@.subrange(0, i as int).contains(k as u8),
            decreases pressed@.len() - i,
        {
            let key = pressed[i];
            if (key as usize) < KEY_COUNT {
                keys[key as usize] = true;
            }
            proof {
                assert forall|k: int| 0 <= k < KEY_COUNT implies #[trigger] keys@[k] == pressed@.subrange(0, i as int + 1).contains(k as u8) by {
                    let before = pressed@.subrange(0, i as int);
                    let after = pressed@.subrange(0, i as int + 1);
                    assert(after == before.push(key));
                    if before.contains(k as u8) {
                        let j = choose|j: int| 0 <= j < before.len() && before[j] == k as u8;
                        assert(after[j] == k as u8);
                    }
                    if after.contains(k as u8) && !before.contains(k as u8) {
                        let j = choose|j: int| 0 <= j < after.len() && after[j] == k as u8;
                        if j < i {
                            assert(before[j] == k as u8);
                        }
                    }
                    if key as int == k {
                        assert(after[i as int] == k as u8);
                    }
                }
            }
            i = i + 1;
        }
        assert(pressed@.subrange(0, pressed@.len() as int) == pressed@);
        self.keys = keys;
    }

    /// Marks one logical key as down or up; the others are kept.
    pub fn set_key(&mut self, key: u8, down: bool)
        requires
            key < KEY_COUNT,
        ensures
            final(self)@ == old(self)@.update(key as int, down),
    {
        self.keys[key as usize] = down;
    }

    /// Whether logical key `key_code` is down; a code above 15 names no key
    /// and is never down.
    pub fn is_key_down_emulator(&self, key_code: u8) -> (r: bool)
        ensures
            r == (key_code < KEY_COUNT && self@[key_code as int]),
    {
        if (key_code as usize) < KEY_COUNT {
            self.keys[key_code as usize]
        } else {
            false
        }
    }

    /// The lowest logical key that is down with `true`, or `(0, false)` when no
    /// key is down.
    pub fn is_any_key_down_emulator(&self) -> (r: (u8, bool))
        ensures
            r == match lowest_down(self@) {
                Some(k) => (k, true),
                None => (0u8, false),
            },
    {
        let mut k: usize = 0;
        while k < KEY_COUNT
            invariant
                k <= KEY_COUNT,
                self@.len() == KEY_COUNT,
                forall|j: int| 0 <= j < k ==> !self@[j],
            decreases KEY_COUNT - k,
        {
            if self.keys[k] {
                proof {
                    let keys = self@;
                    let c = choose|c: int|
                        0 <= c < keys.len() && keys[c] && forall|j: int| 0 <= j < c ==> !keys[j];
                    assert(0 <= c < keys.len() && keys[c] && forall|j: int| 0 <= j < c ==> !keys[j]);
                    if c < k {
                    } else if c > k {
                        assert(!keys[k as int]);
                    }
                }
                return (k as u8, true);
            }
            k = k + 1;
        }
        (0u8, false)
    }
}

} // verus!
