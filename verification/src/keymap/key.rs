//! Keys as the resolver sees them: a code and a set of modifiers.
use vstd::prelude::*;

verus! {

/// What was pressed, without its modifiers.
#[derive(Clone, Copy, Debug, PartialEq, Eq, Structural, Hash)]
pub enum KeyCode {
    Backspace,
    Delete,
    Down,
    End,
    Enter,
    Esc,
    Home,
    Insert,
    Left,
    PageDown,
    PageUp,
    Right,
    Tab,
    Up,
    /// A printable character.
    Print(char),
}

impl KeyCode {
    /// The code of a printable character.
    pub fn from_char(c: char) -> (code: KeyCode)
        ensures
            code == KeyCode::Print(c),
    {
        KeyCode::Print(c)
    }
}

/// One of the three modifiers a key may be pressed with.
#[derive(Clone, Copy, Debug, PartialEq, Eq, Structural, Hash)]
pub enum KeyModifier {
    Alt,
    Ctrl,
    Shift,
}

/// A key press. The modifiers form a set, held as one flag per modifier, so
/// two keys are equal exactly when their codes and their modifier sets are.
#[derive(Clone, Copy, Debug, PartialEq, Eq, Structural, Hash)]
pub struct Key {
    pub code: KeyCode,
    pub alt: bool,
    pub ctrl: bool,
    pub shift: bool,
}

/// Whether `modifier` occurs in `modifiers`.
pub open spec fn has_modifier(modifiers: Seq<KeyModifier>, modifier: KeyModifier) -> bool {
    modifiers.contains(modifier)
}

impl Key {
    /// The key with code `code` and exactly the modifiers listed, in any
    /// order and with any repetition.
    pub fn new(code: KeyCode, modifiers: Vec<KeyModifier>) -> (key: Key)
        ensures
            key.code == code,
            key.alt == has_modifier(modifiers@, KeyModifier::Alt),
            key.ctrl == has_modifier(modifiers@, KeyModifier::Ctrl),
            key.shift == has_modifier(modifiers@, KeyModifier::Shift),
    {
        let mut alt = false;
        let mut ctrl = false;
        let mut shift = false;
        let mut i: usize = 0;
        while i < modifiers.len()
            invariant
                i <= modifiers.len(),
                alt == has_modifier(modifiers@.take(i as int), KeyModifier::Alt),
                ctrl == has_modifier(modifiers@.take(i as int), KeyModifier::Ctrl),
                shift == has_modifier(modifiers@.take(i as int), KeyModifier::Shift),
            decreases modifiers.len() - i,
        {
            let ghost before = modifiers@.take(i as int);
            let ghost after = modifiers@.take(i + 1);
            assert(after =~= before.push(modifiers@[i as int]));
            assert forall|m: KeyModifier|
                after.contains(m) <==> (before.contains(m) || m == modifiers@[i as int]) by {
                if before.contains(m) {
                    let j = choose|j: int| 0 <= j < before.len() && before[j] == m;
                    assert(after[j] == m);
                }
                if m == modifiers@[i as int] {
                    assert(after[i as int] == m);
                }
            }
            match modifiers[i] {
                KeyModifier::Alt => {
                    alt = true;
                },
                KeyModifier::Ctrl => {
                    ctrl = true;
                },
                KeyModifier::Shift => {
                    shift = true;
                },
            }
            i += 1;
        }
        assert(modifiers@.take(i as int) =~= modifiers@);
        Key { code, alt, ctrl, shift }
    }

    /// A key pressed without any modifier.
    pub open spec fn spec_plain(code: KeyCode) -> Key {
        Key { code, alt: false, ctrl: false, shift: false }
    }

    /// A key pressed without any modifier.
    #[verifier::when_used_as_spec(spec_plain)]
    pub fn plain(code: KeyCode) -> (key: Key)
        ensures
            key == Key::spec_plain(code),
    {
        Key { code, alt: false, ctrl: false, shift: false }
    }

    /// The key of a printable character, pressed without any modifier.
    pub open spec fn spec_print(c: char) -> Key {
        Key::spec_plain(KeyCode::Print(c))
    }

    /// The key of a printable character, pressed without any modifier.
    #[verifier::when_used_as_spec(spec_print)]
    pub fn print(c: char) -> (key: Key)
        ensures
            key == Key::spec_print(c),
    {
        Key::plain(KeyCode::Print(c))
    }

    /// This key with Ctrl held.
    pub open spec fn spec_with_ctrl(self) -> Key {
        Key { ctrl: true, ..self }
    }

    /// This key with Ctrl held.
    #[verifier::when_used_as_spec(spec_with_ctrl)]
    pub fn with_ctrl(self) -> (key: Key)
        ensures
            key == self.spec_with_ctrl(),
    {
        Key { ctrl: true, ..self }
    }

    /// This key with Shift held.
    pub open spec fn spec_with_shift(self) -> Key {
        Key { shift: true, ..self }
    }

    /// This key with Shift held.
    #[verifier::when_used_as_spec(spec_with_shift)]
    pub fn with_shift(self) -> (key: Key)
        ensures
            key == self.spec_with_shift(),
    {
        Key { shift: true, ..self }
    }

    /// This key with Alt held.
    pub open spec fn spec_with_alt(self) -> Key {
        Key { alt: true, ..self }
    }

    /// This key with Alt held.
    #[verifier::when_used_as_spec(spec_with_alt)]
    pub fn with_alt(self) -> (key: Key)
        ensures
            key == self.spec_with_alt(),
    {
        Key { alt: true, ..self }
    }
}

} // verus!
