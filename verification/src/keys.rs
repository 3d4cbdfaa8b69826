//! Key chords and the labels under which the legend shows them.

use vstd::prelude::*;
use vstd::string::*;
use crate::text::{
    decimal_digits, decimal_string, lemma_ascii_width, lemma_decimal_width, lemma_text_width_concat,
    text_width,
};

verus! {

/// A physical key, without modifiers.
#[derive(Clone, Copy, Debug, PartialEq, Eq, Structural)]
pub enum BareKey {
    PageDown,
    PageUp,
    Left,
    Down,
    Up,
    Right,
    Home,
    End,
    Backspace,
    Delete,
    Insert,
    F(u8),
    Char(char),
    Tab,
    Esc,
    Enter,
    CapsLock,
    ScrollLock,
    NumLock,
    PrintScreen,
    Pause,
    Menu,
}

/// A key together with the modifiers held while it is pressed.
#[derive(Clone, Copy, Debug, PartialEq, Eq, Structural)]
pub struct KeyChord {
    pub key: BareKey,
    pub ctrl: bool,
    pub alt: bool,
    pub shift: bool,
}

/// The symbol or mnemonic of a key. Keys without one of their own show as `?`.
pub open spec fn key_name(key: BareKey) -> Seq<char> {
    match key {
        BareKey::Char(c) => seq![c],
        BareKey::F(n) => "F"@ + decimal_digits(n as nat),
        BareKey::Enter => "Enter"@,
        BareKey::Esc => "Esc"@,
        BareKey::Tab => "Tab"@,
        BareKey::Backspace => "Backspace"@,
        BareKey::Delete => "Del"@,
        BareKey::Insert => "Ins"@,
        BareKey::Home => "Home"@,
        BareKey::End => "End"@,
        BareKey::PageUp => "PgUp"@,
        BareKey::PageDown => "PgDn"@,
        BareKey::Up => seq!['↑'],
        BareKey::Down => seq!['↓'],
        BareKey::Left => seq!['←'],
        BareKey::Right => seq!['→'],
        _ => seq!['?'],
    }
}

/// The modifiers of a chord, each followed by `+`, in the order Ctrl, Alt,
/// Shift.
pub open spec fn modifier_prefix(chord: KeyChord) -> Seq<char> {
    (if chord.ctrl {
        "Ctrl+"@
    } else {
        Seq::<char>::empty()
    }) + (if chord.alt {
        "Alt+"@
    } else {
        Seq::<char>::empty()
    }) + (if chord.shift {
        "Shift+"@
    } else {
        Seq::<char>::empty()
    })
}

/// The label of a chord: its modifiers, then its key.
pub open spec fn key_label(chord: KeyChord) -> Seq<char> {
    modifier_prefix(chord) + key_name(chord.key)
}

impl KeyChord {
    /// True of every chord that holds Ctrl and the letter `g`, whatever else
    /// is held: the chord that shows and hides the legend.
    pub open spec fn spec_is_toggle(self) -> bool {
        self.key == BareKey::Char('g') && self.ctrl
    }

    /// Tells whether this chord shows and hides the legend.
    pub fn is_toggle(&self) -> (r: bool)
        ensures
            r == self.spec_is_toggle(),
    {
        match self.key {
            BareKey::Char(c) => c == 'g' && self.ctrl,
            _ => false,
        }
    }
}

/// Writes the label of a chord.
pub fn format_key(key: &KeyChord) -> (label: String)
    ensures
        label@ == key_label(*key),
{
    let mut result = String::new();
    if key.ctrl {
        result.append("Ctrl+");
    }
    if key.alt {
        result.append("Alt+");
    }
    if key.shift {
        result.append("Shift+");
    }
    assert(result@ =~= modifier_prefix(*key));
    match key.key {
        BareKey::Char(c) => result.push(c),
        BareKey::F(n) => {
            result.append("F");
            let digits = decimal_string(n as u64);
            result.append(digits.as_str());
        },
        BareKey::Enter => result.append("Enter"),
        BareKey::Esc => result.append("Esc"),
        BareKey::Tab => result.append("Tab"),
        BareKey::Backspace => result.append("Backspace"),
        BareKey::Delete => result.append("Del"),
        BareKey::Insert => result.append("Ins"),
        BareKey::Home => result.append("Home"),
        BareKey::End => result.append("End"),
        BareKey::PageUp => result.append("PgUp"),
        BareKey::PageDown => result.append("PgDn"),
        BareKey::Up => result.push('↑'),
        BareKey::Down => result.push('↓'),
        BareKey::Left => result.push('←'),
        BareKey::Right => result.push('→'),
        _ => result.push('?'),
    }
    assert(result@ =~= key_label(*key));
    result
}

/// The widest label that a chord can have takes this many bytes: the three
/// modifiers and `Backspace`.
pub const MAX_LABEL_WIDTH: usize = 24;

/// No label of a chord is wider than `MAX_LABEL_WIDTH` bytes.
pub proof fn lemma_key_label_width(chord: KeyChord)
    ensures
        text_width(key_label(chord)) <= MAX_LABEL_WIDTH,
{
    let empty = Seq::<char>::empty();
    let ctrl = if chord.ctrl {
        "Ctrl+"@
    } else {
        empty
    };
    let alt = if chord.alt {
        "Alt+"@
    } else {
        empty
    };
    let shift = if chord.shift {
        "Shift+"@
    } else {
        empty
    };
    let name = key_name(chord.key);
    reveal_strlit("Ctrl+");
    reveal_strlit("Alt+");
    reveal_strlit("Shift+");
    lemma_ascii_width("Ctrl+"@);
    lemma_ascii_width("Alt+"@);
    lemma_ascii_width("Shift+"@);
    lemma_ascii_width(empty);
    lemma_text_width_concat(ctrl, alt);
    lemma_text_width_concat(ctrl + alt, shift);
    lemma_text_width_concat(ctrl + alt + shift, name);
    assert(text_width(name) <= 9) by {
        match chord.key {
            BareKey::F(n) => {
                reveal_strlit("F");
                lemma_ascii_width("F"@);
                lemma_decimal_width(n as nat);
                lemma_text_width_concat("F"@, decimal_digits(n as nat));
            },
            BareKey::Enter => {
                reveal_strlit("Enter");
                lemma_ascii_width("Enter"@);
            },
            BareKey::Esc => {
                reveal_strlit("Esc");
                lemma_ascii_width("Esc"@);
            },
            BareKey::Tab => {
                reveal_strlit("Tab");
                lemma_ascii_width("Tab"@);
            },
            BareKey::Backspace => {
                reveal_strlit("Backspace");
                lemma_ascii_width("Backspace"@);
            },
            BareKey::Delete => {
                reveal_strlit("Del");
                lemma_ascii_width("Del"@);
            },
            BareKey::Insert => {
                reveal_strlit("Ins");
                lemma_ascii_width("Ins"@);
            },
            BareKey::Home => {
                reveal_strlit("Home");
                lemma_ascii_width("Home"@);
            },
            BareKey::End => {
                reveal_strlit("End");
                lemma_ascii_width("End"@);
            },
            BareKey::PageUp => {
                reveal_strlit("PgUp");
                lemma_ascii_width("PgUp"@);
            },
            BareKey::PageDown => {
                reveal_strlit("PgDn");
                lemma_ascii_width("PgDn"@);
            },
            _ => {
                assert(name.len() == 1);
                assert(name.drop_first() =~= empty);
            },
        }
    }
}

} // verus!
