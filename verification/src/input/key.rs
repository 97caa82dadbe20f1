//! Keys, modifier sets, key events, and chords as plain values.

use vstd::prelude::*;
use crate::text::{chars_of, string_from_chars};

verus! {

/// A media key.
#[derive(Debug, Clone, Copy, PartialEq, Eq, Hash, Structural)]
pub enum MediaKeyCode {
    Play,
    Pause,
    PlayPause,
    Reverse,
    Stop,
    FastForward,
    Rewind,
    TrackNext,
    TrackPrevious,
    Record,
    LowerVolume,
    RaiseVolume,
    MuteVolume,
}

/// A modifier key pressed on its own.
#[derive(Debug, Clone, Copy, PartialEq, Eq, Hash, Structural)]
pub enum ModifierKeyCode {
    LeftShift,
    LeftControl,
    LeftAlt,
    LeftSuper,
    LeftHyper,
    LeftMeta,
    RightShift,
    RightControl,
    RightAlt,
    RightSuper,
    RightHyper,
    RightMeta,
    IsoLevel3Shift,
    IsoLevel5Shift,
}

/// A key on the keyboard.
#[derive(Debug, Clone, Copy, PartialEq, Eq, Hash, Structural)]
pub enum KeyCode {
    Backspace,
    Enter,
    Left,
    Right,
    Up,
    Down,
    Home,
    End,
    PageUp,
    PageDown,
    Tab,
    BackTab,
    Delete,
    Insert,
    F(u8),
    Char(char),
    Null,
    Esc,
    CapsLock,
    ScrollLock,
    NumLock,
    PrintScreen,
    Pause,
    Menu,
    KeypadBegin,
    Media(MediaKeyCode),
    Modifier(ModifierKeyCode),
}

/// The modifier keys held with a key.
#[derive(Debug, Clone, Copy, PartialEq, Eq, Hash, Structural)]
pub struct KeyModifiers {
    pub shift: bool,
    pub control: bool,
    pub alt: bool,
    pub super_key: bool,
    pub hyper: bool,
    pub meta: bool,
}

/// No modifier held.
pub open spec fn no_modifiers() -> KeyModifiers {
    KeyModifiers {
        shift: false,
        control: false,
        alt: false,
        super_key: false,
        hyper: false,
        meta: false,
    }
}

impl KeyModifiers {
    /// No modifier held.
    pub fn empty() -> (r: Self)
        ensures
            r == no_modifiers(),
    {
        KeyModifiers {
            shift: false,
            control: false,
            alt: false,
            super_key: false,
            hyper: false,
            meta: false,
        }
    }

    /// Shift alone.
    pub fn shift() -> (r: Self)
        ensures
            r == (KeyModifiers { shift: true, ..no_modifiers() }),
    {
        KeyModifiers { shift: true, ..Self::empty() }
    }

    /// Control alone.
    pub fn control() -> (r: Self)
        ensures
            r == (KeyModifiers { control: true, ..no_modifiers() }),
    {
        KeyModifiers { control: true, ..Self::empty() }
    }

    /// Alt alone.
    pub fn alt() -> (r: Self)
        ensures
            r == (KeyModifiers { alt: true, ..no_modifiers() }),
    {
        KeyModifiers { alt: true, ..Self::empty() }
    }

    /// The modifiers held in either set.
    pub fn union(self, other: KeyModifiers) -> (r: Self)
        ensures
            r.shift == (self.shift || other.shift),
            r.control == (self.control || other.control),
            r.alt == (self.alt || other.alt),
            r.super_key == (self.super_key || other.super_key),
            r.hyper == (self.hyper || other.hyper),
            r.meta == (self.meta || other.meta),
    {
        KeyModifiers {
            shift: self.shift || other.shift,
            control: self.control || other.control,
            alt: self.alt || other.alt,
            super_key: self.super_key || other.super_key,
            hyper: self.hyper || other.hyper,
            meta: self.meta || other.meta,
        }
    }

    /// Whether no modifier is held.
    pub fn is_empty(&self) -> (r: bool)
        ensures
            r == (*self == no_modifiers()),
    {
        !self.shift && !self.control && !self.alt && !self.super_key && !self.hyper && !self.meta
    }
}

/// A key press as the terminal reports it.
#[derive(Debug, Clone, Copy, PartialEq, Eq, Hash, Structural)]
pub struct KeyEvent {
    pub code: KeyCode,
    pub modifiers: KeyModifiers,
}

impl KeyEvent {
    pub fn new(code: KeyCode, modifiers: KeyModifiers) -> (r: Self)
        ensures
            r.code == code,
            r.modifiers == modifiers,
    {
        KeyEvent { code, modifiers }
    }
}

/// One key with the modifiers held with it: the unit bindings are made of.
#[derive(Debug, Clone, Copy, PartialEq, Eq, Hash, Structural)]
pub struct KeyChord {
    pub code: KeyCode,
    pub modifiers: KeyModifiers,
}

/// The chord an event stands for: `BackTab` already implies Shift, so Shift
/// is dropped from it.
pub open spec fn chord_of_event(event: KeyEvent) -> KeyChord {
    if event.code == KeyCode::BackTab {
        KeyChord { code: event.code, modifiers: KeyModifiers { shift: false, ..event.modifiers } }
    } else {
        KeyChord { code: event.code, modifiers: event.modifiers }
    }
}

/// The decimal digits of `n`.
pub open spec fn decimal(n: nat) -> Seq<char>
    decreases n,
{
    if n < 10 {
        seq![digit_char(n)]
    } else {
        decimal(n / 10).push(digit_char(n % 10))
    }
}

pub open spec fn digit_char(d: nat) -> char {
    if d == 0 {
        '0'
    } else if d == 1 {
        '1'
    } else if d == 2 {
        '2'
    } else if d == 3 {
        '3'
    } else if d == 4 {
        '4'
    } else if d == 5 {
        '5'
    } else if d == 6 {
        '6'
    } else if d == 7 {
        '7'
    } else if d == 8 {
        '8'
    } else {
        '9'
    }
}

/// The name of a media key, as its variant is spelled.
pub open spec fn media_name(m: MediaKeyCode) -> Seq<char> {
    match m {
        MediaKeyCode::Play => "Play"@,
        MediaKeyCode::Pause => "Pause"@,
        MediaKeyCode::PlayPause => "PlayPause"@,
        MediaKeyCode::Reverse => "Reverse"@,
        MediaKeyCode::Stop => "Stop"@,
        MediaKeyCode::FastForward => "FastForward"@,
        MediaKeyCode::Rewind => "Rewind"@,
        MediaKeyCode::TrackNext => "TrackNext"@,
        MediaKeyCode::TrackPrevious => "TrackPrevious"@,
        MediaKeyCode::Record => "Record"@,
        MediaKeyCode::LowerVolume => "LowerVolume"@,
        MediaKeyCode::RaiseVolume => "RaiseVolume"@,
        MediaKeyCode::MuteVolume => "MuteVolume"@,
    }
}

/// The name of a modifier key, as its variant is spelled.
pub open spec fn modifier_key_name(m: ModifierKeyCode) -> Seq<char> {
    match m {
        ModifierKeyCode::LeftShift => "LeftShift"@,
        ModifierKeyCode::LeftControl => "LeftControl"@,
        ModifierKeyCode::LeftAlt => "LeftAlt"@,
        ModifierKeyCode::LeftSuper => "LeftSuper"@,
        ModifierKeyCode::LeftHyper => "LeftHyper"@,
        ModifierKeyCode::LeftMeta => "LeftMeta"@,
        ModifierKeyCode::RightShift => "RightShift"@,
        ModifierKeyCode::RightControl => "RightControl"@,
        ModifierKeyCode::RightAlt => "RightAlt"@,
        ModifierKeyCode::RightSuper => "RightSuper"@,
        ModifierKeyCode::RightHyper => "RightHyper"@,
        ModifierKeyCode::RightMeta => "RightMeta"@,
        ModifierKeyCode::IsoLevel3Shift => "IsoLevel3Shift"@,
        ModifierKeyCode::IsoLevel5Shift => "IsoLevel5Shift"@,
    }
}

/// How a key is written in a chord's display text: a character as itself,
/// the common keys by name, any other key as its variant is written in Rust
/// (`Home`, `F(5)`, `Media(Play)`).
pub open spec fn key_text(code: KeyCode) -> Seq<char> {
    match code {
        KeyCode::Char(c) => seq![c],
        KeyCode::Enter => "Enter"@,
        KeyCode::Tab => "Tab"@,
        KeyCode::BackTab => "BackTab"@,
        KeyCode::Backspace => "Backspace"@,
        KeyCode::Esc => "Esc"@,
        KeyCode::Up => "Up"@,
        KeyCode::Down => "Down"@,
        KeyCode::Left => "Left"@,
        KeyCode::Right => "Right"@,
        KeyCode::Home => "Home"@,
        KeyCode::End => "End"@,
        KeyCode::PageUp => "PageUp"@,
        KeyCode::PageDown => "PageDown"@,
        KeyCode::Delete => "Delete"@,
        KeyCode::Insert => "Insert"@,
        KeyCode::F(n) => "F("@ + decimal(n as nat) + ")"@,
        KeyCode::Null => "Null"@,
        KeyCode::CapsLock => "CapsLock"@,
        KeyCode::ScrollLock => "ScrollLock"@,
        KeyCode::NumLock => "NumLock"@,
        KeyCode::PrintScreen => "PrintScreen"@,
        KeyCode::Pause => "Pause"@,
        KeyCode::Menu => "Menu"@,
        KeyCode::KeypadBegin => "KeypadBegin"@,
        KeyCode::Media(m) => "Media("@ + media_name(m) + ")"@,
        KeyCode::Modifier(m) => "Modifier("@ + modifier_key_name(m) + ")"@,
    }
}

/// `Ctrl+`, `Alt+`, `Shift+` for the modifiers held, in that order.
pub open spec fn modifiers_text(m: KeyModifiers) -> Seq<char> {
    (if m.control {
        "Ctrl+"@
    } else {
        Seq::empty()
    }) + (if m.alt {
        "Alt+"@
    } else {
        Seq::empty()
    }) + (if m.shift {
        "Shift+"@
    } else {
        Seq::empty()
    })
}

/// The display text of a chord.
pub open spec fn chord_text(k: KeyChord) -> Seq<char> {
    modifiers_text(k.modifiers) + key_text(k.code)
}

pub(crate) fn push_str(out: &mut Vec<char>, s: &str)
    ensures
        final(out)@ == old(out)@ + s@,
{
    let chars = chars_of(s);
    let mut i: usize = 0;
    let ghost start = out@;
    while i < chars.len()
        invariant
            i <= chars@.len(),
            chars@ == s@,
            out@ == start + chars@.take(i as int),
        decreases chars@.len() - i,
    {
        out.push(chars[i]);
        i = i + 1;
        assert(out@ =~= start + chars@.take(i as int));
    }
    assert(chars@.take(chars@.len() as int) =~= chars@);
}

fn digit_of(d: u8) -> (r: char)
    requires
        d < 10,
    ensures
        r == digit_char(d as nat),
{
    if d == 0 {
        '0'
    } else if d == 1 {
        '1'
    } else if d == 2 {
        '2'
    } else if d == 3 {
        '3'
    } else if d == 4 {
        '4'
    } else if d == 5 {
        '5'
    } else if d == 6 {
        '6'
    } else if d == 7 {
        '7'
    } else if d == 8 {
        '8'
    } else {
        '9'
    }
}

fn push_decimal(out: &mut Vec<char>, n: u8)
    ensures
        final(out)@ == old(out)@ + decimal(n as nat),
{
    if n >= 100 {
        push_decimal_small(out, n / 10);
        out.push(digit_of(n % 10));
        assert(decimal(n as nat) == decimal((n / 10) as nat).push(digit_char((n % 10) as nat)));
    } else {
        push_decimal_small(out, n);
    }
}

fn push_decimal_small(out: &mut Vec<char>, n: u8)
    requires
        n < 100,
    ensures
        final(out)@ == old(out)@ + decimal(n as nat),
{
    if n >= 10 {
        out.push(digit_of(n / 10));
        out.push(digit_of(n % 10));
        assert(decimal((n / 10) as nat) == seq![digit_char((n / 10) as nat)]);
        assert(decimal(n as nat) =~= seq![digit_char((n / 10) as nat), digit_char((n % 10) as nat)]);
    } else {
        out.push(digit_of(n));
    }
}

fn media_str(m: MediaKeyCode) -> (r: &'static str)
    ensures
        r@ == media_name(m),
{
    match m {
        MediaKeyCode::Play => "Play",
        MediaKeyCode::Pause => "Pause",
        MediaKeyCode::PlayPause => "PlayPause",
        MediaKeyCode::Reverse => "Reverse",
        MediaKeyCode::Stop => "Stop",
        MediaKeyCode::FastForward => "FastForward",
        MediaKeyCode::Rewind => "Rewind",
        MediaKeyCode::TrackNext => "TrackNext",
        MediaKeyCode::TrackPrevious => "TrackPrevious",
        MediaKeyCode::Record => "Record",
        MediaKeyCode::LowerVolume => "LowerVolume",
        MediaKeyCode::RaiseVolume => "RaiseVolume",
        MediaKeyCode::MuteVolume => "MuteVolume",
    }
}

fn modifier_key_str(m: ModifierKeyCode) -> (r: &'static str)
    ensures
        r@ == modifier_key_name(m),
{
    match m {
        ModifierKeyCode::LeftShift => "LeftShift",
        ModifierKeyCode::LeftControl => "LeftControl",
        ModifierKeyCode::LeftAlt => "LeftAlt",
        ModifierKeyCode::LeftSuper => "LeftSuper",
        ModifierKeyCode::LeftHyper => "LeftHyper",
        ModifierKeyCode::LeftMeta => "LeftMeta",
        ModifierKeyCode::RightShift => "RightShift",
        ModifierKeyCode::RightControl => "RightControl",
        ModifierKeyCode::RightAlt => "RightAlt",
        ModifierKeyCode::RightSuper => "RightSuper",
        ModifierKeyCode::RightHyper => "RightHyper",
        ModifierKeyCode::RightMeta => "RightMeta",
        ModifierKeyCode::IsoLevel3Shift => "IsoLevel3Shift",
        ModifierKeyCode::IsoLevel5Shift => "IsoLevel5Shift",
    }
}

fn push_key_text(out: &mut Vec<char>, code: KeyCode)
    ensures
        final(out)@ == old(out)@ + key_text(code),
{
    match code {
        KeyCode::Char(c) => {
            out.push(c);
        },
        KeyCode::Enter => push_str(out, "Enter"),
        KeyCode::Tab => push_str(out, "Tab"),
        KeyCode::BackTab => push_str(out, "BackTab"),
        KeyCode::Backspace => push_str(out, "Backspace"),
        KeyCode::Esc => push_str(out, "Esc"),
        KeyCode::Up => push_str(out, "Up"),
        KeyCode::Down => push_str(out, "Down"),
        KeyCode::Left => push_str(out, "Left"),
        KeyCode::Right => push_str(out, "Right"),
        KeyCode::Home => push_str(out, "Home"),
        KeyCode::End => push_str(out, "End"),
        KeyCode::PageUp => push_str(out, "PageUp"),
        KeyCode::PageDown => push_str(out, "PageDown"),
        KeyCode::Delete => push_str(out, "Delete"),
        KeyCode::Insert => push_str(out, "Insert"),
        KeyCode::F(n) => {
            let ghost start = out@;
            push_str(out, "F(");
            push_decimal(out, n);
            push_str(out, ")");
            assert(out@ =~= start + key_text(code));
        },
        KeyCode::Null => push_str(out, "Null"),
        KeyCode::CapsLock => push_str(out, "CapsLock"),
        KeyCode::ScrollLock => push_str(out, "ScrollLock"),
        KeyCode::NumLock => push_str(out, "NumLock"),
        KeyCode::PrintScreen => push_str(out, "PrintScreen"),
        KeyCode::Pause => push_str(out, "Pause"),
        KeyCode::Menu => push_str(out, "Menu"),
        KeyCode::KeypadBegin => push_str(out, "KeypadBegin"),
        KeyCode::Media(m) => {
            let ghost start = out@;
            push_str(out, "Media(");
            push_str(out, media_str(m));
            push_str(out, ")");
            assert(out@ =~= start + key_text(code));
        },
        KeyCode::Modifier(m) => {
            let ghost start = out@;
            push_str(out, "Modifier(");
            push_str(out, modifier_key_str(m));
            push_str(out, ")");
            assert(out@ =~= start + key_text(code));
        },
    }
}

impl KeyChord {
    pub fn new(code: KeyCode, modifiers: KeyModifiers) -> (r: Self)
        ensures
            r.code == code,
            r.modifiers == modifiers,
    {
        KeyChord { code, modifiers }
    }

    /// The chord an event stands for (Shift dropped from `BackTab`).
    pub fn from_event(event: &KeyEvent) -> (r: Self)
        ensures
            r == chord_of_event(*event),
    {
        let mut modifiers = event.modifiers;
        if event.code == KeyCode::BackTab {
            modifiers.shift = false;
        }
        KeyChord { code: event.code, modifiers }
    }

    /// Human-readable text such as `Ctrl+Shift+x` or `Alt+Enter`.
    pub fn display_string(&self) -> (r: String)
        ensures
            r@ == chord_text(*self),
    {
        let mut out: Vec<char> = Vec::new();
        if self.modifiers.control {
            push_str(&mut out, "Ctrl+");
        }
        if self.modifiers.alt {
            push_str(&mut out, "Alt+");
        }
        if self.modifiers.shift {
            push_str(&mut out, "Shift+");
        }
        assert(out@ =~= modifiers_text(self.modifiers));
        push_key_text(&mut out, self.code);
        string_from_chars(out.as_slice())
    }
}

} // verus!
