//! Keyboard symbols and the per-cycle adapter.
//!
//! [`keyboard_input_system`] folds one cycle's batch of raw key events into
//! an [`InputState<KeyCode>`]: it advances the tracker, then applies each
//! event in arrival order, skipping events that carry no resolved key code.

use vstd::prelude::*;
use crate::input::InputModel;
use crate::input::InputState;
use crate::input::Symbol;

verus! {

/// Whether a raw key event reports the key going down or coming up.
#[derive(Clone, Copy, Debug, PartialEq, Eq, Structural)]
pub enum ElementState {
    Pressed,
    Released,
}

/// The identity of one physical key.
#[derive(Clone, Copy, Debug, PartialEq, Eq, Hash, PartialOrd, Ord, Structural)]
pub enum KeyCode {
    /// The '1' key over the letters.
    Key1,
    /// The '2' key over the letters.
    Key2,
    /// The '3' key over the letters.
    Key3,
    /// The '4' key over the letters.
    Key4,
    /// The '5' key over the letters.
    Key5,
    /// The '6' key over the letters.
    Key6,
    /// The '7' key over the letters.
    Key7,
    /// The '8' key over the letters.
    Key8,
    /// The '9' key over the letters.
    Key9,
    /// The '0' key over the letters.
    Key0,
    A,
    B,
    C,
    D,
    E,
    F,
    G,
    H,
    I,
    J,
    K,
    L,
    M,
    N,
    O,
    P,
    Q,
    R,
    S,
    T,
    U,
    V,
    W,
    X,
    Y,
    Z,
    Escape,
    F1,
    F2,
    F3,
    F4,
    F5,
    F6,
    F7,
    F8,
    F9,
    F10,
    F11,
    F12,
    F13,
    F14,
    F15,
    F16,
    F17,
    F18,
    F19,
    F20,
    F21,
    F22,
    F23,
    F24,
    /// Print screen.
    Snapshot,
    /// Scroll lock.
    Scroll,
    /// Pause/Break.
    Pause,
    Insert,
    Home,
    Delete,
    End,
    PageDown,
    PageUp,
    Left,
    Up,
    Right,
    Down,
    /// Backspace.
    Back,
    /// Enter.
    Return,
    /// The space bar.
    Space,
    Compose,
    Caret,
    Numlock,
    Numpad0,
    Numpad1,
    Numpad2,
    Numpad3,
    Numpad4,
    Numpad5,
    Numpad6,
    Numpad7,
    Numpad8,
    Numpad9,
    AbntC1,
    AbntC2,
    NumpadAdd,
    Apostrophe,
    Apps,
    Asterisk,
    Plus,
    At,
    Ax,
    Backslash,
    Calculator,
    Capital,
    Colon,
    Comma,
    Convert,
    NumpadDecimal,
    NumpadDivide,
    Equals,
    Grave,
    Kana,
    Kanji,
    LAlt,
    LBracket,
    LControl,
    LShift,
    LWin,
    Mail,
    MediaSelect,
    MediaStop,
    Minus,
    NumpadMultiply,
    Mute,
    MyComputer,
    NavigateForward,
    NavigateBackward,
    NextTrack,
    NoConvert,
    NumpadComma,
    NumpadEnter,
    NumpadEquals,
    OEM102,
    Period,
    PlayPause,
    Power,
    PrevTrack,
    RAlt,
    RBracket,
    RControl,
    RShift,
    RWin,
    Semicolon,
    Slash,
    Sleep,
    Stop,
    NumpadSubtract,
    Sysrq,
    Tab,
    Underline,
    Unlabeled,
    VolumeDown,
    VolumeUp,
    Wake,
    WebBack,
    WebFavorites,
    WebForward,
    WebHome,
    WebRefresh,
    WebSearch,
    WebStop,
    Yen,
    Copy,
    Paste,
    Cut,
}

/// The printable character of a key, for the fixed subset of keys that have
/// one: digits (main row and numeric pad), letters, and common punctuation.
/// Keys without a natural character, such as function and modifier keys,
/// map to `None`. Distinct keys may share a character: a main-row digit and
/// its numeric-pad equivalent map to the same digit.
pub open spec fn char_of(k: KeyCode) -> Option<char> {
    match k {
        KeyCode::Key1 | KeyCode::Numpad1 => Some('1'),
        KeyCode::Key2 | KeyCode::Numpad2 => Some('2'),
        KeyCode::Key3 | KeyCode::Numpad3 => Some('3'),
        KeyCode::Key4 | KeyCode::Numpad4 => Some('4'),
        KeyCode::Key5 | KeyCode::Numpad5 => Some('5'),
        KeyCode::Key6 | KeyCode::Numpad6 => Some('6'),
        KeyCode::Key7 | KeyCode::Numpad7 => Some('7'),
        KeyCode::Key8 | KeyCode::Numpad8 => Some('8'),
        KeyCode::Key9 | KeyCode::Numpad9 => Some('9'),
        KeyCode::Key0 | KeyCode::Numpad0 => Some('0'),
        KeyCode::A => Some('a'),
        KeyCode::B => Some('b'),
        KeyCode::C => Some('c'),
        KeyCode::D => Some('d'),
        KeyCode::E => Some('e'),
        KeyCode::F => Some('f'),
        KeyCode::G => Some('g'),
        KeyCode::H => Some('h'),
        KeyCode::I => Some('i'),
        KeyCode::J => Some('j'),
        KeyCode::K => Some('k'),
        KeyCode::L => Some('l'),
        KeyCode::M => Some('m'),
        KeyCode::N => Some('n'),
        KeyCode::O => Some('o'),
        KeyCode::P => Some('p'),
        KeyCode::Q => Some('q'),
        KeyCode::R => Some('r'),
        KeyCode::S => Some('s'),
        KeyCode::T => Some('t'),
        KeyCode::U => Some('u'),
        KeyCode::V => Some('v'),
        KeyCode::W => Some('w'),
        KeyCode::X => Some('x'),
        KeyCode::Y => Some('y'),
        KeyCode::Z => Some('z'),
        KeyCode::Caret => Some('^'),
        KeyCode::Apostrophe => Some('\''),
        KeyCode::Asterisk | KeyCode::NumpadMultiply => Some('*'),
        KeyCode::Plus | KeyCode::NumpadAdd => Some('+'),
        KeyCode::At => Some('@'),
        KeyCode::Backslash => Some('\\'),
        KeyCode::Colon => Some(':'),
        KeyCode::Comma | KeyCode::NumpadComma => Some(','),
        KeyCode::Period | KeyCode::NumpadDecimal => Some('.'),
        KeyCode::Slash | KeyCode::NumpadDivide => Some('/'),
        KeyCode::Equals | KeyCode::NumpadEquals => Some('='),
        KeyCode::Grave => Some('`'),
        KeyCode::Minus | KeyCode::NumpadSubtract => Some('-'),
        KeyCode::Semicolon => Some(';'),
        KeyCode::Yen => Some('¥'),
        _ => None,
    }
}

impl KeyCode {
    /// The printable character of this key, or `None` for keys without one;
    /// the table is [`char_of`].
    pub fn to_char(self) -> (r: Option<char>)
        ensures
            r == char_of(self),
    {
        match self {
            KeyCode::Key1 | KeyCode::Numpad1 => Some('1'),
            KeyCode::Key2 | KeyCode::Numpad2 => Some('2'),
            KeyCode::Key3 | KeyCode::Numpad3 => Some('3'),
            KeyCode::Key4 | KeyCode::Numpad4 => Some('4'),
            KeyCode::Key5 | KeyCode::Numpad5 => Some('5'),
            KeyCode::Key6 | KeyCode::Numpad6 => Some('6'),
            KeyCode::Key7 | KeyCode::Numpad7 => Some('7'),
            KeyCode::Key8 | KeyCode::Numpad8 => Some('8'),
            KeyCode::Key9 | KeyCode::Numpad9 => Some('9'),
            KeyCode::Key0 | KeyCode::Numpad0 => Some('0'),
            KeyCode::A => Some('a'),
            KeyCode::B => Some('b'),
            KeyCode::C => Some('c'),
            KeyCode::D => Some('d'),
            KeyCode::E => Some('e'),
            KeyCode::F => Some('f'),
            KeyCode::G => Some('g'),
            KeyCode::H => Some('h'),
            KeyCode::I => Some('i'),
            KeyCode::J => Some('j'),
            KeyCode::K => Some('k'),
            KeyCode::L => Some('l'),
            KeyCode::M => Some('m'),
            KeyCode::N => Some('n'),
            KeyCode::O => Some('o'),
            KeyCode::P => Some('p'),
            KeyCode::Q => Some('q'),
            KeyCode::R => Some('r'),
            KeyCode::S => Some('s'),
            KeyCode::T => Some('t'),
            KeyCode::U => Some('u'),
            KeyCode::V => Some('v'),
            KeyCode::W => Some('w'),
            KeyCode::X => Some('x'),
            KeyCode::Y => Some('y'),
            KeyCode::Z => Some('z'),
            KeyCode::Caret => Some('^'),
            KeyCode::Apostrophe => Some('\''),
            KeyCode::Asterisk | KeyCode::NumpadMultiply => Some('*'),
            KeyCode::Plus | KeyCode::NumpadAdd => Some('+'),
            KeyCode::At => Some('@'),
            KeyCode::Backslash => Some('\\'),
            KeyCode::Colon => Some(':'),
            KeyCode::Comma | KeyCode::NumpadComma => Some(','),
            KeyCode::Period | KeyCode::NumpadDecimal => Some('.'),
            KeyCode::Slash | KeyCode::NumpadDivide => Some('/'),
            KeyCode::Equals | KeyCode::NumpadEquals => Some('='),
            KeyCode::Grave => Some('`'),
            KeyCode::Minus | KeyCode::NumpadSubtract => Some('-'),
            KeyCode::Semicolon => Some(';'),
            KeyCode::Yen => Some('¥'),
            _ => None,
        }
    }
}

impl Symbol for KeyCode {
    fn same(&self, other: &Self) -> (r: bool)
        ensures
            r == (*self == *other),
    {
        *self == *other
    }
}

/// A raw key event from a keyboard device. Consumed once per cycle and not
/// retained by the tracker.
#[derive(Clone, Debug)]
pub struct KeyboardInput {
    /// Device-level code of the key, as delivered.
    pub scan_code: u32,
    /// The resolved key identity; absent when the device code maps to no
    /// known key, in which case the event produces no state change.
    pub key_code: Option<KeyCode>,
    /// Whether the key went down or came up.
    pub state: ElementState,
}

/// Effect of one raw event on the model: a press or a release of its key
/// code, or nothing when the event carries none.
pub open spec fn apply_event(m: InputModel<KeyCode>, ev: KeyboardInput) -> InputModel<KeyCode> {
    match ev.key_code {
        Some(k) => match ev.state {
            ElementState::Pressed => m.press(k),
            ElementState::Released => m.release(k),
        },
        None => m,
    }
}

/// Effect of a batch of raw events, applied in arrival order.
pub open spec fn apply_events(m: InputModel<KeyCode>, evs: Seq<KeyboardInput>) -> InputModel<
    KeyCode,
>
    decreases evs.len(),
{
    if evs.len() == 0 {
        m
    } else {
        apply_event(apply_events(m, evs.drop_last()), evs.last())
    }
}

/// Effect of one whole cycle: advance to the new cycle, then apply the
/// cycle's events in arrival order.
pub open spec fn apply_cycle(m: InputModel<KeyCode>, evs: Seq<KeyboardInput>) -> InputModel<
    KeyCode,
> {
    apply_events(m.advance(), evs)
}

/// Whether some event in `evs` presses `k`.
pub open spec fn has_press_of(evs: Seq<KeyboardInput>, k: KeyCode) -> bool {
    exists|i: int|
        0 <= i < evs.len() && evs[i].key_code == Some(k) && evs[i].state
            == ElementState::Pressed
}

/// Whether some event in `evs` releases `k`.
pub open spec fn has_release_of(evs: Seq<KeyboardInput>, k: KeyCode) -> bool {
    exists|i: int|
        0 <= i < evs.len() && evs[i].key_code == Some(k) && evs[i].state
            == ElementState::Released
}

/// Whether no key receives both a press and a release within the batch.
pub open spec fn one_edge_per_key(evs: Seq<KeyboardInput>) -> bool {
    forall|k: KeyCode| !(has_press_of(evs, k) && has_release_of(evs, k))
}

proof fn lemma_events_consistent(m: InputModel<KeyCode>, evs: Seq<KeyboardInput>)
    requires
        m.consistent(),
        one_edge_per_key(evs),
        forall|k: KeyCode| m.just_pressed.contains(k) ==> !has_release_of(evs, k),
        forall|k: KeyCode| m.just_released.contains(k) ==> !has_press_of(evs, k),
    ensures
        apply_events(m, evs).consistent(),
        forall|k: KeyCode|
            apply_events(m, evs).just_pressed.contains(k) ==> m.just_pressed.contains(k)
                || has_press_of(evs, k),
        forall|k: KeyCode|
            apply_events(m, evs).just_released.contains(k) ==> m.just_released.contains(k)
                || has_release_of(evs, k),
    decreases evs.len(),
{
    if evs.len() == 0 {
    } else {
        let prefix = evs.drop_last();
        let ev = evs.last();
        assert forall|k: KeyCode| has_press_of(prefix, k) implies has_press_of(evs, k) by {
            let i = choose|i: int|
                0 <= i < prefix.len() && prefix[i].key_code == Some(k) && prefix[i].state
                    == ElementState::Pressed;
            assert(evs[i].key_code == Some(k) && evs[i].state == ElementState::Pressed);
        };
        assert forall|k: KeyCode| has_release_of(prefix, k) implies has_release_of(evs, k) by {
            let i = choose|i: int|
                0 <= i < prefix.len() && prefix[i].key_code == Some(k) && prefix[i].state
                    == ElementState::Released;
            assert(evs[i].key_code == Some(k) && evs[i].state == ElementState::Released);
        };
        lemma_events_consistent(m, prefix);
        let r0 = apply_events(m, prefix);
        match ev.key_code {
            Some(k) => {
                let last_index = evs.len() - 1;
                assert(evs[last_index] == ev);
                match ev.state {
                    ElementState::Pressed => {
                        assert(has_press_of(evs, k));
                        assert(!r0.just_released.contains(k));
                        crate::input::lemma_press_consistent(r0, k);
                    },
                    ElementState::Released => {
                        assert(has_release_of(evs, k));
                        assert(!r0.just_pressed.contains(k));
                        crate::input::lemma_release_consistent(r0, k);
                    },
                }
            },
            None => {},
        }
    }
}

/// Law: the tri-set consistency condition holds at every observable point.
/// After a whole cycle — an advance followed by any batch of events in which
/// no key receives both a press and a release — every just-pressed key is
/// held and no just-released key is held, whatever model the previous cycle
/// left behind.
pub proof fn lemma_cycle_consistent(m: InputModel<KeyCode>, evs: Seq<KeyboardInput>)
    requires
        one_edge_per_key(evs),
    ensures
        apply_cycle(m, evs).consistent(),
{
    crate::input::lemma_advance_consistent(m);
    lemma_events_consistent(m.advance(), evs);
}

/// Folds one cycle's batch of key events into the tracker: advances it,
/// then applies each event in arrival order, skipping events without a
/// resolved key code.
pub fn keyboard_input_system(state: &mut InputState<KeyCode>, events: &Vec<KeyboardInput>)
    ensures
        final(state)@ == apply_cycle(old(state)@, events@),
{
    state.advance();
    let ghost base: InputModel<KeyCode> = state@;
    let mut i: usize = 0;
    while i < events.len()
        invariant
            0 <= i <= events.len(),
            base == old(state)@.advance(),
            state@ == apply_events(base, events@.take(i as int)),
        decreases events.len() - i,
    {
        let ev = &events[i];
        match ev.key_code {
            Some(key_code) => match ev.state {
                ElementState::Pressed => state.press(key_code),
                ElementState::Released => state.release(key_code),
            },
            None => {},
        }
        proof {
            assert(events@.take(i + 1).drop_last() =~= events@.take(i as int));
            assert(events@.take(i + 1).last() == events@[i as int]);
        }
        i = i + 1;
    }
    proof {
        assert(events@.take(events@.len() as int) =~= events@);
    }
}

} // verus!

