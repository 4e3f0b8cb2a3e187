//! Key presses as the controller reads them, and what each one asks for.

use vstd::prelude::*;
use crate::audio::VOLUME_STEP_PERCENT;

verus! {

/// The key that an event is about.
#[derive(Clone, Copy, Debug, PartialEq, Eq, Structural)]
pub enum KeyCode {
    Char(char),
    Left,
    Right,
    Up,
    Down,
    /// Any key the controller gives no meaning to.
    Other,
}

/// Whether a key went down, repeats while held, or went up.
#[derive(Clone, Copy, Debug, PartialEq, Eq, Structural)]
pub enum KeyEventKind {
    Press,
    Repeat,
    Release,
}

/// The modifier keys held during an event, as far as the controller reads
/// them.
#[derive(Clone, Copy, Debug, PartialEq, Eq, Structural)]
pub struct KeyModifiers {
    pub control: bool,
}

impl KeyModifiers {
    /// No modifier held.
    pub fn none() -> (m: KeyModifiers)
        ensures
            !m.control,
    {
        KeyModifiers { control: false }
    }

    /// Control held.
    pub fn with_control() -> (m: KeyModifiers)
        ensures
            m.control,
    {
        KeyModifiers { control: true }
    }
}

/// One key event from the terminal.
#[derive(Clone, Copy, Debug, PartialEq, Eq, Structural)]
pub struct KeyEvent {
    pub code: KeyCode,
    pub modifiers: KeyModifiers,
    pub kind: KeyEventKind,
}

impl KeyEvent {
    pub fn new_with_kind(code: KeyCode, modifiers: KeyModifiers, kind: KeyEventKind) -> (key:
        KeyEvent)
        ensures
            key == (KeyEvent { code, modifiers, kind }),
    {
        KeyEvent { code, modifiers, kind }
    }
}

/// Only a key going down counts; repeats and releases are ignored.
pub open spec fn actionable(key: KeyEvent) -> bool {
    key.kind == KeyEventKind::Press
}

/// `q`, `Q` and Control-`c` ask the controller to quit.
pub open spec fn quits(key: KeyEvent) -> bool {
    match key.code {
        KeyCode::Char(c) => c == 'q' || c == 'Q' || (c == 'c' && key.modifiers.control),
        _ => false,
    }
}

/// The change of volume, in percent, that a key asks for.
pub open spec fn volume_delta(code: KeyCode) -> Option<i8> {
    match code {
        KeyCode::Up => Some(VOLUME_STEP_PERCENT),
        KeyCode::Down => Some((-VOLUME_STEP_PERCENT) as i8),
        _ => None,
    }
}

pub fn is_actionable_key_event(key: &KeyEvent) -> (r: bool)
    ensures
        r == actionable(*key),
{
    key.kind == KeyEventKind::Press
}

pub fn is_quit_key(key: &KeyEvent) -> (r: bool)
    ensures
        r == quits(*key),
{
    match key.code {
        KeyCode::Char('q') | KeyCode::Char('Q') => true,
        KeyCode::Char('c') => key.modifiers.control,
        _ => false,
    }
}

pub fn volume_delta_for_key(code: KeyCode) -> (delta: Option<i8>)
    ensures
        delta == volume_delta(code),
{
    match code {
        KeyCode::Up => Some(VOLUME_STEP_PERCENT),
        KeyCode::Down => Some(-VOLUME_STEP_PERCENT),
        _ => None,
    }
}

/// Up and Down move the volume by the same step in opposite directions, and
/// no other key moves it.
pub proof fn lemma_volume_keys_are_opposite(code: KeyCode)
    ensures
        volume_delta(KeyCode::Up) == Some(5i8),
        volume_delta(KeyCode::Down) == Some(-5i8),
        volume_delta(code) is Some <==> (code == KeyCode::Up || code == KeyCode::Down),
{
}

/// Only a press is acted on; the quit keys are exactly `q`, `Q`, and `c`
/// with Control held.
pub proof fn lemma_key_meanings(key: KeyEvent)
    ensures
        actionable(key) <==> key.kind == KeyEventKind::Press,
        quits(key) <==> (key.code == KeyCode::Char('q') || key.code == KeyCode::Char('Q') || (key.code
            == KeyCode::Char('c') && key.modifiers.control)),
        key.code == KeyCode::Char('C') ==> !quits(key),
{
}

} // verus!
