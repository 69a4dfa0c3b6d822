//! What comes from the keyboard.

use vstd::prelude::*;

verus! {

/// The keys that the timer tells apart.
#[derive(Clone, Copy, Debug, PartialEq, Eq, Structural)]
pub enum KeyCode {
    Esc,
    Char(char),
    Other,
}

/// The modifier keys held down with a key.
#[derive(Clone, Copy, Debug, PartialEq, Eq, Structural)]
pub struct KeyModifiers {
    pub shift: bool,
    pub control: bool,
    pub alt: bool,
    pub super_key: bool,
    pub hyper: bool,
    pub meta: bool,
}

/// Whether a key went down, repeats, or went up.
#[derive(Clone, Copy, Debug, PartialEq, Eq, Structural)]
pub enum KeyEventKind {
    Press,
    Repeat,
    Release,
}

/// A key event.
#[derive(Clone, Copy, Debug, PartialEq, Eq, Structural)]
pub struct KeyEvent {
    pub code: KeyCode,
    pub modifiers: KeyModifiers,
    pub kind: KeyEventKind,
}

/// A terminal event: a key, or something that the timer takes no notice of.
#[derive(Clone, Copy, Debug, PartialEq, Eq, Structural)]
pub enum Event {
    Key(KeyEvent),
    Other,
}

impl KeyModifiers {
    /// Control is held down and no other modifier is.
    pub open spec fn is_control_alone(self) -> bool {
        self == (KeyModifiers {
            shift: false,
            control: true,
            alt: false,
            super_key: false,
            hyper: false,
            meta: false,
        })
    }

    /// Tells whether control, and no other modifier, is held down.
    pub fn control_alone(&self) -> (yes: bool)
        ensures
            yes == self.is_control_alone(),
    {
        self.control && !self.shift && !self.alt && !self.super_key && !self.hyper && !self.meta
    }
}

impl KeyEvent {
    /// The key asks the timer to stop: escape or `q` under any modifiers, or
    /// `c` or `C` under control alone.
    pub open spec fn is_quit(self) -> bool {
        ||| self.code == KeyCode::Esc
        ||| self.code == KeyCode::Char('q')
        ||| self.modifiers.is_control_alone() && (self.code == KeyCode::Char('c') || self.code
            == KeyCode::Char('C'))
    }

    /// Tells whether the key asks the timer to stop.
    pub fn asks_to_quit(&self) -> (yes: bool)
        ensures
            yes == self.is_quit(),
    {
        match self.code {
            KeyCode::Esc => true,
            KeyCode::Char(c) => c == 'q' || (self.modifiers.control_alone() && (c == 'c' || c
                == 'C')),
            KeyCode::Other => false,
        }
    }
}

/// What came from the terminal, if anything did, stops the timer: it is a key
/// press, and the key asks for it.
pub open spec fn stops_timer(event: Option<Event>) -> bool {
    match event {
        Some(Event::Key(key)) => key.kind == KeyEventKind::Press && key.is_quit(),
        _ => false,
    }
}

/// What `control_alone` tells: of the six modifiers, control is held down and
/// the other five are not.
pub proof fn law_control_alone(m: KeyModifiers, yes: bool)
    requires
        call_ensures(KeyModifiers::control_alone, (&m,), yes),
    ensures
        yes <==> m.control && !(m.shift || m.alt || m.super_key || m.hyper || m.meta),
{
}

/// What `asks_to_quit` tells: escape and `q` ask for it whatever is held down,
/// `c` and `C` with control and no other modifier, and no other key does.
pub proof fn law_asks_to_quit(key: KeyEvent, yes: bool)
    requires
        call_ensures(KeyEvent::asks_to_quit, (&key,), yes),
    ensures
        key.code is Esc ==> yes,
        key.code is Other ==> !yes,
        key.code matches KeyCode::Char(c) ==> {
            let m = key.modifiers;
            &&& c == 'q' ==> yes
            &&& c == 'c' || c == 'C' ==> (yes <==> m.control && !(m.shift || m.alt || m.super_key
                || m.hyper || m.meta))
            &&& yes ==> c == 'q' || c == 'c' || c == 'C'
        },
{
}

} // verus!
