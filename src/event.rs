//! Input events, and a view's answer to them.

use vstd::prelude::*;
use crate::xy::Vec2;

verus! {

/// Answer of a view to an event: ignored, or consumed with an optional
/// callback `C` for the host to run.
pub enum EventResult<C> {
    /// The event was ignored; the parent may handle it.
    Ignored,
    /// The event was consumed.
    Consumed(Option<C>),
}

impl<C> EventResult<C> {
    /// `Consumed(Some(f))`.
    pub fn with_cb(f: C) -> (r: EventResult<C>)
        ensures
            r == EventResult::Consumed(Some(f)),
    {
        EventResult::Consumed(Some(f))
    }

    /// Whether the event was consumed.
    pub fn is_consumed(&self) -> (r: bool)
        ensures
            r == (*self is Consumed),
    {
        match *self {
            EventResult::Consumed(_) => true,
            _ => false,
        }
    }

    /// Whether a callback comes with the answer.
    pub fn has_callback(&self) -> (r: bool)
        ensures
            r == (*self is Consumed && self->Consumed_0 is Some),
    {
        match *self {
            EventResult::Consumed(Some(_)) => true,
            _ => false,
        }
    }

    /// `self` if the event was consumed, else the answer that `f` gives.
    pub fn or_else<F: FnOnce() -> EventResult<C>>(self, f: F) -> (r: EventResult<C>)
        requires
            self is Ignored ==> f.requires(()),
        ensures
            self is Ignored ==> f.ensures((), r),
            !(self is Ignored) ==> r == self,
    {
        match self {
            EventResult::Ignored => f(),
            other => other,
        }
    }
}

/// A non-character key.
#[derive(Clone, Copy, Debug, PartialEq, Eq, Hash, Structural)]
pub enum Key {
    Enter,
    Tab,
    Backspace,
    Esc,
    Left,
    Right,
    Up,
    Down,
    Ins,
    Del,
    Home,
    End,
    PageUp,
    PageDown,
    PauseBreak,
    /// The 5 in the middle of the keypad, num lock off.
    NumpadCenter,
    F0,
    F1,
    F2,
    F3,
    F4,
    F5,
    F6,
    F7,
    F8,
    F9,
    F10,
    F11,
    F12,
}

/// The function key numbered `n`.
pub open spec fn f_key(n: u8) -> Key {
    match n {
        0 => Key::F0,
        1 => Key::F1,
        2 => Key::F2,
        3 => Key::F3,
        4 => Key::F4,
        5 => Key::F5,
        6 => Key::F6,
        7 => Key::F7,
        8 => Key::F8,
        9 => Key::F9,
        10 => Key::F10,
        11 => Key::F11,
        _ => Key::F12,
    }
}

impl Key {
    /// The function key numbered `n` (`1` gives `F1`), for `n` up to 12.
    pub fn from_f(n: u8) -> (r: Key)
        requires
            n <= 12,
        ensures
            r == f_key(n),
    {
        match n {
            0 => Key::F0,
            1 => Key::F1,
            2 => Key::F2,
            3 => Key::F3,
            4 => Key::F4,
            5 => Key::F5,
            6 => Key::F6,
            7 => Key::F7,
            8 => Key::F8,
            9 => Key::F9,
            10 => Key::F10,
            11 => Key::F11,
            _ => Key::F12,
        }
    }
}

/// A mouse button.
#[derive(Clone, Copy, Debug, PartialEq, Eq, Hash, Structural)]
pub enum MouseButton {
    Left,
    Middle,
    Right,
    Button4,
    Button5,
    Other,
}

/// What the mouse did.
#[derive(Clone, Copy, Debug, PartialEq, Eq, Hash, Structural)]
pub enum MouseEvent {
    Press(MouseButton),
    Release(MouseButton),
    Hold(MouseButton),
    WheelUp,
    WheelDown,
}

impl MouseEvent {
    /// The button involved; `None` for the wheel.
    pub fn button(self) -> (r: Option<MouseButton>)
        ensures
            r == match self {
                MouseEvent::Press(b) => Some(b),
                MouseEvent::Release(b) => Some(b),
                MouseEvent::Hold(b) => Some(b),
                _ => None,
            },
    {
        match self {
            MouseEvent::Press(btn) | MouseEvent::Release(btn) | MouseEvent::Hold(btn) => Some(btn),
            _ => None,
        }
    }

    /// Whether this event can take the focus: a press or the wheel.
    pub fn grabs_focus(self) -> (r: bool)
        ensures
            r == (self is Press || self is WheelUp || self is WheelDown),
    {
        match self {
            MouseEvent::Press(_) | MouseEvent::WheelUp | MouseEvent::WheelDown => true,
            _ => false,
        }
    }
}

/// An input event.
#[derive(Clone, Debug, PartialEq, Eq, Hash)]
pub enum Event {
    WindowResize,
    Refresh,
    /// A character was typed.
    Char(char),
    CtrlChar(char),
    AltChar(char),
    /// A non-character key was pressed.
    Key(Key),
    Shift(Key),
    Alt(Key),
    AltShift(Key),
    Ctrl(Key),
    CtrlShift(Key),
    CtrlAlt(Key),
    /// A mouse event, with the top-left corner of the receiving view and the
    /// pointer position, both absolute.
    Mouse { offset: Vec2, position: Vec2, event: MouseEvent },
    /// Bytes that were not understood.
    Unknown(Vec<u8>),
    Exit,
}

impl Event {
    /// The pointer position of a mouse event.
    pub fn mouse_position(&self) -> (r: Option<Vec2>)
        ensures
            r == match *self {
                Event::Mouse { position, .. } => Some(position),
                _ => None,
            },
    {
        if let Event::Mouse { position, .. } = *self {
            Some(position)
        } else {
            None
        }
    }

    /// A mutable reference to the pointer position of a mouse event.
    pub fn mouse_position_mut(&mut self) -> (r: Option<&mut Vec2>)
        ensures
            (*old(self) is Mouse) == (r is Some),
            match *old(self) {
                Event::Mouse { offset, position, event } => *r->Some_0 == position
                    && *final(self) == (Event::Mouse { offset, position: *final(r->Some_0), event }),
                _ => *final(self) == *old(self),
            },
    {
        if let Event::Mouse { ref mut position, .. } = *self {
            Some(position)
        } else {
            None
        }
    }

    /// A copy of this event, with `top_left` added to the offset of a mouse
    /// event.
    pub fn relativized(&self, top_left: Vec2) -> (r: Event)
        requires
            *self is Mouse ==> self->Mouse_offset.x + top_left.x <= usize::MAX
                && self->Mouse_offset.y + top_left.y <= usize::MAX,
        ensures
            match *self {
                Event::Mouse { offset, position, event } => r == (Event::Mouse {
                    offset: Vec2 { x: (offset.x + top_left.x) as usize, y: (offset.y + top_left.y) as usize },
                    position,
                    event,
                }),
                Event::Unknown(v) => r is Unknown && r->Unknown_0@ == v@,
                _ => r == *self,
            },
    {
        match self {
            Event::WindowResize => Event::WindowResize,
            Event::Refresh => Event::Refresh,
            Event::Char(c) => Event::Char(*c),
            Event::CtrlChar(c) => Event::CtrlChar(*c),
            Event::AltChar(c) => Event::AltChar(*c),
            Event::Key(k) => Event::Key(*k),
            Event::Shift(k) => Event::Shift(*k),
            Event::Alt(k) => Event::Alt(*k),
            Event::AltShift(k) => Event::AltShift(*k),
            Event::Ctrl(k) => Event::Ctrl(*k),
            Event::CtrlShift(k) => Event::CtrlShift(*k),
            Event::CtrlAlt(k) => Event::CtrlAlt(*k),
            Event::Mouse { offset, position, event } => Event::Mouse {
                offset: offset.add(top_left),
                position: *position,
                event: *event,
            },
            Event::Unknown(v) => Event::Unknown(v.clone()),
            Event::Exit => Event::Exit,
        }
    }

    /// Adds `top_left` to the offset of a mouse event; other events stay.
    pub fn relativize(&mut self, top_left: Vec2)
        requires
            *old(self) is Mouse ==> old(self)->Mouse_offset.x + top_left.x <= usize::MAX
                && old(self)->Mouse_offset.y + top_left.y <= usize::MAX,
        ensures
            match *old(self) {
                Event::Mouse { offset, position, event } => *final(self) == (Event::Mouse {
                    offset: Vec2 { x: (offset.x + top_left.x) as usize, y: (offset.y + top_left.y) as usize },
                    position,
                    event,
                }),
                _ => *final(self) == *old(self),
            },
    {
        if let Event::Mouse { ref mut offset, .. } = *self {
            *offset = offset.add(top_left);
        }
    }
}

} // verus!
