//! Terminal events: keys, resizes and the periodic tick.
use vstd::prelude::*;

verus! {

/// The key that was pressed; keys this program does not use are `Other`.
#[derive(Debug, Clone, Copy, PartialEq, Eq, Structural)]
pub enum KeyCode {
    Char(char),
    Enter,
    Esc,
    Backspace,
    Tab,
    Up,
    Down,
    PageUp,
    PageDown,
    Other,
}

/// Whether a key went down, repeats, or went up.
#[derive(Debug, Clone, Copy, PartialEq, Eq, Structural)]
pub enum KeyEventKind {
    Press,
    Repeat,
    Release,
}

/// A key event from the terminal.
#[derive(Debug, Clone, Copy, PartialEq, Eq, Structural)]
pub struct KeyEvent {
    pub code: KeyCode,
    pub kind: KeyEventKind,
}

/// What the terminal reported when it was read.
#[derive(Debug, Clone, Copy, PartialEq, Eq, Structural)]
pub enum TermEvent {
    Key(KeyEvent),
    Resize(u16, u16),
    Other,
}

/// The events the program reacts to.
#[derive(Debug, Clone, Copy, PartialEq, Eq, Structural)]
pub enum Event {
    Tick,
    Key(KeyEvent),
    Resize(u16, u16),
}

/// The event for what a poll of the terminal gave (`None`: nothing came
/// within the tick): a key only when it was pressed, a resize as it is, and a
/// tick for everything else.
pub open spec fn event_of(polled: Option<TermEvent>) -> Event {
    match polled {
        Some(TermEvent::Key(k)) => if k.kind == KeyEventKind::Press {
            Event::Key(k)
        } else {
            Event::Tick
        },
        Some(TermEvent::Resize(w, h)) => Event::Resize(w, h),
        _ => Event::Tick,
    }
}

/// Turns what the terminal gave into an event; releases and repeats of keys
/// are ticks, since some terminals report them and others do not.
pub fn event_from(polled: Option<TermEvent>) -> (r: Event)
    ensures
        r == event_of(polled),
{
    match polled {
        Some(TermEvent::Key(k)) => {
            match k.kind {
                KeyEventKind::Press => Event::Key(k),
                _ => Event::Tick,
            }
        },
        Some(TermEvent::Resize(w, h)) => Event::Resize(w, h),
        _ => Event::Tick,
    }
}

/// Waits for terminal events, with a tick after each period without one.
pub struct EventHandler {
    tick_rate_ms: u64,
}

impl EventHandler {
    /// The period of the tick, in milliseconds.
    pub closed spec fn tick_rate(&self) -> u64 {
        self.tick_rate_ms
    }

    /// A handler that ticks every `tick_rate_ms` milliseconds.
    pub fn new(tick_rate_ms: u64) -> (r: EventHandler)
        ensures
            r.tick_rate() == tick_rate_ms,
    {
        EventHandler { tick_rate_ms }
    }

    /// The period of the tick, in milliseconds.
    pub fn tick_rate_ms(&self) -> (r: u64)
        ensures
            r == self.tick_rate(),
    {
        self.tick_rate_ms
    }
}

/// Only a pressed key is a key event: a release or a repeat of it is a tick,
/// as is anything the terminal reports but a key or a resize.
pub proof fn lemma_keys_only_when_pressed(k: KeyEvent)
    ensures
        event_of(Some(TermEvent::Key(k))) == if k.kind == KeyEventKind::Press {
            Event::Key(k)
        } else {
            Event::Tick
        },
        event_of(None) == Event::Tick,
        event_of(Some(TermEvent::Other)) == Event::Tick,
{
}

} // verus!
