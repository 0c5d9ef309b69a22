//! What the client does about each event of its window.
//!
//! The event loop itself belongs to the windowing layer. It hands each event
//! over as a [`Signal`], and carries out the [`Reaction`] it gets back.

use vstd::prelude::*;

verus! {

/// An event of the window, reduced to what the client looks at.
#[derive(Clone, Copy, Debug, PartialEq, Eq, Structural)]
pub enum Signal {
    /// All events of this turn of the loop have been handed over.
    EventsCleared,
    /// The window asks to be drawn.
    RedrawRequested,
    /// The window has a new size, in pixels.
    Resized { width: u32, height: u32 },
    /// The user asked for the window to be closed.
    CloseRequested,
    /// The escape key went down.
    EscapePressed,
    /// The window gained (`true`) or lost (`false`) the focus.
    Focused(bool),
    /// The cursor came into the window.
    CursorEntered,
    /// The cursor left the window.
    CursorLeft,
    /// An event of a device, not of the window.
    Device,
    /// Any other event.
    Other,
}

/// What the client does about a signal.
#[derive(Clone, Copy, Debug, PartialEq, Eq, Structural)]
pub enum Reaction {
    /// Ask the window for a redraw.
    RequestRedraw,
    /// Render a frame.
    Render,
    /// Fit the swap chain to the new size of the window.
    Resize { width: u32, height: u32 },
    /// Leave the loop, and give the cursor back: not grabbed, and visible.
    Exit,
    /// Grab the cursor and hide it.
    GrabCursor,
    /// Give the cursor back: not grabbed, and visible.
    ReleaseCursor,
    /// Nothing to do.
    Ignore,
}

/// Whether the window has the focus after `signal`, if it had it (`focused`)
/// or not before.
pub open spec fn focus_after(focused: bool, signal: Signal) -> bool {
    match signal {
        Signal::Focused(now) => now,
        _ => focused,
    }
}

/// The reaction to `signal`. It does not depend on the focus: device events
/// are ignored with and without it.
pub open spec fn reaction_to(signal: Signal) -> Reaction {
    match signal {
        Signal::EventsCleared => Reaction::RequestRedraw,
        Signal::RedrawRequested => Reaction::Render,
        Signal::Resized { width, height } => Reaction::Resize { width, height },
        Signal::CloseRequested => Reaction::Exit,
        Signal::EscapePressed => Reaction::Exit,
        Signal::Focused(_) => Reaction::Ignore,
        Signal::CursorEntered => Reaction::GrabCursor,
        Signal::CursorLeft => Reaction::ReleaseCursor,
        Signal::Device => Reaction::Ignore,
        Signal::Other => Reaction::Ignore,
    }
}

/// One step of the event loop: the focus after the signal, and what to do
/// about it.
pub fn react(focused: bool, signal: Signal) -> (step: (bool, Reaction))
    ensures
        step.0 == focus_after(focused, signal),
        step.1 == reaction_to(signal),
{
    match signal {
        Signal::EventsCleared => (focused, Reaction::RequestRedraw),
        Signal::RedrawRequested => (focused, Reaction::Render),
        Signal::Resized { width, height } => (focused, Reaction::Resize { width, height }),
        // Handle requests to close the window...
        Signal::CloseRequested | Signal::EscapePressed => (focused, Reaction::Exit),
        // The focus is tracked so that device events can be told apart by it.
        Signal::Focused(now) => (now, Reaction::Ignore),
        Signal::CursorEntered => (focused, Reaction::GrabCursor),
        Signal::CursorLeft => (focused, Reaction::ReleaseCursor),
        // Device events are ignored if the window does not have the focus,
        // and there is nothing to do about them if it has.
        Signal::Device => (focused, Reaction::Ignore),
        Signal::Other => (focused, Reaction::Ignore),
    }
}

} // verus!
