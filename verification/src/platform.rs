//! The headless platform: a window that is never shown, and no events.

use crate::error::IoError;
use std::time::Duration;
use vstd::prelude::*;

verus! {

/// A size in logical pixels.
#[derive(Clone, Copy, Debug, PartialEq, Eq, Structural)]
pub struct LogicalSize {
    pub width: u32,
    pub height: u32,
}

/// A button of the mouse.
#[derive(Clone, Copy, Debug, PartialEq, Eq, Structural)]
pub enum MouseButton {
    Left,
    Right,
    Middle,
}

/// Whether a button went down or up.
#[derive(Clone, Copy, Debug, PartialEq, Eq, Structural)]
pub enum InputState {
    Pressed,
    Released,
}

/// An event of a window.
#[derive(Clone, Copy, Debug, PartialEq, Eq, Structural)]
pub enum WindowEvent {
    Resized(LogicalSize),
    CloseRequested,
    MouseInput(MouseButton, InputState),
}

/// A wish about a window.
#[derive(Clone, Copy, Debug, PartialEq, Eq, Structural)]
pub enum WindowHint {
    Resizable(bool),
    Visible(bool),
}

/// What draws into a window.
#[derive(Clone, Copy, Debug, PartialEq, Eq, Structural)]
pub enum GraphicsContext {
    Gl,
    Headless,
}

/// The events of a window that gets none.
#[derive(Debug)]
pub struct Events {
    handle: (),
}

impl Events {
    /// Waits for events. Since none come, returns at once.
    pub fn wait(&mut self)
        ensures
            *final(self) == *old(self),
    {
    }

    /// Waits for events up to a timeout. Since none come, returns at once.
    pub fn wait_timeout(&mut self, _timeout: Duration)
        ensures
            *final(self) == *old(self),
    {
    }

    /// Polls for events.
    pub fn poll(&mut self)
        ensures
            *final(self) == *old(self),
    {
    }

    /// The events that came: none.
    pub fn flush(&self) -> (r: Vec<WindowEvent>)
        ensures
            r@ == Seq::<WindowEvent>::empty(),
    {
        Vec::new()
    }
}

/// A window that is never shown.
#[derive(Debug)]
pub struct Window {
    size: LogicalSize,
}

impl Window {
    /// The size that the window was made with.
    pub closed spec fn spec_size(&self) -> LogicalSize {
        self.size
    }

    /// Asks for a redraw, of which there is none.
    pub fn request_redraw(&self) {
    }

    /// The window's handle: itself.
    pub fn handle(&self) -> (r: &Self)
        ensures
            *r == *self,
    {
        self
    }

    /// Shows or hides the cursor, of which there is none.
    pub fn set_cursor_visible(&mut self, _visible: bool)
        ensures
            *final(self) == *old(self),
    {
    }

    /// The size of the window.
    pub fn size(&self) -> (r: LogicalSize)
        ensures
            r == self.spec_size(),
    {
        self.size
    }

    /// Whether the window has the focus: always.
    pub fn is_focused(&self) -> (r: bool)
        ensures
            r,
    {
        true
    }

    /// Whether the window is about to close: never.
    pub fn is_closing(&self) -> (r: bool)
        ensures
            !r,
    {
        false
    }

    /// Presents a frame, which nobody sees.
    pub fn present(&self) {
    }

    /// What the clipboard holds: nothing.
    pub fn clipboard(&self) -> (r: Option<String>)
        ensures
            r is None,
    {
        None
    }
}

/// Opens a window of a size, and its events. The title, the hints and the
/// graphics context make no difference.
pub fn init(
    _title: &str,
    w: u32,
    h: u32,
    _hints: &[WindowHint],
    _context: GraphicsContext,
) -> (r: Result<(Window, Events), IoError>)
    ensures
        r is Ok,
        r->Ok_0.0.spec_size() == (LogicalSize { width: w, height: h }),
{
    Ok((Window { size: LogicalSize { width: w, height: h } }, Events { handle: () }))
}

} // verus!
