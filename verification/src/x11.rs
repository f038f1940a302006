//! The state of the backend that draws into a window of a host display
//! server.

use vstd::prelude::*;
use crate::output::OutputMode;

verus! {

/// Refresh rate advertised for the window's output, in millihertz.
pub const WINDOW_REFRESH: i32 = 60_000;

/// What the host window reports.
#[derive(Clone, Copy, Debug, PartialEq, Eq, Hash, Structural)]
pub enum X11Event {
    /// The user asked to close the window.
    CloseRequested,
    /// The window has a new size.
    Resized { w: u16, h: u16 },
    /// The host presented the last buffer.
    PresentCompleted,
    /// The host asks for the window's contents.
    Refresh,
    /// Input for the compositor.
    Input,
}

/// What the caller does about an event of the host window.
#[derive(Clone, Copy, Debug, PartialEq, Eq, Hash, Structural)]
pub enum X11Action {
    /// Stop the event loop.
    Stop,
    /// Replace the mode of the output by the given one, as its current and
    /// preferred mode, and lay the outputs out anew.
    ChangeMode(OutputMode),
    /// Hand the input on.
    ProcessInput,
    /// Nothing.
    Nothing,
}

/// How drawing a frame into the window went.
#[derive(Clone, Copy, Debug, PartialEq, Eq, Hash, Structural)]
pub enum X11Frame {
    /// The frame was drawn and the host took the buffer.
    Submitted,
    /// The frame was drawn but the host refused the buffer.
    SubmitFailed,
    /// Drawing failed.
    RenderFailed,
}

/// The mode of a window of `w` by `h` pixels.
pub open spec fn window_mode(w: u16, h: u16) -> OutputMode {
    OutputMode { width: w as i32, height: h as i32, refresh: WINDOW_REFRESH }
}

/// The state of the windowed backend: whether a frame is due, and the mode
/// of its one output.
#[derive(Clone, Copy, Debug, PartialEq, Eq, Structural)]
pub struct X11Data {
    pub render: bool,
    pub mode: OutputMode,
}

impl X11Data {
    /// The state after `event`.
    pub open spec fn after_event(self, event: X11Event) -> X11Data {
        match event {
            X11Event::Resized { w, h } => X11Data { render: true, mode: window_mode(w, h) },
            X11Event::PresentCompleted => X11Data { render: true, ..self },
            X11Event::Refresh => X11Data { render: true, ..self },
            _ => self,
        }
    }

    /// What the caller does about `event`.
    pub open spec fn action_for(event: X11Event) -> X11Action {
        match event {
            X11Event::CloseRequested => X11Action::Stop,
            X11Event::Resized { w, h } => X11Action::ChangeMode(window_mode(w, h)),
            X11Event::Input => X11Action::ProcessInput,
            _ => X11Action::Nothing,
        }
    }

    /// The state after a frame was drawn with outcome `frame`: another
    /// frame is due unless the host took this one.
    pub open spec fn after_frame(self, frame: X11Frame) -> X11Data {
        X11Data { render: self.render && frame != X11Frame::Submitted, ..self }
    }

    /// The state for a window of `w` by `h` pixels: a first frame is due.
    pub fn new(w: u16, h: u16) -> (data: X11Data)
        ensures
            data == (X11Data { render: true, mode: window_mode(w, h) }),
    {
        X11Data {
            render: true,
            mode: OutputMode { width: w as i32, height: h as i32, refresh: WINDOW_REFRESH },
        }
    }

    /// The name of the seat.
    pub fn seat_name(&self) -> (name: String)
        ensures
            name@ == "x11"@,
    {
        String::from_str("x11")
    }

    /// Takes note of `event` and says what the caller does about it. A new
    /// size, a presented buffer and a refresh request each make a frame
    /// due.
    pub fn handle_event(&mut self, event: X11Event) -> (action: X11Action)
        ensures
            *final(self) == old(self).after_event(event),
            action == X11Data::action_for(event),
    {
        match event {
            X11Event::CloseRequested => X11Action::Stop,
            X11Event::Resized { w, h } => {
                let mode = OutputMode {
                    width: w as i32,
                    height: h as i32,
                    refresh: WINDOW_REFRESH,
                };
                self.mode = mode;
                self.render = true;
                X11Action::ChangeMode(mode)
            },
            X11Event::PresentCompleted => {
                self.render = true;
                X11Action::Nothing
            },
            X11Event::Refresh => {
                self.render = true;
                X11Action::Nothing
            },
            X11Event::Input => X11Action::ProcessInput,
        }
    }

    /// Takes note of how drawing a frame went. Returns whether the buffers
    /// of the window are to be reset: they are whenever the host did not
    /// take the frame.
    pub fn frame_drawn(&mut self, frame: X11Frame) -> (reset: bool)
        ensures
            *final(self) == old(self).after_frame(frame),
            reset == (frame != X11Frame::Submitted),
    {
        match frame {
            X11Frame::Submitted => {
                self.render = false;
                false
            },
            _ => true,
        }
    }
}

} // verus!
