//! Process state driven by the render/event loop: window geometry,
//! pointer position and the running flag, together with the transition
//! function that delegate callbacks and the event pump apply to it.

use crate::framebuffer::Buffer;
use crate::framebuffer::cleared_bytes;
use crate::framebuffer::drawn_bytes;
use crate::pointer::SCREEN_HEIGHT;
use crate::pointer::spec_translate;
use crate::pointer::to_window_local;
use vstd::prelude::*;

verus! {

/// Width of the rectangle drawn under the cursor each frame.
pub const RECT_WIDTH: usize = 100;

/// Height of the rectangle drawn under the cursor each frame.
pub const RECT_HEIGHT: usize = 150;

/// The host window's current origin and size in screen coordinates.
pub struct WindowState {
    pub origin: (isize, isize),
    pub size: (isize, isize),
}

impl WindowState {
    /// The initial window geometry: origin (600, 600), size (500, 500).
    pub fn new() -> (w: WindowState)
        ensures
            w.origin == (600isize, 600isize),
            w.size == (500isize, 500isize),
    {
        WindowState { origin: (600, 600), size: (500, 500) }
    }
}

/// One observation handed to the state machine: a pump event or a window
/// delegate notification.
pub enum Input {
    /// The pointer moved; carries its screen-space location.
    PointerMoved { screen_x: isize, screen_y: isize },
    /// Any other windowing event; the toolkit alone handles it.
    Other,
    /// The window's will-close notification.
    WillClose,
    /// The window's did-resize notification, with the new frame size.
    DidResize { width: isize, height: isize },
    /// The window's did-move notification, with the new frame origin.
    DidMove { x: isize, y: isize },
}

/// The mathematical model of the process state.
pub struct Model {
    pub origin: (int, int),
    pub size: (int, int),
    pub pointer: (int, int),
    pub running: bool,
}

/// The transition that one input applies to the model.
pub open spec fn step(s: Model, e: Input) -> Model {
    match e {
        Input::PointerMoved { screen_x, screen_y } => Model {
            pointer: spec_translate(screen_x as int, screen_y as int, s.origin.0),
            ..s
        },
        Input::Other => s,
        Input::WillClose => Model { running: false, ..s },
        Input::DidResize { width, height } => Model { size: (width as int, height as int), ..s },
        Input::DidMove { x, y } => Model { origin: (x as int, y as int), ..s },
    }
}

/// The model after a whole sequence of inputs, applied in order.
pub open spec fn run(s: Model, es: Seq<Input>) -> Model
    decreases es.len(),
{
    if es.len() == 0 {
        s
    } else {
        run(step(s, es[0]), es.subrange(1, es.len() as int))
    }
}

/// Once the running flag is false, no later input makes it true again.
pub proof fn lemma_running_monotonic(s: Model, es: Seq<Input>)
    requires
        !s.running,
    ensures
        !run(s, es).running,
    decreases es.len(),
{
    if es.len() > 0 {
        lemma_running_monotonic(step(s, es[0]), es.subrange(1, es.len() as int));
    }
}

/// The will-close notification stops the loop for good: afterwards the
/// running flag is false under every later input sequence.
pub proof fn lemma_will_close_is_final(s: Model, es: Seq<Input>)
    ensures
        !run(step(s, Input::WillClose), es).running,
{
    lemma_running_monotonic(step(s, Input::WillClose), es);
}

/// The live process state: window geometry, pointer position in
/// framebuffer-local coordinates, and the running flag.
pub struct AppState {
    pub window: WindowState,
    pub pointer: (isize, isize),
    pub running: bool,
}

impl AppState {
    /// The model this state denotes.
    pub open spec fn model(self) -> Model {
        Model {
            origin: (self.window.origin.0 as int, self.window.origin.1 as int),
            size: (self.window.size.0 as int, self.window.size.1 as int),
            pointer: (self.pointer.0 as int, self.pointer.1 as int),
            running: self.running,
        }
    }

    /// The initial state: window at (600, 600) sized (500, 500), pointer at
    /// (0, 0), running.
    pub fn new() -> (s: AppState)
        ensures
            s.model() == (Model {
                origin: (600, 600),
                size: (500, 500),
                pointer: (0, 0),
                running: true,
            }),
    {
        AppState { window: WindowState::new(), pointer: (0, 0), running: true }
    }

    /// Will-close notification: stop the loop; nothing else changes.
    pub fn on_will_close(&mut self)
        ensures
            final(self).model() == step(old(self).model(), Input::WillClose),
    {
        self.running = false;
    }

    /// Did-resize notification: record the window's new size; nothing else
    /// changes. The framebuffer is never resized.
    pub fn on_did_resize(&mut self, width: isize, height: isize)
        ensures
            final(self).model() == step(old(self).model(), Input::DidResize { width, height }),
    {
        self.window.size = (width, height);
    }

    /// Did-move notification: record the window's new origin; nothing else
    /// changes.
    pub fn on_did_move(&mut self, x: isize, y: isize)
        ensures
            final(self).model() == step(old(self).model(), Input::DidMove { x, y }),
    {
        self.window.origin = (x, y);
    }

    /// Does the translated pointer position fit in machine integers?
    pub open spec fn pointer_fits(self, e: Input) -> bool {
        match e {
            Input::PointerMoved { screen_x, screen_y } => {
                &&& isize::MIN <= screen_x - self.window.origin.0 <= isize::MAX
                &&& isize::MIN <= SCREEN_HEIGHT - screen_y <= isize::MAX
            },
            _ => true,
        }
    }

    /// Apply one pump event or delegate notification to the state:
    /// pointer-moved events move the pointer through the screen-to-window
    /// translation, will-close clears the running flag, resize and move
    /// update the window geometry, and any other event changes nothing.
    pub fn handle_event(&mut self, e: Input)
        requires
            old(self).pointer_fits(e),
        ensures
            final(self).model() == step(old(self).model(), e),
    {
        match e {
            Input::PointerMoved { screen_x, screen_y } => {
                self.pointer = to_window_local(screen_x, screen_y, self.window.origin.0);
            },
            Input::Other => {},
            Input::WillClose => {
                self.on_will_close();
            },
            Input::DidResize { width, height } => {
                self.on_did_resize(width, height);
            },
            Input::DidMove { x, y } => {
                self.on_did_move(x, y);
            },
        }
    }

    /// One frame's rasterization: clear the framebuffer, then draw the
    /// fixed-size cursor rectangle at the current pointer position.
    pub fn frame_render(&self, buf: &mut Buffer)
        requires
            old(buf).wf(),
            self.pointer.0 + RECT_WIDTH <= isize::MAX,
            self.pointer.1 + RECT_HEIGHT <= isize::MAX,
        ensures
            final(buf).wf(),
            final(buf).width == old(buf).width,
            final(buf).height == old(buf).height,
            final(buf).allocation@.len() == old(buf).allocation@.len(),
            final(buf).allocation@ == drawn_bytes(
                cleared_bytes(old(buf).allocation@.len()),
                old(buf).width as int,
                self.pointer.0 as int,
                self.pointer.1 as int,
                RECT_WIDTH as int,
                RECT_HEIGHT as int,
            ),
    {
        buf.clear();
        buf.draw_square(self.pointer.0, self.pointer.1, RECT_WIDTH, RECT_HEIGHT);
    }
}

} // verus!
