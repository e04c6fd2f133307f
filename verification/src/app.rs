//! The viewer's window-event decisions: what to do for each event, given
//! whether the render state exists yet.
use vstd::prelude::*;

verus! {

/// The window events the viewer reacts to.
#[derive(Clone, Copy, Debug, PartialEq, Eq)]
pub enum WindowEvent {
    CloseRequested,
    Resized { width: u32, height: u32 },
    RedrawRequested,
    /// Any other event.
    Other,
}

/// What the event loop must do in answer to a window event.
#[derive(Clone, Copy, Debug, PartialEq, Eq)]
pub enum AppAction {
    /// Leave the event loop.
    Exit,
    /// Resize the render state.
    Resize { width: u32, height: u32 },
    /// Draw a frame.
    Render,
    /// Do nothing.
    Nothing,
}

/// The answer to `event`: nothing at all while there is no render state;
/// otherwise a close request exits, a resize resizes, a redraw request renders,
/// and anything else is ignored.
pub open spec fn spec_window_action(has_state: bool, event: WindowEvent) -> AppAction {
    if !has_state {
        AppAction::Nothing
    } else {
        match event {
            WindowEvent::CloseRequested => AppAction::Exit,
            WindowEvent::Resized { width, height } => AppAction::Resize { width, height },
            WindowEvent::RedrawRequested => AppAction::Render,
            WindowEvent::Other => AppAction::Nothing,
        }
    }
}

/// The viewer: the WAD file it shows and, once the window exists, its render
/// state `S`.
pub struct App<S> {
    wad_name: String,
    state: Option<S>,
}

impl<S> View for App<S> {
    type V = (Seq<char>, Option<S>);

    closed spec fn view(&self) -> (Seq<char>, Option<S>) {
        (self.wad_name@, self.state)
    }
}

impl<S> App<S> {
    /// A viewer of `wad_name` with no render state yet.
    pub fn new(wad_name: &str) -> (r: Self)
        ensures
            r@.0 == wad_name@,
            r@.1 is None,
    {
        App { wad_name: wad_name.to_owned(), state: None }
    }

    /// The name of the WAD file shown.
    pub fn wad_name(&self) -> (r: &str)
        ensures
            r@ == self@.0,
    {
        self.wad_name.as_str()
    }

    /// Takes the render state delivered to the event loop.
    pub fn user_event(&mut self, event: S)
        ensures
            final(self)@ == (old(self)@.0, Some(event)),
    {
        self.state = Some(event);
    }

    /// Decides what the event loop does with a window event.
    pub fn window_event(&self, event: WindowEvent) -> (r: AppAction)
        ensures
            r == spec_window_action(self@.1 is Some, event),
    {
        if self.state.is_none() {
            return AppAction::Nothing;
        }
        match event {
            WindowEvent::CloseRequested => AppAction::Exit,
            WindowEvent::Resized { width, height } => AppAction::Resize { width, height },
            WindowEvent::RedrawRequested => AppAction::Render,
            WindowEvent::Other => AppAction::Nothing,
        }
    }

    /// The render state, if it exists, to act on.
    pub fn state_mut(&mut self) -> (r: Option<&mut S>)
        ensures
            final(self)@.0 == old(self)@.0,
            match old(self)@.1 {
                None => r is None && final(self)@.1 is None,
                Some(s) => r matches Some(x) && *x == s && final(self)@.1 == Some(*final(x)),
            },
    {
        self.state.as_mut()
    }
}

} // verus!
