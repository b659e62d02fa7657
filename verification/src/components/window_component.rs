//! Components that hold the curses window of a window entity.

use vstd::prelude::*;

verus! {

/// The window handle of pancurses. Nothing about a window is visible to
/// the library; it is only carried.
#[verifier::external_type_specification]
#[verifier::external_body]
pub struct ExWindow(pancurses::Window);

/// Holds the curses window of a window entity once it is open. A copy
/// holds no window, since a window cannot be shared.
#[derive(Debug)]
pub struct PancursesWindowComponent {
    window: Option<pancurses::Window>,
}

impl PancursesWindowComponent {
    /// Whether the window is open.
    pub closed spec fn is_open(&self) -> bool {
        self.window is Some
    }

    /// Without a window.
    pub fn new() -> (component: Self)
        ensures
            !component.is_open(),
    {
        PancursesWindowComponent { window: None }
    }

    /// The window, once it is open.
    pub fn get_window(&self) -> (window: Option<&pancurses::Window>)
        ensures
            window is Some == self.is_open(),
    {
        self.window.as_ref()
    }

    /// Stores the window (or none).
    pub fn set_window(&mut self, window: Option<pancurses::Window>)
        ensures
            final(self).is_open() == window is Some,
    {
        self.window = window;
    }
}

impl Clone for PancursesWindowComponent {
    /// Without a window.
    fn clone(&self) -> (component: Self)
        ensures
            !component.is_open(),
    {
        PancursesWindowComponent::new()
    }
}

impl Default for PancursesWindowComponent {
    fn default() -> (component: Self)
        ensures
            !component.is_open(),
    {
        PancursesWindowComponent::new()
    }
}

/// Holds the curses window of a window entity once it is open
/// (event-queue variant). A copy holds no window.
#[derive(Debug)]
pub struct CursesWindowComponent {
    window: Option<pancurses::Window>,
}

impl CursesWindowComponent {
    /// Whether the window is open.
    pub closed spec fn is_open(&self) -> bool {
        self.window is Some
    }

    /// Without a window.
    pub fn new() -> (component: Self)
        ensures
            !component.is_open(),
    {
        CursesWindowComponent { window: None }
    }

    /// The window, once it is open.
    pub fn get_window(&self) -> (window: Option<&pancurses::Window>)
        ensures
            window is Some == self.is_open(),
    {
        self.window.as_ref()
    }

    /// Stores the window (or none).
    pub fn set_window(&mut self, window: Option<pancurses::Window>)
        ensures
            final(self).is_open() == window is Some,
    {
        self.window = window;
    }
}

impl Clone for CursesWindowComponent {
    /// Without a window.
    fn clone(&self) -> (component: Self)
        ensures
            !component.is_open(),
    {
        CursesWindowComponent::new()
    }
}

impl Default for CursesWindowComponent {
    fn default() -> (component: Self)
        ensures
            !component.is_open(),
    {
        CursesWindowComponent::new()
    }
}

} // verus!
