//! Opening the curses window of a window entity and following terminal
//! resizes.

use vstd::prelude::*;

use crate::components::window_component::CursesWindowComponent;
use crate::curses_input::CursesInput;
use crate::primitive_types::{CursesCommand, Vector2I};
use crate::systems::curses_keyboard_system::{resize_commands, resize_count, translate_key_inputs};

verus! {

/// How a window entity's curses window is opened: its size in rows and
/// columns and its title.
#[derive(Debug, Clone)]
pub struct CursesWindowSetup {
    pub width: i32,
    pub height: i32,
    pub title: String,
}

/// The setup of a window `size` cells large: its title, or "Antigen".
fn setup_for(size: Vector2I, title: Option<String>) -> (setup: CursesWindowSetup)
    ensures
        setup.width == size.0 as i32,
        setup.height == size.1 as i32,
        setup.title@ == match title {
            Some(t) => t@,
            None => "Antigen"@,
        },
{
    let title = match title {
        Some(t) => t,
        None => "Antigen".to_owned(),
    };
    CursesWindowSetup { width: size.0 as i32, height: size.1 as i32, title }
}

/// One request to adopt the new terminal size when the inputs hold any
/// resize report, none otherwise.
pub open spec fn settle_commands(inputs: Seq<CursesInput>) -> Seq<CursesCommand> {
    if resize_count(inputs) > 0 {
        seq![CursesCommand::ResizeTerm]
    } else {
        Seq::empty()
    }
}

fn settle_resize(inputs: &Vec<CursesInput>) -> (commands: Vec<CursesCommand>)
    ensures
        commands@ == settle_commands(inputs@),
{
    let (resizes, _) = translate_key_inputs(inputs);
    let mut commands: Vec<CursesCommand> = Vec::new();
    if resizes.len() > 0 {
        commands.push(CursesCommand::ResizeTerm);
    }
    assert(commands@ =~= settle_commands(inputs@));
    commands
}

/// Opens the curses window of the window entity and keeps its size
/// (event-queue variant).
#[derive(Debug, Copy, Clone)]
pub struct CursesWindow;

impl CursesWindow {
    /// Whether a window still has to be opened for the component: only
    /// when it holds none yet.
    pub fn needs_window(&self, component: &CursesWindowComponent) -> (needed: bool)
        ensures
            needed == !component.is_open(),
    {
        component.get_window().is_none()
    }

    /// How to open the window: `size` cells large, with its title or
    /// "Antigen".
    pub fn window_setup(&self, size: Vector2I, title: Option<String>) -> (setup: CursesWindowSetup)
        ensures
            setup.width == size.0 as i32,
            setup.height == size.1 as i32,
            setup.title@ == match title {
                Some(t) => t@,
                None => "Antigen"@,
            },
    {
        setup_for(size, title)
    }

    /// After the window exists: one request to adopt the new terminal size
    /// when the queued inputs hold a resize report.
    pub fn resize_commands(&self, inputs: &Vec<CursesInput>) -> (commands: Vec<CursesCommand>)
        ensures
            commands@ == settle_commands(inputs@),
    {
        settle_resize(inputs)
    }

    /// The window size, from the last row and column that curses reports.
    pub fn window_size(&self, max_y: i32, max_x: i32) -> (size: Vector2I)
        ensures
            size == Vector2I(max_x as i64, max_y as i64),
    {
        Vector2I(max_x as i64, max_y as i64)
    }
}

/// Opens the curses window of the window entity and keeps its size.
#[derive(Debug, Copy, Clone)]
pub struct CursesWindowSystem;

impl CursesWindowSystem {
    pub fn new() -> (system: Self) {
        CursesWindowSystem
    }

    /// Whether a window still has to be opened for the component: only
    /// when it holds none yet.
    pub fn needs_window(&self, component: &CursesWindowComponent) -> (needed: bool)
        ensures
            needed == !component.is_open(),
    {
        component.get_window().is_none()
    }

    /// How to open the window: `size` cells large, with its title or
    /// "Antigen".
    pub fn window_setup(&self, size: Vector2I, title: Option<String>) -> (setup: CursesWindowSetup)
        ensures
            setup.width == size.0 as i32,
            setup.height == size.1 as i32,
            setup.title@ == match title {
                Some(t) => t@,
                None => "Antigen"@,
            },
    {
        setup_for(size, title)
    }

    /// Before the window is looked at: one request to adopt the new terminal
    /// size per queued resize report.
    pub fn queued_resizes(&self, inputs: &Vec<CursesInput>) -> (commands: Vec<CursesCommand>)
        ensures
            commands@ == resize_commands(inputs@),
    {
        let (resizes, _) = translate_key_inputs(inputs);
        resizes
    }

    /// Once a window entity exists: one more request to adopt the new size
    /// when the queued inputs hold a resize report.
    pub fn settle_resize(&self, inputs: &Vec<CursesInput>) -> (commands: Vec<CursesCommand>)
        ensures
            commands@ == settle_commands(inputs@),
    {
        settle_resize(inputs)
    }

    /// The window size, from the last row and column that curses reports.
    pub fn window_size(&self, max_y: i32, max_x: i32) -> (size: Vector2I)
        ensures
            size == Vector2I(max_x as i64, max_y as i64),
    {
        Vector2I(max_x as i64, max_y as i64)
    }
}

} // verus!
