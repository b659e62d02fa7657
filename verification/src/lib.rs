pub mod color;
pub mod pancurses_color;
pub mod primitive_types;
pub mod curses_input;
pub mod entry_map;
pub mod components;
pub mod systems;
pub mod cpu_shader;
pub mod curses_cell;
pub mod scenes;
