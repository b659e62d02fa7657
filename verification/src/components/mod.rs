pub mod control_component;
pub mod curses_palette;
pub mod input_axis;
pub mod local_mouse_position_component;
pub mod pancurses_color_component;
pub mod pancurses_color_set_component;
pub mod pancurses_mouse_component;
pub mod int_range;
pub mod pancurses_input_buffer_component;
pub mod window_component;
