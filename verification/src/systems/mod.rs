pub mod pancurses_renderer_system;
pub mod curses_mouse;
pub mod debug_tab_system;
pub mod quit_system;
pub mod input_axis_system;
pub mod input_velocity_system;
pub mod destruction_test_input_system;
pub mod curses_keyboard_system;
pub mod pancurses_input_system;
pub mod pancurses_prev_next_input_system;
pub mod pancurses_input_axis_system;
pub mod input_system;
pub mod list_system;
pub mod pancurses_window_system;
pub mod curses_window_system;
pub mod curses_renderer;
pub mod curses_colors;
pub mod local_mouse_position_system;
pub mod curses_input_buffer_system;
pub mod control_order;
