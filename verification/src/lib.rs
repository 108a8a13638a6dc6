use vstd::prelude::*;

pub mod cursor_blink;
mod text;
pub mod window_state;
pub mod overlay_data;
pub mod render_mode;
pub mod dirty_rect;
pub mod toast;
pub mod screen;
pub mod version;
pub mod config_overlay;
pub mod overlay_state;
pub mod overlay_persistence;
pub mod input;
pub mod port_forward;
pub mod overlay_events;
pub mod devcontainer_overlay;
pub mod d2b;
pub mod resize;
pub mod overlay_colors;
pub mod pixel_fill;
pub mod text_order;
pub mod surface_resize;
pub mod fancy_tab_bar;
pub mod overlay_view;
pub mod monitor_diagram;
pub mod d2b_picker;
pub mod overlay_screens;
pub mod overlay_theme;
pub mod cpu_frame;
pub mod titlebar;
pub mod webgpu_config;
pub mod dpi_scale;
