# weezterm

The decision logic of the Weezterm GUI, as a library whose behaviour is
stated in `requires` / `ensures` contracts and proved with Verus.

Weezterm is a WezTerm-based terminal with remote SSH extensions: a
configuration overlay, port forwarding and DevContainer overlays, a d2b
shell launcher, toast notifications, window state persistence, and several
render paths for Windows (DirectComposition, classic swap chain, and a CPU
renderer for remote desktop sessions).

## Layout

- `src/` — the verified library. Each module holds the plain-value model
  of one part of the GUI and the functions that decide what it does:
  - configuration overlay: `overlay_data` (field tables, domain models),
    `config_overlay` (values and names), `overlay_state` (the overlay's
    state), `overlay_events` (what each input does), `overlay_view` and
    `overlay_theme` (what is drawn, and in which colors),
    `overlay_persistence` (the saved JSON document), `monitor_diagram`;
  - other overlays: `port_forward`, `devcontainer_overlay`,
    `overlay_screens`, `d2b`, `d2b_picker`, `input`;
  - windows and rendering: `window_state`, `screen`, `resize`,
    `surface_resize`, `webgpu_config`, `render_mode`, `dirty_rect`,
    `pixel_fill`, `cpu_frame`, `fancy_tab_bar`, `overlay_colors`,
    `titlebar`, `cursor_blink`;
  - `toast` (notifications), `version`;
  - `text` and `text_order`: string helpers and `String`-ordered sorting.
- `tests/` — tests run against the compiled library.
- `app/` — the code around the library that does I/O: reading and writing
  the saved files, the environment, JSON conversion through `serde_json`,
  and floating-point formatting.
