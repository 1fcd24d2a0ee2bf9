# rouch

The rules behind the Rouch desktop's Linux layer, as a Rust library whose
behaviour is stated in contracts and proved by Verus: choosing outputs and
modes, recovering a DRM session, normalizing input, routing keys and presses
through the shell, stacking client windows and popups, drawing surfaces into
memory, and reading what Flatpak, sysfs and `/proc` say.

## Layout

- `src/` is the verified library. Floating-point values that arrive from
  devices are held as their IEEE 754 bit patterns (`binary32`, `binary64`).
  - `outputs`, `output_discovery`, `output_registry`, `native`, `drm`: displays
  - `key_repeat`, `shortcuts`, `input`, `shell_input`: input
  - `session`, `compat`, `xwayland`, `data_device`, `dbus_contract`: the host
  - `app_store`, `flatpak_rows`, `flatpak_cache`, `flatpak_backend`: Flatpak
  - `shell`, `shell_keys`, `shell_press`, `scene`, `grabs`, `host`: the shell
  - `window_stack`, `popups`, `reconcile`: client windows
  - `pixel`, `micro_font`, `drawing`, `decorations`, `fonts`: drawing
  - `font_files`, `font_bytes`, `font_maps`, `font_layout`, `font_outlines`,
    `font_indexes`, `font_programs`: what is checked of a font file before it is
    parsed
  - `gallery`, `notifications`, `setup_card`, `screens`, `dock_view`,
    `finder_view`, `settings_view`: the surfaces as display lists
  - `settings`, `system_texts`, `readings`, `finder`, `game_mode`: the system
  - `design`, `render_policy`: materials and budgets
  - `text`, `pieces`, `paths`, `decimals`, `sizes`, `num`, `geometry`: the ground
    that the others stand on
- `tests/` runs the library on concrete values.
- `app/` is ordinary Rust around it: processes, files, the environment, floating
  point, font rasterizing, smithay surfaces, outputs, input and grabs, and the
  loops of the nested and the native session.
