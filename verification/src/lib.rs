//! Rouch's Linux desktop layer: the rules behind its outputs, input, session,
//! shell routing and software drawing, with their contracts.

pub mod app_store;
pub mod binary32;
pub mod binary64;
pub mod compat;
pub mod data_device;
pub mod dbus_contract;
pub mod decimals;
pub mod decorations;
pub mod design;
pub mod dock_view;
pub mod drawing;
pub mod drm;
pub mod finder;
pub mod finder_view;
pub mod flatpak_backend;
pub mod flatpak_cache;
pub mod flatpak_rows;
pub mod font_bytes;
pub mod font_files;
pub mod font_indexes;
pub mod font_layout;
pub mod font_maps;
pub mod font_outlines;
pub mod font_programs;
pub mod fonts;
pub mod gallery;
pub mod game_mode;
pub mod geometry;
pub mod grabs;
pub mod host;
pub mod input;
pub mod key_repeat;
pub mod micro_font;
pub mod native;
pub mod notifications;
pub mod num;
pub mod output_discovery;
pub mod output_registry;
pub mod outputs;
pub mod paths;
pub mod pieces;
pub mod pixel;
pub mod popups;
pub mod readings;
pub mod reconcile;
pub mod render_policy;
pub mod scene;
pub mod screens;
pub mod session;
pub mod settings;
pub mod settings_view;
pub mod setup_card;
pub mod shell;
pub mod shell_input;
pub mod shell_keys;
pub mod shell_press;
pub mod shortcuts;
pub mod sizes;
pub mod system_texts;
pub mod text;
pub mod window_stack;
pub mod xwayland;
