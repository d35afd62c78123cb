//! Verified core logic of the Hachimi game-enhancement mod: plugin registries,
//! caption filtering, message-pack response inspection, download planning,
//! the localized-data directory list, the settings editor's normalisation
//! rules, and the small state machines behind the overlay and the engine hooks.

pub mod text;
pub mod plugins;
pub mod captions;
pub mod msgpack;
pub mod download;
pub mod frame_rate;
pub mod screen;
pub mod android;
pub mod dex;
pub mod text_anchor;
pub mod gui_state;
pub mod theme;
pub mod data_dirs;
pub mod an_text;
pub mod game_ui;
pub mod settings;
