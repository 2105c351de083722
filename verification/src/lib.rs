//! The logic of a terminal music player.
pub mod app;
pub mod artwork;
pub mod double;
pub mod entries;
pub mod json;
pub mod keys;
pub mod laws;
pub mod layout;
pub mod model;
pub mod mpv;
pub mod path;
pub mod state;
pub mod steps;
pub mod text;
pub mod theme;
pub mod view;
