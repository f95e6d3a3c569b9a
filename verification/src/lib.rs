//! Decision logic of a recorder / player / auto-attacker for Clash of Clans,
//! verified with Verus. The I/O around it (input simulation, screen capture,
//! HTTP, files) lives in `app/`.
pub mod text;
pub mod coordinate_mapper;
pub mod config;
pub mod ai_analyzer;
pub mod auto_attacker;
pub mod recorder;
pub mod player;
pub mod screen_capture;
pub mod hotkeys;
pub mod ctrlc_like;
pub mod ui;
