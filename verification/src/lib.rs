//! Verified core of a keyboard and mouse macro recorder and player.
//!
//! The library holds the data model of a macro, the compiler that turns a
//! timestamped stream of raw input events into macro steps, the playback state
//! machine, scancode and mouse-stroke conversions, hotkey matching, and the
//! small decisions that the surrounding application makes around them.

pub mod input;
pub mod event;
pub mod scancode;
pub mod mouse;
pub mod stroke;
pub mod text;
pub mod ids;
pub mod macro_def;
pub mod compile;
pub mod compile_laws;
pub mod compile_timing;
pub mod player;
pub mod player_laws;
pub mod roundtrip;
pub mod error;
pub mod status;
pub mod hotkey;
pub mod recorder;
pub mod settings;
pub mod dto;
pub mod session;
pub mod editing;
pub mod install;
pub mod wide;
