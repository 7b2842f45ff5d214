//! A playlist catalogue with typo-tolerant search.
//!
//! The crate reads an extended playlist into channels, groups the channels
//! into a catalogue, and filters and ranks catalogue entries against what a
//! user types. It also holds the rules of the screens that show the catalogue
//! and of the command line of the player that is started for a channel.

pub mod catalog;
pub mod extinf;
pub mod m3u;
pub mod mpv;
pub mod params;
pub mod playlist;
pub mod search;
pub mod text;
pub mod ui;
pub mod views;
