//! Line-oriented change detection for the output of a repeatedly run command.
//!
//! A snapshot is the ordered list of lines that one run printed.
//! [`snapshot`] cuts captured output into lines, [`engine`] classifies every
//! line of two snapshots as unchanged, added or removed, with [`matcher`]
//! as its forward search, and [`watch`] decides from tick to tick whether a
//! capture is reported and which snapshot the next one is compared with.
//! [`config`] holds the settings of a watch and [`render`] the text of a
//! report. Running the command, reading the clock, sleeping and printing are
//! left to the program around the library.

pub mod event;
pub mod matcher;
pub mod engine;
pub mod snapshot;
pub mod watch;
pub mod config;
pub mod render;
