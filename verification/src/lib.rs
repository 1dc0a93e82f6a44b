//! The decisions of a physically modelled piano.
//!
//! A piano synthesiser computes samples in floating point, but nearly everything
//! that decides *which* samples it computes is exact: which key a name stands
//! for, what a controller's bytes mean, which voice a command reaches, when a
//! damper is up, how long a delay line is and what it reads back. This crate holds
//! those decisions, each with a contract that says what it decides, and the laws
//! that hold of them together.
//!
//! - [`binary32`], [`rounding`] and [`math`] compare, round and bound the numbers
//!   that parameters are given in.
//! - [`text`], [`params`] and [`units`] read notes, keys, tunings and rates.
//! - [`noise`], [`delay`], [`filter`], [`dispersion`], [`hammer`], [`string`],
//!   [`excitation`], [`striking`] and [`waveguide`] are one string and what strikes it;
//!   [`unison`], [`coupling`], [`bridge`] and [`soundboard`] are what joins the strings,
//!   and [`building`] builds them.
//! - [`sounding`] and [`rendering`] turn strings into samples, and [`rendering_laws`]
//!   says that they always turn them into the same.
//! - [`commands`], [`queue`], [`engine`], [`session`] and [`studio`] carry what is
//!   played from a control thread to the voices, and [`playing`] from the voices to the
//!   strings; [`keyboard_laws`] says what holds whatever is played, and [`playing_laws`]
//!   that what is played is heard.
//! - [`midi`], [`ports`] and [`keyboard`] turn controllers and keys into commands.
//! - [`voicing`], [`velocity_curve`], [`mixdown`], [`limiter`], [`render`],
//!   [`stream`], [`timing`] and [`denormals`] surround the renderer.
//!
//! A contract says what one function does; a law says what holds of what the functions
//! leave, in terms of what they were given, whatever the steps in between.
//!
//! - [`number_laws`] and [`bounds_laws`] are about numbers and keeping them in range,
//!   [`note_laws`] about keys, names and letters.
//! - [`path_laws`], [`contact_laws`], [`strike_laws`] and [`string_laws`] are about one
//!   string and what strikes it, [`coupling_laws`] and [`sounding_laws`] about the strings
//!   of a note, whichever their places, [`building_laws`] and [`voicing_laws`] about how
//!   they are built and voiced.
//! - [`command_laws`] and [`engine_laws`] say what each command reaches, key by key and
//!   string by string; [`block_laws`], [`output_laws`] and [`render_laws`] what becomes of
//!   every sample.
//! - [`midi_laws`], [`port_laws`], [`session_laws`] and [`timing_laws`] are about what
//!   surrounds the instrument.
//!
//! The arithmetic itself is the caller's: a function that needs a sum or a product
//! of samples takes the operation as an argument, and its contract says what the
//! operation is handed and where its result goes; [`outcome`] says what it takes for
//! such an operation to have one result.

pub mod binary32;
pub mod block_laws;
pub mod bounds_laws;
pub mod bridge;
pub mod building;
pub mod building_laws;
pub mod command_laws;
pub mod commands;
pub mod contact_laws;
pub mod coupling;
pub mod coupling_laws;
pub mod delay;
pub mod denormals;
pub mod dispersion;
pub mod engine;
pub mod engine_laws;
pub mod excitation;
pub mod filter;
pub mod hammer;
pub mod keyboard;
pub mod keyboard_laws;
pub mod limiter;
pub mod math;
pub mod midi;
pub mod midi_laws;
pub mod mixdown;
pub mod noise;
pub mod note_laws;
pub mod number_laws;
pub mod outcome;
pub mod output_laws;
pub mod params;
pub mod path_laws;
pub mod playing;
pub mod playing_laws;
pub mod port_laws;
pub mod ports;
pub mod queue;
pub mod render;
pub mod render_laws;
pub mod rendering;
pub mod rendering_laws;
pub mod rounding;
pub mod session;
pub mod session_laws;
pub mod soundboard;
pub mod sounding;
pub mod sounding_laws;
pub mod stream;
pub mod strike_laws;
pub mod striking;
pub mod string;
pub mod string_laws;
pub mod studio;
pub mod text;
pub mod timing;
pub mod timing_laws;
pub mod unison;
pub mod units;
pub mod velocity_curve;
pub mod voicing;
pub mod voicing_laws;
pub mod waveguide;
