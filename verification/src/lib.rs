//! dodot's decision layer: the rules that map dotfiles on disk to what
//! gets deployed, adopted, reported and installed, stated and proved.
//!
//! Every module computes on plain values (strings, character sequences,
//! booleans, lists); reading and writing the filesystem, spawning
//! processes and talking to a terminal happen around this crate.

pub mod text;
pub mod paths;
pub mod infer;
pub mod rules;
pub mod gates;
pub mod git_alias;
pub mod classify;
pub mod display;
pub mod adopt;
pub mod adopt_run;
pub mod down;
pub mod numeric;
pub mod probe;
pub mod date_order;
pub mod profile_runs;
pub mod commands;
pub mod git_filters;
pub mod install;
pub mod help;
pub mod interactive;
pub mod logging;
pub mod safety;
pub mod tutorial;
pub mod handlers;

