//! Core logic of a terminal front end for Cargo: command lists, key bindings,
//! manifest and metadata interpretation, crates.io result shaping, output
//! processing and the application state machine.

pub mod text;

pub mod workspace;
pub mod crates_io;
pub mod config;
pub mod runner;
pub mod app;
pub mod ui;
