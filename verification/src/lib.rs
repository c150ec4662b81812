//! Issue-browser logic: filtering, sorting, key handling and text rendering
//! for a terminal client of Linear's issue tracker.
pub mod text;
pub mod linear;
pub mod filters;
pub mod paths;
pub mod project;
pub mod extensions;
pub mod app;
pub mod style;
pub mod markdown;
pub mod keys;
pub mod ui;
