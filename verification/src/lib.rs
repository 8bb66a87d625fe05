//! Fluent UI SVG icons for `iced` applications.
//!
//! The crate holds what the icon macros and the icon server decide and compute:
//!
//! - [`naming`] turns the stem of an SVG file into the name of a Rust function;
//! - [`variant`] and [`files`] say which files are icons, of which variant, in which order;
//! - [`stubs`] writes the stub function of an icon, and [`inventory`] finds the calls of such
//!   functions and says what takes their place;
//! - [`catalogue`], [`search`], [`overview`] and [`schema`] hold the icon catalogue, the
//!   answers to a search, and the texts and tools that the server offers;
//! - [`json`] and [`protocol`] are the server's side of JSON-RPC, one message to a line;
//! - [`text`] holds the operations on text that the others are stated over.

pub mod catalogue;
pub mod files;
pub mod inventory;
pub mod json;
pub mod naming;
pub mod overview;
pub mod protocol;
pub mod schema;
pub mod search;
pub mod stubs;
pub mod text;
pub mod variant;
