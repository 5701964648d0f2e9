//! Log parsing for a desktop log viewer: single-format parsers (Spring Boot,
//! Docker JSON, MyBatis, plain text), filter chains that combine several
//! formats, a unified display format, and the checks and state behind the user
//! interface.
//!
//! Text is modelled by `Seq<char>` views; what a function returns is stated over
//! spec functions on those views.
pub mod text;
pub mod bytes;
pub mod metadata;
pub mod models;
pub mod foreign;
pub mod plugins;
pub mod utils;
pub mod tauri;
pub mod tail;
pub mod session;
