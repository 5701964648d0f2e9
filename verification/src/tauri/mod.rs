//! What the desktop front end exchanges with the back end: events, requests and
//! responses, handler checks, and the application state.
pub mod commands;
pub mod events;
pub mod handlers;
pub mod state;
