//! State, reducers and layout of a terminal chat client.
//!
//! The library holds everything the client decides: how the transcript grows from turn frames, what
//! a key does, what the sidebar lists, which rows a screen shows, how a request or a session feed
//! proceeds from one reply to the next. It does no I/O. The program around it owns the terminal,
//! the connection and the files, performs what the library asks for and hands the outcome back.

pub mod api;
pub mod app;
pub mod app_laws;
pub mod auth;
pub mod bg;
pub mod bg_laws;
pub mod brief;
pub mod bytes;
pub mod card_laws;
pub mod chat;
pub mod chat_laws;
pub mod chat_view;
pub mod classic;
pub mod classic_laws;
pub mod event;
pub mod event_laws;
pub mod handler;
pub mod handler_laws;
pub mod input_laws;
pub mod input_view;
pub mod json;
pub mod json_laws;
pub mod palette;
pub mod refs;
pub mod report_laws;
pub mod screen;
pub mod screen_laws;
pub mod session_laws;
pub mod sidebar_laws;
pub mod state_laws;
pub mod text;
pub mod text_laws;
pub mod tool_laws;
pub mod tools;
pub mod transport;
pub mod ui;
pub mod ui_laws;
pub mod util;
pub mod wire;
pub mod wrap;
pub mod zyris_client;
