//! A view-state engine for browsing a JSON document in a terminal.
//!
//! A document is laid out once as a sequence of rows (`parse_json`,
//! `json_item`). The state of a session (`app_state`) holds the rows with
//! their collapse, visibility and search flags, the selection, the render
//! window and the query; its operations are stated over a mathematical model
//! of the state (`model`), and `laws` proves what holds of every state.
//! `commands` maps keys to commands and commands to operations, so that a
//! caller only reads keys and draws what `display_items` hands out.

pub mod app_state;
pub mod breadcrumbs;
pub mod commands;
pub mod json_item;
pub mod laws;
pub mod model;
pub mod nesting;
pub mod parse_json;
pub mod scroll;
pub mod search;
pub mod text;
pub mod visibility;
