//! Verified core of a local video tagging tool: analysis queue control,
//! agent segment-request checking, model-output cleanup, status tracking
//! and the text built for the local model.

pub mod ai;
pub mod json;
pub mod media;
pub mod models;
pub mod text;
pub mod ui;
