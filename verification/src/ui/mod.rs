pub mod commands;
pub mod status;
