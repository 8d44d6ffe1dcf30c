pub mod autostart;
pub mod cli;
pub mod components;
pub mod env;
pub mod jobs;
pub mod registry;
pub mod snapshot;
pub mod stack;
pub mod status;
pub mod text;
