pub mod arguments;
pub mod commands;
pub mod config;
pub mod dispatcher;
pub mod event_handler;
pub mod json;
pub mod localization;
pub mod logger;
pub mod rng;
pub mod text;
pub mod transport;
pub mod util;
