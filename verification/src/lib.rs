//! A gateway's core: named API credentials are turned, once at startup, into
//! one authenticated client per credential and service domain; a request
//! names its credential and is handed the matching client.

pub mod app;
pub mod handler;
pub mod keys;
pub mod registry;
pub mod sdk;
pub mod settings;
pub mod source;
pub mod text;
