//! What the operations are for, as laws on what they return: each law takes the arguments and the
//! result of one or more calls and says how they relate, in terms of characters, places and fields
//! alone.
pub mod config;
pub mod devices;
pub mod discovery;
pub mod ip;
pub mod loader;
pub mod server;
pub mod state;
pub mod telemetry;
pub mod text;
