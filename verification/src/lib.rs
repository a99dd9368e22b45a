//! The core of a REST gateway for Tapo smart-home devices: discovery of devices on the LAN, the
//! configuration and the devices loaded from it, connections to devices, and the decisions of the
//! server around them.
pub mod cmd;
pub mod config;
pub mod devices;
pub mod discovery;
pub mod ip;
pub mod laws;
pub mod loader;
pub mod server;
pub mod startup;
pub mod state;
pub mod telemetry;
pub mod text;
