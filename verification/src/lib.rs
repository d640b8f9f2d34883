//! Shao: the computing core of a lightweight Linux server sentinel.
//!
//! The library holds the configuration model, the parsers for kernel
//! interfaces, the classification and accounting rules for telemetry, and the
//! decisions of the HTTP API. Reading files, talking to sockets and serving
//! HTTP is left to the caller.

pub mod text;
pub mod sensors;
pub mod config;
pub mod system;
pub mod docker;
pub mod dockge;
pub mod immich;
pub mod api;
pub mod collector;
pub mod db;
