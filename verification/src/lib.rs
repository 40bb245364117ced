//! Control plane for self-hosted apps on a single host: the registry of
//! installed apps, the lifecycle decisions that install, edit and remove
//! them, the parser of service-manager status reports, host telemetry, and the
//! authenticated session that carries commands and telemetry.

pub mod app_manager;
pub mod error;
pub mod lifecycle;
pub mod paths;
pub mod registry;
pub mod server_config;
pub mod service;
pub mod session;
pub mod text;
pub mod unit;
