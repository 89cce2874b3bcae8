//! The data that travels through the pipeline.

pub mod config;
pub mod device_event;
pub mod hdi;

pub use config::Config;
pub use device_event::DeviceEvent;
pub use device_event::InterfaceRole;
pub use hdi::Hdi;
