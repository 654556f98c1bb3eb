//! The client side: configuration, builder and the session worker.
pub mod builder;
pub mod config;
pub mod worker;

pub use config::{ClientConfig, TlsConfig};
