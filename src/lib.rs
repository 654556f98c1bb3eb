//! Client library for xDS, the discovery protocol of service proxies.
pub mod client;
pub mod error;
pub mod resource;
pub mod transport;
pub mod wire;

pub use client::builder::XdsClientBuilder;
pub use client::{ClientConfig, TlsConfig};
pub use resource::XdsResource;
