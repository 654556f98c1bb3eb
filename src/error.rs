//! Error types for the xDS client.
use vstd::prelude::*;
use crate::wire::WireError;

verus! {

/// Error type for the xDS client.
#[derive(Clone, Debug)]
pub enum Error {
    /// Stream establishment or mid-stream I/O failure.
    Transport(String),
    /// Server-signalled RPC error.
    GrpcStatus(String),
    /// Protobuf parse or typed-projection failure.
    Decode(WireError),
    /// Facade-to-worker delivery failure, e.g. the worker is gone.
    Watch(String),
    /// Invalid URI or TLS material at construction.
    Config(String),
    /// Expected protobuf field absent when projecting a typed view.
    FieldMissing(String),
}

} // verus!
