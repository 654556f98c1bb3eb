//! Resources for xDS: a type URL and a decoder from payload bytes to a typed view.
use vstd::prelude::*;
use crate::error::Error;

pub mod listener;
pub mod route;

pub use listener::ListenerResource;
pub use route::RouteResource;

verus! {

/// A kind of xDS resource.
pub trait XdsResource {
    /// The typed view that a payload decodes to.
    type Resource;

    /// `r` is what `decode` owes on `data`.
    spec fn decodes_to(data: Seq<u8>, r: Result<Self::Resource, Error>) -> bool;

    /// The type URL of the resource.
    fn type_url() -> &'static str;

    /// Decodes a resource from its payload bytes.
    fn decode(data: &[u8]) -> (r: Result<Self::Resource, Error>)
        ensures
            Self::decodes_to(data@, r),
    ;
}

} // verus!
