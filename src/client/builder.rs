//! Builder for the xDS client.
use vstd::prelude::*;
use crate::client::config::ClientConfig;
use crate::client::worker::SotwWorker;

verus! {

/// Builder for the xDS client.
#[derive(Debug)]
pub struct XdsClientBuilder {
    config: ClientConfig,
}

impl XdsClientBuilder {
    pub closed spec fn spec_config(&self) -> ClientConfig {
        self.config
    }

    /// Create a new builder with the given configuration.
    pub fn new(config: ClientConfig) -> (r: Self)
        ensures
            r.spec_config() == config,
    {
        Self { config }
    }

    /// The configuration the client will be built with.
    pub fn config(&self) -> (r: &ClientConfig)
        ensures
            *r == self.spec_config(),
    {
        &self.config
    }

    /// The session worker that a built client runs: no subscription yet.
    pub fn into_worker(self) -> (r: SotwWorker)
        ensures
            r.wf(),
            r.subs().len() == 0,
            r.spec_config() == self.spec_config(),
    {
        SotwWorker::new(self.config)
    }
}

} // verus!
