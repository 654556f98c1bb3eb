//! Configuration for the xDS client.
use vstd::prelude::*;

verus! {

/// TLS material for the connection to the xDS server.
#[derive(Clone, Debug)]
pub struct TlsConfig {
    /// The CA certificate to use for the TLS connection.
    pub ca_cert_pem: Option<Vec<u8>>,
    /// The client certificate to use for the TLS connection.
    pub client_cert_pem: Option<Vec<u8>>,
    /// The client key to use for the TLS connection.
    pub client_key_pem: Option<Vec<u8>>,
    /// The domain name to use for the TLS connection.
    pub domain_name: Option<String>,
}

impl TlsConfig {
    /// Whether the client presents an identity: only with both certificate and key.
    pub fn mutual_tls(&self) -> (r: bool)
        ensures
            r == (self.client_cert_pem is Some && self.client_key_pem is Some),
    {
        self.client_cert_pem.is_some() && self.client_key_pem.is_some()
    }
}

impl Default for TlsConfig {
    fn default() -> (r: TlsConfig)
        ensures
            r.ca_cert_pem is None && r.client_cert_pem is None && r.client_key_pem is None && r.domain_name is None,
    {
        TlsConfig { ca_cert_pem: None, client_cert_pem: None, client_key_pem: None, domain_name: None }
    }
}

/// Configuration for the xDS client.
#[derive(Clone, Debug)]
pub struct ClientConfig {
    /// The URI of the xDS server to connect to.
    pub server_uri: String,
    /// The node ID to use for the xDS connection.
    pub node_id: String,
    /// Pause between connection attempts, in milliseconds.
    pub connect_timeout_ms: u64,
    /// The TLS configuration to use for the xDS connection.
    pub tls_config: Option<TlsConfig>,
}

impl Default for ClientConfig {
    fn default() -> (r: ClientConfig)
        ensures
            r.server_uri@ == "http://localhost:50005"@,
            r.node_id@ == "grpc"@,
            r.connect_timeout_ms == 5000,
            r.tls_config is None,
    {
        ClientConfig {
            server_uri: "http://localhost:50005".to_owned(),
            node_id: "grpc".to_owned(),
            connect_timeout_ms: 5000,
            tls_config: None,
        }
    }
}

} // verus!
