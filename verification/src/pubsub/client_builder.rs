use vstd::prelude::*;

verus! {

/// Configuration for connecting to pubsub
#[derive(Debug, Clone, PartialEq, Eq, Hash)]
pub struct PubSubConfig {
    /// Endpoint to connect to pubsub over, as a URI in its normalized form.
    pub endpoint: String,
    /// The authorization scopes to use when requesting auth tokens
    pub auth_scopes: Vec<String>,
    /// The number of underlying connections to the gRPC servers. Requests will be load
    /// balanced across these connections
    pub connection_pool_size: usize,
}

/// The default Pub/Sub endpoint.
pub open spec fn default_pubsub_endpoint() -> Seq<char> {
    "https://pubsub.googleapis.com:443/"@
}

impl PubSubConfig {
    /// Construct a new instance with the default values
    pub fn new() -> (c: Self)
        ensures
            c.endpoint@ == default_pubsub_endpoint(),
            c.auth_scopes@.len() == 2,
            c.auth_scopes@[0]@ == "https://www.googleapis.com/auth/cloud-platform"@,
            c.auth_scopes@[1]@ == "https://www.googleapis.com/auth/pubsub"@,
            c.connection_pool_size == 4,
    {
        let mut auth_scopes: Vec<String> = Vec::new();
        auth_scopes.push(String::from_str("https://www.googleapis.com/auth/cloud-platform"));
        auth_scopes.push(String::from_str("https://www.googleapis.com/auth/pubsub"));
        PubSubConfig {
            endpoint: String::from_str("https://pubsub.googleapis.com:443/"),
            auth_scopes,
            connection_pool_size: 4,
        }
    }

    /// Set the endpoint to the given value
    pub fn endpoint(self, endpoint: String) -> (c: Self)
        ensures
            c == (PubSubConfig { endpoint, ..self }),
    {
        PubSubConfig { endpoint, ..self }
    }

    /// Set the authorization scopes to the given value
    pub fn auth_scopes(self, auth_scopes: Vec<String>) -> (c: Self)
        ensures
            c == (PubSubConfig { auth_scopes, ..self }),
    {
        PubSubConfig { auth_scopes, ..self }
    }

    /// Set the connection pool size to the given value
    pub fn connection_pool_size(self, connection_pool_size: usize) -> (c: Self)
        ensures
            c == (PubSubConfig { connection_pool_size, ..self }),
    {
        PubSubConfig { connection_pool_size, ..self }
    }
}

impl Default for PubSubConfig {
    fn default() -> (c: Self)
        ensures
            c.endpoint@ == default_pubsub_endpoint(),
            c.auth_scopes@.len() == 2,
            c.auth_scopes@[0]@ == "https://www.googleapis.com/auth/cloud-platform"@,
            c.auth_scopes@[1]@ == "https://www.googleapis.com/auth/pubsub"@,
            c.connection_pool_size == 4,
    {
        PubSubConfig::new()
    }
}

} // verus!
