use vstd::prelude::*;

verus! {

/// The scope for reading and writing Bigtable data.
pub const BIGTABLE_DATA_SCOPE: &'static str = "https://www.googleapis.com/auth/bigtable.data";

/// The scope for only reading Bigtable data.
pub const BIGTABLE_DATA_READONLY_SCOPE: &'static str =
    "https://www.googleapis.com/auth/bigtable.data.readonly";

/// Configuration for connecting to bigtable
#[derive(Debug, Clone, PartialEq, Eq, Hash)]
pub struct BigtableConfig {
    /// Endpoint to connect to bigtable over.
    pub endpoint: String,
    /// Whether this client should be created with only read permission.
    pub readonly: bool,
}

impl BigtableConfig {
    /// Construct a new instance with the default values
    pub fn new() -> (c: Self)
        ensures
            c.endpoint@ == "https://bigtable.googleapis.com"@,
            !c.readonly,
    {
        BigtableConfig {
            endpoint: String::from_str("https://bigtable.googleapis.com"),
            readonly: false,
        }
    }

    /// Set the endpoint to the given value
    pub fn endpoint(self, endpoint: String) -> (c: Self)
        ensures
            c.endpoint == endpoint,
            c.readonly == self.readonly,
    {
        BigtableConfig { endpoint, ..self }
    }

    /// Set whether the client is read-only
    pub fn readonly(self, readonly: bool) -> (c: Self)
        ensures
            c.endpoint == self.endpoint,
            c.readonly == readonly,
    {
        BigtableConfig { readonly, ..self }
    }

    /// The authorization scopes for a client with this configuration: read-only data access
    /// for a read-only client, data access otherwise.
    pub fn auth_scopes(&self) -> (r: Vec<String>)
        ensures
            r@.len() == 1,
            r@[0]@ == if self.readonly {
                BIGTABLE_DATA_READONLY_SCOPE@
            } else {
                BIGTABLE_DATA_SCOPE@
            },
    {
        let mut r = Vec::new();
        if self.readonly {
            r.push(String::from_str(BIGTABLE_DATA_READONLY_SCOPE));
        } else {
            r.push(String::from_str(BIGTABLE_DATA_SCOPE));
        }
        r
    }
}

impl Default for BigtableConfig {
    fn default() -> (c: Self)
        ensures
            c.endpoint@ == "https://bigtable.googleapis.com"@,
            !c.readonly,
    {
        BigtableConfig::new()
    }
}

} // verus!
