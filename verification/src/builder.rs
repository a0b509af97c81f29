//! The configuration from which service clients are built: how authentication credentials are
//! loaded, and the decision of which credentials to load.
use vstd::prelude::*;

verus! {

#[verifier::external_type_specification]
#[verifier::external_body]
pub struct ExIoError(std::io::Error);

/// The environment variable naming the service account credentials file.
pub const SERVICE_ACCOUNT_ENV_VAR: &'static str = "GOOGLE_APPLICATION_CREDENTIALS";

/// Configuration for loading service account credentials from file
#[derive(Debug, Clone)]
pub enum ServiceAccountAuth {
    /// Specifies that the service account credentials should be read from the path stored in the
    /// environment variable `GOOGLE_APPLICATION_CREDENTIALS`
    EnvVar,
    /// Specifies that the service account credentials should be read from the given path
    Path(String),
    /// Use the Application Default Service Account, which is often attached to a specific
    /// compute instance via metadata
    ApplicationDefault,
}

impl Default for ServiceAccountAuth {
    fn default() -> (r: Self)
        ensures
            r is EnvVar,
    {
        ServiceAccountAuth::EnvVar
    }
}

/// A marker to choose the mechanism by which authentication credentials should be loaded
#[derive(Debug, Clone)]
pub enum AuthFlow {
    /// Load credentials for a service account
    ServiceAccount(ServiceAccountAuth),
    /// Load credentials from an authorized user secret, such as the one created when
    /// running `gcloud auth application-default login`
    UserAccount(String),
    /// Impersonate a service account from a user account
    ServiceAccountImpersonation {
        /// Path to the user credentials
        user: String,
        /// Email address of the service account
        email: String,
    },
    /// Skip authentication.
    ///
    /// Requests will not include any authorization header. This can be useful for tests
    NoAuth,
}

impl Default for AuthFlow {
    fn default() -> (r: Self)
        ensures
            r matches AuthFlow::ServiceAccount(ServiceAccountAuth::EnvVar),
    {
        AuthFlow::ServiceAccount(ServiceAccountAuth::EnvVar)
    }
}

/// Configuration for creating a client builder
#[derive(Debug, Clone)]
pub struct ClientBuilderConfig {
    /// How authentication credentials should be loaded
    pub auth_flow: AuthFlow,
}

impl Default for ClientBuilderConfig {
    fn default() -> (r: Self)
        ensures
            r.auth_flow matches AuthFlow::ServiceAccount(ServiceAccountAuth::EnvVar),
    {
        ClientBuilderConfig { auth_flow: AuthFlow::ServiceAccount(ServiceAccountAuth::EnvVar) }
    }
}

impl ClientBuilderConfig {
    /// Construct a new instance with the default values
    pub fn new() -> (r: Self)
        ensures
            r.auth_flow matches AuthFlow::ServiceAccount(ServiceAccountAuth::EnvVar),
    {
        ClientBuilderConfig { auth_flow: AuthFlow::ServiceAccount(ServiceAccountAuth::EnvVar) }
    }

    /// Set this field to the given value
    pub fn auth_flow(self, auth_flow: AuthFlow) -> (r: Self)
        ensures
            r.auth_flow == auth_flow,
    {
        ClientBuilderConfig { auth_flow }
    }
}

/// The possible errors encountered when creating a client builder
#[derive(Debug)]
pub enum CreateBuilderError {
    /// An error in loading workload identity federation / external-account credentials from file
    ReadExternalAccountCredential(std::io::Error, String),
    /// An error in loading service account credentials from file
    ReadServiceAccountKey(std::io::Error, String),
    /// An error in loading user account secrets from file
    ReadUserSecrets(std::io::Error, String),
    /// An error in reading an environment variable
    CredentialsVarMissing,
    /// An error in initializing the authenticator
    Authenticator(std::io::Error),
    /// An error in initializing the HTTP connector, with its message
    Connector(String),
}

/// Where the credentials of a client builder come from, once its configuration and the
/// environment have been read.
#[derive(Debug, Clone)]
pub enum AuthSource {
    /// No credentials: requests carry no authorization header.
    NoAuth,
    /// A service account key (or external-account credentials) read from the given path.
    ServiceAccountKey(String),
    /// The application default credentials.
    ApplicationDefault,
    /// A service account impersonated from the user credentials at the given path.
    Impersonation {
        /// Path to the user credentials
        user: String,
        /// Email address of the service account
        email: String,
    },
    /// The authorized user secret at the given path.
    UserAccount(String),
}

/// Decides where credentials come from, given the configured flow and the value of
/// `GOOGLE_APPLICATION_CREDENTIALS` (`None` when unset). Reading the path from that variable
/// fails exactly when it is needed and unset.
pub fn auth_source(flow: AuthFlow, env_credentials: Option<String>) -> (r: Result<
    AuthSource,
    CreateBuilderError,
>)
    ensures
        match flow {
            AuthFlow::NoAuth => r matches Ok(AuthSource::NoAuth),
            AuthFlow::ServiceAccount(ServiceAccountAuth::Path(p)) => (r matches Ok(
                AuthSource::ServiceAccountKey(q),
            ) && q == p),
            AuthFlow::ServiceAccount(ServiceAccountAuth::EnvVar) => match env_credentials {
                Some(p) => (r matches Ok(AuthSource::ServiceAccountKey(q)) && q == p),
                None => r matches Err(CreateBuilderError::CredentialsVarMissing),
            },
            AuthFlow::ServiceAccount(ServiceAccountAuth::ApplicationDefault) => r matches Ok(
                AuthSource::ApplicationDefault,
            ),
            AuthFlow::ServiceAccountImpersonation { user, email } => (r matches Ok(
                AuthSource::Impersonation { user: u, email: e },
            ) && u == user && e == email),
            AuthFlow::UserAccount(p) => (r matches Ok(AuthSource::UserAccount(q)) && q == p),
        },
{
    match flow {
        AuthFlow::NoAuth => Ok(AuthSource::NoAuth),
        AuthFlow::ServiceAccount(ServiceAccountAuth::Path(p)) => Ok(AuthSource::ServiceAccountKey(p)),
        AuthFlow::ServiceAccount(ServiceAccountAuth::EnvVar) => match env_credentials {
            Some(p) => Ok(AuthSource::ServiceAccountKey(p)),
            None => Err(CreateBuilderError::CredentialsVarMissing),
        },
        AuthFlow::ServiceAccount(ServiceAccountAuth::ApplicationDefault) => Ok(
            AuthSource::ApplicationDefault,
        ),
        AuthFlow::ServiceAccountImpersonation { user, email } => Ok(
            AuthSource::Impersonation { user, email },
        ),
        AuthFlow::UserAccount(p) => Ok(AuthSource::UserAccount(p)),
    }
}

/// The value of the top-level `type` field of a JSON document, when the document parses and
/// that field is a string: a function of the document's text alone.
pub uninterp spec fn json_type_field(contents: Seq<char>) -> Option<Seq<char>>;

/// Reads the top-level `type` field of a JSON document with serde_json: `from_str` into a
/// `Value`, then `get("type")` and `as_str`. The contract names the result: what comes back
/// is `json_type_field` of the text, `None` when the text does not parse, has no such field,
/// or the field is not a string.
#[verifier::external_body]
fn read_json_type_field(contents: &str) -> (r: Option<String>)
    ensures
        match r {
            Some(t) => json_type_field(contents@) == Some(t@),
            None => json_type_field(contents@) is None,
        },
{
    serde_json::from_str::<serde_json::Value>(contents).ok().and_then(
        |v| v.get("type").and_then(|t| t.as_str()).map(|t| t.to_string()),
    )
}

/// The `type` that marks workload identity federation (external-account) credentials.
pub open spec fn external_account_type() -> Seq<char> {
    seq!['e', 'x', 't', 'e', 'r', 'n', 'a', 'l', '_', 'a', 'c', 'c', 'o', 'u', 'n', 't']
}

/// Whether a credentials file holds external-account credentials: a JSON document whose
/// `type` is `external_account`.
pub fn is_external_account_json(contents: &str) -> (r: bool)
    ensures
        r == (json_type_field(contents@) == Some(external_account_type())),
{
    match read_json_type_field(contents) {
        Some(t) => {
            let marker = "external_account";
            proof {
                reveal_strlit("external_account");
                assert(marker@ =~= external_account_type());
            }
            crate::text::str_eq(t.as_str(), marker)
        },
        None => false,
    }
}


} // verus!
