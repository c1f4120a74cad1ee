//! Configuration of the running service, as plain values: the HTTP bind
//! address and worker count, the upstream job-service client settings, and
//! the optional directory-service block whose presence enables the
//! authentication layer for the whole process.

use vstd::prelude::*;

verus! {

/// Command-line arguments.
pub struct CmdArgs {
    pub conf_path: String,
    pub print_version: bool,
}

/// Configuration for HTTP.
pub struct HTTP {
    pub addr: String,
    pub num_threads: usize,
}

/// Configuration for the directory service: where to bind, the
/// distinguished-name template (one `{}` placeholder for the user name),
/// and where the administrators' group lives.
pub struct LDAP {
    pub url: String,
    pub user_dn: String,
    pub admin_group_dn: String,
}

/// Configuration for the upstream job-service client.
pub struct LivyClient {
    pub url: String,
    pub gssnegotiate: Option<bool>,
    pub username: Option<String>,
}

/// Configuration for the whole service. The directory block is optional:
/// without it the authentication layer is disabled process-wide.
pub struct Config {
    pub http: HTTP,
    pub ldap: Option<LDAP>,
    pub livy_client: LivyClient,
}

impl Config {
    /// Whether callers must authenticate: exactly when a directory block
    /// is configured.
    pub fn auth_required(&self) -> (r: bool)
        ensures
            r == (self.ldap is Some),
    {
        match &self.ldap {
            Some(_) => true,
            None => false,
        }
    }
}

} // verus!
