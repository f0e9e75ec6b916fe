use vstd::prelude::*;

verus! {

/// `reqwest::Client`, carried through as an opaque value: nothing is claimed of it.
#[verifier::external_type_specification]
#[verifier::external_body]
pub struct ExClient(reqwest::Client);

/// `reqwest::ClientBuilder`, carried through as an opaque value: nothing is claimed of it.
#[verifier::external_type_specification]
#[verifier::external_body]
pub struct ExClientBuilder(reqwest::ClientBuilder);

/// `reqwest::Client::builder`: a builder with reqwest's default settings (opaque).
#[verifier::external_body]
fn client_builder() -> (r: reqwest::ClientBuilder) {
    reqwest::Client::builder()
}

/// `reqwest::ClientBuilder::connect_timeout`: the builder, now with a timeout of `secs`
/// seconds on connecting (opaque).
#[verifier::external_body]
fn with_connect_timeout(b: reqwest::ClientBuilder, secs: u64) -> (r: reqwest::ClientBuilder) {
    b.connect_timeout(std::time::Duration::from_secs(secs))
}

/// `reqwest::ClientBuilder::timeout`: the builder, now with a timeout of `secs` seconds on
/// each request as a whole (opaque).
#[verifier::external_body]
fn with_timeout(b: reqwest::ClientBuilder, secs: u64) -> (r: reqwest::ClientBuilder) {
    b.timeout(std::time::Duration::from_secs(secs))
}

/// `reqwest::ClientBuilder::build`: the client, or `None` where reqwest reports an error
/// (its documentation: a TLS backend or the system's resolver cannot be set up). Whether it
/// fails rests on the machine, so nothing is claimed of it.
#[verifier::external_body]
fn build_client(b: reqwest::ClientBuilder) -> (r: Option<reqwest::Client>) {
    b.build().ok()
}

/// `reqwest::Client::new`: a client with reqwest's default settings (opaque). As its
/// documentation says, it panics where a TLS backend or the system's resolver cannot be set
/// up, which rests on the machine and no argument decides; that is not stated here.
#[verifier::external_body]
fn default_client() -> (r: reqwest::Client) {
    reqwest::Client::new()
}

/// The seconds that the client that talks to the engines waits for a connection.
pub const CONNECT_TIMEOUT_SECS: u64 = 5;

/// The seconds that the client that talks to the engines waits for a whole request.
pub const REQUEST_TIMEOUT_SECS: u64 = 30;

/// `sysinfo::System`, carried through as an opaque value: nothing is claimed of it.
#[verifier::external_type_specification]
#[verifier::external_body]
pub struct ExSystem(sysinfo::System);

/// What the worker holds on to between requests: the HTTP client that talks to the engines,
/// and the snapshot of the machine's processes that finds an engine's executable.
pub struct WorkerResources {
    pub http_client: Option<reqwest::Client>,
    pub process_snapshot: Option<sysinfo::System>,
}

impl WorkerResources {
    /// Nothing held yet.
    pub fn new() -> (r: Self)
        ensures
            r.http_client is None,
            r.process_snapshot is None,
    {
        WorkerResources { http_client: None, process_snapshot: None }
    }

    /// Builds the HTTP client that every request to the engines uses: one that waits
    /// `CONNECT_TIMEOUT_SECS` seconds for a connection and `REQUEST_TIMEOUT_SECS` for a whole
    /// request, or, where that cannot be built, one with reqwest's default settings.
    pub fn init_http_client(&mut self)
        ensures
            final(self).http_client is Some,
            final(self).process_snapshot == old(self).process_snapshot,
    {
        let b = with_timeout(with_connect_timeout(client_builder(), CONNECT_TIMEOUT_SECS), REQUEST_TIMEOUT_SECS);
        let client = match build_client(b) {
            Some(c) => c,
            None => default_client(),
        };
        self.http_client = Some(client);
    }

    /// Drops the HTTP client.
    pub fn shutdown_http_client(&mut self)
        ensures
            final(self).http_client is None,
            final(self).process_snapshot == old(self).process_snapshot,
    {
        self.http_client = None;
    }

    /// Drops the snapshot of the processes.
    pub fn cleanup_system_cache(&mut self)
        ensures
            final(self).process_snapshot is None,
            final(self).http_client == old(self).http_client,
    {
        self.process_snapshot = None;
    }
}

} // verus!
