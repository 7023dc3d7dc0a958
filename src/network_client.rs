use vstd::prelude::*;

verus! {

/// The seconds a request may take unless configured otherwise.
pub const DEFAULT_TIMEOUT_SECS: u64 = 30;

/// Where requests of a remote service go. The requests themselves are made
/// by the caller; this type holds the address and the time limit.
#[derive(Debug, Clone)]
pub struct NetworkClient {
    pub base_url: String,
    pub timeout_secs: u64,
}

impl NetworkClient {
    /// A client for `base_url` with the default time limit.
    pub fn new(base_url: String) -> (r: Self)
        ensures
            r.base_url@ == base_url@,
            r.timeout_secs == DEFAULT_TIMEOUT_SECS,
    {
        NetworkClient { base_url, timeout_secs: DEFAULT_TIMEOUT_SECS }
    }

    /// The address of `path` under the base address.
    pub fn url_for(&self, path: &str) -> (r: String)
        ensures
            r@ == self.base_url@ + seq!['/'] + path@,
    {
        let mut url = self.base_url.clone();
        proof {
            reveal_strlit("/");
        }
        url.append("/");
        url.append(path);
        url
    }
}

} // verus!
