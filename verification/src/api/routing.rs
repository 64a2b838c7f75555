//! The API's endpoints and what they answer.
use vstd::prelude::*;

verus! {

/// What the API answers to an authentication.
pub struct Authentication {
    pub access_token: String,
}

/// An endpoint of the API, with the fields of its JSON body.
pub enum Endpoint {
    Authenticate { id: String, secret: String, discord_id_hash: String },
}

/// The address that `reqwest::Url::join` gives for `path` below the
/// parsed address `base`; `None` where either step fails.
pub uninterp spec fn url_join(base: Seq<char>, path: Seq<char>) -> Option<Seq<char>>;

/// Parses `base` with `reqwest::Url::parse`, joins `path` to it with
/// `Url::join` and gives the result's text; `None` where parsing or joining
/// fails. A function of the two texts.
#[verifier::external_body]
fn join_url(base: &str, path: &str) -> (r: Option<String>)
    ensures
        match r {
            Some(u) => url_join(base@, path@) == Some(u@),
            None => url_join(base@, path@) is None,
        },
{
    reqwest::Url::parse(base).and_then(|b| b.join(path)).ok().map(|u| u.as_str().to_owned())
}

impl Endpoint {
    /// The path of the endpoint, below the API server's address; requests
    /// to it are POST requests.
    pub fn route(&self) -> (p: &'static str)
        ensures
            p@ == "/auth/"@,
    {
        match self {
            Endpoint::Authenticate { .. } => "/auth/",
        }
    }

    /// The address a request to the endpoint goes to, on the API server at
    /// `server` (what `to_request` builds); `None` where it is no address.
    pub fn request_url(&self, server: &str) -> (r: Option<String>)
        ensures
            match r {
                Some(u) => url_join(server@, "/auth/"@) == Some(u@),
                None => url_join(server@, "/auth/"@) is None,
            },
    {
        join_url(server, self.route())
    }
}

} // verus!
