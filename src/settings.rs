use vstd::prelude::*;

verus! {

/// Host names that links and cookies are built from.
#[derive(Debug, PartialEq, Eq)]
pub struct Settings {
    pub frontend: String,
    pub backend: String,
}

/// `https://` followed by the host and the path.
pub open spec fn https_url(host: Seq<char>, path: Seq<char>) -> Seq<char> {
    "https://"@ + host + path
}

/// Path on the frontend shown once an e-mail address is verified.
pub const VERIFIED_PATH: &'static str = "/auth/verification-complete";

/// Path on the frontend that a magic link leads to.
pub const LOGIN_PATH: &'static str = "/auth/login";

fn frontend_url(host: &str, path: &str) -> (r: String)
    ensures
        r@ == https_url(host@, path@),
{
    let mut s = String::from_str("https://");
    s.append(host);
    s.append(path);
    s
}

impl Settings {
    /// Where the browser goes after an e-mail address is verified.
    pub fn verification_complete_url(&self) -> (r: String)
        ensures
            r@ == https_url(self.frontend@, VERIFIED_PATH@),
    {
        frontend_url(self.frontend.as_str(), VERIFIED_PATH)
    }

    /// Where the browser goes after signing in by magic link.
    pub fn login_url(&self) -> (r: String)
        ensures
            r@ == https_url(self.frontend@, LOGIN_PATH@),
    {
        frontend_url(self.frontend.as_str(), LOGIN_PATH)
    }
}

} // verus!
