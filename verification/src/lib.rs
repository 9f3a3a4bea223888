//! An authenticated client for a vendor video-surveillance management API:
//! a login handshake yields a CSRF token and a session cookie, and those
//! credentials are attached to every later call that lists resources.
//!
//! The library holds the logic alone: URL validation and composition, the
//! login request and what its response does to the session, and the decoding
//! of the cameras listing. The network round trips themselves stay with the
//! caller, who hands back each response's status, headers and body.

pub mod base_url;
pub mod cameras;
pub mod client;
pub mod login;
pub mod protect;
pub mod session;
mod text;

use vstd::prelude::*;
use crate::base_url::{url_parse, url_cannot_be_base, valid_base};
use crate::protect::{NewProtectError, ProtectApi};

verus! {

/// What a caller must supply: the API host and the credentials.
#[derive(Debug)]
pub struct Config {
    pub host: String,
    pub user: String,
    pub pass: String,
}

/// The application core: the configuration and the client built from its
/// host.
pub struct Nigh {
    config: Config,
    client: ProtectApi,
}

impl Nigh {
    pub closed spec fn cfg_host(self) -> Seq<char> {
        self.config.host@
    }

    pub closed spec fn cfg_user(self) -> Seq<char> {
        self.config.user@
    }

    pub closed spec fn cfg_pass(self) -> Seq<char> {
        self.config.pass@
    }

    pub closed spec fn base(self) -> Seq<char> {
        self.client.base()
    }

    /// Build the client from the configured host; fails exactly where the
    /// host is no usable base URL.
    pub fn new(config: Config) -> (r: Result<Nigh, NewProtectError>)
        ensures
            match r {
                Ok(n) => {
                    &&& n.cfg_host() == config.host@
                    &&& n.cfg_user() == config.user@
                    &&& n.cfg_pass() == config.pass@
                    &&& url_parse(config.host@) == Some(n.base())
                    &&& valid_base(n.base())
                    &&& n.client_session_headers() == Map::<Seq<char>, Seq<char>>::empty()
                },
                Err(NewProtectError::ParseBaseUrl) => url_parse(config.host@) is None,
                Err(NewProtectError::ProtectUrlCannotBeBase(u)) => url_parse(config.host@)
                    == Some(u@) && url_cannot_be_base(u@),
            },
    {
        let client = match ProtectApi::new(config.host.as_str()) {
            Ok(c) => c,
            Err(e) => {
                return Err(e);
            },
        };
        Ok(Nigh { config, client })
    }

    /// Hand out the pieces: the caller drives the network round trips through
    /// the client, using the configured credentials.
    pub fn into_parts(self) -> (r: (Config, ProtectApi))
        ensures
            r.0.host@ == self.cfg_host(),
            r.0.user@ == self.cfg_user(),
            r.0.pass@ == self.cfg_pass(),
            r.1.base() == self.base(),
            r.1.session_headers() == self.client_session_headers(),
    {
        (self.config, self.client)
    }

    pub closed spec fn client_session_headers(self) -> Map<Seq<char>, Seq<char>> {
        self.client.session_headers()
    }
}

} // verus!
