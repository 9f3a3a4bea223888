//! A minimal client around a parsed, but otherwise unvalidated, base URL.

use vstd::prelude::*;
use crate::base_url::{parse_normalized, url_parse};

verus! {

/// Why client construction failed.
#[derive(Debug, Clone, PartialEq, Eq)]
pub enum NewClientError {
    /// The base URL does not parse.
    ParseBaseUrl,
}

/// A parsed base URL, kept as its serialization.
#[derive(Debug)]
pub struct Client {
    base_url: String,
}

impl Client {
    /// The base URL's serialization.
    pub closed spec fn base(self) -> Seq<char> {
        self.base_url@
    }

    /// Parse the base URL; fails exactly on strings that are not URLs.
    pub fn new(base: &str) -> (r: Result<Client, NewClientError>)
        ensures
            match r {
                Ok(c) => url_parse(base@) == Some(c.base()) && url_parse(c.base()) == Some(
                    c.base(),
                ),
                Err(NewClientError::ParseBaseUrl) => url_parse(base@) is None,
            },
    {
        match parse_normalized(base) {
            Some(t) => Ok(Client { base_url: t }),
            None => Err(NewClientError::ParseBaseUrl),
        }
    }

    /// The serialization.
    pub fn as_str(&self) -> (r: &str)
        ensures
            r@ == self.base(),
    {
        self.base_url.as_str()
    }
}

} // verus!
