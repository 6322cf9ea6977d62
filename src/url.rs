use vstd::prelude::*;
use vstd::string::StringExecFns;
use crate::short_key::{ShortKey, is_valid_key};

verus! {

/// What a stored mapping says, as plain values.
pub struct Mapping {
    pub key: Seq<char>,
    pub url: Seq<char>,
    pub created_at: u64,
}

/// A persisted mapping from a short key to the URL it stands for.
/// `created_at` is a timestamp chosen by the caller when the mapping is made.
#[derive(Debug)]
pub struct Url {
    pub short_key: ShortKey,
    pub original_url: String,
    pub created_at: u64,
}

impl View for Url {
    type V = Mapping;

    open spec fn view(&self) -> Mapping {
        Mapping { key: self.short_key@, url: self.original_url@, created_at: self.created_at }
    }
}

impl Clone for Url {
    fn clone(&self) -> (r: Self)
        ensures
            r@ == self@,
    {
        Url {
            short_key: self.short_key.clone(),
            original_url: self.original_url.clone(),
            created_at: self.created_at,
        }
    }
}

impl Url {
    pub fn new(short_key: ShortKey, original_url: String, created_at: u64) -> (r: Url)
        ensures
            r@ == (Mapping { key: short_key@, url: original_url@, created_at }),
    {
        Url { short_key, original_url, created_at }
    }
}

/// A request to shorten `url`.
pub struct ShortenReq {
    pub url: String,
}

/// The text of the short URL for `key` under `base`.
pub open spec fn short_url_of(base: Seq<char>, key: Seq<char>) -> Seq<char> {
    base + "/"@ + key
}

/// A mapping as the transport layer hands it out, with the full short URL.
#[derive(Debug)]
pub struct UrlResponse {
    pub short_key: ShortKey,
    pub short_url: String,
    pub original_url: String,
    pub created_at: u64,
}

impl UrlResponse {
    /// Builds the response for `url`, whose short URL is `base_url`, a slash
    /// and the key.
    pub fn new(url: Url, base_url: &str) -> (r: UrlResponse)
        ensures
            r.short_key@ == url.short_key@,
            r.original_url@ == url.original_url@,
            r.created_at == url.created_at,
            r.short_url@ == short_url_of(base_url@, url.short_key@),
            is_valid_key(r.short_key@),
    {
        let mut short_url = String::from_str(base_url);
        short_url.append("/");
        short_url.append(url.short_key.as_str());
        proof {
            reveal_strlit("/");
        }
        UrlResponse {
            short_key: url.short_key,
            short_url,
            original_url: url.original_url,
            created_at: url.created_at,
        }
    }
}

} // verus!
