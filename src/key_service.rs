use vstd::prelude::*;
use rand::distributions::{Alphanumeric, DistString};
use crate::errors::{DomainError, InsertError};
use crate::short_key::{ShortKey, is_key_char, MIN_KEY_LEN};
use crate::store::{MemoryStore, has_url, insert_outcome, maps};
use crate::url::{Mapping, Url};

verus! {

/// Relies on rand's `DistString::sample_string` for `Alphanumeric`, which
/// appends `len` bytes, each drawn from `A-Z`, `a-z` and `0-9`.
#[verifier::external_body]
fn random_alphanumeric(len: usize) -> (r: String)
    ensures
        r@.len() == len,
        forall|i: int| 0 <= i < len ==> is_key_char(#[trigger] r@[i]),
{
    Alphanumeric.sample_string(&mut rand::thread_rng(), len)
}

/// Draws candidate keys.
pub struct KeyService;

impl KeyService {
    /// Draws a random key of `length` ASCII letters and digits. A length
    /// under the minimum gives `InvalidShortKey`.
    pub fn generate_short_key(length: usize) -> (r: Result<ShortKey, DomainError>)
        ensures
            length >= MIN_KEY_LEN ==> (r matches Ok(k) && k@.len() == length),
            length < MIN_KEY_LEN ==> r == Err::<ShortKey, DomainError>(DomainError::InvalidShortKey),
    {
        let key = random_alphanumeric(length);
        ShortKey::new(key)
    }

    /// The key already stored for `original_url`, if any.
    pub fn get_existing_key(repo: &MemoryStore, original_url: &str) -> (r: Option<ShortKey>)
        ensures
            r is None <==> !has_url(repo@, original_url@),
            r matches Some(k) ==> maps(repo@, k@, original_url@),
    {
        match repo.find_by_original_url(original_url) {
            Some(url) => {
                proof {
                    let i = choose|i: int| 0 <= i < repo@.len() && repo@[i] == url@;
                    assert(repo@[i].key == url.short_key@ && repo@[i].url == original_url@);
                }
                Some(url.short_key)
            },
            None => None,
        }
    }

    /// Stores a mapping of `short_key` to `original_url`, made at `created_at`.
    pub fn save_mapped_key(repo: &mut MemoryStore, original_url: &str, short_key: ShortKey, created_at: u64) -> (r: Result<(), InsertError>)
        requires
            old(repo).wf(),
        ensures
            final(repo).wf(),
            (r, final(repo)@) == insert_outcome(
                old(repo)@,
                Mapping { key: short_key@, url: original_url@, created_at },
            ),
    {
        let url = Url::new(short_key, original_url.to_owned(), created_at);
        repo.insert(url)
    }
}

} // verus!
