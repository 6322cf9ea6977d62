use vstd::prelude::*;
use vstd::string::{is_ascii, is_ascii_spec_bytes};
use crate::errors::DomainError;

verus! {

/// The smallest number of characters a key may have.
pub const MIN_KEY_LEN: usize = 6;

/// An ASCII letter (`a`-`z`, `A`-`Z`) or an ASCII digit.
pub open spec fn is_key_char(c: char) -> bool {
    ('a' <= c && c <= 'z') || ('A' <= c && c <= 'Z') || ('0' <= c && c <= '9')
}

/// A well-formed key: at least six characters, each an ASCII letter or digit.
pub open spec fn is_valid_key(s: Seq<char>) -> bool {
    &&& s.len() >= MIN_KEY_LEN
    &&& forall|i: int| 0 <= i < s.len() ==> is_key_char(#[trigger] s[i])
}

fn is_key_byte(b: u8) -> (r: bool)
    ensures
        r == is_key_char(b as char),
{
    (97 <= b && b <= 122) || (65 <= b && b <= 90) || (48 <= b && b <= 57)
}

/// A validated key. The only way to build one is `ShortKey::new`, and every
/// value of this type satisfies `is_valid_key`.
#[derive(Debug, PartialEq, Eq, Hash)]
pub struct ShortKey(String);

impl View for ShortKey {
    type V = Seq<char>;

    closed spec fn view(&self) -> Seq<char> {
        self.0@
    }
}

impl Clone for ShortKey {
    fn clone(&self) -> (r: Self)
        ensures
            r@ == self@,
    {
        proof {
            use_type_invariant(self);
        }
        ShortKey(self.0.clone())
    }
}

impl ShortKey {
    #[verifier::type_invariant]
    pub closed spec fn inv(&self) -> bool {
        is_valid_key(self.0@)
    }

    /// What the type invariant says, in terms of the key's text.
    pub proof fn lemma_inv(&self)
        requires
            self.inv(),
        ensures
            is_valid_key(self@),
    {
    }

    /// Validates `key`: it is accepted exactly when it has at least six
    /// characters and each of them is an ASCII letter or digit.
    pub fn new(key: String) -> (r: Result<ShortKey, DomainError>)
        ensures
            is_valid_key(key@) ==> (r matches Ok(k) && k@ == key@),
            !is_valid_key(key@) ==> r == Err::<ShortKey, DomainError>(DomainError::InvalidShortKey),
    {
        if !key.is_ascii() {
            proof {
                if is_valid_key(key@) {
                    assert forall|i: int| 0 <= i < key@.len() implies
                        '\0' <= #[trigger] key@[i] <= '\u{7f}' by {
                        assert(is_key_char(key@[i]));
                    }
                }
            }
            return Err(DomainError::InvalidShortKey);
        }
        let text = key.as_str();
        let bytes = text.as_bytes();
        proof {
            assert(is_ascii(text));
            is_ascii_spec_bytes(text);
        }
        if bytes.len() < MIN_KEY_LEN {
            return Err(DomainError::InvalidShortKey);
        }
        let mut i: usize = 0;
        while i < bytes.len()
            invariant
                bytes@.len() == key@.len(),
                forall|j: int| 0 <= j < key@.len() ==> bytes@[j] == key@[j] as u8,
                forall|j: int| 0 <= j < key@.len() ==> '\0' <= #[trigger] key@[j] <= '\u{7f}',
                i <= bytes@.len(),
                forall|j: int| 0 <= j < i ==> is_key_char(#[trigger] key@[j]),
            decreases bytes@.len() - i,
        {
            if !is_key_byte(bytes[i]) {
                assert(!is_key_char(key@[i as int]));
                return Err(DomainError::InvalidShortKey);
            }
            i = i + 1;
        }
        Ok(ShortKey(key))
    }

    /// Whether two keys have the same text.
    pub fn same_as(&self, other: &ShortKey) -> (r: bool)
        ensures
            r == (self@ == other@),
    {
        self.0 == other.0
    }

    /// The key's text.
    pub fn as_str(&self) -> (r: &str)
        ensures
            r@ == self@,
            is_valid_key(self@),
    {
        proof {
            use_type_invariant(self);
        }
        self.0.as_str()
    }
}

} // verus!
