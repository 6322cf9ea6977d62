use vstd::prelude::*;
use crate::errors::InsertError;
use crate::short_key::{ShortKey, is_valid_key};
use crate::url::{Mapping, Url};

verus! {

/// Some stored mapping has key `key`.
pub open spec fn has_key(rows: Seq<Mapping>, key: Seq<char>) -> bool {
    exists|i: int| 0 <= i < rows.len() && #[trigger] rows[i].key == key
}

/// Some stored mapping has original URL `url`.
pub open spec fn has_url(rows: Seq<Mapping>, url: Seq<char>) -> bool {
    exists|i: int| 0 <= i < rows.len() && #[trigger] rows[i].url == url
}

/// Some stored mapping takes `key` to `url`.
pub open spec fn maps(rows: Seq<Mapping>, key: Seq<char>, url: Seq<char>) -> bool {
    exists|i: int| 0 <= i < rows.len() && #[trigger] rows[i].key == key && rows[i].url == url
}

/// The table's invariants: every key is well formed, and no two rows share
/// a key or an original URL.
pub open spec fn rows_wf(rows: Seq<Mapping>) -> bool {
    &&& forall|i: int| 0 <= i < rows.len() ==> is_valid_key(#[trigger] rows[i].key)
    &&& forall|i: int, j: int|
        0 <= i < rows.len() && 0 <= j < rows.len() && i != j ==> #[trigger] rows[i].key
            != #[trigger] rows[j].key
    &&& forall|i: int, j: int|
        0 <= i < rows.len() && 0 <= j < rows.len() && i != j ==> #[trigger] rows[i].url
            != #[trigger] rows[j].url
}

/// The result of inserting `m` into `rows`, and the rows afterwards.
pub open spec fn insert_outcome(rows: Seq<Mapping>, m: Mapping) -> (Result<(), InsertError>, Seq<Mapping>) {
    if has_key(rows, m.key) {
        (Err(InsertError::DuplicateKey), rows)
    } else if has_url(rows, m.url) {
        (Err(InsertError::DuplicateUrl), rows)
    } else {
        (Ok(()), rows.push(m))
    }
}

/// An insert-only table of mappings held in memory, with the uniqueness
/// constraints of the storage port.
pub struct MemoryStore {
    rows: Vec<Url>,
}

impl View for MemoryStore {
    type V = Seq<Mapping>;

    closed spec fn view(&self) -> Seq<Mapping> {
        self.rows@.map_values(|u: Url| u@)
    }
}

impl MemoryStore {
    /// The table's invariants hold of the stored rows.
    pub open spec fn wf(&self) -> bool {
        rows_wf(self@)
    }

    pub fn new() -> (r: MemoryStore)
        ensures
            r@ == Seq::<Mapping>::empty(),
            r.wf(),
    {
        let r = MemoryStore { rows: Vec::new() };
        assert(r@ =~= Seq::<Mapping>::empty());
        r
    }

    /// The number of stored mappings.
    pub fn len(&self) -> (r: usize)
        ensures
            r == self@.len(),
    {
        self.rows.len()
    }

    /// Looks a mapping up by its exact original URL.
    pub fn find_by_original_url(&self, original_url: &str) -> (r: Option<Url>)
        ensures
            r is None <==> !has_url(self@, original_url@),
            r matches Some(m) ==> self@.contains(m@) && m@.url == original_url@,
    {
        let target = original_url.to_owned();
        let mut i: usize = 0;
        while i < self.rows.len()
            invariant
                i <= self.rows@.len(),
                target@ == original_url@,
                self@.len() == self.rows@.len(),
                forall|j: int| 0 <= j < self.rows@.len() ==> #[trigger] self@[j] == self.rows@[j]@,
                forall|j: int| 0 <= j < i ==> self@[j].url != original_url@,
            decreases self.rows@.len() - i,
        {
            if self.rows[i].original_url == target {
                let found = self.rows[i].clone();
                assert(self@[i as int] == found@);
                assert(self@[i as int].url == original_url@);
                return Some(found);
            }
            i = i + 1;
        }
        None
    }

    /// Looks a mapping up by its key.
    pub fn find_by_short_key(&self, short_key: &ShortKey) -> (r: Option<Url>)
        ensures
            r is None <==> !has_key(self@, short_key@),
            r matches Some(m) ==> self@.contains(m@) && m@.key == short_key@,
    {
        let mut i: usize = 0;
        while i < self.rows.len()
            invariant
                i <= self.rows@.len(),
                self@.len() == self.rows@.len(),
                forall|j: int| 0 <= j < self.rows@.len() ==> #[trigger] self@[j] == self.rows@[j]@,
                forall|j: int| 0 <= j < i ==> self@[j].key != short_key@,
            decreases self.rows@.len() - i,
        {
            if self.rows[i].short_key.same_as(short_key) {
                let found = self.rows[i].clone();
                assert(self@[i as int] == found@);
                assert(self@[i as int].key == short_key@);
                return Some(found);
            }
            i = i + 1;
        }
        None
    }

    /// Stores `url` unless its key or its original URL is taken already.
    pub fn insert(&mut self, url: Url) -> (r: Result<(), crate::errors::InsertError>)
        requires
            old(self).wf(),
        ensures
            final(self).wf(),
            (r, final(self)@) == insert_outcome(old(self)@, url@),
    {
        if self.find_by_short_key(&url.short_key).is_some() {
            return Err(InsertError::DuplicateKey);
        }
        if self.find_by_original_url(url.original_url.as_str()).is_some() {
            return Err(InsertError::DuplicateUrl);
        }
        let ghost before = self@;
        proof {
            use_type_invariant(&url.short_key);
            url.short_key.lemma_inv();
        }
        let ghost m = url@;
        self.rows.push(url);
        assert(self@ =~= before.push(m));
        assert(is_valid_key(m.key));
        assert forall|i: int| 0 <= i < before.len() implies #[trigger] before[i].key != m.key
            && before[i].url != m.url by {
            if before[i].key == m.key {
                assert(has_key(before, m.key));
            }
            if before[i].url == m.url {
                assert(has_url(before, m.url));
            }
        }
        let ghost after = self@;
        assert forall|i: int, j: int|
            0 <= i < after.len() && 0 <= j < after.len() && i != j implies #[trigger] after[i].key
                != #[trigger] after[j].key && after[i].url != after[j].url by {
            if i < before.len() && j < before.len() {
                assert(before[i] == after[i] && before[j] == after[j]);
            } else if i < before.len() {
                assert(before[i] == after[i]);
            } else {
                assert(before[j] == after[j]);
            }
        }
        Ok(())
    }
}

} // verus!
