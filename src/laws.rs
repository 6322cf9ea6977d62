use vstd::prelude::*;
use crate::errors::DomainError;
use crate::service::{Command, Reply, Shortening, answers, finishes_ok, pending, resolve_outcome, shorten_outcome};
use crate::store::{has_key, has_url, insert_outcome, rows_wf};
use crate::url::Mapping;

verus! {

/// Shorten keeps the table's invariants.
pub proof fn lemma_shorten_keeps_wf(
    before: Seq<Mapping>,
    url: Seq<char>,
    created_at: u64,
    r: Result<Mapping, DomainError>,
    after: Seq<Mapping>,
)
    requires
        rows_wf(before),
        shorten_outcome(before, url, created_at, r, after),
    ensures
        rows_wf(after),
{
    if !has_url(before, url) && r is Ok {
        let m = r->Ok_0;
        assert forall|i: int| 0 <= i < before.len() implies #[trigger] before[i].key != m.key
            && before[i].url != m.url by {
            if before[i].key == m.key {
                assert(has_key(before, m.key));
            }
            if before[i].url == m.url {
                assert(has_url(before, m.url));
            }
        }
        assert forall|i: int, j: int|
            0 <= i < after.len() && 0 <= j < after.len() && i != j implies #[trigger] after[i].key
                != #[trigger] after[j].key && after[i].url != after[j].url by {
            if i < before.len() && j < before.len() {
                assert(before[i] == after[i] && before[j] == after[j]);
            } else if i < before.len() {
                assert(before[i] == after[i]);
            } else {
                assert(before[j] == after[j]);
            }
        }
        assert forall|i: int| 0 <= i < after.len() implies is_valid_key_at(after, i) by {
            if i < before.len() {
                assert(before[i] == after[i]);
            }
        }
    }
}

/// A mapping that shorten returns is in the table it leaves, and that table
/// extends the one it found.
pub proof fn lemma_shorten_result_stored(
    before: Seq<Mapping>,
    url: Seq<char>,
    created_at: u64,
    m: Mapping,
    after: Seq<Mapping>,
)
    requires
        shorten_outcome(before, url, created_at, Ok(m), after),
    ensures
        after.contains(m),
        before.len() <= after.len(),
        forall|i: int| 0 <= i < before.len() ==> #[trigger] after[i] == before[i],
{
    if !has_url(before, url) {
        assert(after[before.len() as int] == m);
    }
}

spec fn is_valid_key_at(rows: Seq<Mapping>, i: int) -> bool {
    crate::short_key::is_valid_key(rows[i].key)
}

/// Round trip: the key that shorten returns for a URL resolves, on the
/// table that shorten left, to a mapping of that same URL.
pub proof fn lemma_round_trip(
    before: Seq<Mapping>,
    url: Seq<char>,
    created_at: u64,
    m: Mapping,
    after: Seq<Mapping>,
    resolved: Result<Mapping, DomainError>,
)
    requires
        rows_wf(before),
        shorten_outcome(before, url, created_at, Ok(m), after),
        resolve_outcome(after, m.key, resolved),
    ensures
        resolved == Ok::<Mapping, DomainError>(m),
        m.url == url,
{
    lemma_shorten_keeps_wf(before, url, created_at, Ok(m), after);
    lemma_shorten_result_stored(before, url, created_at, m, after);
    let i = choose|i: int| 0 <= i < after.len() && after[i] == m;
    assert(has_key(after, after[i].key));
    let n = resolved->Ok_0;
    let j = choose|j: int| 0 <= j < after.len() && after[j] == n;
    assert(after[j].key == after[i].key);
}

/// Idempotence: shortening a URL a second time, on the table that the
/// first call left, returns the same mapping and changes nothing.
pub proof fn lemma_shorten_idempotent(
    s0: Seq<Mapping>,
    url: Seq<char>,
    c1: u64,
    m1: Mapping,
    s1: Seq<Mapping>,
    c2: u64,
    r2: Result<Mapping, DomainError>,
    s2: Seq<Mapping>,
)
    requires
        rows_wf(s0),
        shorten_outcome(s0, url, c1, Ok(m1), s1),
        shorten_outcome(s1, url, c2, r2, s2),
    ensures
        r2 == Ok::<Mapping, DomainError>(m1),
        s2 == s1,
{
    lemma_shorten_keeps_wf(s0, url, c1, Ok(m1), s1);
    lemma_shorten_result_stored(s0, url, c1, m1, s1);
    let i = choose|i: int| 0 <= i < s1.len() && s1[i] == m1;
    assert(has_url(s1, s1[i].url));
    let n = r2->Ok_0;
    let j = choose|j: int| 0 <= j < s1.len() && s1[j] == n;
    assert(s1[j].url == s1[i].url);
}

/// Distinct URLs shortened one after the other get distinct keys.
pub proof fn lemma_distinct_urls_distinct_keys(
    s0: Seq<Mapping>,
    u1: Seq<char>,
    c1: u64,
    m1: Mapping,
    s1: Seq<Mapping>,
    u2: Seq<char>,
    c2: u64,
    m2: Mapping,
    s2: Seq<Mapping>,
)
    requires
        rows_wf(s0),
        u1 != u2,
        shorten_outcome(s0, u1, c1, Ok(m1), s1),
        shorten_outcome(s1, u2, c2, Ok(m2), s2),
    ensures
        m1.key != m2.key,
{
    lemma_shorten_keeps_wf(s0, u1, c1, Ok(m1), s1);
    lemma_shorten_keeps_wf(s1, u2, c2, Ok(m2), s2);
    lemma_shorten_result_stored(s0, u1, c1, m1, s1);
    lemma_shorten_result_stored(s1, u2, c2, m2, s2);
    let i = choose|i: int| 0 <= i < s1.len() && s1[i] == m1;
    assert(s2[i] == m1);
    let j = choose|j: int| 0 <= j < s2.len() && s2[j] == m2;
    assert(s2[i].url != s2[j].url);
}

/// A key that no row held and that shorten did not return is still
/// unknown afterwards: resolving it gives `UrlNotFound`.
pub proof fn lemma_unproduced_key_not_found(
    before: Seq<Mapping>,
    url: Seq<char>,
    created_at: u64,
    r: Result<Mapping, DomainError>,
    after: Seq<Mapping>,
    key: Seq<char>,
    resolved: Result<Mapping, DomainError>,
)
    requires
        !has_key(before, key),
        shorten_outcome(before, url, created_at, r, after),
        !(r matches Ok(m) && m.key == key),
        resolve_outcome(after, key, resolved),
    ensures
        resolved == Err::<Mapping, DomainError>(DomainError::UrlNotFound),
{
    if has_key(after, key) {
        let i = choose|i: int| 0 <= i < after.len() && #[trigger] after[i].key == key;
        if i < before.len() {
            if !has_url(before, url) && r is Ok {
                assert(after[i] == before[i]);
            }
            assert(has_key(before, key));
        }
    }
}

/// `prefix` is the start of `rows`.
pub open spec fn is_prefix(prefix: Seq<Mapping>, rows: Seq<Mapping>) -> bool {
    &&& prefix.len() <= rows.len()
    &&& forall|i: int| 0 <= i < prefix.len() ==> #[trigger] rows[i] == prefix[i]
}

/// A store without faults keeps its invariants and only ever appends,
/// whichever call's command it answers.
pub proof fn lemma_answer_extends_table(before: Seq<Mapping>, c: Command, reply: Reply, after: Seq<Mapping>)
    requires
        rows_wf(before),
        answers(before, c, reply, after),
        c is Insert ==> crate::short_key::is_valid_key(c->Insert_0@.key),
    ensures
        rows_wf(after),
        is_prefix(before, after),
{
    if let Command::Insert(x) = c {
        let m = x@;
        if !has_key(before, m.key) && !has_url(before, m.url) {
            assert forall|i: int| 0 <= i < before.len() implies #[trigger] before[i].key != m.key
                && before[i].url != m.url by {
                if before[i].key == m.key {
                    assert(has_key(before, m.key));
                }
                if before[i].url == m.url {
                    assert(has_url(before, m.url));
                }
            }
            assert forall|i: int, j: int|
                0 <= i < after.len() && 0 <= j < after.len() && i != j implies #[trigger] after[i].key
                    != #[trigger] after[j].key && after[i].url != after[j].url by {
                if i < before.len() && j < before.len() {
                    assert(before[i] == after[i] && before[j] == after[j]);
                } else if i < before.len() {
                    assert(before[i] == after[i]);
                } else {
                    assert(before[j] == after[j]);
                }
            }
            assert forall|i: int| 0 <= i < after.len() implies is_valid_key_at(after, i) by {
                if i < before.len() {
                    assert(before[i] == after[i]);
                }
            }
        }
    }
}

/// A shorten call that finishes with a mapping finishes on a row of the
/// store's table for its own URL, whatever other calls did before.
pub proof fn lemma_finished_call_holds_its_row(
    s: Shortening,
    c: Command,
    reply: Reply,
    before: Seq<Mapping>,
    after: Seq<Mapping>,
    m: Mapping,
)
    requires
        pending(s, c),
        answers(before, c, reply, after),
        finishes_ok(s, reply, m),
    ensures
        after.contains(m),
        m.url == s.original_url@,
{
    if s.phase is Insert {
        let x = c->Insert_0;
        assert(x@ == m);
        assert(insert_outcome(before, m).0 is Ok);
        assert(after == before.push(m));
        assert(after[before.len() as int] == m);
    }
}

/// Idempotence under concurrency: calls for the same URL, interleaved in
/// any way against a store without faults, all finish on the same mapping.
/// Each finished call holds a row of the table at the time it finished, and
/// every such table is a start of the final one, which has one row per URL.
pub proof fn lemma_concurrent_calls_agree(
    table: Seq<Mapping>,
    t1: Seq<Mapping>,
    m1: Mapping,
    t2: Seq<Mapping>,
    m2: Mapping,
    url: Seq<char>,
)
    requires
        rows_wf(table),
        is_prefix(t1, table),
        is_prefix(t2, table),
        t1.contains(m1),
        t2.contains(m2),
        m1.url == url,
        m2.url == url,
    ensures
        m1 == m2,
{
    let i = choose|i: int| 0 <= i < t1.len() && t1[i] == m1;
    let j = choose|j: int| 0 <= j < t2.len() && t2[j] == m2;
    assert(table[i] == m1);
    assert(table[j] == m2);
}

} // verus!
