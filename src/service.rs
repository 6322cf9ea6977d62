use vstd::prelude::*;
use crate::errors::{DomainError, InsertError};
use crate::key_service::KeyService;
use crate::short_key::{ShortKey, is_valid_key};
use crate::store::{MemoryStore, has_key, has_url, insert_outcome, rows_wf};
use crate::url::{Mapping, Url};

verus! {

/// The length of the keys that shorten draws.
pub const KEY_LEN: usize = 6;

/// How many candidate keys one shorten call draws before it gives up.
pub const MAX_ATTEMPTS: u32 = 10;

/// What a shorten call waits for.
pub enum Phase {
    /// The lookup by original URL.
    CheckUrl,
    /// The lookup of a candidate key.
    CheckKey(ShortKey),
    /// The insert of a mapping under a candidate key.
    Insert(ShortKey),
    /// A second lookup by original URL, after another caller stored the URL first.
    Reread,
    /// Nothing: the call has finished.
    Done,
}

/// What the store answered to the last command.
pub enum Reply {
    /// A lookup succeeded, with the mapping found if any.
    Found(Option<Url>),
    /// The outcome of an insert.
    Inserted(Result<(), InsertError>),
    /// A lookup failed.
    Failed,
}

/// What the caller must do next.
pub enum Command {
    /// Look a mapping up by this original URL.
    FindByUrl(String),
    /// Look a mapping up by this key.
    FindByKey(ShortKey),
    /// Insert this mapping.
    Insert(Url),
    /// The call is over, with this result.
    Finish(Result<Url, DomainError>),
}

/// The decisions of one shorten call, with the store's work left to the
/// caller: the caller performs each command and hands back the reply.
pub struct Shortening {
    pub original_url: String,
    pub created_at: u64,
    /// How many candidate keys were drawn so far.
    pub attempts: u32,
    pub phase: Phase,
}

/// Whether `phase` expects `reply`, so that the call goes on.
pub open spec fn expects(phase: Phase, reply: Reply) -> bool {
    match (phase, reply) {
        (Phase::CheckUrl, Reply::Found(_)) => true,
        (Phase::Reread, Reply::Found(Some(_))) => true,
        (Phase::CheckKey(_), Reply::Found(_)) => true,
        (Phase::Insert(_), Reply::Inserted(Ok(()))) => true,
        (Phase::Insert(_), Reply::Inserted(Err(InsertError::DuplicateKey))) => true,
        (Phase::Insert(_), Reply::Inserted(Err(InsertError::DuplicateUrl))) => true,
        _ => false,
    }
}

/// The candidate key was taken: by a stored mapping, or by an insert that
/// won the race for it.
pub open spec fn key_taken(phase: Phase, reply: Reply) -> bool {
    ||| (phase is CheckKey && reply matches Reply::Found(Some(_)))
    ||| (phase is Insert && reply == Reply::Inserted(Err(InsertError::DuplicateKey)))
}

/// The command that opens the call, and the new call's state.
pub open spec fn started(s: Shortening, url: Seq<char>, created_at: u64) -> bool {
    &&& s.original_url@ == url
    &&& s.created_at == created_at
    &&& s.attempts == 0
    &&& s.phase is CheckUrl
}

/// The key that `phase` holds, if it holds one.
pub open spec fn phase_key(phase: Phase) -> Seq<char> {
    match phase {
        Phase::CheckKey(k) => k@,
        Phase::Insert(k) => k@,
        _ => Seq::empty(),
    }
}

/// `c` looks up a freshly drawn key of `KEY_LEN` characters, which `s`
/// waits on as draw number `attempts`.
pub open spec fn drew(c: Command, s: Shortening, attempts: u32) -> bool {
    &&& c matches Command::FindByKey(k)
    &&& s.phase is CheckKey
    &&& phase_key(s.phase) == c->FindByKey_0@
    &&& c->FindByKey_0@.len() == KEY_LEN
    &&& is_valid_key(c->FindByKey_0@)
    &&& s.attempts == attempts
}

/// `c` inserts mapping `m`, and `s` waits on that insert.
pub open spec fn asks_insert(c: Command, s: Shortening, m: Mapping, attempts: u32) -> bool {
    &&& c matches Command::Insert(u)
    &&& c->Insert_0@ == m
    &&& s.phase is Insert
    &&& phase_key(s.phase) == m.key
    &&& s.attempts == attempts
}

/// `c` is the command that `s` waits on.
pub open spec fn pending(s: Shortening, c: Command) -> bool {
    match s.phase {
        Phase::CheckUrl => c is FindByUrl && c->FindByUrl_0@ == s.original_url@,
        Phase::Reread => c is FindByUrl && c->FindByUrl_0@ == s.original_url@,
        Phase::CheckKey(k) => c is FindByKey && c->FindByKey_0@ == k@ && is_valid_key(k@),
        Phase::Insert(k) => c is Insert && is_valid_key(k@) && c->Insert_0@ == (Mapping {
            key: k@,
            url: s.original_url@,
            created_at: s.created_at,
        }),
        Phase::Done => c is Finish,
    }
}

/// A call in state `s` that gets `reply` finishes with mapping `m`: a lookup
/// by URL found `m`, or the insert of `m` went through.
pub open spec fn finishes_ok(s: Shortening, reply: Reply, m: Mapping) -> bool {
    ||| ((s.phase is CheckUrl || s.phase is Reread) && (reply matches Reply::Found(Some(x)) && x@ == m))
    ||| (s.phase is Insert && (reply matches Reply::Inserted(Ok(_))) && m == Mapping {
        key: phase_key(s.phase),
        url: s.original_url@,
        created_at: s.created_at,
    })
}

/// `reply` is what a store without faults answers to `c` when its table is
/// `before`, and `after` is its table once `c` took effect.
pub open spec fn answers(before: Seq<Mapping>, c: Command, reply: Reply, after: Seq<Mapping>) -> bool {
    match c {
        Command::FindByUrl(u) => after == before && match reply {
            Reply::Found(None) => !has_url(before, u@),
            Reply::Found(Some(m)) => before.contains(m@) && m@.url == u@,
            _ => false,
        },
        Command::FindByKey(k) => after == before && match reply {
            Reply::Found(None) => !has_key(before, k@),
            Reply::Found(Some(m)) => before.contains(m@) && m@.key == k@,
            _ => false,
        },
        Command::Insert(x) => {
            &&& reply == Reply::Inserted(insert_outcome(before, x@).0)
            &&& after == insert_outcome(before, x@).1
        },
        Command::Finish(_) => false,
    }
}

impl Shortening {
    /// A measure that every step out of an unfinished phase lowers.
    pub open spec fn measure(&self) -> nat {
        let left: nat = if self.attempts < MAX_ATTEMPTS {
            (MAX_ATTEMPTS - self.attempts) as nat
        } else {
            0
        };
        match self.phase {
            Phase::CheckUrl => (4 * MAX_ATTEMPTS + 4) as nat,
            Phase::CheckKey(_) => (4 * left + 3) as nat,
            Phase::Insert(_) => (4 * left + 2) as nat,
            Phase::Reread => 1,
            Phase::Done => 0,
        }
    }

    /// Opens a shorten call for `original_url`; the first command looks
    /// the URL up.
    pub fn start(original_url: String, created_at: u64) -> (r: (Shortening, Command))
        ensures
            started(r.0, original_url@, created_at),
            pending(r.0, r.1),
            r.1 matches Command::FindByUrl(u) && u@ == original_url@,
    {
        let first = original_url.clone();
        (Shortening { original_url, created_at, attempts: 0, phase: Phase::CheckUrl }, Command::FindByUrl(first))
    }

    /// Draws a fresh candidate key, or gives up once the draws are spent.
    fn retry(&mut self) -> (c: Command)
        requires
            old(self).phase is CheckKey || old(self).phase is Insert,
        ensures
            final(self).original_url == old(self).original_url,
            final(self).created_at == old(self).created_at,
            final(self).measure() < old(self).measure(),
            old(self).attempts >= MAX_ATTEMPTS ==> c == Command::Finish(Err(DomainError::StorageFailure))
                && final(self).phase is Done,
            old(self).attempts < MAX_ATTEMPTS ==> drew(c, *final(self), (old(self).attempts + 1) as u32),
    {
        if self.attempts >= MAX_ATTEMPTS {
            self.phase = Phase::Done;
            return Command::Finish(Err(DomainError::StorageFailure));
        }
        self.draw(self.attempts + 1)
    }

    /// Draws a candidate key as draw number `attempts`.
    fn draw(&mut self, attempts: u32) -> (c: Command)
        requires
            1 <= attempts <= MAX_ATTEMPTS,
        ensures
            final(self).original_url == old(self).original_url,
            final(self).created_at == old(self).created_at,
            drew(c, *final(self), attempts),
    {
        match KeyService::generate_short_key(KEY_LEN) {
            Ok(key) => {
                proof {
                    use_type_invariant(&key);
                    key.lemma_inv();
                }
                self.attempts = attempts;
                self.phase = Phase::CheckKey(key.clone());
                Command::FindByKey(key)
            },
            Err(_) => {
                // a key of KEY_LEN characters is always accepted
                proof {
                    assert(false);
                }
                self.phase = Phase::Done;
                Command::Finish(Err(DomainError::StorageFailure))
            },
        }
    }

    /// Takes the store's reply to the last command and decides the next one.
    pub fn step(&mut self, reply: Reply) -> (c: Command)
        ensures
            final(self).original_url == old(self).original_url,
            final(self).created_at == old(self).created_at,
            old(self).phase is Done ==> final(self).phase is Done,
            !(old(self).phase is Done) ==> final(self).measure() < old(self).measure(),
            c is Finish <==> final(self).phase is Done,
            pending(*final(self), c),
            c matches Command::Finish(Ok(u)) ==> finishes_ok(*old(self), reply, u@),
            !expects(old(self).phase, reply) ==> c == Command::Finish(Err(DomainError::StorageFailure)),
            (old(self).phase is CheckUrl || old(self).phase is Reread) ==> (reply matches Reply::Found(Some(m))
                ==> c == Command::Finish(Ok(m))),
            old(self).phase is CheckUrl && reply == Reply::Found(None) ==> drew(c, *final(self), 1),
            old(self).phase is CheckKey && reply == Reply::Found(None) ==> asks_insert(
                c,
                *final(self),
                Mapping {
                    key: phase_key(old(self).phase),
                    url: old(self).original_url@,
                    created_at: old(self).created_at,
                },
                old(self).attempts,
            ),
            key_taken(old(self).phase, reply) && old(self).attempts >= MAX_ATTEMPTS
                ==> c == Command::Finish(Err(DomainError::StorageFailure)),
            key_taken(old(self).phase, reply) && old(self).attempts < MAX_ATTEMPTS
                ==> drew(c, *final(self), (old(self).attempts + 1) as u32),
            old(self).phase is Insert && reply == Reply::Inserted(Ok(())) ==> (c matches Command::Finish(Ok(u))
                && u@ == (Mapping {
                key: phase_key(old(self).phase),
                url: old(self).original_url@,
                created_at: old(self).created_at,
            })),
            old(self).phase is Insert && reply == Reply::Inserted(Err(InsertError::DuplicateUrl)) ==> (c matches Command::FindByUrl(u)
                && u@ == old(self).original_url@ && final(self).phase is Reread),
    {
        match (&self.phase, reply) {
            (Phase::CheckUrl, Reply::Found(Some(m))) | (Phase::Reread, Reply::Found(Some(m))) => {
                self.phase = Phase::Done;
                Command::Finish(Ok(m))
            },
            (Phase::CheckUrl, Reply::Found(None)) => self.draw(1),
            (Phase::CheckKey(key), Reply::Found(None)) => {
                let key = key.clone();
                proof {
                    use_type_invariant(&key);
                    key.lemma_inv();
                }
                let url = Url::new(key.clone(), self.original_url.clone(), self.created_at);
                self.phase = Phase::Insert(key);
                Command::Insert(url)
            },
            (Phase::CheckKey(_), Reply::Found(Some(_))) => self.retry(),
            (Phase::Insert(key), Reply::Inserted(Ok(()))) => {
                let key = key.clone();
                self.phase = Phase::Done;
                Command::Finish(Ok(Url::new(key, self.original_url.clone(), self.created_at)))
            },
            (Phase::Insert(_), Reply::Inserted(Err(InsertError::DuplicateKey))) => self.retry(),
            (Phase::Insert(_), Reply::Inserted(Err(InsertError::DuplicateUrl))) => {
                self.phase = Phase::Reread;
                Command::FindByUrl(self.original_url.clone())
            },
            _ => {
                self.phase = Phase::Done;
                Command::Finish(Err(DomainError::StorageFailure))
            },
        }
    }
}

/// A result with the mapping replaced by what it says.
pub open spec fn result_view(r: Result<Url, DomainError>) -> Result<Mapping, DomainError> {
    match r {
        Ok(u) => Ok(u@),
        Err(e) => Err(e),
    }
}

/// What shorten of `url` at time `created_at` may give on table `before`,
/// with the table `after` it leaves. A URL already stored gives its mapping
/// back, unchanged. Otherwise a new mapping under a key that no row held is
/// stored and returned, unless every drawn key was taken.
pub open spec fn shorten_outcome(
    before: Seq<Mapping>,
    url: Seq<char>,
    created_at: u64,
    r: Result<Mapping, DomainError>,
    after: Seq<Mapping>,
) -> bool {
    if has_url(before, url) {
        &&& after == before
        &&& r matches Ok(m)
        &&& before.contains(r->Ok_0)
        &&& r->Ok_0.url == url
    } else {
        match r {
            Ok(m) => {
                &&& m.url == url
                &&& m.created_at == created_at
                &&& is_valid_key(m.key)
                &&& !has_key(before, m.key)
                &&& after == before.push(m)
            },
            Err(e) => e == DomainError::StorageFailure && after == before,
        }
    }
}

/// What resolve of `key` gives on table `rows`: the mapping stored under
/// the key, or `UrlNotFound`.
pub open spec fn resolve_outcome(rows: Seq<Mapping>, key: Seq<char>, r: Result<Mapping, DomainError>) -> bool {
    if has_key(rows, key) {
        &&& r matches Ok(m)
        &&& rows.contains(r->Ok_0)
        &&& r->Ok_0.key == key
    } else {
        r == Err::<Mapping, DomainError>(DomainError::UrlNotFound)
    }
}

/// Turns the store's answer to a lookup by key into the result of resolve.
pub fn resolve_reply(reply: Reply) -> (r: Result<Url, DomainError>)
    ensures
        reply matches Reply::Found(Some(m)) ==> r == Ok::<Url, DomainError>(m),
        reply == Reply::Found(None) ==> r == Err::<Url, DomainError>(DomainError::UrlNotFound),
        !(reply is Found) ==> r == Err::<Url, DomainError>(DomainError::StorageFailure),
{
    match reply {
        Reply::Found(Some(m)) => Ok(m),
        Reply::Found(None) => Err(DomainError::UrlNotFound),
        _ => Err(DomainError::StorageFailure),
    }
}

/// The mapping service over a table held in memory.
pub struct UrlService {
    store: MemoryStore,
}

impl View for UrlService {
    type V = Seq<Mapping>;

    closed spec fn view(&self) -> Seq<Mapping> {
        self.store@
    }
}

impl UrlService {
    pub closed spec fn wf(&self) -> bool {
        self.store.wf()
    }

    pub fn new() -> (r: UrlService)
        ensures
            r.wf(),
            r@ == Seq::<Mapping>::empty(),
    {
        UrlService { store: MemoryStore::new() }
    }

    /// The table's invariants hold of the service's rows.
    pub proof fn lemma_wf(&self)
        requires
            self.wf(),
        ensures
            rows_wf(self@),
    {
    }

    /// Shortens `original_url`, stamping a new mapping with `created_at`.
    pub fn shorten(&mut self, original_url: &str, created_at: u64) -> (r: Result<Url, DomainError>)
        requires
            old(self).wf(),
        ensures
            final(self).wf(),
            shorten_outcome(old(self)@, original_url@, created_at, result_view(r), final(self)@),
            (forall|i: int| 0 <= i < old(self)@.len() ==> (#[trigger] old(self)@[i]).key.len() != KEY_LEN)
                ==> r is Ok,
    {
        let ghost before = self.store@;
        let (mut machine, _) = Shortening::start(original_url.to_owned(), created_at);
        let found = self.store.find_by_original_url(original_url);
        let stored = found.is_some();
        let mut cmd = machine.step(Reply::Found(found));
        if stored {
            return match cmd {
                Command::Finish(r) => r,
                _ => Err(DomainError::StorageFailure),
            };
        }
        loop
            invariant
                self.store.wf(),
                before == old(self).store@,
                !has_url(before, original_url@),
                machine.original_url@ == original_url@,
                machine.created_at == created_at,
                !(cmd is Finish) ==> !(machine.phase is Done),
                cmd is FindByKey ==> machine.phase is CheckKey && phase_key(machine.phase) == cmd->FindByKey_0@
                    && cmd->FindByKey_0@.len() == KEY_LEN,
                cmd is Insert ==> machine.phase is Insert && cmd->Insert_0@ == (Mapping {
                    key: phase_key(machine.phase),
                    url: original_url@,
                    created_at,
                }) && !has_key(before, phase_key(machine.phase)),
                !(cmd is FindByUrl),
                (forall|i: int| 0 <= i < before.len() ==> (#[trigger] before[i]).key.len() != KEY_LEN)
                    ==> !(cmd matches Command::Finish(Err(_))),
                cmd matches Command::Finish(Ok(u)) ==> shorten_outcome(before, original_url@, created_at, Ok(u@), self.store@),
                !(cmd matches Command::Finish(Ok(_))) ==> self.store@ == before,
                cmd matches Command::Finish(Err(e)) ==> e == DomainError::StorageFailure,
            decreases machine.measure(),
        {
            match cmd {
                Command::Finish(r) => {
                    return r;
                },
                Command::FindByKey(key) => {
                    let found = self.store.find_by_short_key(&key);
                    cmd = machine.step(Reply::Found(found));
                },
                Command::Insert(url) => {
                    proof {
                        use_type_invariant(&url.short_key);
                        url.short_key.lemma_inv();
                    }
                    let res = self.store.insert(url);
                    cmd = machine.step(Reply::Inserted(res));
                },
                Command::FindByUrl(u) => {
                    let found = self.store.find_by_original_url(u.as_str());
                    cmd = machine.step(Reply::Found(found));
                },
            }
        }
    }

    /// Resolves a validated key to its mapping.
    pub fn resolve(&self, short_key: &ShortKey) -> (r: Result<Url, DomainError>)
        ensures
            resolve_outcome(self@, short_key@, result_view(r)),
    {
        resolve_reply(Reply::Found(self.store.find_by_short_key(short_key)))
    }

    /// Validates `key` and resolves it. A malformed key gives
    /// `InvalidShortKey` before the table is consulted.
    pub fn resolve_str(&self, key: &str) -> (r: Result<Url, DomainError>)
        ensures
            !is_valid_key(key@) ==> r == Err::<Url, DomainError>(DomainError::InvalidShortKey),
            is_valid_key(key@) ==> resolve_outcome(self@, key@, result_view(r)),
    {
        match ShortKey::new(key.to_owned()) {
            Ok(k) => self.resolve(&k),
            Err(e) => Err(e),
        }
    }
}

} // verus!
