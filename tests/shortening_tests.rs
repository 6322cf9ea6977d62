use redirect_service::errors::{DomainError, InsertError};
use redirect_service::service::{resolve_reply, Command, Reply, Shortening, MAX_ATTEMPTS};
use redirect_service::short_key::ShortKey;
use redirect_service::store::MemoryStore;
use redirect_service::url::{Url, UrlResponse};

fn mapping(k: &str, u: &str) -> Url {
    Url::new(ShortKey::new(k.to_string()).unwrap(), u.to_string(), 7)
}

fn drawn_key(c: &Command) -> ShortKey {
    match c {
        Command::FindByKey(k) => k.clone(),
        _ => panic!("expected a key lookup"),
    }
}

#[test]
fn start_looks_the_url_up() {
    let (_, c) = Shortening::start("https://a.example".to_string(), 1);
    assert!(matches!(c, Command::FindByUrl(ref u) if u == "https://a.example"));
}

#[test]
fn stored_url_finishes_with_its_mapping() {
    let (mut s, _) = Shortening::start("https://a.example".to_string(), 1);
    let c = s.step(Reply::Found(Some(mapping("abc123", "https://a.example"))));
    match c {
        Command::Finish(Ok(m)) => assert_eq!(m.short_key.as_str(), "abc123"),
        _ => panic!("expected the stored mapping"),
    }
}

#[test]
fn new_url_goes_through_key_check_and_insert() {
    let (mut s, _) = Shortening::start("https://a.example".to_string(), 9);
    let c = s.step(Reply::Found(None));
    let k = drawn_key(&c);
    assert_eq!(k.as_str().len(), 6);
    assert_eq!(s.attempts, 1);
    let c = s.step(Reply::Found(None));
    match &c {
        Command::Insert(u) => {
            assert_eq!(u.short_key, k);
            assert_eq!(u.original_url, "https://a.example");
            assert_eq!(u.created_at, 9);
        }
        _ => panic!("expected an insert"),
    }
    let c = s.step(Reply::Inserted(Ok(())));
    match c {
        Command::Finish(Ok(m)) => {
            assert_eq!(m.short_key, k);
            assert_eq!(m.original_url, "https://a.example");
        }
        _ => panic!("expected success"),
    }
}

#[test]
fn taken_key_is_redrawn_until_attempts_run_out() {
    let (mut s, _) = Shortening::start("https://a.example".to_string(), 1);
    let mut c = s.step(Reply::Found(None));
    for n in 1..MAX_ATTEMPTS {
        drawn_key(&c);
        assert_eq!(s.attempts, n);
        c = s.step(Reply::Found(Some(mapping("taken1", "https://other.example"))));
    }
    drawn_key(&c);
    let c = s.step(Reply::Found(Some(mapping("taken1", "https://other.example"))));
    assert!(matches!(c, Command::Finish(Err(DomainError::StorageFailure))));
}

#[test]
fn lost_key_race_draws_again() {
    let (mut s, _) = Shortening::start("https://a.example".to_string(), 1);
    s.step(Reply::Found(None));
    s.step(Reply::Found(None));
    let c = s.step(Reply::Inserted(Err(InsertError::DuplicateKey)));
    drawn_key(&c);
    assert_eq!(s.attempts, 2);
}

#[test]
fn lost_url_race_rereads_the_winner() {
    let (mut s, _) = Shortening::start("https://a.example".to_string(), 1);
    s.step(Reply::Found(None));
    s.step(Reply::Found(None));
    let c = s.step(Reply::Inserted(Err(InsertError::DuplicateUrl)));
    assert!(matches!(c, Command::FindByUrl(ref u) if u == "https://a.example"));
    let c = s.step(Reply::Found(Some(mapping("winner", "https://a.example"))));
    match c {
        Command::Finish(Ok(m)) => assert_eq!(m.short_key.as_str(), "winner"),
        _ => panic!("expected the winner's mapping"),
    }
}

#[test]
fn storage_faults_are_not_retried() {
    let (mut s, _) = Shortening::start("https://a.example".to_string(), 1);
    assert!(matches!(s.step(Reply::Failed), Command::Finish(Err(DomainError::StorageFailure))));

    let (mut s, _) = Shortening::start("https://a.example".to_string(), 1);
    s.step(Reply::Found(None));
    s.step(Reply::Found(None));
    let c = s.step(Reply::Inserted(Err(InsertError::Failure)));
    assert!(matches!(c, Command::Finish(Err(DomainError::StorageFailure))));
}

#[test]
fn resolve_reply_maps_each_answer() {
    assert!(matches!(resolve_reply(Reply::Found(None)), Err(DomainError::UrlNotFound)));
    assert!(matches!(resolve_reply(Reply::Failed), Err(DomainError::StorageFailure)));
    let r = resolve_reply(Reply::Found(Some(mapping("abc123", "https://a.example")))).unwrap();
    assert_eq!(r.original_url, "https://a.example");
}

#[test]
fn response_carries_the_full_short_url() {
    let r = UrlResponse::new(mapping("aB3kR9", "https://a.example"), "http://localhost:8080");
    assert_eq!(r.short_url, "http://localhost:8080/aB3kR9");
    assert_eq!(r.original_url, "https://a.example");
    assert_eq!(r.created_at, 7);
}

#[test]
fn error_messages() {
    assert_eq!(DomainError::UrlNotFound.message(), "URL not found");
    assert_eq!(DomainError::InvalidShortKey.message(), "Invalid short key");
    assert_eq!(DomainError::StorageFailure.message(), "Storage failure");
}

fn perform(store: &mut MemoryStore, c: Command) -> Reply {
    match c {
        Command::FindByUrl(u) => Reply::Found(store.find_by_original_url(&u)),
        Command::FindByKey(k) => Reply::Found(store.find_by_short_key(&k)),
        Command::Insert(u) => Reply::Inserted(store.insert(u)),
        Command::Finish(_) => panic!("the call is over"),
    }
}

#[test]
fn interleaved_calls_for_one_url_agree() {
    let mut store = MemoryStore::new();
    let url = "https://example.com/race".to_string();
    let (mut a, ca) = Shortening::start(url.clone(), 1);
    let (mut b, cb) = Shortening::start(url.clone(), 2);
    // both find the URL missing and draw a key
    let ra = perform(&mut store, ca);
    let rb = perform(&mut store, cb);
    let ca = a.step(ra);
    let cb = b.step(rb);
    // both find their key free and ask to insert
    let ra = perform(&mut store, ca);
    let rb = perform(&mut store, cb);
    let ca = a.step(ra);
    let cb = b.step(rb);
    // the first insert wins; the second loses the race for the URL
    let ra = perform(&mut store, ca);
    let rb = perform(&mut store, cb);
    assert!(matches!(rb, Reply::Inserted(Err(InsertError::DuplicateUrl))));
    let done_a = a.step(ra);
    let reread = b.step(rb);
    assert!(matches!(reread, Command::FindByUrl(_)));
    let rb = perform(&mut store, reread);
    let done_b = b.step(rb);
    match (done_a, done_b) {
        (Command::Finish(Ok(ma)), Command::Finish(Ok(mb))) => {
            assert_eq!(ma.short_key, mb.short_key);
            assert_eq!(mb.original_url, url);
        }
        _ => panic!("both calls should succeed"),
    }
    assert_eq!(store.len(), 1);
}
