use encurtador::generator::generate_code;
use encurtador::store::next_step;
use encurtador::store::short_url;
use encurtador::store::CreateError;
use encurtador::store::InsertOutcome;
use encurtador::store::LinkStore;
use encurtador::store::NextStep;
use encurtador::store::DEFAULT_CODE_LENGTH;
use encurtador::store::MAX_CREATE_ATTEMPTS;
use encurtador::validate::validate_url;

#[test]
fn generated_code_has_length_and_alphabet() {
    let lens: Vec<usize> = vec![1, 6, 12];
    for len in lens {
        let code = generate_code(len);
        assert_eq!(code.len(), len);
        assert!(code.chars().all(|c| c.is_ascii_alphanumeric()));
    }
}

#[test]
fn create_returns_code_of_configured_length() {
    let mut s = LinkStore::new(DEFAULT_CODE_LENGTH);
    let code = s.create("https://example.com/a/b").unwrap();
    assert_eq!(code.len(), 6);
    assert!(code.chars().all(|c| c.is_ascii_alphanumeric()));
}

#[test]
fn create_then_resolve_round_trip() {
    let mut s = LinkStore::new(6);
    let code = s.create("https://example.com/a/b").unwrap();
    assert_eq!(s.resolve(&code).as_deref(), Some("https://example.com/a/b"));
}

#[test]
fn resolve_unknown_code_is_not_found() {
    let s = LinkStore::new(6);
    assert_eq!(s.resolve("zzzzzz"), None);
    let mut populated = LinkStore::new(6);
    populated.create("https://example.com/").unwrap();
    assert_eq!(populated.resolve("zzzzzz"), None);
}

#[test]
fn same_url_twice_gets_two_distinct_codes() {
    let mut s = LinkStore::new(6);
    let c1 = s.create("https://example.com/a/b").unwrap();
    let c2 = s.create("https://example.com/a/b").unwrap();
    assert_ne!(c1, c2);
    assert_eq!(s.resolve(&c1).as_deref(), Some("https://example.com/a/b"));
    assert_eq!(s.resolve(&c2).as_deref(), Some("https://example.com/a/b"));
    assert_eq!(s.len(), 2);
}

#[test]
fn distinct_urls_get_distinct_codes() {
    let mut s = LinkStore::new(6);
    let c1 = s.create("https://one.example/").unwrap();
    let c2 = s.create("https://two.example/").unwrap();
    assert_ne!(c1, c2);
    assert_eq!(s.resolve(&c1).as_deref(), Some("https://one.example/"));
    assert_eq!(s.resolve(&c2).as_deref(), Some("https://two.example/"));
}

#[test]
fn collision_is_refused_and_first_binding_kept() {
    let mut s = LinkStore::new(6);
    assert!(s.try_insert("AAAAAA".to_string(), "https://one.example/".to_string()));
    assert!(!s.try_insert("AAAAAA".to_string(), "https://two.example/".to_string()));
    assert_eq!(s.resolve("AAAAAA").as_deref(), Some("https://one.example/"));
    assert_eq!(s.len(), 1);
}

#[test]
fn empty_url_is_rejected_and_nothing_stored() {
    let mut s = LinkStore::new(6);
    assert_eq!(s.create(""), Err(CreateError::InvalidUrl));
    assert_eq!(s.len(), 0);
}

#[test]
fn malformed_url_is_rejected_and_nothing_stored() {
    let mut s = LinkStore::new(6);
    assert_eq!(s.create("not a url"), Err(CreateError::InvalidUrl));
    assert_eq!(s.create("/relative/path"), Err(CreateError::InvalidUrl));
    assert_eq!(s.create("example.com"), Err(CreateError::InvalidUrl));
    assert_eq!(s.len(), 0);
}

#[test]
fn exhausted_when_every_code_is_taken() {
    let mut s = LinkStore::new(1);
    let alphabet = "ABCDEFGHIJKLMNOPQRSTUVWXYZabcdefghijklmnopqrstuvwxyz0123456789";
    for ch in alphabet.chars() {
        assert!(s.try_insert(ch.to_string(), "https://example.com/".to_string()));
    }
    assert_eq!(s.create("https://example.com/x"), Err(CreateError::Exhausted));
    assert_eq!(s.len(), 62);
}

#[test]
fn stored_url_is_normalized() {
    let mut s = LinkStore::new(6);
    let code = s.create("HTTPS://EXAMPLE.COM").unwrap();
    assert_eq!(s.resolve(&code).as_deref(), Some("https://example.com/"));
}

#[test]
fn stored_url_matches_url_crate_serialization() {
    let input = "https://example.com/path?q=1#frag";
    let expected = url::Url::parse(input).unwrap().to_string();
    let mut s = LinkStore::new(6);
    let code = s.create(input).unwrap();
    assert_eq!(s.resolve(&code), Some(expected));
}

#[test]
fn short_url_joins_base_and_code() {
    assert_eq!(short_url("http://localhost:8080", "abc123"), "http://localhost:8080/abc123");
}

#[test]
fn validation_normalizes_and_rejects() {
    assert_eq!(
        validate_url("HTTPS://EXAMPLE.COM").as_deref(),
        Some("https://example.com/")
    );
    assert_eq!(validate_url(""), None);
    assert_eq!(validate_url("not a url"), None);
    assert_eq!(validate_url("/relative/path"), None);
}

#[test]
fn retry_decision_follows_the_policy() {
    assert_eq!(next_step(0, InsertOutcome::Inserted), NextStep::Done);
    assert_eq!(next_step(0, InsertOutcome::CodeTaken), NextStep::Retry);
    assert_eq!(
        next_step(MAX_CREATE_ATTEMPTS - 2, InsertOutcome::CodeTaken),
        NextStep::Retry
    );
    assert_eq!(
        next_step(MAX_CREATE_ATTEMPTS - 1, InsertOutcome::CodeTaken),
        NextStep::GiveUp
    );
    assert_eq!(next_step(0, InsertOutcome::StoreFailure), NextStep::GiveUp);
    assert_eq!(
        next_step(MAX_CREATE_ATTEMPTS, InsertOutcome::Inserted),
        NextStep::Done
    );
}

#[test]
fn code_len_reports_the_configuration() {
    let mut s = LinkStore::new(8);
    assert_eq!(s.code_len(), 8);
    let code = s.create("https://example.com/").unwrap();
    assert_eq!(code.len(), 8);
}
