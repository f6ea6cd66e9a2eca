use authz_flow::ledger::{TimeOrderedId, UpstreamSessions};

use chrono::{Duration, TimeZone};
use rand_chacha::rand_core::SeedableRng;
use rand_chacha::ChaChaRng;
use ulid::Ulid;

fn to_id(u: Ulid) -> TimeOrderedId {
    TimeOrderedId::new(u.timestamp_ms(), u.random())
}

#[test]
fn test_session_cookie() {
    let now = chrono::Utc.with_ymd_and_hms(2018, 1, 18, 1, 30, 22).unwrap();
    let mut rng = ChaChaRng::seed_from_u64(42);

    let sessions = UpstreamSessions::default();

    let provider_a = to_id(Ulid::from_datetime_with_source(now.into(), &mut rng));
    let provider_b = to_id(Ulid::from_datetime_with_source(now.into(), &mut rng));

    let first_session = to_id(Ulid::from_datetime_with_source(now.into(), &mut rng));
    let first_state = "first-state";
    let sessions = sessions.add(first_session, provider_a, first_state.to_string());

    let now = now + Duration::minutes(5);

    let second_session = to_id(Ulid::from_datetime_with_source(now.into(), &mut rng));
    let second_state = "second-state";
    let sessions = sessions.add(second_session, provider_b, second_state.to_string());

    let sessions = sessions.expire(now.timestamp_millis());
    assert_eq!(
        sessions.find_session(provider_a, &first_state.to_string()),
        Ok(first_session)
    );
    assert_eq!(
        sessions.find_session(provider_b, &second_state.to_string()),
        Ok(second_session)
    );
    assert!(sessions.find_session(provider_b, &first_state.to_string()).is_err());
    assert!(sessions.find_session(provider_a, &second_state.to_string()).is_err());

    // Make the first session expire
    let now = now + Duration::minutes(6);
    let sessions = sessions.expire(now.timestamp_millis());
    assert!(sessions.find_session(provider_a, &first_state.to_string()).is_err());
    assert_eq!(
        sessions.find_session(provider_b, &second_state.to_string()),
        Ok(second_session)
    );

    // Associate a link with the second
    let second_link = to_id(Ulid::from_datetime_with_source(now.into(), &mut rng));
    let sessions = sessions
        .add_link_to_session(second_session, second_link)
        .unwrap();

    // Now the session can't be found with its state
    assert!(sessions.find_session(provider_b, &second_state.to_string()).is_err());

    // But it can be looked up by its link
    assert_eq!(sessions.lookup_link(second_link), Ok(second_session));
    // And it can be consumed
    let sessions = sessions.consume_link(second_link).unwrap();
    // But only once
    assert!(sessions.consume_link(second_link).is_err());
}

#[test]
fn ledger_link_lifecycle() {
    let s1 = TimeOrderedId::new(1_000, 11);
    let p1 = TimeOrderedId::new(1_000, 22);
    let l1 = TimeOrderedId::new(2_000, 33);

    let ledger = UpstreamSessions::new().add(s1, p1, "x".to_string());
    assert_eq!(ledger.find_session(p1, &"x".to_string()), Ok(s1));

    let ledger = ledger.add_link_to_session(s1, l1).unwrap();
    assert!(ledger.find_session(p1, &"x".to_string()).is_err());
    assert_eq!(ledger.lookup_link(l1), Ok(s1));

    let ledger = ledger.consume_link(l1).unwrap();
    assert!(ledger.lookup_link(l1).is_err());
    assert!(ledger.consume_link(l1).is_err());
}

#[test]
fn ledger_expiry_window() {
    let t: i64 = 1_700_000_000_000;
    let entry = TimeOrderedId::new(t as u64, 7);
    let provider = TimeOrderedId::new(t as u64, 8);
    let ledger = UpstreamSessions::new().add(entry, provider, "st".to_string());

    // Retained five minutes later.
    let ledger = ledger.expire(t + 5 * 60 * 1000);
    assert_eq!(ledger.find_session(provider, &"st".to_string()), Ok(entry));

    // Absent eleven minutes after creation (the lifetime is ten minutes).
    let ledger = ledger.expire(t + 11 * 60 * 1000);
    assert!(ledger.find_session(provider, &"st".to_string()).is_err());
}

#[test]
fn ledger_save_reports_expiry_instant() {
    let t: i64 = 1_700_000_000_000;
    let entry = TimeOrderedId::new(t as u64, 7);
    let provider = TimeOrderedId::new(t as u64, 8);
    let ledger = UpstreamSessions::new().add(entry, provider, "st".to_string());
    let (kept, expires_at) = ledger.save(t);
    assert_eq!(expires_at, t + 10 * 60 * 1000);
    assert_eq!(kept.find_session(provider, &"st".to_string()), Ok(entry));
}

#[test]
fn ledger_load_defaults_to_empty() {
    let ledger = UpstreamSessions::load(None);
    let p = TimeOrderedId::new(1, 2);
    assert!(ledger.find_session(p, &"x".to_string()).is_err());

    let filled = UpstreamSessions::new().add(TimeOrderedId::new(3, 4), p, "x".to_string());
    let ledger = UpstreamSessions::load(Some(filled));
    assert_eq!(ledger.find_session(p, &"x".to_string()), Ok(TimeOrderedId::new(3, 4)));
}

#[test]
fn ledger_error_message() {
    let e = authz_flow::ledger::UpstreamSessionNotFound;
    assert_eq!(e.message(), "upstream session not found");
}
