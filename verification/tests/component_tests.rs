use leaderboard::bans::BanRegistry;
use leaderboard::limiter::RateLimiter;
use leaderboard::store::{LeaderboardStore, ScoreRecord, SubmitError};
use leaderboard::KvList;

#[test]
fn kvlist_insert_get_and_overwrite() {
    let mut m: KvList<u64> = KvList::new();
    assert_eq!(m.len(), 0);
    assert!(m.get(&"a".to_string()).is_none());
    m.insert("a".to_string(), 1);
    m.insert("b".to_string(), 2);
    assert_eq!(m.len(), 2);
    assert_eq!(m.get(&"a".to_string()), Some(&1));
    assert_eq!(m.get(&"b".to_string()), Some(&2));
    m.insert("a".to_string(), 9);
    assert_eq!(m.len(), 2);
    assert_eq!(m.get(&"a".to_string()), Some(&9));
    assert_eq!(m.key_ref(1), "b");
    assert_eq!(m.value_ref(1), &2);
}

#[test]
fn ban_registry_is_idempotent() {
    let mut b = BanRegistry::new();
    assert!(!b.is_banned(&"x".to_string()));
    b.ban("x".to_string());
    assert!(b.is_banned(&"x".to_string()));
    b.ban("x".to_string());
    assert!(b.is_banned(&"x".to_string()));
    assert!(!b.is_banned(&"y".to_string()));
}

#[test]
fn rate_limiter_window_edges() {
    let mut l = RateLimiter::new(5);
    assert_eq!(l.window(), 5);
    assert!(l.allow("a".to_string(), 100));
    assert!(!l.allow("a".to_string(), 104));
    // A rejected attempt is not recorded: 105 is five seconds after 100.
    assert!(l.allow("a".to_string(), 105));
    assert!(!l.allow("a".to_string(), 109));
    // A clock that runs backwards still counts as inside the window.
    assert!(!l.allow("a".to_string(), 90));
}

#[test]
fn store_protocol_claim_update_reject() {
    let mut st = LeaderboardStore::new();
    let r = st.submit(
        "Ada".to_string(),
        100,
        None,
        "addr1".to_string(),
        "fresh-1".to_string(),
    );
    assert_eq!(r, Ok("fresh-1".to_string()));
    let r2 = st.submit(
        "Ada".to_string(),
        150,
        Some("fresh-1".to_string()),
        "addr2".to_string(),
        "fresh-2".to_string(),
    );
    assert_eq!(r2, Ok("fresh-1".to_string()));
    let r3 = st.submit(
        "Ada".to_string(),
        200,
        Some("fresh-2".to_string()),
        "addr3".to_string(),
        "fresh-3".to_string(),
    );
    assert_eq!(r3, Err(SubmitError::NameTaken));
    let ranked = st.ranked();
    assert_eq!(ranked, vec![("Ada".to_string(), 150)]);
}

#[test]
fn store_ranked_empty_and_ties() {
    let mut st = LeaderboardStore::new();
    assert_eq!(st.ranked(), vec![]);
    st.load_record(
        "a".to_string(),
        ScoreRecord {
            score: 7,
            owner_key: "k1".to_string(),
            submitter_address: "x".to_string(),
        },
    );
    st.load_record(
        "b".to_string(),
        ScoreRecord {
            score: 7,
            owner_key: "k2".to_string(),
            submitter_address: "y".to_string(),
        },
    );
    st.load_record(
        "c".to_string(),
        ScoreRecord {
            score: 9,
            owner_key: "k3".to_string(),
            submitter_address: "z".to_string(),
        },
    );
    let ranked = st.ranked();
    assert_eq!(ranked.len(), 3);
    assert_eq!(ranked[0], ("c".to_string(), 9));
    let tail: Vec<String> = ranked[1..].iter().map(|p| p.0.clone()).collect();
    assert!(tail == vec!["a".to_string(), "b".to_string()] || tail == vec![
        "b".to_string(),
        "a".to_string(),
    ]);
}

#[test]
fn names_are_case_sensitive() {
    let mut st = LeaderboardStore::new();
    let r = st.submit("ada".to_string(), 1, None, "a".to_string(), "f1".to_string());
    assert!(r.is_ok());
    let r2 = st.submit("Ada".to_string(), 2, None, "a".to_string(), "f2".to_string());
    assert_eq!(r2, Ok("f2".to_string()));
    assert_eq!(st.ranked().len(), 2);
}
