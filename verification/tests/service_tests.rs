use leaderboard::service::{BanRequest, LeaderboardService, Rejection, SubmitRequest};

fn req(name: &str, score: u32, key: Option<&str>) -> Option<SubmitRequest> {
    Some(SubmitRequest {
        name: name.to_string(),
        score,
        key: key.map(|k| k.to_string()),
    })
}

fn service() -> LeaderboardService {
    LeaderboardService::new("admin-secret".to_string())
}

#[test]
fn claim_update_and_list() {
    let mut s = service();
    let t1 = s
        .submit("10.0.0.1".to_string(), 0, req("Ada", 100, None))
        .expect("claiming a free name succeeds");
    let t2 = s
        .submit("10.0.0.1".to_string(), 10, req("Ada", 150, Some(&t1)))
        .expect("updating with the owner key succeeds");
    assert_eq!(t1, t2);
    let listing = s.list_ranked();
    assert_eq!(listing.len(), 1);
    assert_eq!(listing[0].0, "Ada");
    assert_eq!(listing[0].1, 150);
}

#[test]
fn keyless_resubmission_is_rejected_and_listing_unchanged() {
    let mut s = service();
    let _t1 = s
        .submit("10.0.0.1".to_string(), 0, req("Ada", 100, None))
        .expect("claiming a free name succeeds");
    let r = s.submit("10.0.0.2".to_string(), 2, req("Ada", 200, None));
    assert_eq!(r, Err(Rejection::NameTaken));
    let listing = s.list_ranked();
    assert_eq!(listing.len(), 1);
    assert_eq!(listing[0].0, "Ada");
    assert_eq!(listing[0].1, 100);
}

#[test]
fn wrong_key_is_rejected() {
    let mut s = service();
    let _t1 = s
        .submit("10.0.0.1".to_string(), 0, req("Ada", 100, None))
        .expect("claiming a free name succeeds");
    let r = s.submit("10.0.0.2".to_string(), 7, req("Ada", 200, Some("not-the-key")));
    assert_eq!(r, Err(Rejection::NameTaken));
}

#[test]
fn anti_cheat_bans_the_sender() {
    let mut s = service();
    let r = s.submit("10.0.0.3".to_string(), 0, req("Bob", 6000, None));
    assert_eq!(r, Err(Rejection::AntiCheat));
    let r2 = s.submit("10.0.0.3".to_string(), 100, req("Bob", 10, None));
    assert_eq!(r2, Err(Rejection::Banned));
    assert_eq!(s.list_ranked().len(), 0);
}

#[test]
fn anti_cheat_threshold_is_inclusive() {
    let mut s = service();
    let r = s.submit("10.0.0.4".to_string(), 0, req("Eve", 5000, None));
    assert_eq!(r, Err(Rejection::AntiCheat));
    let mut s2 = service();
    let r2 = s2.submit("10.0.0.4".to_string(), 0, req("Eve", 4999, None));
    assert!(r2.is_ok());
}

#[test]
fn anti_cheat_fires_even_for_the_owner() {
    let mut s = service();
    let t1 = s
        .submit("10.0.0.5".to_string(), 0, req("Ada", 100, None))
        .expect("claiming a free name succeeds");
    let r = s.submit("10.0.0.5".to_string(), 10, req("Ada", 9999, Some(&t1)));
    assert_eq!(r, Err(Rejection::AntiCheat));
    let listing = s.list_ranked();
    assert_eq!(listing[0].1, 100);
}

#[test]
fn second_submission_within_window_is_rate_limited() {
    let mut s = service();
    let r1 = s.submit("10.0.0.6".to_string(), 100, req("Ada", 10, None));
    assert!(r1.is_ok());
    let r2 = s.submit("10.0.0.6".to_string(), 104, req("Grace", 20, None));
    assert_eq!(r2, Err(Rejection::RateLimited));
    let r3 = s.submit("10.0.0.6".to_string(), 105, req("Grace", 20, None));
    assert!(r3.is_ok());
}

#[test]
fn rejection_does_not_reset_the_window() {
    let mut s = service();
    let r1 = s.submit("10.0.0.7".to_string(), 100, req("Ada", 10, None));
    assert!(r1.is_ok());
    // Rejected inside the window: the timer still runs from 100.
    let r2 = s.submit("10.0.0.7".to_string(), 103, req("Grace", 20, None));
    assert_eq!(r2, Err(Rejection::RateLimited));
    let r3 = s.submit("10.0.0.7".to_string(), 105, req("Grace", 20, None));
    assert!(r3.is_ok());
}

#[test]
fn malformed_body_counts_against_the_window() {
    let mut s = service();
    let r1 = s.submit("10.0.0.8".to_string(), 100, None);
    assert_eq!(r1, Err(Rejection::Malformed));
    let r2 = s.submit("10.0.0.8".to_string(), 102, req("Ada", 10, None));
    assert_eq!(r2, Err(Rejection::RateLimited));
}

#[test]
fn different_addresses_are_throttled_independently() {
    let mut s = service();
    let r1 = s.submit("10.0.1.1".to_string(), 100, req("Ada", 10, None));
    assert!(r1.is_ok());
    let r2 = s.submit("10.0.1.2".to_string(), 101, req("Grace", 20, None));
    assert!(r2.is_ok());
}

#[test]
fn admin_ban_with_correct_key() {
    let mut s = service();
    let r = s.admin_ban(Some(BanRequest {
        ip: "10.0.0.9".to_string(),
        key: "admin-secret".to_string(),
    }));
    assert_eq!(r, Ok(()));
    let r2 = s.submit("10.0.0.9".to_string(), 0, req("Ada", 10, None));
    assert_eq!(r2, Err(Rejection::Banned));
}

#[test]
fn admin_ban_with_wrong_key_is_rejected() {
    let mut s = service();
    let r = s.admin_ban(Some(BanRequest {
        ip: "10.0.0.10".to_string(),
        key: "guess".to_string(),
    }));
    assert_eq!(r, Err(Rejection::BadAdminKey));
    let r2 = s.submit("10.0.0.10".to_string(), 0, req("Ada", 10, None));
    assert!(r2.is_ok());
}

#[test]
fn admin_ban_malformed_body() {
    let mut s = service();
    assert_eq!(s.admin_ban(None), Err(Rejection::Malformed));
}

#[test]
fn listing_is_sorted_descending() {
    let mut s = service();
    let mut t: u64 = 0;
    for (name, score) in [("a", 30u32), ("b", 10), ("c", 40), ("d", 20), ("e", 30)] {
        let addr = format!("10.1.0.{score}");
        assert!(s.submit(addr, t, req(name, score, None)).is_ok());
        t += 10;
    }
    let listing = s.list_ranked();
    assert_eq!(listing.len(), 5);
    for w in listing.windows(2) {
        assert!(w[0].1 >= w[1].1);
    }
    let scores: Vec<u32> = listing.iter().map(|p| p.1).collect();
    assert_eq!(scores, vec![40, 30, 30, 20, 10]);
    assert_eq!(listing[0].0, "c");
}

#[test]
fn tokens_look_fresh() {
    let mut s = service();
    let t1 = s
        .submit("10.0.2.1".to_string(), 0, req("Ada", 1, None))
        .expect("claim succeeds");
    let t2 = s
        .submit("10.0.2.2".to_string(), 0, req("Bob", 2, None))
        .expect("claim succeeds");
    assert_eq!(t1.len(), 36);
    assert_eq!(t2.len(), 36);
    assert_ne!(t1, t2);
    assert!(!t1.contains("Ada"));
}

#[test]
fn generated_admin_key_has_token_shape() {
    let k = leaderboard::service::generate_admin_key();
    assert_eq!(k.len(), 36);
}

#[test]
fn rejection_reasons_are_distinct_and_exact() {
    let all = [
        Rejection::Banned,
        Rejection::RateLimited,
        Rejection::Malformed,
        Rejection::AntiCheat,
        Rejection::NameTaken,
        Rejection::BadAdminKey,
    ];
    let reasons: Vec<&str> = all.iter().map(|r| r.reason()).collect();
    assert_eq!(
        reasons,
        vec!["banned", "rate-limited", "malformed", "anti-cheat", "name-taken", "bad-admin-key"]
    );
    for i in 0..reasons.len() {
        for j in 0..reasons.len() {
            if i != j {
                assert_ne!(reasons[i], reasons[j]);
            }
        }
    }
    for r in all {
        let expected = if r == Rejection::Malformed { 400 } else { 403 };
        assert_eq!(r.status_code(), expected);
    }
}

#[test]
fn custom_policy_is_honoured() {
    let mut s = LeaderboardService::with_policy("k".to_string(), 100, 2);
    let r = s.submit("10.0.3.1".to_string(), 0, req("Ada", 100, None));
    assert_eq!(r, Err(Rejection::AntiCheat));
    let mut s2 = LeaderboardService::with_policy("k".to_string(), 100, 2);
    assert!(s2.submit("10.0.3.2".to_string(), 0, req("Ada", 99, None)).is_ok());
    assert_eq!(
        s2.submit("10.0.3.2".to_string(), 1, req("Bob", 1, None)),
        Err(Rejection::RateLimited)
    );
    assert!(s2.submit("10.0.3.2".to_string(), 2, req("Bob", 1, None)).is_ok());
}

#[test]
fn reloaded_state_behaves_like_before_restart() {
    let mut s = service();
    s.load_record(
        "Ada".to_string(),
        150,
        "stored-key".to_string(),
        "10.0.4.1".to_string(),
    );
    s.load_ban("10.0.4.2".to_string());
    let listing = s.list_ranked();
    assert_eq!(listing, vec![("Ada".to_string(), 150)]);
    assert_eq!(
        s.submit("10.0.4.2".to_string(), 0, req("Bob", 10, None)),
        Err(Rejection::Banned)
    );
    let t = s
        .submit("10.0.4.3".to_string(), 0, req("Ada", 175, Some("stored-key")))
        .expect("the stored key still owns the name");
    assert_eq!(t, "stored-key");
}
