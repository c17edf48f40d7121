use rbph::db::board::{latest_key, snapshot_key};
use rbph::db::cache::{del_pattern, team_hints_key};
use rbph::kv::KvStore;

#[test]
fn namespaces_keys_patterns_channels_and_sessions() {
    let first = KvStore::new("production");
    let second = KvStore::new("staging");

    assert_eq!(
        first.key("cache:leaderboard:v1:game:1"),
        "rbph:production:cache:leaderboard:v1:game:1"
    );
    assert_eq!(
        first.pattern("cache:puzzle-hints:v1:*"),
        "rbph:production:cache:puzzle-hints:v1:*"
    );
    assert_eq!(first.channel("sync:v1"), "rbph:production:channel:sync:v1");
    assert_eq!(
        first.session_key("opaque"),
        "rbph:production:session:v1:data:opaque"
    );
    assert_ne!(first.key("same"), second.key("same"));
}

#[test]
fn keys_hold_their_ids() {
    let kv = KvStore::new("a");
    assert_eq!(latest_key(&kv, 7, "main"), "rbph:a:cache:leaderboard:v1:7:main:latest");
    assert_eq!(
        snapshot_key(&kv, 7, "main", 12),
        "rbph:a:cache:leaderboard:v1:7:main:snapshot:12"
    );
    assert_eq!(team_hints_key(3, 4), "cache:puzzle-hints:v1:puzzle:3:team:4");
    assert_ne!(team_hints_key(1, 12), team_hints_key(11, 2));
}

#[test]
fn scans_end_at_the_cursor_zero() {
    let step = del_pattern(0, &vec![]);
    assert!(!step.unlink);
    assert_eq!(step.next, None);
    let step = del_pattern(17, &vec!["a".to_string()]);
    assert!(step.unlink);
    assert_eq!(step.next, Some(17));
}
