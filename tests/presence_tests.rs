use rust_ftp::presence::{
    detect_monitor_conflicts, leave_presence, line_names_presence_file, listing_mentions_presence_file,
    refresh_presence, refresh_presence_now, ConflictLevel, LeaveAction, PresenceEntry,
};

fn entry(host: &str, profile: &str, mode: &str, seen: &str) -> PresenceEntry {
    PresenceEntry {
        ip: "10.0.0.1".to_string(),
        hostname: host.to_string(),
        profile_name: profile.to_string(),
        mode: mode.to_string(),
        last_seen: seen.to_string(),
    }
}

const T: &str = "2024-05-01T12:00:00+00:00";

#[test]
fn peer_conflict_critical() {
    let doc = vec![entry("h1", "alpha", "delete", T), entry("h2", "beta", "DELETE", T), entry("me", "mine", "upload", T)];
    let c = detect_monitor_conflicts(&doc, "upload", "me", "mine").unwrap();
    assert_eq!(c.level, ConflictLevel::Critical);
    assert_eq!(c.peers.len(), 2);
    assert_eq!(c.peers[0].hostname, "h1");
}

#[test]
fn own_entry_never_counts() {
    let doc = vec![entry("me", "mine", "delete", T), entry("h1", "alpha", "delete", T)];
    assert!(detect_monitor_conflicts(&doc, "upload", "me", "mine").is_none());
    let c = detect_monitor_conflicts(&doc, "keep", "me", "mine").unwrap();
    assert_eq!(c.level, ConflictLevel::Warning);
    assert_eq!(c.peers.len(), 1);
    assert_eq!(c.peers[0].hostname, "h1");
    // same host, other profile is another instance
    let doc = vec![entry("me", "other", "keep", T)];
    assert_eq!(detect_monitor_conflicts(&doc, "Keep", "me", "mine").unwrap().level, ConflictLevel::Info);
    assert_eq!(detect_monitor_conflicts(&doc, "delete", "me", "mine").unwrap().level, ConflictLevel::Warning);
    assert!(detect_monitor_conflicts(&doc, "upload", "me", "mine").is_none());
}

#[test]
fn listing_finds_presence_file() {
    assert!(line_names_presence_file("-rw-r--r-- 1 u g 12 Jan 1 12:00 _monitored.json  \r"));
    assert!(line_names_presence_file("_monitored.json"));
    assert!(!line_names_presence_file("_monitored.json.bak"));
    assert!(!line_names_presence_file("old_monitored.json"));
    assert!(!line_names_presence_file("-rw-r--r-- 1 u g 12 Jan 1 12:00 old_monitored.json"));
    assert!(line_names_presence_file("  _monitored.json\t"));
    assert!(!listing_mentions_presence_file(&vec!["old_monitored.json".to_string()]));
    let listing = vec!["a.txt".to_string(), " _monitored.json".to_string()];
    assert!(listing_mentions_presence_file(&listing));
    assert!(!listing_mentions_presence_file(&vec!["a.txt".to_string()]));
    assert!(!listing_mentions_presence_file(&Vec::new()));
}

#[test]
fn refresh_drops_stale_and_upserts_own_entry() {
    let now = chrono::DateTime::parse_from_rfc3339(T).unwrap().timestamp_millis();
    let doc = vec![
        entry("old", "p", "keep", "2024-05-01T11:54:59+00:00"),
        entry("me", "mine", "upload", "2024-05-01T11:58:00+00:00"),
        entry("bad", "p", "keep", "yesterday"),
        entry("fresh", "p", "delete", "2024-05-01T11:56:00+00:00"),
    ];
    let out = refresh_presence(&doc, "192.168.1.2", "me", "mine", now).unwrap();
    assert_eq!(out.len(), 2);
    assert_eq!(out[0].hostname, "me");
    assert_eq!(out[0].ip, "192.168.1.2");
    assert_eq!(out[0].mode, "upload");
    let seen = chrono::DateTime::parse_from_rfc3339(&out[0].last_seen).unwrap();
    assert_eq!(seen.timestamp_millis(), now);
    assert_eq!(out[1].hostname, "fresh");
    let out = refresh_presence(&Vec::new(), "ip", "me", "mine", now).unwrap();
    assert_eq!(out.len(), 1);
    assert!(refresh_presence(&Vec::new(), "ip", "me", "mine", i64::MAX).is_none());
    let year_9999 = 253402300799999;
    let out = refresh_presence(&Vec::new(), "ip", "me", "mine", year_9999).unwrap();
    assert_eq!(chrono::DateTime::parse_from_rfc3339(&out[0].last_seen).unwrap().timestamp_millis(), year_9999);
    let year_0 = -62167219200000;
    let out = refresh_presence(&Vec::new(), "ip", "me", "mine", year_0).unwrap();
    assert_eq!(chrono::DateTime::parse_from_rfc3339(&out[0].last_seen).unwrap().timestamp_millis(), year_0);
}

#[test]
fn refresh_now_appends_own_entry() {
    let (now, out) = refresh_presence_now(&vec![entry("x", "y", "keep", "not a time")], "ip", "me", "mine");
    let out = out.unwrap();
    assert_eq!(chrono::DateTime::parse_from_rfc3339(&out[0].last_seen).unwrap().timestamp_millis(), now);
    assert_eq!(out.len(), 1);
    assert_eq!(out[0].profile_name, "mine");
}

#[test]
fn leaving_removes_own_entry() {
    let doc = vec![entry("me", "mine", "upload", T), entry("h", "p", "keep", T)];
    match leave_presence(&doc, "me", "mine") {
        LeaveAction::Rewrite(v) => {
            assert_eq!(v.len(), 1);
            assert_eq!(v[0].hostname, "h");
        }
        other => panic!("{:?}", other),
    }
    assert!(matches!(leave_presence(&doc[..1].iter().map(|e| e.duplicate()).collect(), "me", "mine"), LeaveAction::DeleteFile));
    assert!(matches!(leave_presence(&doc, "me", "other"), LeaveAction::Unchanged));
}
