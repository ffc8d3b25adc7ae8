use rust_ftp::fingerprint::{compute_file_hash, config_id_to_hash, metadata_string};
use rust_ftp::hash_store::{hash_file_line, load_existing_hashes, load_existing_hashes_with_metadata, parse_hash_line, trim_hash_lines, HashIndex};
use rust_ftp::numbers::{parse_i64, parse_u64};
use rust_ftp::text::{lines, split_on};

#[test]
fn fingerprint_hashes_the_metadata_text() {
    assert_eq!(metadata_string("/up", "a/b.txt", 10, -5), "/up|a/b.txt|10|-5");
    let fp = compute_file_hash("a/b.txt", "/up", 10, 1700000000);
    assert_eq!(fp, xxhash_rust::xxh3::xxh3_64(b"/up|a/b.txt|10|1700000000"));
    assert_eq!(fp, compute_file_hash("a/b.txt", "/up", 10, 1700000000));
    assert_ne!(fp, compute_file_hash("a/b.txt", "/up", 10, 1700000001));
    assert_eq!(metadata_string("d", "f", 0, i64::MIN), "d|f|0|-9223372036854775808");
}

#[test]
fn config_hash_is_low_half_of_fnv1a() {
    assert_eq!(config_id_to_hash(""), 0x8422_2325);
    assert_eq!(config_id_to_hash("a"), 0x8601_ec8c);
    assert_eq!(config_id_to_hash("foobar"), (0x85944171f73967e8u64 & 0xFFFF_FFFF) as u32);
}

#[test]
fn integers_parse_as_std_does() {
    for s in ["0", "+5", "18446744073709551615", "18446744073709551616", "", "+", "-1", "1a", "007"] {
        assert_eq!(parse_u64(s), s.parse::<u64>().ok(), "{}", s);
    }
    for s in ["-9223372036854775808", "-9223372036854775809", "9223372036854775807", "9223372036854775808", "-", "-0", "+12", "--1"] {
        assert_eq!(parse_i64(s), s.parse::<i64>().ok(), "{}", s);
    }
}

#[test]
fn splits_and_lines_match_std() {
    for s in ["", "a", "a|b||c|", "|"] {
        let ours = split_on(s, '|');
        let theirs: Vec<String> = s.split('|').map(|x| x.to_string()).collect();
        assert_eq!(ours, theirs);
    }
    for s in ["", "a", "a\n", "a\nb", "a\r\nb\r\n", "\n\n", "x\n\ny"] {
        let ours = lines(s);
        let theirs: Vec<String> = s.lines().map(|x| x.to_string()).collect();
        assert_eq!(ours, theirs, "{:?}", s);
    }
}

#[test]
fn reads_both_legacy_line_forms() {
    let r = parse_hash_line("/up|a.txt|10|1700|42").unwrap();
    assert_eq!((r.remote_dir.as_str(), r.filename.as_str(), r.size, r.mod_time, r.hash), ("/up", "a.txt", 10, 1700, 42));
    let r = parse_hash_line("/up|b.txt|77").unwrap();
    assert_eq!((r.size, r.mod_time, r.hash), (0, 0, 77));
    assert!(parse_hash_line("/up|b.txt").is_none());
    assert!(parse_hash_line("/up|b.txt|x").is_none());
    assert!(parse_hash_line("/up|a.txt|10|zz|42").is_none());
}

#[test]
fn loads_records_last_one_wins() {
    let index = load_existing_hashes_with_metadata("/d|f|1|2|3\nbad line\n/d|g|9\n/d|f|4|5|6\n");
    assert_eq!(index.len(), 3);
    assert_eq!(index.get("/d", "f"), Some((4, 5, 6)));
    assert_eq!(index.get("/d", "g"), Some((0, 0, 9)));
    assert_eq!(index.get("/d", "h"), None);
}

#[test]
fn unchanged_only_when_fingerprint_matches() {
    let mut index = HashIndex::new();
    let fp = compute_file_hash("f", "/d", 10, 100);
    index.record("/d", "f", 10, 100, fp);
    assert!(index.is_unchanged("/d", "f", 10, 100));
    assert!(!index.is_unchanged("/d", "f", 11, 100));
    assert!(!index.is_unchanged("/d", "g", 10, 100));
    assert_eq!(index.delete_all(), 1);
    assert!(!index.is_unchanged("/d", "f", 10, 100));
}

#[test]
fn store_line_round_trips() {
    let line = hash_file_line("/d", "f.txt", 10, 1700, 99);
    assert_eq!(line, "/d|f.txt|10|1700|99\n");
    let r = parse_hash_line(line.trim_end()).unwrap();
    assert_eq!((r.size, r.mod_time, r.hash), (10, 1700, 99));
}

#[test]
fn trims_to_the_last_lines() {
    assert_eq!(trim_hash_lines("a\nb\nc\n", 2), Some("b\nc\n".to_string()));
    assert_eq!(trim_hash_lines("a\nb", 2), None);
    assert_eq!(trim_hash_lines("a\nb\nc", 0), Some(String::new()));
}

#[test]
fn hash_only_loader_ignores_bad_size_fields() {
    let v = load_existing_hashes("/d|f|x|y|5\n/d|g|6\n/d|h\n/d|f|1|2|nope\n");
    assert_eq!(v, vec![("/d".to_string(), "f".to_string(), 5), ("/d".to_string(), "g".to_string(), 6)]);
    let w = load_existing_hashes("/d|f|7\n/d|g|6\n/d|f|1|2|9\n/e|f|3\n");
    assert_eq!(
        w,
        vec![("/d".to_string(), "f".to_string(), 9), ("/d".to_string(), "g".to_string(), 6), ("/e".to_string(), "f".to_string(), 3)]
    );
}
