use rust_ftp::session::{SessionState, SessionStats};
use rust_ftp::transfer::{inet_address_of_line, numbered_file_name, is_likely_text_file, is_usable_route_address, should_skip_entry};

#[test]
fn scanner_skips_hidden_temp_and_sent() {
    for name in [".DS_Store", "._a", ".Trashes", "x.filepart", "Thumbs.db", "desktop.ini", "~$doc.docx", "a.tmp", "a.temp", ".hidden"] {
        assert!(should_skip_entry(name, false), "{}", name);
    }
    for name in ["a.txt", "Thumbs.db.bak", "tmp", "report.temporary"] {
        assert!(!should_skip_entry(name, false), "{}", name);
    }
    assert!(should_skip_entry("FTPU-Sent", true));
    assert!(should_skip_entry(".git", true));
    assert!(!should_skip_entry("photos", true));
    assert!(!should_skip_entry("FTPU-Sent", false));
}

#[test]
fn text_detection_by_extension() {
    assert!(is_likely_text_file("notes.TXT"));
    assert!(is_likely_text_file("dir/main.rs"));
    assert!(is_likely_text_file("paper.vrb"));
    assert!(!is_likely_text_file("txt"));
    assert!(!is_likely_text_file("r"));
    assert!(!is_likely_text_file("dir.txt/notes"));
    assert!(is_likely_text_file(".bash"));
    assert!(!is_likely_text_file("image.png"));
    assert!(!is_likely_text_file("archive.synctex.gz"));
    assert!(!is_likely_text_file("noext"));
}

#[test]
fn interface_lines_give_addresses() {
    assert_eq!(inet_address_of_line("\tinet 192.168.1.5 netmask 0xffffff00"), Some("192.168.1.5".to_string()));
    assert_eq!(inet_address_of_line("inet 127.0.0.1 netmask 0xff000000"), None);
    assert_eq!(inet_address_of_line("  inet 169.254.3.3"), None);
    assert_eq!(inet_address_of_line("inet6 fe80::1"), None);
    assert_eq!(inet_address_of_line("inet "), None);
    assert!(is_usable_route_address("10.1.2.3"));
    assert!(!is_usable_route_address("127.0.0.1"));
    assert!(!is_usable_route_address("::1"));
    assert!(!is_usable_route_address("169.254.10.1"));
    assert!(!is_usable_route_address("fe80::1"));
    assert!(is_usable_route_address("2001:db8::1"));
}

#[test]
fn session_speeds_average_and_peak() {
    let mut s = SessionState::new(100);
    assert_eq!(s.get_average_speed(), 0);
    assert_eq!(s.get_peak_speed(), 0);
    s.add_file_upload(1_000_000, 1000);
    s.add_file_upload(3_000_000, 1000);
    s.add_file_upload(5, 0);
    assert_eq!(s.total_files, 3);
    assert_eq!(s.total_bytes, 4_000_005);
    assert_eq!(s.file_speeds.len(), 2);
    assert_eq!(s.get_average_speed(), 2_000_000);
    assert_eq!(s.get_peak_speed(), 3_000_000);
    assert_eq!(s.get_session_duration(1100), 1000);
    assert_eq!(s.get_session_duration(50), 0);
    s.add_error("boom");
    s.update_operation("Processing");
    assert_eq!(s.errors, vec!["boom".to_string()]);
    assert_eq!(s.current_operation, "Processing");
}

#[test]
fn session_stats_speed_over_totals() {
    let mut st = SessionStats::new(7);
    assert_eq!(st.average_speed(), 0);
    st.update(2048, 2000);
    st.update(0, 0);
    assert_eq!(st.file_count, 2);
    assert_eq!(st.average_speed(), 1024);
}

#[test]
fn numbered_names_keep_the_extension() {
    assert_eq!(numbered_file_name("report", 3, ".pdf"), "report_3.pdf");
    assert_eq!(numbered_file_name("notes", 12, ""), "notes_12");
}
