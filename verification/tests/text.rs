use bge_embed_rs::text::{after_last_char, eq_ignore_case, str_eq, trim_end_matches, trim_start_matches};

#[test]
fn trims_match_std() {
    for (s, p) in [("aaab", "a"), ("/v1/v1", "/v1"), ("x/v1", "/v1"), ("", "a"), ("abc", "")] {
        assert_eq!(trim_start_matches(s, p), s.trim_start_matches(p));
        assert_eq!(trim_end_matches(s, p), s.trim_end_matches(p));
    }
}

#[test]
fn after_last_matches_rsplit() {
    for s in ["a:b:c", "abc", ":", "", "x:"] {
        assert_eq!(after_last_char(s, ':'), s.rsplit(':').next().unwrap());
    }
}

#[test]
fn equality_helpers() {
    assert!(str_eq("héllo", "héllo"));
    assert!(!str_eq("a", "ab"));
    assert!(eq_ignore_case("BGE-M3", "bge-m3"));
    assert!(!eq_ignore_case("bge-m4", "bge-m3"));
}
