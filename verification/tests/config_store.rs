//! The configuration codec and the store's lenient load decisions.

use litefetch_supervisor::config::{encode_config, escape_json, parse_config};
use litefetch_supervisor::errors::SupError;
use litefetch_supervisor::store::{prepare_persist, resolve_loaded, ConfigFile};

#[test]
fn encode_writes_the_pretty_record() {
    assert_eq!(encode_config("/a/b"), "{\n  \"path\": \"/a/b\"\n}");
}

#[test]
fn escape_handles_quotes_backslashes_and_controls() {
    assert_eq!(escape_json("plain"), "plain");
    assert_eq!(escape_json("a\"b"), "a\\\"b");
    assert_eq!(escape_json("a\\b"), "a\\\\b");
    assert_eq!(escape_json("a\nb\tc\rd"), "a\\nb\\tc\\rd");
    assert_eq!(escape_json("\u{8}\u{c}"), "\\b\\f");
    assert_eq!(escape_json("\u{1}\u{1f}"), "\\u0001\\u001f");
}

#[test]
fn parse_reads_back_what_encode_wrote() {
    for p in ["/a/b", "", "/with \"quotes\"", "/back\\slash", "/line\nbreak", "/ctl\u{1}x"] {
        let enc = encode_config(p);
        assert_eq!(parse_config(&enc), Some(p.to_string()));
    }
}

#[test]
fn parse_accepts_reformatted_records() {
    assert_eq!(parse_config("{\"path\":\"/x\"}"), Some("/x".to_string()));
    assert_eq!(parse_config("  { \"path\" : \"/x\" }  \n"), Some("/x".to_string()));
    assert_eq!(parse_config("{\"path\":\"\\u0041\\u004a\"}"), Some("AJ".to_string()));
    assert_eq!(parse_config("{\"path\":\"a\\/b\"}"), Some("a/b".to_string()));
}

#[test]
fn parse_rejects_what_the_codec_never_wrote() {
    assert_eq!(parse_config(""), None);
    assert_eq!(parse_config("{}"), None);
    assert_eq!(parse_config("not json at all"), None);
    assert_eq!(parse_config("{\"path\":3}"), None);
    assert_eq!(parse_config("{\"path\":\"unterminated"), None);
    assert_eq!(parse_config("{\"path\":\"bad\\q\"}"), None);
    assert_eq!(parse_config("{\"path\":\"/x\"} trailing"), None);
    assert_eq!(parse_config("{\"path\":\"/x\",\"extra\":1}"), None);
    assert_eq!(parse_config("{\"path\":\"/x\"\u{1}}"), None);
}

#[test]
fn persist_then_load_round_trips() {
    let (normalized, content) = prepare_persist("~/ws", Some("/home/u"), Some("/work"));
    assert_eq!(normalized, "/home/u/ws");
    let loaded = resolve_loaded(
        &ConfigFile::Content(content),
        Some("/other/home"),
        Some("/other/cwd"),
        "/data/litefetch",
    );
    assert_eq!(loaded.unwrap(), "/home/u/ws");
}

#[test]
fn absent_config_falls_back_to_the_default_workspace() {
    let r = resolve_loaded(&ConfigFile::Absent, Some("/home/u"), Some("/work"), "/data/litefetch");
    assert_eq!(r.unwrap(), "/data/litefetch/workspace");
}

#[test]
fn corrupt_config_falls_back_to_the_default_workspace() {
    for bad in ["", "garbage", "{\"path\":", "{\"other\":\"/x\"}"] {
        let r = resolve_loaded(
            &ConfigFile::Content(bad.to_string()),
            Some("/home/u"),
            Some("/work"),
            "/data/litefetch",
        );
        assert_eq!(r.unwrap(), "/data/litefetch/workspace");
    }
}

#[test]
fn stored_relative_path_is_normalized_on_load() {
    let r = resolve_loaded(
        &ConfigFile::Content("{\"path\":\"rel/ws\"}".to_string()),
        Some("/home/u"),
        Some("/work"),
        "/data/litefetch",
    );
    assert_eq!(r.unwrap(), "/work/rel/ws");
}

#[test]
fn unreadable_config_is_a_filesystem_error() {
    let r = resolve_loaded(
        &ConfigFile::Unreadable("permission denied".to_string()),
        Some("/home/u"),
        Some("/work"),
        "/data/litefetch",
    );
    match r {
        Err(SupError::Filesystem(m)) => assert_eq!(m, "permission denied"),
        _ => panic!("expected a filesystem error"),
    }
}

#[test]
fn error_descriptions_name_their_category() {
    assert_eq!(
        SupError::Filesystem("x".to_string()).describe(),
        "filesystem failure: x"
    );
    assert_eq!(
        SupError::PortAllocation("x".to_string()).describe(),
        "port allocation failed: x"
    );
    assert_eq!(SupError::Spawn("x".to_string()).describe(), "failed to start backend: x");
    assert_eq!(
        SupError::ConfigParse("x".to_string()).describe(),
        "workspace config unparsable: x"
    );
}
