use focus_duck::config::{default_targets, parse_config, ConfigParseError};
use focus_duck::targets::TargetMap;

fn parse(text: &[u8]) -> Result<TargetMap, ConfigParseError> {
    parse_config(&text.to_vec())
}

#[test]
fn scenario_d_created_default_file_parses_to_the_default_mapping() {
    // The text written when no configuration file exists yet.
    let text = b"{  \n\"firefox\": 0.1,   \n\"chrome\": 0.2\n}\n";
    let parsed = match parse(text) {
        Ok(t) => t,
        Err(_) => panic!("default configuration must parse"),
    };
    let wanted = default_targets();
    assert_eq!(parsed.len(), wanted.len());
    assert_eq!(parsed.len(), 2);
    assert!(parsed.has_fragment(&b"firefox".to_vec()));
    assert!(parsed.has_fragment(&b"chrome".to_vec()));
    assert_eq!(parsed.duck_level(&b"firefox.exe".to_vec()), 100);
    assert_eq!(parsed.duck_level(&b"chrome.exe".to_vec()), 200);
    assert_eq!(wanted.duck_level(&b"firefox.exe".to_vec()), 100);
    assert_eq!(wanted.duck_level(&b"chrome.exe".to_vec()), 200);
}

#[test]
fn empty_object_parses_to_empty_table() {
    let t = match parse(b"  { }  ") {
        Ok(t) => t,
        Err(_) => panic!("an empty object is a valid configuration"),
    };
    assert_eq!(t.len(), 0);
    assert!(!t.is_target(&b"firefox.exe".to_vec()));
    // With no fragments, everything ducks to the default level.
    assert_eq!(t.duck_level(&b"firefox.exe".to_vec()), 100);
}

#[test]
fn levels_are_kept_in_thousandths() {
    let t = parse(b"{\"a\": 0.25, \"b\": 1, \"c\": 0.1239, \"d\": 1.000, \"e\": 0\n}").unwrap_or_else(
        |_| panic!("valid levels must parse"),
    );
    assert_eq!(t.len(), 5);
    assert_eq!(t.duck_level(&b"a".to_vec()), 250);
    assert_eq!(t.duck_level(&b"b".to_vec()), 1000);
    // Digits beyond the third fractional place are ignored.
    assert_eq!(t.duck_level(&b"c".to_vec()), 123);
    assert_eq!(t.duck_level(&b"d".to_vec()), 1000);
    assert_eq!(t.duck_level(&b"e".to_vec()), 0);
}

#[test]
fn fragments_are_stored_lowercase() {
    let t = parse(b"{\"FireFox\": 0.3}").unwrap_or_else(|_| panic!("must parse"));
    assert!(t.has_fragment(&b"firefox".to_vec()));
    assert!(t.is_target(&b"FIREFOX.EXE".to_vec()));
    assert_eq!(t.duck_level(&b"Firefox.exe".to_vec()), 300);
}

#[test]
fn level_above_full_volume_is_rejected() {
    assert!(matches!(parse(b"{\"a\": 1.5}"), Err(ConfigParseError)));
    assert!(matches!(parse(b"{\"a\": 2}"), Err(ConfigParseError)));
    assert!(matches!(parse(b"{\"a\": 1.001}"), Err(ConfigParseError)));
}

#[test]
fn repeated_fragment_is_rejected() {
    assert!(matches!(parse(b"{\"a\": 0.1, \"a\": 0.2}"), Err(ConfigParseError)));
    // The comparison happens after lowercasing.
    assert!(matches!(parse(b"{\"A\": 0.1, \"a\": 0.2}"), Err(ConfigParseError)));
}

#[test]
fn empty_fragment_is_rejected() {
    assert!(matches!(parse(b"{\"\": 0.1}"), Err(ConfigParseError)));
}

#[test]
fn malformed_text_is_rejected() {
    assert!(matches!(parse(b""), Err(ConfigParseError)));
    assert!(matches!(parse(b"   "), Err(ConfigParseError)));
    assert!(matches!(parse(b"{"), Err(ConfigParseError)));
    assert!(matches!(parse(b"[1]"), Err(ConfigParseError)));
    assert!(matches!(parse(b"{\"a\": }"), Err(ConfigParseError)));
    assert!(matches!(parse(b"{\"a\": .5}"), Err(ConfigParseError)));
    assert!(matches!(parse(b"{\"a\": 0.}"), Err(ConfigParseError)));
    assert!(matches!(parse(b"{\"a\": 0.1,}"), Err(ConfigParseError)));
    assert!(matches!(parse(b"{\"a\": 0.1} x"), Err(ConfigParseError)));
    assert!(matches!(parse(b"{\"a\": 1e-1}"), Err(ConfigParseError)));
    assert!(matches!(parse(b"{\"a\\n\": 0.1}"), Err(ConfigParseError)));
    assert!(matches!(parse(b"{\"a"), Err(ConfigParseError)));
}

#[test]
fn whitespace_everywhere_is_accepted() {
    let t = parse(b" \t\r\n{ \"a\" \t: \n0.5 ,\r\n\"b\": 0.75 } \n").unwrap_or_else(
        |_| panic!("must parse"),
    );
    assert_eq!(t.len(), 2);
    assert_eq!(t.duck_level(&b"a".to_vec()), 500);
    assert_eq!(t.duck_level(&b"b".to_vec()), 750);
}
