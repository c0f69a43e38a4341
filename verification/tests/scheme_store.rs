use base16_builder::error::BuildError;
use base16_builder::scheme::{find_value, load_schemes, parse_scheme, slot_key_str};
use base16_builder::text::split_file_name;

fn nord_yaml() -> String {
    let mut s = String::new();
    s.push_str("scheme: \"Nord\"\n");
    s.push_str("author: \"Arctic\"\n");
    let slots = [
        "2e3440", "3b4252", "434c5e", "4c566a", "d8dee9", "e5e9f0", "eceff4", "8fbcbb", "bf616a",
        "d08770", "ebcb8b", "a3be8c", "88c0d0", "81a1c1", "b48ead", "5e81ac",
    ];
    for (i, v) in slots.iter().enumerate() {
        s.push_str(slot_key_str(i));
        s.push_str(": \"");
        s.push_str(v);
        s.push_str("\"\n");
    }
    s
}

#[test]
fn split_at_first_dot() {
    let r = split_file_name("nord.yaml").unwrap();
    assert_eq!(r.0, "nord");
    assert_eq!(r.1, "yaml");
    let r = split_file_name("archive.tar.gz").unwrap();
    assert_eq!(r.0, "archive");
    assert_eq!(r.1, "tar.gz");
}

#[test]
fn split_without_dot_fails() {
    assert!(split_file_name("README").is_none());
    assert!(split_file_name("").is_none());
}

#[test]
fn split_hidden_file() {
    let r = split_file_name(".hidden").unwrap();
    assert_eq!(r.0, "");
    assert_eq!(r.1, "hidden");
}

#[test]
fn parse_scheme_reads_all_slots() {
    let s = parse_scheme(&nord_yaml()).unwrap();
    assert_eq!(s.display_name, "Nord");
    assert_eq!(s.author, "Arctic");
    assert_eq!(s.slots.len(), 16);
    assert_eq!(s.slots[0], "2e3440");
    assert_eq!(s.slots[8], "bf616a");
    assert_eq!(s.slots[15], "5e81ac");
}

#[test]
fn parse_scheme_missing_slot_fails() {
    let doc = nord_yaml().replace("base05", "base5x");
    let e = parse_scheme(&doc).unwrap_err();
    assert!(e.contains("base05"), "unexpected message: {}", e);
}

#[test]
fn parse_scheme_missing_author_fails() {
    let doc = nord_yaml().replace("author", "writer");
    let e = parse_scheme(&doc).unwrap_err();
    assert!(e.contains("author"), "unexpected message: {}", e);
}

#[test]
fn parse_scheme_extra_keys_are_ignored() {
    let mut doc = nord_yaml();
    doc.push_str("comment: \"a palette\"\n");
    assert!(parse_scheme(&doc).is_ok());
}

#[test]
fn parse_scheme_rejects_non_mapping() {
    assert!(parse_scheme("just a plain string").is_err());
    assert!(parse_scheme("- one\n- two\n").is_err());
}

#[test]
fn find_value_returns_first_match() {
    let pairs = vec![
        ("k".to_string(), "first".to_string()),
        ("k".to_string(), "second".to_string()),
    ];
    assert_eq!(find_value(&pairs, "k").unwrap(), "first");
    assert!(find_value(&pairs, "absent").is_none());
}

#[test]
fn load_schemes_keeps_order_and_names() {
    let files = vec![
        ("nord.yaml".to_string(), nord_yaml()),
        ("frost.yaml".to_string(), nord_yaml().replace("Nord", "Frost")),
    ];
    let store = load_schemes(&files).unwrap();
    assert_eq!(store.len(), 2);
    assert_eq!(store[0].0, "nord");
    assert_eq!(store[0].1.display_name, "Nord");
    assert_eq!(store[1].0, "frost");
    assert_eq!(store[1].1.display_name, "Frost");
}

#[test]
fn load_schemes_later_file_wins() {
    let files = vec![
        ("nord.yaml".to_string(), nord_yaml()),
        ("nord.yaml".to_string(), nord_yaml().replace("Arctic", "North")),
    ];
    let store = load_schemes(&files).unwrap();
    assert_eq!(store.len(), 1);
    assert_eq!(store[0].1.author, "North");
}

#[test]
fn load_schemes_rejects_wrong_extension() {
    let files = vec![("nord.toml".to_string(), nord_yaml())];
    match load_schemes(&files).unwrap_err() {
        BuildError::Config { message } => {
            assert!(message.contains("yaml"), "unexpected message: {}", message)
        }
        _ => panic!("expected a configuration error"),
    }
}

#[test]
fn load_schemes_rejects_name_without_extension() {
    let files = vec![("README".to_string(), nord_yaml())];
    match load_schemes(&files).unwrap_err() {
        BuildError::Config { message } => {
            assert!(message.contains("README"), "unexpected message: {}", message)
        }
        _ => panic!("expected a configuration error"),
    }
}

#[test]
fn load_schemes_parse_error_names_the_file() {
    let bad = "scheme: \"Broken\"\nauthor: \"Nobody\"\n";
    let files = vec![("broken.yaml".to_string(), bad.to_string())];
    match load_schemes(&files).unwrap_err() {
        BuildError::Parse { path, message } => {
            assert_eq!(path, "broken.yaml");
            assert!(message.contains("base00"), "unexpected message: {}", message);
        }
        _ => panic!("expected a parse error"),
    }
}

#[test]
fn error_categories() {
    let e = BuildError::Io { message: "disk gone".to_string() };
    assert_eq!(e.category(), "i/o error");
    let e = BuildError::FileExists { path: "themes/x".to_string() };
    assert_eq!(e.category(), "file already exists");
}
