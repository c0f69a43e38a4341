use base16_builder::error::BuildError;
use base16_builder::pipeline::{build_all, overwrite_permits};
use base16_builder::scheme::{load_schemes, slot_key_str, Scheme};
use base16_builder::template::parse_config;

fn scheme_doc(name: &str, author: &str) -> String {
    let mut s = String::new();
    s.push_str("scheme: \"");
    s.push_str(name);
    s.push_str("\"\nauthor: \"");
    s.push_str(author);
    s.push_str("\"\n");
    let slots = [
        "2e3440", "3b4252", "434c5e", "4c566a", "d8dee9", "e5e9f0", "eceff4", "8fbcbb", "bf616a",
        "d08770", "ebcb8b", "a3be8c", "88c0d0", "81a1c1", "b48ead", "5e81ac",
    ];
    for (i, v) in slots.iter().enumerate() {
        s.push_str(slot_key_str(i));
        s.push_str(": \"");
        s.push_str(v);
        s.push_str("\"\n");
    }
    s
}

fn nord_store() -> Vec<(String, Scheme)> {
    let files = vec![("nord.yaml".to_string(), scheme_doc("Nord", "Arctic"))];
    load_schemes(&files).unwrap()
}

#[test]
fn nord_renders_into_theme_file() {
    let schemes = nord_store();
    let ds = parse_config("default:\n  extension: toml\n  output: themes\n").unwrap();
    let sources = vec![Some("color = \"{{base08}}\"".to_string())];
    let outs = build_all(&ds, &sources, &schemes).unwrap();
    assert_eq!(outs.len(), 1);
    assert_eq!(outs[0].dir, "themes");
    assert_eq!(outs[0].file_name, "base16-default-nord.toml");
    assert_eq!(outs[0].contents, "color = \"bf616a\"");
}

#[test]
fn metadata_bindings_are_present() {
    let schemes = nord_store();
    let ds = parse_config("meta:\n  extension: txt\n  output: out\n").unwrap();
    let sources = vec![Some("{{scheme}} by {{author}}".to_string())];
    let outs = build_all(&ds, &sources, &schemes).unwrap();
    assert_eq!(outs[0].contents, "Nord by Arctic");
}

#[test]
fn cross_product_yields_one_file_per_pair() {
    let files = vec![
        ("nord.yaml".to_string(), scheme_doc("Nord", "Arctic")),
        ("mist.yaml".to_string(), scheme_doc("Mist", "Vapor")),
        ("dusk.yaml".to_string(), scheme_doc("Dusk", "Night")),
    ];
    let schemes = load_schemes(&files).unwrap();
    let ds = parse_config(
        "alpha:\n  extension: txt\n  output: a\nbeta:\n  extension: cfg\n  output: b\n",
    )
    .unwrap();
    let sources = vec![
        Some("{{base00}}".to_string()),
        Some("{{base0F}}".to_string()),
    ];
    let outs = build_all(&ds, &sources, &schemes).unwrap();
    assert_eq!(outs.len(), 6);
    let expected = [
        ("a", "base16-alpha-nord.txt"),
        ("a", "base16-alpha-mist.txt"),
        ("a", "base16-alpha-dusk.txt"),
        ("b", "base16-beta-nord.cfg"),
        ("b", "base16-beta-mist.cfg"),
        ("b", "base16-beta-dusk.cfg"),
    ];
    for (o, (dir, name)) in outs.iter().zip(expected.iter()) {
        assert_eq!(&o.dir, dir);
        assert_eq!(&o.file_name, name);
    }
}

#[test]
fn rerun_is_byte_identical() {
    let schemes = nord_store();
    let ds = parse_config("default:\n  extension: toml\n  output: themes\n").unwrap();
    let sources = vec![Some("bg = {{base00}}; fg = {{base05}}".to_string())];
    let first = build_all(&ds, &sources, &schemes).unwrap();
    let second = build_all(&ds, &sources, &schemes).unwrap();
    assert_eq!(first.len(), second.len());
    for (a, b) in first.iter().zip(second.iter()) {
        assert_eq!(a.dir, b.dir);
        assert_eq!(a.file_name, b.file_name);
        assert_eq!(a.contents, b.contents);
    }
}

#[test]
fn missing_template_source_aborts_with_its_name() {
    let schemes = nord_store();
    let ds = parse_config(
        "default:\n  extension: toml\n  output: themes\ngone:\n  extension: txt\n  output: t\n",
    )
    .unwrap();
    let sources = vec![Some("ok {{base00}}".to_string()), None];
    match build_all(&ds, &sources, &schemes).unwrap_err() {
        BuildError::Config { message } => {
            assert!(message.contains("gone"), "unexpected message: {}", message)
        }
        _ => panic!("expected a configuration error"),
    }
}

#[test]
fn unparsable_template_aborts_with_its_name() {
    let schemes = nord_store();
    let ds = parse_config("broken:\n  extension: txt\n  output: t\n").unwrap();
    let sources = vec![Some("{{#section}} never closed".to_string())];
    match build_all(&ds, &sources, &schemes).unwrap_err() {
        BuildError::Config { message } => {
            assert!(message.contains("broken"), "unexpected message: {}", message)
        }
        _ => panic!("expected a configuration error"),
    }
}

#[test]
fn empty_scheme_store_yields_no_output() {
    let schemes = load_schemes(&Vec::new()).unwrap();
    assert_eq!(schemes.len(), 0);
    let ds = parse_config("default:\n  extension: toml\n  output: themes\n").unwrap();
    let sources = vec![Some("{{base00}}".to_string())];
    let outs = build_all(&ds, &sources, &schemes).unwrap();
    assert_eq!(outs.len(), 0);
}

#[test]
fn overwrite_policy_guards_existing_files() {
    let path = "themes/base16-default-nord.toml".to_string();
    match overwrite_permits(false, true, &path).unwrap_err() {
        BuildError::FileExists { path: p } => assert_eq!(p, path),
        _ => panic!("expected a file-exists error"),
    }
    assert!(overwrite_permits(true, true, &path).is_ok());
    assert!(overwrite_permits(false, false, &path).is_ok());
    assert!(overwrite_permits(true, false, &path).is_ok());
}

#[test]
fn implicit_iterator_template_is_refused() {
    let schemes = nord_store();
    let ds = parse_config("root:\n  extension: txt\n  output: t\n").unwrap();
    for src in ["{{.}}", "{{ . }}", "{{&.}}", "{{{.}}}", "{{#x}}a{{/x}}{{ .\t}}"] {
        let sources = vec![Some(src.to_string())];
        match build_all(&ds, &sources, &schemes).unwrap_err() {
            BuildError::Render { template, message } => {
                assert_eq!(template, "root");
                assert!(message.contains("root"), "unexpected message: {}", message);
            }
            _ => panic!("expected a render error for {}", src),
        }
    }
}

#[test]
fn dotted_names_still_render() {
    let schemes = nord_store();
    let ds = parse_config("dots:\n  extension: txt\n  output: t\n").unwrap();
    let sources = vec![Some("x{{a.b}}y {{base00}}".to_string())];
    let outs = build_all(&ds, &sources, &schemes).unwrap();
    assert_eq!(outs[0].contents, "xy 2e3440");
}

#[test]
fn missing_source_is_reported_before_engine_faults() {
    let schemes = nord_store();
    let ds = parse_config(
        "broken:\n  extension: txt\n  output: t\nzgone:\n  extension: txt\n  output: t\n",
    )
    .unwrap();
    let sources = vec![Some("{{#section}} never closed".to_string()), None];
    match build_all(&ds, &sources, &schemes).unwrap_err() {
        BuildError::Config { message } => {
            assert!(message.contains("zgone"), "unexpected message: {}", message);
            assert!(message.contains("missing"), "unexpected message: {}", message);
        }
        _ => panic!("expected a configuration error"),
    }
}

#[test]
fn partial_and_set_delimiter_templates_are_refused() {
    let schemes = nord_store();
    let ds = parse_config("marked:\n  extension: txt\n  output: t\n").unwrap();
    for src in ["{{> header}}", "a {{=<% %>=}} b", "{{=<% %>=}}<%.%>"] {
        let sources = vec![Some(src.to_string())];
        match build_all(&ds, &sources, &schemes).unwrap_err() {
            BuildError::Config { message } => {
                assert!(message.contains("marked"), "unexpected message: {}", message);
                assert!(
                    message.contains("not supported"),
                    "unexpected message: {}",
                    message
                );
            }
            _ => panic!("expected a configuration error for {}", src),
        }
    }
}
