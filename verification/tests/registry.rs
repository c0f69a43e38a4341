use base16_builder::engine::{scan_dot_tag_free, scan_marker_free};
use base16_builder::error::BuildError;
use base16_builder::pipeline::{output_file_name, template_source_path};
use base16_builder::template::parse_config;

#[test]
fn parse_config_sorts_by_name() {
    let doc = "zsh:\n  extension: sh\n  output: shell\ndefault:\n  extension: toml\n  output: themes\n";
    let ds = parse_config(doc).unwrap();
    assert_eq!(ds.len(), 2);
    assert_eq!(ds[0].name, "default");
    assert_eq!(ds[0].extension, "toml");
    assert_eq!(ds[0].output, "themes");
    assert_eq!(ds[1].name, "zsh");
    assert_eq!(ds[1].extension, "sh");
    assert_eq!(ds[1].output, "shell");
}

#[test]
fn parse_config_missing_field_fails() {
    let doc = "default:\n  extension: toml\n";
    match parse_config(doc).unwrap_err() {
        BuildError::Config { message } => {
            assert!(message.contains("default"), "unexpected message: {}", message)
        }
        _ => panic!("expected a configuration error"),
    }
}

#[test]
fn parse_config_rejects_non_mapping() {
    assert!(matches!(
        parse_config("- a\n- b\n"),
        Err(BuildError::Config { .. })
    ));
    assert!(matches!(
        parse_config("default: just a string\n"),
        Err(BuildError::Config { .. })
    ));
}

#[test]
fn output_file_name_shape() {
    assert_eq!(output_file_name("default", "nord", "toml"), "base16-default-nord.toml");
}

#[test]
fn template_source_path_shape() {
    assert_eq!(template_source_path("default"), "./templates/default.mustache");
}

#[test]
fn marker_scan() {
    assert!(scan_marker_free("color = \"{{base08}}\""));
    assert!(scan_marker_free("a > b, a = b"));
    assert!(scan_marker_free(""));
    assert!(!scan_marker_free("{{> header}}"));
    assert!(!scan_marker_free("text {{=<% %>=}} more"));
}

#[test]
fn dot_tag_scan() {
    assert!(scan_dot_tag_free("color = \"{{base08}}\""));
    assert!(scan_dot_tag_free("{{a.b}} and {{x}}"));
    assert!(scan_dot_tag_free("a . b {{}}"));
    assert!(!scan_dot_tag_free("{{.}}"));
    assert!(!scan_dot_tag_free("text {{ . }} more"));
    assert!(!scan_dot_tag_free("{{&.}}"));
    assert!(!scan_dot_tag_free("{{& . }}"));
    assert!(!scan_dot_tag_free("{{{.}}}"));
    assert!(!scan_dot_tag_free("{{{ . }}}"));
}
