use echo_lab::config::{ConfigError, EchoLabConfig};

#[test]
fn parse_config_overrides_defaults() {
    let cfg = EchoLabConfig::from_toml_like(
        r#"
[sdl3_text40x24]
default_screenshot_path = "screenshots/custom.ppm"
auto_exit_seconds = 12
"#,
    )
    .expect("config should parse");

    assert_eq!(
        cfg.sdl3_text40x24.default_screenshot_path,
        "screenshots/custom.ppm"
    );
    assert_eq!(cfg.sdl3_text40x24.auto_exit_seconds, 12);
}

#[test]
fn parse_config_uses_defaults_when_values_missing() {
    let cfg = EchoLabConfig::from_toml_like("").expect("empty config should parse");
    assert_eq!(
        cfg.sdl3_text40x24.default_screenshot_path,
        "screenshots/echolab_last_frame.ppm"
    );
    assert_eq!(cfg.sdl3_text40x24.auto_exit_seconds, 5);
}

#[test]
fn keys_outside_the_section_are_ignored() {
    let cfg = EchoLabConfig::from_toml_like(
        "auto_exit_seconds = 9\n[other]\nauto_exit_seconds = 7\n# comment\n\n[ sdl3_text40x24 ]\r\nunknown = 1\n",
    )
    .expect("config should parse");
    assert_eq!(cfg, EchoLabConfig::default());
}

#[test]
fn unquoted_values_and_surrounding_spaces_are_trimmed() {
    let cfg = EchoLabConfig::from_toml_like(
        "  [sdl3_text40x24]  \n\tdefault_screenshot_path =   shots/a b.ppm  \nauto_exit_seconds=+30",
    )
    .expect("config should parse");
    assert_eq!(cfg.sdl3_text40x24.default_screenshot_path, "shots/a b.ppm");
    assert_eq!(cfg.sdl3_text40x24.auto_exit_seconds, 30);
}

#[test]
fn value_keeps_everything_after_the_first_equals() {
    let cfg = EchoLabConfig::from_toml_like("[sdl3_text40x24]\ndefault_screenshot_path = \"a=b\"\n")
        .expect("config should parse");
    assert_eq!(cfg.sdl3_text40x24.default_screenshot_path, "a=b");
}

#[test]
fn line_without_equals_is_rejected_with_its_number() {
    let err = EchoLabConfig::from_toml_like("\n[sdl3_text40x24]\nnot a pair\n").unwrap_err();
    assert_eq!(err, ConfigError::MissingEquals { line: 3 });
}

#[test]
fn unterminated_quote_is_rejected_with_its_number() {
    let err = EchoLabConfig::from_toml_like("[x]\nkey = \"open\nother = \"").unwrap_err();
    assert_eq!(err, ConfigError::UnterminatedQuote { line: 2 });
    let err = EchoLabConfig::from_toml_like("k = \"").unwrap_err();
    assert_eq!(err, ConfigError::UnterminatedQuote { line: 1 });
}

#[test]
fn bad_auto_exit_seconds_is_rejected_with_its_number_and_text() {
    let err = EchoLabConfig::from_toml_like("[sdl3_text40x24]\nauto_exit_seconds = -3\n").unwrap_err();
    assert_eq!(
        err,
        ConfigError::InvalidAutoExitSeconds { line: 2, value: "-3".to_owned() }
    );
    let err = EchoLabConfig::from_toml_like(
        "[sdl3_text40x24]\nauto_exit_seconds = 18446744073709551616\n",
    )
    .unwrap_err();
    assert_eq!(
        err,
        ConfigError::InvalidAutoExitSeconds { line: 2, value: "18446744073709551616".to_owned() }
    );
}

#[test]
fn largest_auto_exit_seconds_is_accepted() {
    let cfg = EchoLabConfig::from_toml_like(
        "[sdl3_text40x24]\nauto_exit_seconds = \"18446744073709551615\"\n",
    )
    .expect("config should parse");
    assert_eq!(cfg.sdl3_text40x24.auto_exit_seconds, u64::MAX);
}

#[test]
fn non_ascii_text_is_handled() {
    let cfg = EchoLabConfig::from_toml_like(
        "[sdl3_text40x24]\u{3000}\ndefault_screenshot_path = \u{a0}\"bilder/größe.ppm\"\n",
    )
    .expect("config should parse");
    assert_eq!(cfg.sdl3_text40x24.default_screenshot_path, "bilder/größe.ppm");
}
