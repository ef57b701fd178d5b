use echo_lab::capture::CaptureOptions;

#[test]
fn parse_arg_accepts_screenshot_with_optional_dir() {
    let args = vec!["--screenshot".to_owned(), "shots".to_owned()];
    let mut i = 0usize;
    let mut opts = CaptureOptions::default();

    let handled = opts.parse_arg(&args, &mut i).expect("parse should succeed");
    assert!(handled);
    assert_eq!(i, 2);
    assert!(opts.screenshot_requested);
    assert_eq!(opts.screenshot_dir_override.as_deref(), Some("shots"));

    let args2 = vec!["--screenshot".to_owned()];
    let mut i2 = 0usize;
    let mut opts2 = CaptureOptions::default();
    opts2
        .parse_arg(&args2, &mut i2)
        .expect("parse should succeed");
    assert_eq!(i2, 1);
    assert!(opts2.screenshot_requested);
    assert_eq!(opts2.screenshot_dir_override, None);
}

#[test]
fn parse_arg_leaves_other_words_alone() {
    let args = vec!["--fullscreen".to_owned(), "--screenshot".to_owned()];
    let mut i = 0usize;
    let mut opts = CaptureOptions::default();
    assert_eq!(opts.parse_arg(&args, &mut i), Ok(false));
    assert_eq!(i, 0);
    assert_eq!(opts, CaptureOptions::default());
}

#[test]
fn parse_arg_does_not_take_an_option_as_the_directory() {
    let args = vec!["--screenshot".to_owned(), "--fullscreen".to_owned()];
    let mut i = 0usize;
    let mut opts = CaptureOptions::default();
    assert_eq!(opts.parse_arg(&args, &mut i), Ok(true));
    assert_eq!(i, 1);
    assert!(opts.screenshot_requested);
    assert_eq!(opts.screenshot_dir_override, None);
}

#[test]
fn resolved_dir_prefers_the_override() {
    let none = CaptureOptions::default();
    assert_eq!(none.resolved_screenshot_dir("shots"), None);

    let default_dir = CaptureOptions {
        screenshot_requested: true,
        screenshot_dir_override: None,
    };
    assert_eq!(default_dir.resolved_screenshot_dir("shots"), Some("shots".to_owned()));

    let custom = CaptureOptions {
        screenshot_requested: true,
        screenshot_dir_override: Some("elsewhere".to_owned()),
    };
    assert_eq!(custom.resolved_screenshot_dir("shots"), Some("elsewhere".to_owned()));
}
