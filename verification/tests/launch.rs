use iris::launch::{build_features_line, log_module_names, show_window, windowless_notice};

#[test]
fn features_line_lists_enabled_names() {
    let line = build_features_line(&[("jit", false), ("chd", true), ("lightning", false), ("camera", true)]);
    assert_eq!(line, "iris: build features: chd camera");
    assert_eq!(build_features_line(&[("jit", true)]), "iris: build features: jit");
}

#[test]
fn features_line_without_features() {
    assert_eq!(build_features_line(&[("jit", false), ("chd", false)]), "iris: build features: (none)");
    assert_eq!(build_features_line(&[]), "iris: build features: (none)");
}

#[test]
fn window_opens_unless_headless_or_plain_ci() {
    assert!(show_window(false, false, false));
    assert!(show_window(false, true, true));
    assert!(!show_window(true, false, false));
    assert!(!show_window(true, true, true));
    assert!(!show_window(false, true, false));
}

#[test]
fn windowless_notice_names_the_mode() {
    assert_eq!(windowless_notice(false, false, false), None);
    assert_eq!(windowless_notice(false, true, true), None);
    assert_eq!(
        windowless_notice(true, true, false),
        Some("iris: running headless (no REX3, no window)")
    );
    assert_eq!(
        windowless_notice(false, true, false),
        Some("iris: --ci mode (REX3 rendering to offscreen buffer, no window)")
    );
}

#[test]
fn log_spec_is_split_and_trimmed() {
    assert_eq!(log_module_names("mc,mips"), vec!["mc".to_string(), "mips".to_string()]);
    assert_eq!(log_module_names(" mc , ,\tmips ,"), vec!["mc".to_string(), "mips".to_string()]);
    assert_eq!(log_module_names("all"), vec!["all".to_string()]);
    assert_eq!(log_module_names("a b, c"), vec!["a b".to_string(), "c".to_string()]);
}

#[test]
fn blank_log_spec_names_nothing() {
    assert!(log_module_names("").is_empty());
    assert!(log_module_names(" , ,  ").is_empty());
    assert!(log_module_names(",").is_empty());
}
