use kitsune_compositor_backend::contract::{classify, option_value, required_option};

#[test]
fn errors_keep_contract_exit_codes() {
    assert_eq!(classify("unknown command: bad").1, 2);
    assert_eq!(classify("no supported compositor provider responded").1, 5);
    assert_eq!(classify("invalid json from hyprctl").1, 8);
}

#[test]
fn every_error_class_has_its_code() {
    assert_eq!(
        classify("missing required option: --id"),
        ("INVALID_ARGUMENT", 2, Some("Run kitsune-compositor help".to_string()))
    );
    assert_eq!(classify("output not found: DP-9"), ("OUTPUT_NOT_FOUND", 3, None));
    assert_eq!(classify("service id not found: x"), ("RESOURCE_NOT_FOUND", 3, None));
    assert_eq!(
        classify("no supported wallpaper runtime is installed (expected awww or swww)"),
        ("DEPENDENCY_MISSING", 4, None)
    );
    assert_eq!(classify("systemctl is not installed"), ("DEPENDENCY_MISSING", 4, None));
    assert_eq!(classify("failed to execute niri: gone"), ("DEPENDENCY_MISSING", 4, None));
    assert_eq!(classify("there is no focused output"), ("COMPOSITOR_UNAVAILABLE", 5, None));
    assert_eq!(
        classify("unit is required by registered timer: a.timer"),
        ("STATE_CONFLICT", 6, None)
    );
    assert_eq!(classify("failed to write unit"), ("IO_ERROR", 7, None));
    assert_eq!(classify("hyprctl exited with status 1: no"), ("EXTERNAL_COMMAND_FAILED", 8, None));
    assert_eq!(classify("something else"), ("INTERNAL_ERROR", 10, None));
}

#[test]
fn options_take_the_value_after_their_first_occurrence() {
    let args: Vec<String> = ["kitsune-compositor", "wallpaper", "serve", "--namespace", "kito", "--namespace", "x"]
        .iter()
        .map(|s| s.to_string())
        .collect();
    assert_eq!(option_value(&args, "--namespace"), Some("kito"));
    assert_eq!(option_value(&args, "--output"), None);
    assert_eq!(required_option(&args, "--namespace"), Ok("kito"));
    assert_eq!(
        required_option(&args, "--output").unwrap_err(),
        "missing required option: --output"
    );
    let dangling: Vec<String> = vec!["x".into(), "--id".into()];
    assert_eq!(option_value(&dangling, "--id"), None);
}

#[test]
fn a_changed_appearance_is_a_state_conflict() {
    assert_eq!(
        classify("appearance state conflict: Caelestia was changed after compositor apply"),
        ("STATE_CONFLICT", 6, None)
    );
}
