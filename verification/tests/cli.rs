use kitsune_compositor_backend::cli::{
    invocation, parse_command, parse_ids, parse_u64, ActiveMediaCommand, AppearanceCommand,
    AppearanceSource, ApplicationsCommand, AutomationCommand, Command, ServiceCommand,
    WallpaperCommand, WatchTarget,
};
use kitsune_compositor_backend::ActiveMediaKind;

fn argv(words: &[&str]) -> Vec<String> {
    words.iter().map(|w| w.to_string()).collect()
}

fn parse(words: &[&str]) -> Result<Command, String> {
    let mut all = vec!["kitsune-compositor"];
    all.extend_from_slice(words);
    parse_command(&argv(&all))
}

#[test]
fn the_local_flag_is_global_and_selects_nothing_else() {
    let inv = invocation(&argv(&["kc", "--lc", "outputs", "--contract-v1", "--lc"]));
    assert_eq!(inv.args, argv(&["kc", "outputs", "--contract-v1"]));
    assert_eq!(inv.command, "outputs");
    assert!(inv.contract && inv.json);
    let plain = invocation(&argv(&["kc", "detect", "--json"]));
    assert!(!plain.contract && plain.json);
    let bare = invocation(&argv(&["kc"]));
    assert_eq!(bare.command, "help");
    assert!(!bare.json);
}

#[test]
fn numbers_and_id_lists_are_parsed_strictly() {
    assert_eq!(parse_u64("1000"), Some(1000));
    assert_eq!(parse_u64("+5"), Some(5));
    assert_eq!(parse_u64("18446744073709551615"), Some(u64::MAX));
    assert_eq!(parse_u64("18446744073709551616"), None);
    assert_eq!(parse_u64(""), None);
    assert_eq!(parse_u64("-1"), None);
    assert_eq!(parse_u64("12a"), None);
    assert_eq!(parse_ids(" firefox, ,kitty ,"), argv(&["firefox", "kitty"]));
    assert!(parse_ids(" , ").is_empty());
}

#[test]
fn simple_commands_are_recognised() {
    assert_eq!(parse(&[]), Ok(Command::Help));
    assert_eq!(parse(&["-h"]), Ok(Command::Help));
    assert_eq!(parse(&["--version"]), Ok(Command::Version));
    assert_eq!(parse(&["detect"]), Ok(Command::Detect));
    assert_eq!(parse(&["focused-output"]), Ok(Command::FocusedOutput));
    assert_eq!(parse(&["validate-output", "DP-1"]), Ok(Command::ValidateOutput("DP-1".into())));
    assert_eq!(parse(&["validate-output"]), Err("missing output name".into()));
    assert_eq!(parse(&["config", "show"]), Ok(Command::ConfigShow));
    assert_eq!(parse(&["config"]), Err("invalid config command (use: config show)".into()));
    assert_eq!(parse(&["frobnicate"]), Err("unknown command: frobnicate".into()));
}

#[test]
fn watch_options_are_checked() {
    assert_eq!(
        parse(&["watch", "outputs", "--once", "--contract-v1"]),
        Ok(Command::Watch { target: WatchTarget::Outputs, poll_ms: 1000, once: true, json_lines: true })
    );
    assert_eq!(
        parse(&["watch", "focus", "--poll-ms", "250"]),
        Ok(Command::Watch { target: WatchTarget::Focus, poll_ms: 250, once: false, json_lines: false })
    );
    assert_eq!(parse(&["watch"]), Err("missing watch target (outputs|focus)".into()));
    assert_eq!(parse(&["watch", "windows"]), Err("watch target must be outputs or focus".into()));
    assert_eq!(parse(&["watch", "focus", "--poll-ms", "fast"]), Err("--poll-ms must be an integer".into()));
    assert_eq!(
        parse(&["watch", "focus", "--poll-ms", "99"]),
        Err("--poll-ms must be between 100 and 60000".into())
    );
}

#[test]
fn nested_actions_are_parsed_with_their_options() {
    assert_eq!(
        parse(&["applications", "match", "--ids", "firefox,kitty"]),
        Ok(Command::Applications(ApplicationsCommand::Match(argv(&["firefox", "kitty"]))))
    );
    assert_eq!(
        parse(&["applications", "match", "--ids", " , "]),
        Err("--ids requires at least one application id".into())
    );
    assert_eq!(
        parse(&["wallpaper", "apply", "--namespace", "kitowall", "--output", "DP-1", "--image", "/w.png"]),
        Ok(Command::Wallpaper {
            namespace: "kitowall".into(),
            action: WallpaperCommand::Apply { output: "DP-1".into(), image: "/w.png".into() },
        })
    );
    assert_eq!(parse(&["wallpaper", "status"]), Err("missing required option: --namespace".into()));
    assert_eq!(
        parse(&["automation", "restart", "--id", "sync"]),
        Ok(Command::Automation(AutomationCommand::Control { action: "restart".into(), id: "sync".into() }))
    );
    assert_eq!(
        parse(&["automation", "apply-batch", "--descriptor", "/b.json"]),
        Ok(Command::Automation(AutomationCommand::ApplyBatch { descriptor: "/b.json".into() }))
    );
    assert_eq!(parse(&["automation", "launch"]), Err("unsupported automation action".into()));
    assert_eq!(parse(&["service", "list"]), Ok(Command::Service(ServiceCommand::List)));
    assert_eq!(parse(&["service", "remove"]), Err("missing required option: --id".into()));
    assert_eq!(parse(&["service", "launch"]), Err("unsupported service action: launch".into()));
}

#[test]
fn appearance_commands_name_their_source_and_consent() {
    assert_eq!(
        parse(&["appearance", "capabilities", "--contract-v1"]).unwrap(),
        Command::Appearance(AppearanceCommand::Capabilities)
    );
    assert_eq!(
        parse(&["appearance", "preview", "--output", "DP-1", "--contract-v1"]).unwrap(),
        Command::Appearance(AppearanceCommand::Preview {
            source: AppearanceSource::Output("DP-1".into()),
            use_cache: true,
        })
    );
    assert_eq!(
        parse(&["appearance", "apply", "--image", "/w/a.png", "--dry-run"]).unwrap(),
        Command::Appearance(AppearanceCommand::Apply {
            source: AppearanceSource::Image("/w/a.png".into()),
            dry_run: true,
            confirmed: false,
        })
    );
    assert_eq!(
        parse(&["appearance", "restore", "--confirm", "--contract-v1"]).unwrap(),
        Command::Appearance(AppearanceCommand::Restore { dry_run: false, confirmed: true })
    );
    assert_eq!(
        parse(&["appearance", "policy", "enable", "--output", "DP-1", "--confirm"]).unwrap(),
        Command::Appearance(AppearanceCommand::PolicyEnable {
            output: "DP-1".into(),
            confirmed: true,
        })
    );
    assert_eq!(
        parse(&["appearance", "apply", "--confirm"]).unwrap_err(),
        "missing required option: --image or --output"
    );
    assert_eq!(
        parse(&["appearance", "policy", "toggle"]).unwrap_err(),
        "invalid appearance policy action (use: show, enable --output <name> or disable)"
    );
    assert_eq!(
        parse(&["appearance", "paint"]).unwrap_err(),
        "unsupported appearance action: paint"
    );
}

#[test]
fn active_media_commands_carry_the_publication() {
    assert_eq!(
        parse(&[
            "active-media", "publish", "--output", "DP-1", "--owner", "kitowall", "--kind",
            "static", "--source", "/w/a.png", "--contract-v1",
        ])
        .unwrap(),
        Command::ActiveMedia(ActiveMediaCommand::Publish {
            output: "DP-1".into(),
            owner: "kitowall".into(),
            kind: ActiveMediaKind::Static,
            source: "/w/a.png".into(),
            representative_image: None,
        })
    );
    assert_eq!(
        parse(&["active-media", "get", "--output", "DP-1"]).unwrap(),
        Command::ActiveMedia(ActiveMediaCommand::Get { output: "DP-1".into() })
    );
    assert_eq!(
        parse(&[
            "active-media", "publish", "--output", "DP-1", "--owner", "k", "--kind", "video",
            "--source", "/w/a.mp4",
        ])
        .unwrap_err(),
        "active media kind must be static or live"
    );
    assert_eq!(
        parse(&["active-media", "publish", "--output", "DP-1"]).unwrap_err(),
        "missing required option: --owner"
    );
    assert_eq!(parse(&["active-media", "drop"]).unwrap_err(), "unsupported active-media action: drop");
}
