use kitsune_compositor_backend::appearance::apply_run::{start_apply, ApplyAction};
use kitsune_compositor_backend::appearance::caelestia::{
    execute_next, execute_start, ExecuteStep, current_wallpaper, query_value, snapshot, wallpaper_from,
};
use kitsune_compositor_backend::appearance::histogram::{histogram, Bucket};
use kitsune_compositor_backend::appearance::engine::{
    apply_operations_for, check_unchanged, sync_needed, already_applied, automatic_apply_wanted, ensure_compatible, plan_apply_operations,
    rollback_unsaved,
};
use kitsune_compositor_backend::appearance::provider::{
    caelestia_advisories, caelestia_config_path, desktop_key, detect_for_desktop,
};
use kitsune_compositor_backend::{
    apply_operations, restore_operations, ActiveMediaKind, ActiveMediaRecord, ActiveMediaStore, AppearanceEngine, AppearanceHost,
    AppearanceMode, AppearancePolicy, AppearancePolicyStore, AppearanceStateStore,
    AppliedAppearance, CaelestiaSnapshot, PaletteCache, ProcessExecutor, ProcessOutput,
};
use std::cell::RefCell;
use std::collections::BTreeMap;

fn strings(values: &[&str]) -> Vec<String> {
    values.iter().map(|value| (*value).into()).collect()
}

#[derive(Default)]
struct FakeCaelestia {
    answers: BTreeMap<String, String>,
    calls: RefCell<Vec<Vec<String>>>,
    fail_on: Option<String>,
    missing: bool,
}

impl ProcessExecutor for FakeCaelestia {
    fn command_exists(&self, binary: &str) -> bool {
        binary == "caelestia" && !self.missing
    }

    fn run(&self, _binary: &str, args: &[String]) -> Result<ProcessOutput, String> {
        self.calls.borrow_mut().push(args.to_vec());
        let key = args.join(" ");
        if self.fail_on.as_deref() == Some(key.as_str()) {
            return Err(format!("{key} failed"));
        }
        let stdout = self.answers.get(&key).cloned().unwrap_or_default();
        Ok(ProcessOutput { stdout, stderr: String::new() })
    }

    fn spawn(&self, _binary: &str, _args: &[String]) -> Result<u32, String> {
        Ok(1)
    }
}

fn host(desktop: &str, commands: &[&str], config: Option<&str>) -> AppearanceHost {
    AppearanceHost {
        desktop: desktop.into(),
        commands: strings(commands),
        caelestia_config_path: "/home/me/.config/caelestia/cli.json".into(),
        caelestia_config: config.map(|c| c.as_bytes().to_vec()),
    }
}

fn engine() -> AppearanceEngine<()> {
    AppearanceEngine::new(
        (),
        PaletteCache::new("/tmp/palettes".into()),
        AppearanceStateStore::new("/tmp/appearance.json".into()),
        ActiveMediaStore::new("/tmp/active-media.json".into()),
        AppearancePolicyStore::new("/tmp/policy.json".into()),
    )
}

#[test]
fn activates_dynamic_scheme_when_required() {
    let operations = apply_operations("/tmp/wallpaper.jpg", true);

    assert_eq!(operations.len(), 2);
    assert_eq!(
        operations[1].args,
        strings(&["scheme", "set", "--name", "dynamic"])
    );
}

#[test]
fn changing_wallpaper_does_not_reapply_an_active_dynamic_scheme() {
    let operations = apply_operations("/tmp/wallpaper.jpg", false);

    assert_eq!(operations.len(), 1);
    assert_eq!(
        operations[0].args,
        strings(&["wallpaper", "--file", "/tmp/wallpaper.jpg"])
    );
}

#[test]
fn restore_puts_a_dynamic_scheme_back_after_its_wallpaper() {
    let snapshot = CaelestiaSnapshot {
        name: "dynamic".into(),
        flavour: "default".into(),
        mode: "dark".into(),
        variant: "tonalspot".into(),
        wallpaper: Some("/home/me/old.png".into()),
    };
    let operations = restore_operations(&snapshot);
    assert_eq!(operations.len(), 2);
    assert_eq!(operations[0].args, strings(&["wallpaper", "--file", "/home/me/old.png"]));
    assert_eq!(operations[1].args[3], "dynamic");
    assert!(operations.iter().all(|o| o.binary == "caelestia" && o.mutates));

    let fixed = CaelestiaSnapshot { name: "catppuccin".into(), ..snapshot.clone() };
    let operations = restore_operations(&fixed);
    assert_eq!(
        operations[0].args,
        strings(&[
            "scheme", "set", "--name", "catppuccin", "--flavour", "default", "--mode", "dark",
            "--variant", "tonalspot"
        ])
    );
    assert_eq!(operations[1].args[0], "wallpaper");
    let bare = CaelestiaSnapshot { wallpaper: None, ..fixed };
    assert_eq!(restore_operations(&bare).len(), 1);
}

#[test]
fn queries_trim_answers_and_refuse_empty_ones() {
    let args = strings(&["scheme", "get", "--name"]);
    let ok = query_value(&args, Ok(ProcessOutput { stdout: "  dynamic\n".into(), stderr: String::new() }));
    assert_eq!(ok, Ok("dynamic".to_string()));
    let empty = query_value(&args, Ok(ProcessOutput { stdout: " \n".into(), stderr: String::new() }));
    assert_eq!(empty, Err("caelestia returned an empty value for scheme get --name".to_string()));
    assert_eq!(query_value(&args, Err("boom".into())), Err("boom".to_string()));
    assert_eq!(wallpaper_from("No wallpaper set".into()), None);
    assert_eq!(wallpaper_from("relative.png".into()), None);
    assert_eq!(wallpaper_from("/abs.png".into()).as_deref(), Some("/abs.png"));
}

#[test]
fn snapshot_reads_every_field() {
    let mut answers = BTreeMap::new();
    answers.insert("wallpaper".to_string(), "/w.png\n".to_string());
    answers.insert("scheme get --name".to_string(), "dynamic".to_string());
    answers.insert("scheme get --flavour".to_string(), "default".to_string());
    answers.insert("scheme get --mode".to_string(), "dark".to_string());
    answers.insert("scheme get --variant".to_string(), "vibrant".to_string());
    let executor = FakeCaelestia { answers, ..Default::default() };
    let s = snapshot(&executor).unwrap();
    assert_eq!(s.name, "dynamic");
    assert_eq!(s.variant, "vibrant");
    assert_eq!(s.wallpaper.as_deref(), Some("/w.png"));
    assert_eq!(current_wallpaper(&executor).unwrap().as_deref(), Some("/w.png"));
}

#[test]
fn caelestia_has_priority_inside_hyprland() {
    let result = detect_for_desktop(&host("hyprland", &["caelestia", "hyprctl"], None));
    assert_eq!(result.backend, "caelestia");
    assert_eq!(result.mode, AppearanceMode::NativePalette);
    assert!(result.apply_supported);
    assert!(result.restore_supported);
}

#[test]
fn warns_when_chromium_theming_is_implicitly_enabled() {
    let warnings = caelestia_advisories(&host("hyprland", &["caelestia", "brave"], None));
    assert_eq!(warnings[0].code, "caelestia_chromium_refresh_may_hang");
    assert_eq!(warnings[0].severity, "blocking");
}

#[test]
fn accepts_an_explicitly_disabled_chromium_integration() {
    let config = r#"{"theme":{"enableChromium":false}}"#;
    assert!(caelestia_advisories(&host("hyprland", &["caelestia", "brave"], Some(config))).is_empty());
}

#[test]
fn unreadable_or_partial_configuration_keeps_chromium_theming_on() {
    let warnings = caelestia_advisories(&host("hyprland", &["chromium"], Some("not json")));
    assert_eq!(warnings.len(), 1);
    assert_eq!(
        warnings[0].config_path.as_deref(),
        Some("/home/me/.config/caelestia/cli.json")
    );
    assert!(warnings[0].message.contains("/home/me/.config/caelestia/cli.json"));
    let on = caelestia_advisories(&host("hyprland", &["chromium"], Some(r#"{"theme":{"enableChromium":true}}"#)));
    assert_eq!(on.len(), 1);
    assert!(caelestia_advisories(&host("hyprland", &["caelestia"], None)).is_empty());
}

#[test]
fn providers_follow_the_desktop_and_its_tools() {
    assert_eq!(detect_for_desktop(&host("gnome:gnome", &["gsettings"], None)).backend, "gnome");
    assert_eq!(detect_for_desktop(&host("kde:", &["kwriteconfig6"], None)).mode, AppearanceMode::Exact);
    assert_eq!(detect_for_desktop(&host("hyprland:", &["hyprctl"], None)).backend, "hyprland");
    assert_eq!(detect_for_desktop(&host("sway:", &["gdbus"], None)).backend, "xdg-portal");
    let none = detect_for_desktop(&host("sway:", &[], None));
    assert_eq!(none.backend, "none");
    assert!(!none.supported);
    assert!(none.scopes.is_empty());
    assert_eq!(desktop_key("Hyprland", "HYPRLAND"), "hyprland:hyprland");
    assert_eq!(
        caelestia_config_path(None, Some("/home/me".into())),
        "/home/me/.config/caelestia/cli.json"
    );
    assert_eq!(caelestia_config_path(None, None), ".config/caelestia/cli.json");
}

#[test]
fn blocking_advisories_prevent_applying_colors() {
    let caps = detect_for_desktop(&host("hyprland", &["caelestia", "brave"], None));
    let error = ensure_compatible(&caps).unwrap_err();
    assert!(error.starts_with("Caelestia puede quedar esperando"));
    assert!(error.ends_with("Suggested configuration: {\n  \"theme\": {\n    \"enableChromium\": false\n  }\n}"));
    let fine = detect_for_desktop(&host("hyprland", &["caelestia"], None));
    assert_eq!(ensure_compatible(&fine), Ok(()));
}

#[test]
fn automatic_policy_needs_consent_and_an_output() {
    let engine = engine();
    assert_eq!(
        engine.enable_automatic("DP-1", false, 5).unwrap_err(),
        "appearance automatic policy requires --confirm because Caelestia may execute postHook"
    );
    assert_eq!(
        engine.enable_automatic("", true, 5).unwrap_err(),
        "appearance policy output cannot be empty"
    );
    let policy = engine.enable_automatic("DP-1", true, 5).unwrap();
    assert!(policy.enabled && policy.automatic_apply && policy.post_hook_consent);
    assert_eq!(policy.source_output.as_deref(), Some("DP-1"));
    assert_eq!(policy.updated_at_unix_ms, 5);
    let off = engine.disable_automatic(9);
    assert_eq!(off, AppearancePolicy { updated_at_unix_ms: 9, ..AppearancePolicy::default() });
    assert_eq!(engine.policy(None).unwrap(), AppearancePolicy::default());
    let stale = AppearancePolicy { schema_version: 2, ..AppearancePolicy::default() };
    assert_eq!(engine.policy(Some(stale)).unwrap_err(), "unsupported appearance policy schema: 2");
}

#[test]
fn restore_refuses_without_state_consent_or_unchanged_caelestia() {
    let engine = engine();
    let caps = detect_for_desktop(&host("hyprland", &["caelestia"], None));
    let executor = FakeCaelestia::default();
    assert_eq!(
        engine.restore(&executor, caps.clone(), None, false, true).unwrap_err(),
        "no appearance state to restore"
    );
    let previous = CaelestiaSnapshot {
        name: "catppuccin".into(),
        flavour: "mocha".into(),
        mode: "dark".into(),
        variant: "tonalspot".into(),
        wallpaper: None,
    };
    let applied = AppliedAppearance {
        backend: "caelestia".into(),
        image: "/w.png".into(),
        source_output: None,
        previous_caelestia: previous.clone(),
    };
    let dry = engine.restore(&executor, caps.clone(), Some(applied.clone()), true, false).unwrap();
    assert!(!dry.restored && dry.dry_run);
    assert_eq!(dry.operations, restore_operations(&previous));
    assert!(executor.calls.borrow().is_empty());
    assert_eq!(
        engine.restore(&executor, caps.clone(), Some(applied.clone()), false, false).unwrap_err(),
        "appearance restore requires --confirm"
    );
    let other = AppliedAppearance { backend: "gnome".into(), ..applied.clone() };
    assert_eq!(
        engine.restore(&executor, caps.clone(), Some(other), false, true).unwrap_err(),
        "appearance restore is not implemented for backend: gnome"
    );
    let mut answers = BTreeMap::new();
    answers.insert("scheme get --name".to_string(), "dynamic".to_string());
    answers.insert("wallpaper".to_string(), "/other.png".to_string());
    let changed = FakeCaelestia { answers: answers.clone(), ..Default::default() };
    assert_eq!(
        engine.restore(&changed, caps.clone(), Some(applied.clone()), false, true).unwrap_err(),
        "appearance state conflict: Caelestia was changed after compositor apply"
    );
    answers.insert("wallpaper".to_string(), "/w.png".to_string());
    let unchanged = FakeCaelestia { answers, ..Default::default() };
    let done = engine.restore(&unchanged, caps, Some(applied), false, true).unwrap();
    assert!(done.restored);
    let calls = unchanged.calls.borrow();
    assert_eq!(calls.last().unwrap()[3], "catppuccin");
}

fn catppuccin_answers() -> BTreeMap<String, String> {
    let mut answers = BTreeMap::new();
    answers.insert("scheme get --name".to_string(), "catppuccin\n".to_string());
    answers.insert("scheme get --flavour".to_string(), "mocha".to_string());
    answers.insert("scheme get --mode".to_string(), "dark".to_string());
    answers.insert("scheme get --variant".to_string(), "tonalspot".to_string());
    answers.insert("wallpaper".to_string(), "/old.png".to_string());
    answers
}

#[test]
fn a_dry_run_never_invokes_caelestia() {
    let engine = engine();
    let caps = detect_for_desktop(&host("hyprland", &["caelestia"], None));
    let executor = FakeCaelestia::default();
    let result = engine.apply_plan(&executor, &caps, "/w.png", Ok(None), true, false).unwrap();
    assert!(result.is_none());
    assert!(executor.calls.borrow().is_empty());
    assert_eq!(
        engine.apply_plan(&executor, &caps, "/w.png", Ok(None), false, false).err().unwrap(),
        "appearance apply requires --confirm because Caelestia may execute postHook"
    );
    assert!(executor.calls.borrow().is_empty());
}

#[test]
fn the_first_apply_snapshots_caelestia_and_restore_puts_it_back() {
    let engine = engine();
    let caps = detect_for_desktop(&host("hyprland", &["caelestia"], None));
    let executor = FakeCaelestia { answers: catppuccin_answers(), ..Default::default() };
    let applied = engine.apply_plan(&executor, &caps, "/w.png", Ok(None), false, true).unwrap().unwrap();
    assert_eq!(
        applied.previous,
        CaelestiaSnapshot {
            name: "catppuccin".into(),
            flavour: "mocha".into(),
            mode: "dark".into(),
            variant: "tonalspot".into(),
            wallpaper: Some("/old.png".into()),
        }
    );
    assert_eq!(applied.operations, apply_operations("/w.png", true));
    let calls = executor.calls.borrow();
    assert_eq!(calls[calls.len() - 2], strings(&["wallpaper", "--file", "/w.png"]));
    assert_eq!(calls[calls.len() - 1], strings(&["scheme", "set", "--name", "dynamic"]));
    drop(calls);

    let record = AppliedAppearance {
        backend: "caelestia".into(),
        image: "/w.png".into(),
        source_output: Some("DP-1".into()),
        previous_caelestia: applied.previous.clone(),
    };
    let mut now = BTreeMap::new();
    now.insert("scheme get --name".to_string(), "dynamic".to_string());
    now.insert("wallpaper".to_string(), "/w.png".to_string());
    let later = FakeCaelestia { answers: now, ..Default::default() };
    let again = engine
        .apply_plan(&later, &caps, "/x.png", Ok(Some(record.clone())), false, true)
        .unwrap()
        .unwrap();
    assert_eq!(again.previous, applied.previous);
    assert_eq!(again.operations, apply_operations("/x.png", false));

    let restored = engine.restore(&later, caps, Some(record), false, true).unwrap();
    assert!(restored.restored);
    let calls = later.calls.borrow();
    assert_eq!(
        calls[calls.len() - 2],
        strings(&[
            "scheme", "set", "--name", "catppuccin", "--flavour", "mocha", "--mode", "dark",
            "--variant", "tonalspot"
        ])
    );
    assert_eq!(calls[calls.len() - 1], strings(&["wallpaper", "--file", "/old.png"]));
}

#[test]
fn a_failed_apply_is_rolled_back_and_reported() {
    let engine = engine();
    let caps = detect_for_desktop(&host("hyprland", &["caelestia"], None));
    let failing = FakeCaelestia {
        answers: catppuccin_answers(),
        fail_on: Some("scheme set --name dynamic".into()),
        ..Default::default()
    };
    assert_eq!(
        engine.apply_plan(&failing, &caps, "/w.png", Ok(None), false, true).err().unwrap(),
        "appearance apply failed and was rolled back: scheme set --name dynamic failed"
    );
    let missing = FakeCaelestia { missing: true, ..Default::default() };
    assert_eq!(
        engine.apply_plan(&missing, &caps, "/w.png", Ok(None), false, true).err().unwrap(),
        "caelestia is not installed"
    );
    let executor = FakeCaelestia { answers: catppuccin_answers(), ..Default::default() };
    assert_eq!(
        engine.apply_plan(&executor, &caps, "/w.png", Err("bad state".into()), false, true).err().unwrap(),
        "bad state"
    );
    let foreign = AppliedAppearance {
        backend: "gnome".into(),
        image: "/w.png".into(),
        source_output: None,
        previous_caelestia: CaelestiaSnapshot {
            name: "a".into(),
            flavour: "b".into(),
            mode: "c".into(),
            variant: "d".into(),
            wallpaper: None,
        },
    };
    assert_eq!(
        engine.apply_plan(&executor, &caps, "/w.png", Ok(Some(foreign.clone())), false, true).err().unwrap(),
        "appearance state belongs to a different backend: gnome"
    );
    let message = rollback_unsaved(&executor, &foreign.previous_caelestia, "disk full");
    assert_eq!(message, "appearance state could not be saved; changes rolled back: disk full");
    let broken = FakeCaelestia { fail_on: Some("scheme set --name a --flavour b --mode c --variant d".into()), ..Default::default() };
    assert_eq!(
        rollback_unsaved(&broken, &foreign.previous_caelestia, "disk full"),
        "appearance state could not be saved: disk full; rollback also failed: scheme set --name a --flavour b --mode c --variant d failed"
    );
}

#[test]
fn automatic_apply_follows_the_policy_output_and_skips_what_is_applied() {
    let engine = engine();
    let policy = engine.enable_automatic("DP-1", true, 1).unwrap();
    assert_eq!(automatic_apply_wanted(&policy, "DP-1"), Ok(true));
    assert_eq!(automatic_apply_wanted(&policy, "HDMI-A-1"), Ok(false));
    assert_eq!(automatic_apply_wanted(&AppearancePolicy::default(), "DP-1"), Ok(false));
    let no_consent = AppearancePolicy { post_hook_consent: false, ..policy.clone() };
    assert_eq!(
        automatic_apply_wanted(&no_consent, "DP-1"),
        Err("appearance automatic policy lacks postHook consent".into())
    );
    let record = AppliedAppearance {
        backend: "caelestia".into(),
        image: "/w.png".into(),
        source_output: Some("DP-1".into()),
        previous_caelestia: CaelestiaSnapshot {
            name: "a".into(),
            flavour: "b".into(),
            mode: "c".into(),
            variant: "d".into(),
            wallpaper: None,
        },
    };
    assert!(already_applied(&Some(record.clone()), "DP-1", "/w.png"));
    assert!(!already_applied(&Some(record.clone()), "DP-1", "/x.png"));
    assert!(!already_applied(&Some(record), "DP-2", "/w.png"));
    assert!(!already_applied(&None, "DP-1", "/w.png"));
}

#[test]
fn only_caelestia_plans_an_apply() {
    let caelestia = detect_for_desktop(&host("hyprland", &["caelestia"], None));
    assert_eq!(plan_apply_operations(&caelestia, "/w.png").unwrap(), apply_operations("/w.png", true));
    let gnome = detect_for_desktop(&host("gnome", &["gsettings"], None));
    assert_eq!(
        plan_apply_operations(&gnome, "/w.png").unwrap_err(),
        format!("appearance apply is not implemented for backend: {}", gnome.backend)
    );
}

#[test]
fn histogram_groups_five_bit_colours_most_frequent_first() {
    let mut pixels = vec![(30u8, 80u8, 210u8); 3];
    pixels.push((245, 80, 170));
    pixels.push((31, 81, 211));
    pixels.push((0, 0, 0));
    pixels.push((245, 80, 170));
    let buckets = histogram(&pixels);
    assert_eq!(
        buckets,
        vec![
            Bucket { key: 3418, count: 4, red: 121, green: 321, blue: 841 },
            Bucket { key: 31061, count: 2, red: 490, green: 160, blue: 340 },
            Bucket { key: 0, count: 1, red: 0, green: 0, blue: 0 },
        ]
    );
    let ties = histogram(&[(255, 255, 255), (0, 0, 8)]);
    assert_eq!(ties.iter().map(|b| b.key).collect::<Vec<_>>(), vec![1, 32767]);
    assert!(histogram(&[]).is_empty());
}

#[test]
fn operations_run_in_order_and_stop_at_the_first_failure() {
    assert_eq!(execute_start(0), ExecuteStep::Finish(Ok(())));
    assert_eq!(execute_start(3), ExecuteStep::Run(0));
    assert_eq!(execute_next(3, 0, Ok(())), ExecuteStep::Run(1));
    assert_eq!(execute_next(3, 1, Err("denied".into())), ExecuteStep::Finish(Err("denied".into())));
    assert_eq!(execute_next(3, 2, Ok(())), ExecuteStep::Finish(Ok(())));
}

#[test]
fn the_dynamic_scheme_is_switched_on_only_when_it_is_not_current() {
    assert_eq!(apply_operations_for("/w/a.png", "dynamic"), apply_operations("/w/a.png", false));
    assert_eq!(apply_operations_for("/w/a.png", "shadotheme"), apply_operations("/w/a.png", true));
    assert_eq!(apply_operations_for("/w/a.png", "shadotheme").len(), 2);
    assert_eq!(apply_operations_for("/w/a.png", "dynamic").len(), 1);
}

#[test]
fn a_restore_is_refused_once_caelestia_was_changed() {
    let conflict = "appearance state conflict: Caelestia was changed after compositor apply";
    assert!(check_unchanged("dynamic", &Some("/w/a.png".into()), "/w/a.png").is_ok());
    assert_eq!(check_unchanged("manual-theme", &Some("/w/a.png".into()), "/w/a.png").unwrap_err(), conflict);
    assert_eq!(check_unchanged("dynamic", &Some("/w/b.png".into()), "/w/a.png").unwrap_err(), conflict);
    assert_eq!(check_unchanged("dynamic", &None, "/w/a.png").unwrap_err(), conflict);
}

#[test]
fn an_automatic_sync_applies_only_new_media() {
    let applied = AppliedAppearance {
        backend: "caelestia".into(),
        image: "/w.png".into(),
        source_output: Some("DP-1".into()),
        previous_caelestia: CaelestiaSnapshot {
            name: "a".into(),
            flavour: "b".into(),
            mode: "c".into(),
            variant: "d".into(),
            wallpaper: None,
        },
    };
    let media = |image: &str| ActiveMediaRecord {
        schema_version: 1,
        output: "DP-1".into(),
        owner: "kitowall".into(),
        media_type: ActiveMediaKind::Static,
        source: image.into(),
        representative_image: image.into(),
        updated_at_unix_ms: 1,
    };
    assert_eq!(
        sync_needed(&None, &Some(applied.clone()), "DP-1").unwrap_err(),
        "no active media registered for output: DP-1"
    );
    assert_eq!(sync_needed(&Some(media("/w.png")), &Some(applied.clone()), "DP-1"), Ok(false));
    assert_eq!(sync_needed(&Some(media("/v.png")), &Some(applied), "DP-1"), Ok(true));
    assert_eq!(sync_needed(&Some(media("/w.png")), &None, "DP-1"), Ok(true));
}

#[test]
fn an_apply_runs_its_operations_and_rolls_back_at_the_first_failure() {
    let previous = CaelestiaSnapshot {
        name: "shadotheme".into(),
        flavour: "default".into(),
        mode: "dark".into(),
        variant: "tonalspot".into(),
        wallpaper: Some("/w/original.png".into()),
    };
    let mut ok = start_apply("/w/a.png", "shadotheme", &previous);
    assert_eq!(ok.operations, apply_operations("/w/a.png", true));
    assert_eq!(ok.restore, restore_operations(&previous));
    assert_eq!(ok.action, ApplyAction::Apply(0));
    assert_eq!(ok.advance(Ok(())), ApplyAction::Apply(1));
    assert_eq!(ok.advance(Ok(())), ApplyAction::Complete);

    let mut rolled = start_apply("/w/a.png", "dynamic", &previous);
    assert_eq!(rolled.operations.len(), 1);
    assert_eq!(rolled.advance(Err("boom".into())), ApplyAction::Restore(0));
    assert_eq!(rolled.advance(Ok(())), ApplyAction::Restore(1));
    assert_eq!(
        rolled.advance(Ok(())),
        ApplyAction::Fail("appearance apply failed and was rolled back: boom".into())
    );

    let mut broken = start_apply("/w/a.png", "dynamic", &previous);
    broken.advance(Err("boom".into()));
    assert_eq!(
        broken.advance(Err("busy".into())),
        ApplyAction::Fail("appearance apply failed: boom; rollback also failed: busy".into())
    );
}
