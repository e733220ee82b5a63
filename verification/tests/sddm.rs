use kitsune_compositor_backend::sddm::{
    check_media_count, managed_config_bytes, theme_config, ConfigBackup, ConfigFacts,
    ConfigRestore, SddmAppearance, SddmBackground, SddmDescriptor, ThemeSource,
};
use kitsune_compositor_backend::{SddmManager, StagedMedia};

#[test]
fn managers_know_their_paths() {
    let manager = SddmManager::new("/var/lib/kisddm".into());
    assert_eq!(manager.theme_root, "/usr/share/sddm/themes/kisddm");
    assert_eq!(manager.config_path, "/etc/sddm.conf.d/90-kisddm.conf");
    assert_eq!(manager.descriptor_path(), "/var/lib/kisddm/active.json");
    let caps = manager.capabilities(true, true, false);
    assert!(caps.image_background && !caps.video_background);
    assert!(caps.system_apply_requires_privilege);
    let local = SddmManager::with_system_paths("/tmp/kisddm".into(), "/tmp/theme".into(), "/tmp/sddm.conf".into());
    assert!(!local.capabilities(false, true, true).system_apply_requires_privilege);
    assert!(local.capabilities(false, true, true).video_background);
    assert!(!SddmManager::new("/variable".into()).capabilities(true, true, true).system_apply_requires_privilege);
}

fn background(mode: &str) -> SddmBackground {
    SddmBackground {
        mode: Some(mode.into()),
        rotation_pool: 0,
        selected: false,
        fallback: false,
        dynamic_source: false,
        selection_strategy: Some("fixed".into()),
        avoid_last: Some(true),
    }
}

fn appearance() -> SddmAppearance {
    SddmAppearance {
        accent: Some("#ad3cf3".into()),
        text_colour: Some("#ffffff".into()),
        panel_opacity: Some("0.82".into()),
        session_selector_visible: Some(true),
    }
}

fn descriptor(b: SddmBackground) -> SddmDescriptor {
    SddmDescriptor {
        theme_preset: Some("aurora-glass".into()),
        background: Some(b),
        appearance: Some(appearance()),
    }
}

#[test]
fn plans_a_video_descriptor_with_its_warnings() {
    let manager = SddmManager::with_system_paths("/tmp/kisddm/system".into(), "/tmp/t".into(), "/tmp/c".into());
    let plan = manager.plan(&descriptor(background("video")), false).unwrap();
    assert!(plan.valid);
    assert_eq!(plan.preset, "aurora-glass");
    assert_eq!(plan.mode, "video");
    assert_eq!(plan.media_items, 0);
    assert_eq!(plan.destination, "/tmp/kisddm/system/active.json");
    assert_eq!(plan.operations.len(), 3);
    assert_eq!(
        plan.warnings,
        vec![
            "no resolved media was supplied; the preset fallback will be used".to_string(),
            "QtMultimedia support was not detected".to_string(),
        ]
    );
    let mut pooled = background("static");
    pooled.rotation_pool = 2;
    pooled.selected = true;
    pooled.fallback = true;
    let plan = manager.plan(&descriptor(pooled), true).unwrap();
    assert_eq!(plan.media_items, 4);
    assert!(plan.warnings.is_empty());
}

#[test]
fn refuses_descriptors_the_greeter_cannot_show() {
    let manager = SddmManager::new("/var/lib/kisddm".into());
    let mut d = descriptor(background("static"));
    d.theme_preset = Some("   ".into());
    assert_eq!(manager.plan(&d, true).unwrap_err(), "descriptor theme_preset is required");
    let mut d = descriptor(background("static"));
    d.background = None;
    assert_eq!(manager.plan(&d, true).unwrap_err(), "descriptor background must be an object");
    let mut b = background("static");
    b.mode = None;
    assert_eq!(manager.plan(&descriptor(b), true).unwrap_err(), "descriptor background.mode is required");
    assert_eq!(
        manager.plan(&descriptor(background("slideshow")), true).unwrap_err(),
        "descriptor background.mode is not supported"
    );
}

#[test]
fn counts_the_media_an_apply_must_receive() {
    assert!(check_media_count(2, false, 2).is_ok());
    assert_eq!(
        check_media_count(2, false, 1).unwrap_err(),
        "descriptor requires 2 resolved media file(s); received 1"
    );
    assert!(check_media_count(0, true, 3).is_ok());
    assert_eq!(
        check_media_count(0, true, 0).unwrap_err(),
        "descriptor requires 0 resolved media file(s) or a non-empty dynamic pool; received 0"
    );
}

#[test]
fn stages_media_under_normalised_names() {
    let manager = SddmManager::new("/var/lib/kisddm".into());
    assert_eq!(manager.staged_destination(0, "/home/me/First.JPG"), "/var/lib/kisddm/media/media-0.jpg");
    assert_eq!(manager.staged_destination(12, "/home/me/clip.webm"), "/var/lib/kisddm/media/media-12.webm");
    assert_eq!(manager.staged_destination(1, "/home/me/notes.txt"), "/var/lib/kisddm/media/media-1.bin");
    assert_eq!(manager.staged_destination(2, "/home/me/noext"), "/var/lib/kisddm/media/media-2.bin");
}

fn staged(n: usize) -> Vec<StagedMedia> {
    (0..n)
        .map(|i| StagedMedia {
            source: format!("/home/me/{i}.jpg"),
            destination: format!("/s/media/media-{i}.jpg"),
        })
        .collect()
}

#[test]
fn dynamic_pack_uses_every_staged_image_as_main_media() {
    let mut b = background("random");
    b.dynamic_source = true;
    b.selection_strategy = Some("random".into());
    b.avoid_last = Some(false);
    let config = theme_config(&descriptor(b), &staged(2), None).unwrap();
    assert_eq!(
        config,
        "[General]\nPreset=aurora-glass\nMode=random\nSelectionStrategy=random\nAvoidLast=false\n\
MediaList=file:///s/media/media-0.jpg|file:///s/media/media-1.jpg\nFallback=\nAccent=#ad3cf3\n\
TextColour=#ffffff\nPanelOpacity=0.82\nSessionSelectorVisible=true\nBatteryAvailable=false\n\
BatteryPercent=0\n"
    );
}

#[test]
fn the_fallback_follows_the_main_media() {
    let mut b = background("static");
    b.selected = true;
    b.fallback = true;
    let config = theme_config(&descriptor(b), &staged(2), Some(140)).unwrap();
    assert!(config.contains("\nMediaList=file:///s/media/media-0.jpg\n"));
    assert!(config.contains("\nFallback=file:///s/media/media-1.jpg\n"));
    assert!(config.contains("\nBatteryAvailable=true\nBatteryPercent=100\n"));
    let mut d = descriptor(background("static"));
    d.appearance.as_mut().unwrap().panel_opacity = None;
    assert_eq!(theme_config(&d, &[], None).unwrap_err(), "missing panel_opacity");
    let mut d = descriptor(background("static"));
    d.appearance = None;
    assert_eq!(theme_config(&d, &[], None).unwrap_err(), "missing appearance");
}

fn facts(backup: Option<&[u8]>, config: Option<&[u8]>) -> ConfigFacts {
    ConfigFacts {
        backup: backup.map(|b| b.to_vec()),
        backup_exists: backup.is_some(),
        absent_marker: false,
        absent_exists: false,
        config: config.map(|c| c.to_vec()),
        config_is_file: config.is_some(),
    }
}

#[test]
fn restores_the_previous_config_only_when_nobody_changed_it() {
    let manager = SddmManager::new("/var/lib/kisddm".into());
    let managed = managed_config_bytes();
    assert_eq!(
        String::from_utf8(managed.clone()).unwrap(),
        "# Managed by Kitsune Compositor for KiSDDM\n[Theme]\nCurrent=kisddm\n"
    );
    let previous = b"[Theme]\nCurrent=previous\n";
    let changed = facts(Some(previous), Some(b"[Theme]\nCurrent=user-change\n"));
    assert!(manager.restore_plan(true, &changed).unwrap_err().contains("changed"));
    let (remove_theme, config) = manager.restore_plan(true, &facts(Some(previous), Some(&managed))).unwrap();
    assert!(remove_theme);
    assert_eq!(config, ConfigRestore::WriteBackup);
    let result = manager.restore_result(remove_theme, config);
    assert!(result.restored && result.restored_previous_config && result.removed_managed_theme);
    let mut absent = facts(None, Some(&managed));
    absent.absent_marker = true;
    absent.absent_exists = true;
    assert_eq!(manager.restore_plan(false, &absent).unwrap(), (false, ConfigRestore::RemoveConfig));
    assert_eq!(manager.restore_plan(false, &facts(None, None)).unwrap(), (false, ConfigRestore::Keep));
    assert!(!manager.restore_result(false, ConfigRestore::Keep).restored);
}

#[test]
fn saves_the_config_once_before_the_first_activation() {
    let manager = SddmManager::new("/var/lib/kisddm".into());
    assert_eq!(manager.backup_plan(&facts(None, Some(b"[Theme]\n"))).unwrap(), ConfigBackup::CopyConfig);
    assert_eq!(manager.backup_plan(&facts(None, None)).unwrap(), ConfigBackup::MarkAbsent);
    let managed = managed_config_bytes();
    assert_eq!(
        manager.backup_plan(&facts(Some(b"old"), Some(&managed))).unwrap(),
        ConfigBackup::AlreadySaved
    );
    assert_eq!(
        manager.backup_plan(&facts(Some(b"old"), Some(b"new"))).unwrap_err(),
        "SDDM configuration changed after KiSDDM activation; refusing overwrite"
    );
    let mut appeared = facts(None, Some(b"[Theme]\nCurrent=other\n"));
    appeared.absent_marker = true;
    appeared.absent_exists = true;
    assert_eq!(
        manager.backup_plan(&appeared).unwrap_err(),
        "SDDM configuration appeared after KiSDDM activation; refusing overwrite"
    );
}

fn source() -> ThemeSource {
    ThemeSource {
        path: "/home/me/kisddm".into(),
        is_dir: true,
        main_qml: true,
        metadata_desktop: true,
        metadata: None,
    }
}

#[test]
fn installs_only_a_qt6_theme_over_a_managed_destination() {
    let manager = SddmManager::with_system_paths("/s".into(), "/t/kisddm".into(), "/c".into());
    let metadata = "[SddmGreeterTheme]\nName=KiSDDM\nQtVersion=6\n".to_string();
    assert!(manager.check_theme_install(&source(), Ok(metadata.clone()), false, true, true).is_ok());
    assert_eq!(
        manager.check_theme_install(&source(), Ok("QtVersion=5\n".into()), false, false, false).unwrap_err(),
        "KiSDDM runtime theme must declare QtVersion=6"
    );
    assert_eq!(
        manager.check_theme_install(&source(), Ok(metadata.clone()), false, true, false).unwrap_err(),
        "refusing to replace unmanaged SDDM theme: /t/kisddm"
    );
    assert_eq!(
        manager.check_theme_install(&source(), Ok(metadata.clone()), true, true, true).unwrap_err(),
        "refusing a symlinked SDDM theme destination"
    );
    let mut relative = source();
    relative.path = "kisddm".into();
    assert_eq!(
        manager.check_theme_install(&relative, Ok(metadata.clone()), false, false, false).unwrap_err(),
        "theme source must be an existing absolute directory"
    );
    let mut no_main = source();
    no_main.main_qml = false;
    assert_eq!(
        manager.check_theme_install(&no_main, Ok(metadata), false, false, false).unwrap_err(),
        "theme source is missing Main.qml"
    );
    assert_eq!(
        manager.check_theme_install(&source(), Err("denied".into()), false, false, false).unwrap_err(),
        "read theme metadata: denied"
    );
}
