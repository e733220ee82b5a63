use kitsune_compositor_backend::model::{hyprland_window, niri_window, output_of_workspace};
use kitsune_compositor_backend::applications::{
    command_token, desktop_entry, executable, generic_launcher, normalized_id, parse_desktop,
    running_from,
};
use kitsune_compositor_backend::{
    application_matches, ApplicationCatalog, ApplicationWindow, InstalledApplication,
    ProcessIdentity, RunningApplication,
};

fn installed(id: &str, name: &str, executable: Option<&str>) -> InstalledApplication {
    InstalledApplication {
        id: id.into(),
        name: name.into(),
        executable: executable.map(str::to_string),
        icon: None,
        desktop_file: format!("/tmp/{id}.desktop"),
    }
}

fn window(app_id: &str, pid: Option<u32>) -> ApplicationWindow {
    ApplicationWindow {
        app_id: app_id.into(),
        title: None,
        pid,
        output: None,
        workspace: None,
        focused: false,
        fullscreen: false,
        backend: "test".into(),
    }
}

#[test]
fn parses_visible_xdg_application() {
    let app = parse_desktop(
        "/tmp/apps",
        "/tmp/apps/org.example.Game.desktop",
        "[Desktop Entry]\nType=Application\nName=Example Game\nExec=/opt/game/bin/game %U\nIcon=game\n",
    )
    .unwrap();
    assert_eq!(app.id, "org.example.Game");
    assert_eq!(app.executable.as_deref(), Some("game"));
}

#[test]
fn matches_windows_and_process_fallbacks() {
    let installed = vec![InstalledApplication {
        id: "org.example.Game".into(),
        name: "Example Game".into(),
        executable: Some("game".into()),
        icon: None,
        desktop_file: "/tmp/game.desktop".into(),
    }];
    let running = running_from(
        &installed,
        vec![ApplicationWindow {
            app_id: "org.example.Game".into(),
            title: Some("Playing".into()),
            pid: Some(10),
            output: None,
            workspace: None,
            focused: true,
            fullscreen: true,
            backend: "test".into(),
        }],
        &[ProcessIdentity {
            pid: 10,
            command: "game".into(),
        }],
    );
    assert_eq!(running.len(), 1);
    assert_eq!(running[0].id, "org.example.Game");
}

#[test]
fn process_fallback_ignores_shared_launchers() {
    let installed = vec![InstalledApplication {
        id: "org.example.Flatpak".into(),
        name: "Example Flatpak".into(),
        executable: Some("flatpak".into()),
        icon: None,
        desktop_file: "/tmp/flatpak.desktop".into(),
    }];
    let running = running_from(
        &installed,
        Vec::new(),
        &[ProcessIdentity {
            pid: 20,
            command: "flatpak".into(),
        }],
    );
    assert!(running.is_empty());
}

#[test]
fn desktop_entry_reads_only_the_desktop_entry_group() {
    let raw = "[Desktop Action new]\nName=Other\n[Desktop Entry]\n# comment\nName = First \nName=Second\nExec=env FOO=1 \"/usr/bin/tool\" --flag\nIcon=\n";
    let app = desktop_entry("sub/tool.desktop", "/usr/share/applications/sub/tool.desktop", raw).unwrap();
    assert_eq!(app.id, "sub-tool");
    assert_eq!(app.name, "First");
    assert_eq!(app.executable.as_deref(), Some("tool"));
    assert_eq!(app.icon, None);
    assert_eq!(app.desktop_file, "/usr/share/applications/sub/tool.desktop");
}

#[test]
fn hidden_and_non_application_entries_are_skipped() {
    assert!(desktop_entry("a.desktop", "/x/a.desktop", "[Desktop Entry]\nName=A\nNoDisplay=TRUE\n").is_none());
    assert!(desktop_entry("a.desktop", "/x/a.desktop", "[Desktop Entry]\nName=A\nHidden=yes\n").is_none());
    assert!(desktop_entry("a.desktop", "/x/a.desktop", "[Desktop Entry]\nName=A\nType=Link\n").is_none());
    assert!(desktop_entry("a.desktop", "/x/a.desktop", "[Desktop Entry]\nType=Application\n").is_none());
    assert!(desktop_entry("a.desktop", "/x/a.desktop", "Name=A\n").is_none());
    assert!(desktop_entry(".desktop", "/x/.desktop", "[Desktop Entry]\nName=A\n").is_none());
    let shown = desktop_entry("a.desktop", "/x/a.desktop", "[Desktop Entry]\r\nName=A\r\nHidden=false\r\n");
    assert_eq!(shown.unwrap().name, "A");
}

#[test]
fn exec_lines_name_their_program() {
    assert_eq!(command_token("env A=1 %U 'prog' arg").as_deref(), Some("prog"));
    assert_eq!(command_token("  %f   ").as_deref(), None);
    assert_eq!(executable("/opt/game/bin/game %U").as_deref(), Some("game"));
    assert_eq!(executable("\"\"").as_deref(), None);
}

#[test]
fn identifiers_are_normalized_and_launchers_recognized() {
    assert_eq!(normalized_id("  Org.Example.App.desktop.desktop "), "org.example.app");
    assert!(generic_launcher(" Python3 "));
    assert!(generic_launcher("flatpak.desktop"));
    assert!(!generic_launcher("firefox"));
}

#[test]
fn catalog_keeps_the_first_entry_of_each_id_in_id_order() {
    let found = vec![
        installed("zeta", "Zeta user", None),
        installed("alpha", "Alpha", None),
        installed("zeta", "Zeta system", None),
        installed("beta", "Beta", None),
    ];
    let catalog = ApplicationCatalog::installed(&found);
    let ids: Vec<&str> = catalog.iter().map(|a| a.id.as_str()).collect();
    assert_eq!(ids, vec!["alpha", "beta", "zeta"]);
    assert_eq!(catalog[2].name, "Zeta user");
}

#[test]
fn running_listing_is_sorted_by_name_then_pid() {
    let installed = vec![
        installed("org.b", "Bravo", Some("bravo")),
        installed("org.a", "Alpha", Some("alpha")),
    ];
    let running = ApplicationCatalog::running(
        &installed,
        vec![window("unknown-app", Some(7)), window("org.b", Some(5)), window("org.b", None)],
        &[
            ProcessIdentity { pid: 3, command: "alpha".into() },
            ProcessIdentity { pid: 4, command: "bravo".into() },
            ProcessIdentity { pid: 9, command: "sh".into() },
        ],
    );
    let listing: Vec<(String, Option<u32>, String)> = running
        .iter()
        .map(|a| (a.name.clone(), a.pid, a.backend.clone()))
        .collect();
    assert_eq!(
        listing,
        vec![
            ("Alpha".to_string(), Some(3), "procfs".to_string()),
            ("Bravo".to_string(), None, "test".to_string()),
            ("Bravo".to_string(), Some(5), "test".to_string()),
            ("unknown-app".to_string(), Some(7), "test".to_string()),
        ]
    );
}

#[test]
fn matches_requested_ids_by_id_or_app_id() {
    let running = vec![
        RunningApplication {
            id: "org.example.Game".into(),
            name: "Game".into(),
            app_id: "game-window".into(),
            pid: Some(1),
            title: None,
            focused: false,
            fullscreen: false,
            backend: "test".into(),
        },
        RunningApplication {
            id: "other".into(),
            name: "Other".into(),
            app_id: "other".into(),
            pid: Some(2),
            title: None,
            focused: false,
            fullscreen: false,
            backend: "test".into(),
        },
    ];
    let by_id = application_matches(&running, &["ORG.EXAMPLE.GAME.desktop".into()]);
    assert_eq!(by_id.len(), 1);
    assert_eq!(by_id[0].pid, Some(1));
    let by_app_id = application_matches(&running, &["game-window".into(), " ".into()]);
    assert_eq!(by_app_id.len(), 1);
    assert!(application_matches(&running, &[" ".into()]).is_empty());
}

#[test]
fn hyprland_clients_become_windows_and_need_a_class() {
    let w = hyprland_window(
        Some("kitty".into()),
        Some("shell".into()),
        Some(42),
        Some("DP-1".into()),
        Some("2".into()),
        Some(1),
        Some(0),
    )
    .unwrap();
    assert_eq!(w.app_id, "kitty");
    assert_eq!(w.output.as_deref(), Some("DP-1"));
    assert_eq!(w.workspace.as_deref(), Some("2"));
    assert!(w.focused && w.fullscreen);
    assert_eq!(w.backend, "hyprctl");
    let background = hyprland_window(Some("kitty".into()), None, None, None, None, Some(0), Some(3)).unwrap();
    assert!(!background.focused && !background.fullscreen);
    assert_eq!(
        hyprland_window(None, None, None, None, None, None, None).unwrap_err(),
        "hyprctl client entry missing class"
    );
}

#[test]
fn niri_windows_name_their_workspace_and_find_its_output() {
    let w = niri_window(None, Some("clip".into()), Some(7), None, Some(13), Some(true), None);
    assert_eq!(w.app_id, "");
    assert_eq!(w.workspace.as_deref(), Some("13"));
    assert!(w.focused && !w.fullscreen);
    assert_eq!(w.backend, "niri msg");
    let workspaces = vec![
        (Some(1), Some("HDMI-A-1".to_string())),
        (None, Some("eDP-1".to_string())),
        (Some(13), Some("DP-1".to_string())),
        (Some(13), Some("DP-2".to_string())),
    ];
    assert_eq!(output_of_workspace(&workspaces, "13").as_deref(), Some("DP-1"));
    assert_eq!(output_of_workspace(&workspaces, "1").as_deref(), Some("HDMI-A-1"));
    assert_eq!(output_of_workspace(&workspaces, "5"), None);
}
