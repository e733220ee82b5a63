//! Which appearance provider the desktop offers, and what stands in its way.
use vstd::prelude::*;

use crate::appearance::model::{
    advisory_views, AdvisoryView, AppearanceAdvisory, AppearanceCapabilities, AppearanceMode,
    CapabilitiesView,
};
use crate::appearance::engine::compatibility;
use crate::text::{contains, lower_seq, owned, push_str, seq_contains, str_eq, to_ascii_lowercase, views};
use crate::unit_manager::{join_path, path_join};

verus! {

/// The boolean that `serde_json` finds at a JSON pointer of a document, or
/// nothing when the bytes are not JSON or hold no boolean at that place.
pub uninterp spec fn json_bool_at(document: Seq<u8>, pointer: Seq<char>) -> Option<bool>;

/// `serde_json::from_slice::<Value>` on the document, then `Value::pointer`
/// and `Value::as_bool` on what it parsed.
///
/// The result is the name above applied to the document and the pointer; JSON
/// syntax and pointer resolution are not restated.
#[verifier::external_body]
fn read_json_bool(document: &[u8], pointer: &str) -> (r: Option<bool>)
    ensures
        r == json_bool_at(document@, pointer@),
{
    serde_json::from_slice::<serde_json::Value>(document).ok().and_then(
        |value| value.pointer(pointer).and_then(serde_json::Value::as_bool),
    )
}

/// What the library reads of the host to pick an appearance provider.
#[derive(Debug, Clone, PartialEq, Eq)]
pub struct AppearanceHost {
    /// `XDG_CURRENT_DESKTOP` and `XDG_SESSION_DESKTOP`, see [`desktop_key`].
    pub desktop: String,
    /// The commands found on `PATH` among [`probed_commands`].
    pub commands: Vec<String>,
    /// Where Caelestia's CLI configuration lives.
    pub caelestia_config_path: String,
    /// The bytes of that configuration, when it could be read.
    pub caelestia_config: Option<Vec<u8>>,
}

pub struct HostView {
    pub desktop: Seq<char>,
    pub commands: Seq<Seq<char>>,
    pub caelestia_config_path: Seq<char>,
    pub caelestia_config: Option<Seq<u8>>,
}

impl View for AppearanceHost {
    type V = HostView;

    open spec fn view(&self) -> HostView {
        HostView {
            desktop: self.desktop@,
            commands: views(self.commands@),
            caelestia_config_path: self.caelestia_config_path@,
            caelestia_config: match self.caelestia_config {
                Some(b) => Some(b@),
                None => None,
            },
        }
    }
}

pub open spec fn probed() -> Seq<Seq<char>> {
    seq![
        "caelestia"@,
        "gsettings"@,
        "plasma-apply-colorscheme"@,
        "kwriteconfig6"@,
        "hyprctl"@,
        "gdbus"@,
        "brave"@,
        "chromium"@,
        "chromium-browser"@,
        "google-chrome-stable"@,
    ]
}

/// The commands whose presence decides the provider.
pub fn probed_commands() -> (r: Vec<String>)
    ensures
        views(r@) == probed(),
{
    let r = vec![
        owned("caelestia"),
        owned("gsettings"),
        owned("plasma-apply-colorscheme"),
        owned("kwriteconfig6"),
        owned("hyprctl"),
        owned("gdbus"),
        owned("brave"),
        owned("chromium"),
        owned("chromium-browser"),
        owned("google-chrome-stable"),
    ];
    assert(views(r@) =~= probed());
    r
}

/// Both desktop variables, lowercase, joined by `:`.
pub open spec fn desktop_key_of(current: Seq<char>, session: Seq<char>) -> Seq<char> {
    lower_seq(current) + seq![':'] + lower_seq(session)
}

pub fn desktop_key(current: &str, session: &str) -> (r: String)
    ensures
        r@ == desktop_key_of(current@, session@),
{
    let mut r = to_ascii_lowercase(current);
    proof {
        reveal_strlit(":");
    }
    push_str(&mut r, ":");
    let s = to_ascii_lowercase(session);
    push_str(&mut r, s.as_str());
    r
}

/// `caelestia/cli.json` below the configuration home.
pub open spec fn caelestia_config_path_of(config_home: Seq<char>) -> Seq<char> {
    path_join(config_home, "caelestia/cli.json"@)
}

/// Where Caelestia's CLI configuration lives, given `XDG_CONFIG_HOME` and `HOME`.
pub fn caelestia_config_path(config_home: Option<String>, home: Option<String>) -> (r: String)
    ensures
        r@ == caelestia_config_path_of(
            match config_home {
                Some(c) => c@,
                None => match home {
                    Some(h) => path_join(h@, ".config"@),
                    None => ".config"@,
                },
            },
        ),
{
    let base = match config_home {
        Some(c) => c,
        None => match home {
            Some(h) => join_path(h.as_str(), ".config"),
            None => owned(".config"),
        },
    };
    join_path(base.as_str(), "caelestia/cli.json")
}

pub open spec fn has_command(host: HostView, name: Seq<char>) -> bool {
    host.commands.contains(name)
}

pub open spec fn chromium_detected(host: HostView) -> bool {
    ||| has_command(host, "brave"@)
    ||| has_command(host, "chromium"@)
    ||| has_command(host, "chromium-browser"@)
    ||| has_command(host, "google-chrome-stable"@)
}

/// Whether Caelestia themes Chromium browsers: on unless its configuration says
/// `false`.
pub open spec fn chromium_enabled(host: HostView) -> bool {
    match host.caelestia_config {
        Some(b) => match json_bool_at(b, "/theme/enableChromium"@) {
            Some(x) => x,
            None => true,
        },
        None => true,
    }
}

pub open spec fn chromium_message(path: Seq<char>) -> Seq<char> {
    "Caelestia puede quedar esperando al actualizar Brave/Chromium. Edita "@ + path
        + " y configura theme.enableChromium en false antes de activar los colores dinamicos."@
}

pub open spec fn chromium_json() -> Seq<char> {
    "{\n  \"theme\": {\n    \"enableChromium\": false\n  }\n}"@
}

pub open spec fn chromium_advisory(path: Seq<char>) -> AdvisoryView {
    AdvisoryView {
        code: "caelestia_chromium_refresh_may_hang"@,
        severity: "blocking"@,
        message: chromium_message(path),
        config_path: Some(path),
        suggested_json: Some(chromium_json()),
    }
}

/// A blocking advisory when a Chromium browser is installed and Caelestia
/// still themes it: its refresh can hang.
pub open spec fn caelestia_advisories_of(host: HostView) -> Seq<AdvisoryView> {
    if chromium_detected(host) && chromium_enabled(host) {
        seq![chromium_advisory(host.caelestia_config_path)]
    } else {
        Seq::empty()
    }
}

pub open spec fn caps(
    backend: Seq<char>,
    mode: AppearanceMode,
    apply_supported: bool,
    restore_supported: bool,
    scopes: Seq<Seq<char>>,
    reason: Seq<char>,
) -> CapabilitiesView {
    CapabilitiesView {
        supported: mode != AppearanceMode::Unsupported,
        backend,
        mode,
        palette_supported: true,
        preview_supported: true,
        apply_supported,
        restore_supported,
        scopes,
        reason,
        advisories: Seq::empty(),
    }
}

pub open spec fn caelestia_reason() -> Seq<char> {
    "Caelestia is available for opt-in full Material palette propagation"@
}

pub open spec fn gnome_reason() -> Seq<char> {
    "GNOME supports a finite accent palette; colors must be mapped to the nearest value"@
}

pub open spec fn kde_reason() -> Seq<char> {
    "KDE Plasma appearance tools were detected; the exact write adapter is not enabled yet"@
}

pub open spec fn hyprland_reason() -> Seq<char> {
    "Hyprland supports an opt-in generated color fragment; system-wide theming is unavailable"@
}

pub open spec fn portal_reason() -> Seq<char> {
    "XDG Settings Portal can report appearance values but cannot change them"@
}

pub open spec fn none_reason() -> Seq<char> {
    "No supported appearance provider was detected"@
}

/// The first provider that the desktop and its tools allow: Caelestia inside
/// Hyprland, GNOME, KDE Plasma, Hyprland alone, the XDG portal, else none.
pub open spec fn detect_spec(host: HostView) -> CapabilitiesView {
    let d = host.desktop;
    if seq_contains(d, "hyprland"@) && has_command(host, "caelestia"@) {
        CapabilitiesView {
            advisories: caelestia_advisories_of(host),
            ..caps(
                "caelestia"@,
                AppearanceMode::NativePalette,
                true,
                true,
                seq![
                    "hyprland"@,
                    "shell"@,
                    "gtk"@,
                    "qt"@,
                    "terminal"@,
                    "integrations"@,
                ],
                caelestia_reason(),
            )
        }
    } else if seq_contains(d, "gnome"@) && has_command(host, "gsettings"@) {
        caps(
            "gnome"@,
            AppearanceMode::Nearest,
            false,
            false,
            seq!["system_ui"@, "compatible_apps"@],
            gnome_reason(),
        )
    } else if (seq_contains(d, "kde"@) || seq_contains(d, "plasma"@)) && (has_command(
        host,
        "plasma-apply-colorscheme"@,
    ) || has_command(host, "kwriteconfig6"@)) {
        caps(
            "kde"@,
            AppearanceMode::Exact,
            false,
            false,
            seq!["plasma"@, "kde_apps"@, "compatible_apps"@],
            kde_reason(),
        )
    } else if seq_contains(d, "hyprland"@) && has_command(host, "hyprctl"@) {
        caps(
            "hyprland"@,
            AppearanceMode::GeneratedConfig,
            false,
            false,
            seq!["hyprland"@],
            hyprland_reason(),
        )
    } else if has_command(host, "gdbus"@) {
        caps(
            "xdg-portal"@,
            AppearanceMode::ReadOnly,
            false,
            false,
            seq!["published_settings"@],
            portal_reason(),
        )
    } else {
        caps("none"@, AppearanceMode::Unsupported, false, false, Seq::empty(), none_reason())
    }
}

fn host_has(host: &AppearanceHost, name: &str) -> (r: bool)
    ensures
        r == has_command(host@, name@),
{
    let ghost c = views(host.commands@);
    let mut i: usize = 0;
    while i < host.commands.len()
        invariant
            i <= host.commands.len(),
            c == views(host.commands@),
            forall|k: int| 0 <= k < i ==> c[k] != name@,
        decreases host.commands.len() - i,
    {
        if str_eq(host.commands[i].as_str(), name) {
            assert(c[i as int] == name@);
            return true;
        }
        i += 1;
    }
    false
}

fn capabilities(
    backend: &str,
    mode: AppearanceMode,
    apply_supported: bool,
    restore_supported: bool,
    scopes: Vec<String>,
    reason: &str,
) -> (r: AppearanceCapabilities)
    ensures
        r@ == caps(backend@, mode, apply_supported, restore_supported, views(scopes@), reason@),
{
    let r = AppearanceCapabilities {
        supported: mode != AppearanceMode::Unsupported,
        backend: owned(backend),
        mode,
        palette_supported: true,
        preview_supported: true,
        apply_supported,
        restore_supported,
        scopes,
        reason: owned(reason),
        advisories: Vec::new(),
    };
    assert(advisory_views(r.advisories@) =~= Seq::<AdvisoryView>::empty());
    r
}

/// The advisories that come with Caelestia on this host.
pub fn caelestia_advisories(host: &AppearanceHost) -> (r: Vec<AppearanceAdvisory>)
    ensures
        advisory_views(r@) == caelestia_advisories_of(host@),
{
    let detected = host_has(host, "brave") || host_has(host, "chromium") || host_has(
        host,
        "chromium-browser",
    ) || host_has(host, "google-chrome-stable");
    if !detected {
        let r: Vec<AppearanceAdvisory> = Vec::new();
        assert(advisory_views(r@) =~= caelestia_advisories_of(host@));
        return r;
    }
    let enabled = match &host.caelestia_config {
        Some(bytes) => match read_json_bool(bytes.as_slice(), "/theme/enableChromium") {
            Some(x) => x,
            None => true,
        },
        None => true,
    };
    if !enabled {
        let r: Vec<AppearanceAdvisory> = Vec::new();
        assert(advisory_views(r@) =~= caelestia_advisories_of(host@));
        return r;
    }
    let mut message = owned(
        "Caelestia puede quedar esperando al actualizar Brave/Chromium. Edita ",
    );
    push_str(&mut message, host.caelestia_config_path.as_str());
    push_str(
        &mut message,
        " y configura theme.enableChromium en false antes de activar los colores dinamicos.",
    );
    let advisory = AppearanceAdvisory {
        code: owned("caelestia_chromium_refresh_may_hang"),
        severity: owned("blocking"),
        message,
        config_path: Some(host.caelestia_config_path.clone()),
        suggested_json: Some(owned("{\n  \"theme\": {\n    \"enableChromium\": false\n  }\n}")),
    };
    let r = vec![advisory];
    assert(advisory_views(r@) =~= caelestia_advisories_of(host@));
    r
}

/// The appearance provider for this host.
pub fn detect_for_desktop(host: &AppearanceHost) -> (r: AppearanceCapabilities)
    ensures
        r@ == detect_spec(host@),
{
    let d = host.desktop.as_str();
    let hyprland = contains(d, "hyprland");
    if hyprland && host_has(host, "caelestia") {
        let scopes = vec![
            owned("hyprland"),
            owned("shell"),
            owned("gtk"),
            owned("qt"),
            owned("terminal"),
            owned("integrations"),
        ];
        assert(views(scopes@) =~= seq![
            "hyprland"@,
            "shell"@,
            "gtk"@,
            "qt"@,
            "terminal"@,
            "integrations"@,
        ]);
        let mut r = capabilities(
            "caelestia",
            AppearanceMode::NativePalette,
            true,
            true,
            scopes,
            "Caelestia is available for opt-in full Material palette propagation",
        );
        r.advisories = caelestia_advisories(host);
        return r;
    }
    if contains(d, "gnome") && host_has(host, "gsettings") {
        let scopes = vec![owned("system_ui"), owned("compatible_apps")];
        assert(views(scopes@) =~= seq!["system_ui"@, "compatible_apps"@]);
        return capabilities(
            "gnome",
            AppearanceMode::Nearest,
            false,
            false,
            scopes,
            "GNOME supports a finite accent palette; colors must be mapped to the nearest value",
        );
    }
    if (contains(d, "kde") || contains(d, "plasma")) && (host_has(host, "plasma-apply-colorscheme")
        || host_has(host, "kwriteconfig6")) {
        let scopes = vec![owned("plasma"), owned("kde_apps"), owned("compatible_apps")];
        assert(views(scopes@) =~= seq!["plasma"@, "kde_apps"@, "compatible_apps"@]);
        return capabilities(
            "kde",
            AppearanceMode::Exact,
            false,
            false,
            scopes,
            "KDE Plasma appearance tools were detected; the exact write adapter is not enabled yet",
        );
    }
    if hyprland && host_has(host, "hyprctl") {
        let scopes = vec![owned("hyprland")];
        assert(views(scopes@) =~= seq!["hyprland"@]);
        return capabilities(
            "hyprland",
            AppearanceMode::GeneratedConfig,
            false,
            false,
            scopes,
            "Hyprland supports an opt-in generated color fragment; system-wide theming is unavailable",
        );
    }
    if host_has(host, "gdbus") {
        let scopes = vec![owned("published_settings")];
        assert(views(scopes@) =~= seq!["published_settings"@]);
        return capabilities(
            "xdg-portal",
            AppearanceMode::ReadOnly,
            false,
            false,
            scopes,
            "XDG Settings Portal can report appearance values but cannot change them",
        );
    }
    let scopes: Vec<String> = Vec::new();
    assert(views(scopes@) =~= Seq::<Seq<char>>::empty());
    capabilities(
        "none",
        AppearanceMode::Unsupported,
        false,
        false,
        scopes,
        "No supported appearance provider was detected",
    )
}

/// On a Hyprland host with Caelestia whose configuration does not turn
/// `theme.enableChromium` off, Caelestia is the provider, and it carries the
/// blocking Chromium advisory exactly when brave, chromium, chromium-browser
/// or google-chrome-stable is installed; that advisory then refuses applying
/// colors.
pub proof fn law_chromium_browsers_block_caelestia(host: HostView)
    requires
        seq_contains(host.desktop, "hyprland"@),
        host.commands.contains("caelestia"@),
        host.caelestia_config matches Some(b) ==> json_bool_at(b, "/theme/enableChromium"@)
            != Some(false),
    ensures
        detect_spec(host).backend == "caelestia"@,
        (detect_spec(host).advisories.len() > 0) == (host.commands.contains("brave"@)
            || host.commands.contains("chromium"@) || host.commands.contains("chromium-browser"@)
            || host.commands.contains("google-chrome-stable"@)),
        detect_spec(host).advisories.len() > 0 ==> detect_spec(host).advisories[0].code
            == "caelestia_chromium_refresh_may_hang"@ && detect_spec(host).advisories[0].severity
            == "blocking"@,
        (compatibility(detect_spec(host)) is Err) == (detect_spec(host).advisories.len() > 0),
{
}

} // verus!
