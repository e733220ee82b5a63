//! The KiSDDM greeter: where its state lives and what the host supports.
use vstd::prelude::*;

use crate::applications::{char_views, lines_of, split_lines};
use crate::text::{
    chars_of, decimal, lower_seq, opt_view, owned, push_str, str_eq, to_ascii_lowercase,
    trim_chars, trim_seq, u64_to_string, views,
};
use crate::unit_manager::{join_path, path_join};

verus! {

/// What the host offers the greeter.
#[derive(Debug, Clone, PartialEq, Eq)]
pub struct SddmCapabilities {
    pub sddm_installed: bool,
    pub greeter_qt6: bool,
    pub qt_multimedia: bool,
    pub image_background: bool,
    pub video_background: bool,
    pub greeter_started_selection: bool,
    pub system_apply_requires_privilege: bool,
}

/// What is configured and installed now.
#[derive(Debug, Clone, PartialEq, Eq)]
pub struct SddmStatus {
    pub configured: bool,
    pub theme_installed: bool,
    pub sddm_activated: bool,
    pub descriptor_path: String,
    pub installed_preset: Option<String>,
    pub mode: Option<String>,
    pub staged_media: usize,
}

/// What applying a descriptor would do.
#[derive(Debug, Clone, PartialEq, Eq)]
pub struct SddmPlan {
    pub valid: bool,
    pub preset: String,
    pub mode: String,
    pub media_items: usize,
    pub destination: String,
    pub operations: Vec<String>,
    pub warnings: Vec<String>,
}

/// A media file copied where the `sddm` user can read it.
#[derive(Debug, Clone, PartialEq, Eq)]
pub struct StagedMedia {
    pub source: String,
    pub destination: String,
}

#[derive(Debug, Clone, PartialEq, Eq)]
pub struct SddmApplyResult {
    pub applied: bool,
    pub manifest_staged: bool,
    pub sddm_activated: bool,
    pub descriptor_path: String,
    pub staged_media: Vec<StagedMedia>,
}

#[derive(Debug, Clone, PartialEq, Eq)]
pub struct SddmRestoreResult {
    pub restored: bool,
    pub removed_managed_theme: bool,
    pub restored_previous_config: bool,
}

/// Whether `Path::starts_with` holds: `base`'s components begin `path`'s.
pub uninterp spec fn path_starts_with(path: Seq<char>, base: Seq<char>) -> bool;

/// `Path::new(path).starts_with(base)`.
///
/// The result is the name above applied to the arguments; the component rules of
/// `std::path` are not restated.
#[verifier::external_body]
fn starts_with_components(path: &str, base: &str) -> (r: bool)
    ensures
        r == path_starts_with(path@, base@),
{
    std::path::Path::new(path).starts_with(base)
}

/// The greeter's state root, theme directory and SDDM configuration drop-in.
#[derive(Debug, Clone)]
pub struct SddmManager {
    pub root: String,
    pub theme_root: String,
    pub config_path: String,
}

pub open spec fn default_theme_root() -> Seq<char> {
    "/usr/share/sddm/themes/kisddm"@
}

pub open spec fn default_config_path() -> Seq<char> {
    "/etc/sddm.conf.d/90-kisddm.conf"@
}

impl SddmManager {
    /// A manager over `root` with the system theme and configuration paths.
    pub fn new(root: String) -> (r: Self)
        ensures
            r.root@ == root@,
            r.theme_root@ == default_theme_root(),
            r.config_path@ == default_config_path(),
    {
        SddmManager {
            root,
            theme_root: owned("/usr/share/sddm/themes/kisddm"),
            config_path: owned("/etc/sddm.conf.d/90-kisddm.conf"),
        }
    }

    pub fn with_system_paths(root: String, theme_root: String, config_path: String) -> (r: Self)
        ensures
            r.root@ == root@,
            r.theme_root@ == theme_root@,
            r.config_path@ == config_path@,
    {
        SddmManager { root, theme_root, config_path }
    }

    /// Where the active descriptor is staged.
    pub fn descriptor_path(&self) -> (r: String)
        ensures
            r@ == path_join(self.root@, "active.json"@),
    {
        join_path(self.root.as_str(), "active.json")
    }

    /// What the host supports, given whether `sddm`, the Qt 6 greeter and the
    /// QtMultimedia QML module were found. Video needs both of the latter; a
    /// root below `/var` is the system's, which only a privileged user changes.
    pub fn capabilities(&self, sddm_installed: bool, greeter_qt6: bool, qt_multimedia: bool) -> (r:
        SddmCapabilities)
        ensures
            r == (SddmCapabilities {
                sddm_installed,
                greeter_qt6,
                qt_multimedia,
                image_background: greeter_qt6,
                video_background: greeter_qt6 && qt_multimedia,
                greeter_started_selection: true,
                system_apply_requires_privilege: path_starts_with(self.root@, "/var"@),
            }),
    {
        SddmCapabilities {
            sddm_installed,
            greeter_qt6,
            qt_multimedia,
            image_background: greeter_qt6,
            video_background: greeter_qt6 && qt_multimedia,
            greeter_started_selection: true,
            system_apply_requires_privilege: starts_with_components(self.root.as_str(), "/var"),
        }
    }
}


// ---------------------------------------------------------------------------
// Descriptors
// ---------------------------------------------------------------------------
/// What the greeter reads of a descriptor's `background` object.
#[derive(Debug, Clone, PartialEq, Eq)]
pub struct SddmBackground {
    /// `mode`, when it is a string.
    pub mode: Option<String>,
    /// The length of `rotation_pool`, or 0 when it is not an array.
    pub rotation_pool: usize,
    /// Whether `selected` is present and not null.
    pub selected: bool,
    /// Whether `fallback` is present and not null.
    pub fallback: bool,
    /// Whether `dynamic_source` is present and not null.
    pub dynamic_source: bool,
    /// `selection_strategy`, when it is a string.
    pub selection_strategy: Option<String>,
    /// `avoid_last`, when it is a boolean.
    pub avoid_last: Option<bool>,
}

/// What the greeter reads of a descriptor's `appearance` object.
#[derive(Debug, Clone, PartialEq, Eq)]
pub struct SddmAppearance {
    pub accent: Option<String>,
    pub text_colour: Option<String>,
    /// `panel_opacity` as the number is written out, when it is a number.
    pub panel_opacity: Option<String>,
    pub session_selector_visible: Option<bool>,
}

/// What the greeter reads of a KiSDDM descriptor.
#[derive(Debug, Clone, PartialEq, Eq)]
pub struct SddmDescriptor {
    /// `theme_preset`, when it is a string.
    pub theme_preset: Option<String>,
    /// `background`, when it is an object.
    pub background: Option<SddmBackground>,
    /// `appearance`, when present.
    pub appearance: Option<SddmAppearance>,
}

/// A required string must be present and not blank.
pub open spec fn required_text(v: Option<Seq<char>>, key: Seq<char>) -> Result<Seq<char>, Seq<char>> {
    match v {
        Some(s) => if trim_seq(s).len() > 0 {
            Ok(s)
        } else {
            Err("descriptor "@ + key + " is required"@)
        },
        None => Err("descriptor "@ + key + " is required"@),
    }
}

fn required_text_exec(v: &Option<String>, key: &str) -> (r: Result<String, String>)
    ensures
        match r {
            Ok(s) => required_text(opt_view(*v), key@) == Ok::<Seq<char>, Seq<char>>(s@),
            Err(e) => required_text(opt_view(*v), key@) == Err::<Seq<char>, Seq<char>>(e@),
        },
{
    match v {
        Some(s) => if trim_chars(chars_of(s.as_str()).as_slice()).len() > 0 {
            Ok(s.clone())
        } else {
            Err(missing(key))
        },
        None => Err(missing(key)),
    }
}

fn missing(key: &str) -> (r: String)
    ensures
        r@ == "descriptor "@ + key@ + " is required"@,
{
    let mut e = owned("descriptor ");
    push_str(&mut e, key);
    push_str(&mut e, " is required");
    e
}

/// Media the descriptor names: the rotation pool, the selected and the fallback.
pub open spec fn media_count(b: SddmBackground) -> nat {
    b.rotation_pool as nat + (if b.selected {
        1nat
    } else {
        0nat
    }) + (if b.fallback {
        1nat
    } else {
        0nat
    })
}

pub open spec fn plan_operations() -> Seq<Seq<char>> {
    seq![
        "validate KiSDDM descriptor"@,
        "stage resolved media for the sddm user"@,
        "atomically activate the greeter manifest"@,
    ]
}

pub open spec fn plan_warnings(b: SddmBackground, mode: Seq<char>, video_background: bool) -> Seq<
    Seq<char>,
> {
    let first = if media_count(b) == 0 && !b.dynamic_source {
        seq!["no resolved media was supplied; the preset fallback will be used"@]
    } else {
        Seq::empty()
    };
    if mode == "video"@ && !video_background {
        first.push("QtMultimedia support was not detected"@)
    } else {
        first
    }
}

pub struct SddmPlanView {
    pub valid: bool,
    pub preset: Seq<char>,
    pub mode: Seq<char>,
    pub media_items: nat,
    pub destination: Seq<char>,
    pub operations: Seq<Seq<char>>,
    pub warnings: Seq<Seq<char>>,
}

impl View for SddmPlan {
    type V = SddmPlanView;

    open spec fn view(&self) -> SddmPlanView {
        SddmPlanView {
            valid: self.valid,
            preset: self.preset@,
            mode: self.mode@,
            media_items: self.media_items as nat,
            destination: self.destination@,
            operations: views(self.operations@),
            warnings: views(self.warnings@),
        }
    }
}

/// The plan of a descriptor, given whether video backgrounds are supported.
pub open spec fn sddm_plan_spec(root: Seq<char>, d: SddmDescriptor, video_background: bool) -> Result<
    SddmPlanView,
    Seq<char>,
> {
    match required_text(opt_view(d.theme_preset), "theme_preset"@) {
        Err(e) => Err(e),
        Ok(preset) => match d.background {
            None => Err("descriptor background must be an object"@),
            Some(b) => match opt_view(b.mode) {
                None => Err("descriptor background.mode is required"@),
                Some(mode) => if mode != "static"@ && mode != "random"@ && mode != "video"@ {
                    Err("descriptor background.mode is not supported"@)
                } else {
                    Ok(
                        SddmPlanView {
                            valid: true,
                            preset,
                            mode,
                            media_items: media_count(b),
                            destination: path_join(root, "active.json"@),
                            operations: plan_operations(),
                            warnings: plan_warnings(b, mode, video_background),
                        },
                    )
                },
            },
        },
    }
}

pub open spec fn fits(d: SddmDescriptor) -> bool {
    d.background matches Some(b) ==> b.rotation_pool + 2 <= usize::MAX
}

pub open spec fn plan_result(r: Result<SddmPlan, String>) -> Result<SddmPlanView, Seq<char>> {
    match r {
        Ok(p) => Ok(p@),
        Err(e) => Err(e@),
    }
}

/// How many media files a descriptor must be applied with.
pub open spec fn media_check(items: nat, dynamic_source: bool, received: nat) -> Result<(), Seq<char>> {
    if (!dynamic_source && received != items) || (dynamic_source && received == 0) {
        Err(
            "descriptor requires "@ + decimal(items) + " resolved media file(s)"@ + (if dynamic_source {
                " or a non-empty dynamic pool"@
            } else {
                Seq::empty()
            }) + "; received "@ + decimal(received),
        )
    } else {
        Ok(())
    }
}

/// What `Path::extension` reports for a path.
pub uninterp spec fn path_extension(path: Seq<char>) -> Option<Seq<char>>;

/// `Path::new(path).extension()`, as text.
///
/// The result is the name above applied to the argument; the rules of
/// `std::path` are not restated.
#[verifier::external_body]
fn extension_of(path: &str) -> (r: Option<String>)
    ensures
        opt_view(r) == path_extension(path@),
{
    std::path::Path::new(path).extension().and_then(|e| e.to_str()).map(|e| e.to_string())
}

pub open spec fn known_media_extension(e: Seq<char>) -> bool {
    e == "jpg"@ || e == "jpeg"@ || e == "png"@ || e == "webp"@ || e == "mp4"@ || e == "webm"@ || e
        == "mkv"@
}

/// The extension a staged copy keeps: a known media one, lowercase, else `bin`.
pub open spec fn staged_extension_of(source: Seq<char>) -> Seq<char> {
    match path_extension(source) {
        Some(e) => if known_media_extension(lower_seq(e)) {
            lower_seq(e)
        } else {
            "bin"@
        },
        None => "bin"@,
    }
}

/// The file name of the `index`-th staged media.
pub open spec fn staged_name_of(index: nat, source: Seq<char>) -> Seq<char> {
    "media-"@ + decimal(index) + seq!['.'] + staged_extension_of(source)
}

/// The newline-terminated greeter configuration that KiSDDM activates.
pub open spec fn managed_config() -> Seq<u8> {
    "# Managed by Kitsune Compositor for KiSDDM\n[Theme]\nCurrent=kisddm\n"@.map_values(
        |c: char| c as u8,
    )
}

/// The managed configuration, as bytes.
pub fn managed_config_bytes() -> (r: Vec<u8>)
    ensures
        r@ == managed_config(),
{
    let text = chars_of("# Managed by Kitsune Compositor for KiSDDM\n[Theme]\nCurrent=kisddm\n");
    proof {
        reveal_strlit("# Managed by Kitsune Compositor for KiSDDM\n[Theme]\nCurrent=kisddm\n");
    }
    let mut r: Vec<u8> = Vec::new();
    let mut i: usize = 0;
    while i < text.len()
        invariant
            i <= text.len(),
            text@ == "# Managed by Kitsune Compositor for KiSDDM\n[Theme]\nCurrent=kisddm\n"@,
            r@ == text@.take(i as int).map_values(|c: char| c as u8),
        decreases text.len() - i,
    {
        let c = text[i];
        let b: u8 = c as u8;
        r.push(b);
        assert(text@.take(i + 1).map_values(|c: char| c as u8) =~= text@.take(i as int).map_values(
            |c: char| c as u8,
        ).push(c as u8));
        i += 1;
    }
    assert(text@.take(text@.len() as int) =~= text@);
    r
}

/// The SDDM configuration as the greeter's state remembers it.
pub struct ConfigFacts {
    /// The bytes saved before the first activation, when that backup is a readable file.
    pub backup: Option<Vec<u8>>,
    /// Whether the backup is a path that exists, of any kind.
    pub backup_exists: bool,
    /// Whether the marker saying no configuration existed is a file.
    pub absent_marker: bool,
    /// Whether that marker is a path that exists, of any kind.
    pub absent_exists: bool,
    /// The current configuration, when it is a readable file.
    pub config: Option<Vec<u8>>,
    /// Whether the current configuration is a file.
    pub config_is_file: bool,
}

/// Whether someone else changed the configuration since KiSDDM activated it.
pub open spec fn changed_after_activation(f: ConfigFacts) -> bool {
    match f.backup {
        Some(saved) => match f.config {
            Some(current) => current@ != managed_config() && current@ != saved@,
            None => false,
        },
        None => f.absent_marker && match f.config {
            Some(current) => current@ != managed_config(),
            None => false,
        },
    }
}

fn bytes_eq(a: &[u8], b: &[u8]) -> (r: bool)
    ensures
        r == (a@ == b@),
{
    if a.len() != b.len() {
        return false;
    }
    let mut i: usize = 0;
    while i < a.len()
        invariant
            a.len() == b.len(),
            i <= a.len(),
            forall|k: int| 0 <= k < i ==> a@[k] == b@[k],
        decreases a.len() - i,
    {
        if a[i] != b[i] {
            return false;
        }
        i += 1;
    }
    assert(a@ =~= b@);
    true
}

fn changed_after_activation_exec(f: &ConfigFacts) -> (r: bool)
    ensures
        r == changed_after_activation(*f),
{
    let managed = managed_config_bytes();
    match &f.backup {
        Some(saved) => match &f.config {
            Some(current) => !bytes_eq(current.as_slice(), managed.as_slice()) && !bytes_eq(
                current.as_slice(),
                saved.as_slice(),
            ),
            None => false,
        },
        None => f.absent_marker && match &f.config {
            Some(current) => !bytes_eq(current.as_slice(), managed.as_slice()),
            None => false,
        },
    }
}

/// What restoring the greeter does to the SDDM configuration.
#[derive(Debug, Clone, Copy, PartialEq, Eq, Structural)]
pub enum ConfigRestore {
    /// Write the backup over the configuration.
    WriteBackup,
    /// Delete the configuration, which did not exist before.
    RemoveConfig,
    /// Leave the configuration alone.
    Keep,
}

/// What a restore does: whether the managed theme goes, and what happens to
/// the configuration. A configuration that someone else changed is refused.
pub open spec fn restore_plan_spec(theme_marker: bool, f: ConfigFacts) -> Result<(bool, ConfigRestore), Seq<char>> {
    if changed_after_activation(f) {
        Err("SDDM configuration changed after KiSDDM activation; refusing rollback"@)
    } else if f.backup is Some {
        Ok((theme_marker, ConfigRestore::WriteBackup))
    } else if f.absent_marker {
        Ok((theme_marker, ConfigRestore::RemoveConfig))
    } else {
        Ok((theme_marker, ConfigRestore::Keep))
    }
}

/// What a backup before activation does.
#[derive(Debug, Clone, Copy, PartialEq, Eq, Structural)]
pub enum ConfigBackup {
    /// A backup already exists; nothing to save.
    AlreadySaved,
    /// Copy the current configuration to the backup.
    CopyConfig,
    /// Record that no configuration existed.
    MarkAbsent,
}

pub open spec fn backup_plan_spec(f: ConfigFacts) -> Result<ConfigBackup, Seq<char>> {
    if f.backup_exists || f.absent_exists {
        if f.backup is Some {
            if changed_after_activation(f) {
                Err("SDDM configuration changed after KiSDDM activation; refusing overwrite"@)
            } else {
                Ok(ConfigBackup::AlreadySaved)
            }
        } else if match f.config {
            Some(current) => current@ != managed_config(),
            None => false,
        } {
            Err("SDDM configuration appeared after KiSDDM activation; refusing overwrite"@)
        } else {
            Ok(ConfigBackup::AlreadySaved)
        }
    } else if f.config_is_file {
        Ok(ConfigBackup::CopyConfig)
    } else {
        Ok(ConfigBackup::MarkAbsent)
    }
}

/// The files a theme source provides, as far as installing it needs to know.
pub struct ThemeSource {
    pub path: String,
    pub is_dir: bool,
    pub main_qml: bool,
    pub metadata_desktop: bool,
    /// The text of `metadata.desktop`, when it could be read.
    pub metadata: Option<String>,
}

/// Whether a theme's metadata declares Qt 6 on a line of its own.
pub open spec fn declares_qt6(metadata: Seq<char>) -> bool {
    exists|k: int|
        0 <= k < split_lines(metadata).len() && trim_seq(#[trigger] split_lines(metadata)[k])
            == "QtVersion=6"@
}

/// Why a theme source or destination cannot be installed, if it cannot.
/// `metadata_error` is what reading `metadata.desktop` failed with.
pub open spec fn install_check_spec(
    source_path: Seq<char>,
    is_dir: bool,
    main_qml: bool,
    metadata_desktop: bool,
    metadata: Result<Seq<char>, Seq<char>>,
    destination: Seq<char>,
    destination_is_symlink: bool,
    destination_exists: bool,
    destination_marker: bool,
) -> Result<(), Seq<char>> {
    if !(source_path.len() > 0 && source_path[0] == '/') || !is_dir {
        Err("theme source must be an existing absolute directory"@)
    } else if !main_qml {
        Err("theme source is missing Main.qml"@)
    } else if !metadata_desktop {
        Err("theme source is missing metadata.desktop"@)
    } else {
        match metadata {
            Err(e) => Err("read theme metadata: "@ + e),
            Ok(m) => if !declares_qt6(m) {
                Err("KiSDDM runtime theme must declare QtVersion=6"@)
            } else if destination_is_symlink {
                Err("refusing a symlinked SDDM theme destination"@)
            } else if destination_exists && !destination_marker {
                Err("refusing to replace unmanaged SDDM theme: "@ + destination)
            } else {
                Ok(())
            },
        }
    }
}

/// The media the greeter shows, and its fallback, from the staged copies.
pub open spec fn main_count(b: SddmBackground, staged: nat) -> nat {
    if b.dynamic_source {
        if b.fallback {
            if staged >= 1 {
                (staged - 1) as nat
            } else {
                0
            }
        } else {
            staged
        }
    } else {
        (if b.selected {
            1nat
        } else {
            0nat
        }) + b.rotation_pool as nat
    }
}

pub open spec fn media_urls(dest: Seq<Seq<char>>) -> Seq<Seq<char>> {
    dest.map_values(|d: Seq<char>| "file://"@ + d)
}

/// Items joined by `|`.
pub open spec fn join_bars(s: Seq<Seq<char>>) -> Seq<char>
    decreases s.len(),
{
    if s.len() == 0 {
        Seq::empty()
    } else if s.len() == 1 {
        s[0]
    } else {
        join_bars(s.drop_last()) + seq!['|'] + s.last()
    }
}

pub open spec fn staged_destinations(s: Seq<StagedMedia>) -> Seq<Seq<char>> {
    s.map_values(|m: StagedMedia| m.destination@)
}

pub open spec fn media_list_spec(b: SddmBackground, staged: Seq<Seq<char>>) -> Seq<char> {
    let n = main_count(b, staged.len());
    join_bars(media_urls(if n < staged.len() {
        staged.take(n as int)
    } else {
        staged
    }))
}

pub open spec fn fallback_spec(b: SddmBackground, staged: Seq<Seq<char>>) -> Seq<char> {
    let n = main_count(b, staged.len());
    if b.fallback && n < staged.len() {
        "file://"@ + staged[n as int]
    } else {
        Seq::empty()
    }
}

impl SddmManager {
    /// What applying a descriptor would do, given whether video backgrounds
    /// are supported on this host.
    pub fn plan(&self, descriptor: &SddmDescriptor, video_background: bool) -> (r: Result<
        SddmPlan,
        String,
    >)
        requires
            fits(*descriptor),
        ensures
            plan_result(r) == sddm_plan_spec(self.root@, *descriptor, video_background),
    {
        let preset = required_text_exec(&descriptor.theme_preset, "theme_preset")?;
        let background = match &descriptor.background {
            None => {
                return Err(owned("descriptor background must be an object"));
            },
            Some(b) => b,
        };
        let mode = match &background.mode {
            None => {
                return Err(owned("descriptor background.mode is required"));
            },
            Some(m) => m,
        };
        let video = str_eq(mode.as_str(), "video");
        if !str_eq(mode.as_str(), "static") && !str_eq(mode.as_str(), "random") && !video {
            return Err(owned("descriptor background.mode is not supported"));
        }
        let mut media_items: usize = background.rotation_pool;
        if background.selected {
            media_items = media_items + 1;
        }
        if background.fallback {
            media_items = media_items + 1;
        }
        let mut warnings: Vec<String> = Vec::new();
        if media_items == 0 && !background.dynamic_source {
            warnings.push(owned("no resolved media was supplied; the preset fallback will be used"));
        }
        if video && !video_background {
            warnings.push(owned("QtMultimedia support was not detected"));
        }
        assert(views(warnings@) =~= plan_warnings(*background, mode@, video_background));
        let operations = vec![
            owned("validate KiSDDM descriptor"),
            owned("stage resolved media for the sddm user"),
            owned("atomically activate the greeter manifest"),
        ];
        assert(views(operations@) =~= plan_operations());
        Ok(
            SddmPlan {
                valid: true,
                preset,
                mode: mode.clone(),
                media_items,
                destination: self.descriptor_path(),
                operations,
                warnings,
            },
        )
    }

    /// Where a staged copy goes: `media/media-<index>.<extension>` below the root.
    pub fn staged_destination(&self, index: usize, source: &str) -> (r: String)
        ensures
            r@ == path_join(path_join(self.root@, "media"@), staged_name_of(index as nat, source@)),
    {
        let ext = match extension_of(source) {
            Some(e) => {
                let l = to_ascii_lowercase(e.as_str());
                let s = l.as_str();
                if str_eq(s, "jpg") || str_eq(s, "jpeg") || str_eq(s, "png") || str_eq(s, "webp")
                    || str_eq(s, "mp4") || str_eq(s, "webm") || str_eq(s, "mkv") {
                    l
                } else {
                    owned("bin")
                }
            },
            None => owned("bin"),
        };
        let mut name = owned("media-");
        let n = u64_to_string(index as u64);
        push_str(&mut name, n.as_str());
        proof {
            reveal_strlit(".");
        }
        push_str(&mut name, ".");
        push_str(&mut name, ext.as_str());
        let media = join_path(self.root.as_str(), "media");
        join_path(media.as_str(), name.as_str())
    }

    /// Whether a restore may proceed and what it does.
    pub fn restore_plan(&self, theme_marker: bool, facts: &ConfigFacts) -> (r: Result<
        (bool, ConfigRestore),
        String,
    >)
        ensures
            match r {
                Ok(p) => restore_plan_spec(theme_marker, *facts) == Ok::<
                    (bool, ConfigRestore),
                    Seq<char>,
                >(p),
                Err(e) => restore_plan_spec(theme_marker, *facts) == Err::<
                    (bool, ConfigRestore),
                    Seq<char>,
                >(e@),
            },
    {
        if changed_after_activation_exec(facts) {
            return Err(owned("SDDM configuration changed after KiSDDM activation; refusing rollback"));
        }
        if facts.backup.is_some() {
            Ok((theme_marker, ConfigRestore::WriteBackup))
        } else if facts.absent_marker {
            Ok((theme_marker, ConfigRestore::RemoveConfig))
        } else {
            Ok((theme_marker, ConfigRestore::Keep))
        }
    }

    /// The result of a restore that removed the theme or not and did `config`.
    pub fn restore_result(&self, removed_managed_theme: bool, config: ConfigRestore) -> (r:
        SddmRestoreResult)
        ensures
            r.removed_managed_theme == removed_managed_theme,
            r.restored_previous_config == (config != ConfigRestore::Keep),
            r.restored == (r.removed_managed_theme || r.restored_previous_config),
    {
        let restored_previous_config = config != ConfigRestore::Keep;
        SddmRestoreResult {
            restored: removed_managed_theme || restored_previous_config,
            removed_managed_theme,
            restored_previous_config,
        }
    }

    /// Whether the configuration is saved once before the first activation, and how.
    pub fn backup_plan(&self, facts: &ConfigFacts) -> (r: Result<ConfigBackup, String>)
        ensures
            match r {
                Ok(b) => backup_plan_spec(*facts) == Ok::<ConfigBackup, Seq<char>>(b),
                Err(e) => backup_plan_spec(*facts) == Err::<ConfigBackup, Seq<char>>(e@),
            },
    {
        if facts.backup_exists || facts.absent_exists {
            if facts.backup.is_some() {
                if changed_after_activation_exec(facts) {
                    return Err(
                        owned(
                            "SDDM configuration changed after KiSDDM activation; refusing overwrite",
                        ),
                    );
                }
                return Ok(ConfigBackup::AlreadySaved);
            }
            let managed = managed_config_bytes();
            let appeared = match &facts.config {
                Some(current) => !bytes_eq(current.as_slice(), managed.as_slice()),
                None => false,
            };
            if appeared {
                return Err(
                    owned("SDDM configuration appeared after KiSDDM activation; refusing overwrite"),
                );
            }
            return Ok(ConfigBackup::AlreadySaved);
        }
        if facts.config_is_file {
            Ok(ConfigBackup::CopyConfig)
        } else {
            Ok(ConfigBackup::MarkAbsent)
        }
    }

    /// Whether a theme source can be installed over the destination.
    pub fn check_theme_install(
        &self,
        source: &ThemeSource,
        metadata: Result<String, String>,
        destination_is_symlink: bool,
        destination_exists: bool,
        destination_marker: bool,
    ) -> (r: Result<(), String>)
        ensures
            match r {
                Ok(()) => install_check_spec(
                    source.path@,
                    source.is_dir,
                    source.main_qml,
                    source.metadata_desktop,
                    match metadata {
                        Ok(m) => Ok(m@),
                        Err(e) => Err(e@),
                    },
                    self.theme_root@,
                    destination_is_symlink,
                    destination_exists,
                    destination_marker,
                ) is Ok,
                Err(e) => install_check_spec(
                    source.path@,
                    source.is_dir,
                    source.main_qml,
                    source.metadata_desktop,
                    match metadata {
                        Ok(m) => Ok(m@),
                        Err(e) => Err(e@),
                    },
                    self.theme_root@,
                    destination_is_symlink,
                    destination_exists,
                    destination_marker,
                ) == Err::<(), Seq<char>>(e@),
            },
    {
        let p = chars_of(source.path.as_str());
        if !(p.len() > 0 && p[0] == '/') || !source.is_dir {
            return Err(owned("theme source must be an existing absolute directory"));
        }
        if !source.main_qml {
            return Err(owned("theme source is missing Main.qml"));
        }
        if !source.metadata_desktop {
            return Err(owned("theme source is missing metadata.desktop"));
        }
        let text = match metadata {
            Err(e) => {
                let mut m = owned("read theme metadata: ");
                push_str(&mut m, e.as_str());
                return Err(m);
            },
            Ok(t) => t,
        };
        let lines = lines_of(chars_of(text.as_str()).as_slice());
        let ghost l = char_views(lines@);
        let mut found = false;
        let mut i: usize = 0;
        let target = chars_of("QtVersion=6");
        while i < lines.len()
            invariant
                i <= lines.len(),
                l == char_views(lines@),
                l == split_lines(text@),
                target@ == "QtVersion=6"@,
                found == exists|k: int| 0 <= k < i && trim_seq(#[trigger] l[k]) == "QtVersion=6"@,
            decreases lines.len() - i,
        {
            let t = trim_chars(lines[i].as_slice());
            if crate::text::slices_eq(t.as_slice(), target.as_slice()) {
                assert(trim_seq(l[i as int]) == "QtVersion=6"@);
                found = true;
            }
            i += 1;
        }
        if !found {
            return Err(owned("KiSDDM runtime theme must declare QtVersion=6"));
        }
        if destination_is_symlink {
            return Err(owned("refusing a symlinked SDDM theme destination"));
        }
        if destination_exists && !destination_marker {
            let mut m = owned("refusing to replace unmanaged SDDM theme: ");
            push_str(&mut m, self.theme_root.as_str());
            return Err(m);
        }
        Ok(())
    }
}

/// Checks the number of media files an apply received.
pub fn check_media_count(items: usize, dynamic_source: bool, received: usize) -> (r: Result<
    (),
    String,
>)
    ensures
        match r {
            Ok(()) => media_check(items as nat, dynamic_source, received as nat) is Ok,
            Err(e) => media_check(items as nat, dynamic_source, received as nat) == Err::<
                (),
                Seq<char>,
            >(e@),
        },
{
    if (!dynamic_source && received != items) || (dynamic_source && received == 0) {
        let mut e = owned("descriptor requires ");
        let n = u64_to_string(items as u64);
        push_str(&mut e, n.as_str());
        push_str(&mut e, " resolved media file(s)");
        if dynamic_source {
            push_str(&mut e, " or a non-empty dynamic pool");
        } else {
            assert(e@ =~= e@ + Seq::<char>::empty());
        }
        push_str(&mut e, "; received ");
        let m = u64_to_string(received as u64);
        push_str(&mut e, m.as_str());
        return Err(e);
    }
    Ok(())
}

/// The greeter's media list and fallback, from the staged copies.
pub fn theme_media(background: &SddmBackground, staged: &[StagedMedia]) -> (r: (String, String))
    ensures
        r.0@ == media_list_spec(*background, staged_destinations(staged@)),
        r.1@ == fallback_spec(*background, staged_destinations(staged@)),
{
    let ghost d = staged_destinations(staged@);
    let ghost m = main_count(*background, d.len());
    let len = staged.len();
    let main_lt: Option<usize> = if background.dynamic_source {
        if background.fallback && len >= 1 {
            Some(len - 1)
        } else {
            None
        }
    } else if background.rotation_pool >= len {
        None
    } else {
        let s: usize = if background.selected {
            1
        } else {
            0
        };
        let n = s + background.rotation_pool;
        if n < len {
            Some(n)
        } else {
            None
        }
    };
    assert(match main_lt {
        Some(n) => n as nat == m && n < len,
        None => m >= len,
    });
    let take = match main_lt {
        Some(n) => n,
        None => len,
    };
    let ghost taken = if m < d.len() {
        d.take(m as int)
    } else {
        d
    };
    assert(d.take(take as int) =~= taken);
    let mut list = String::new();
    let mut i: usize = 0;
    assert(d.take(0) =~= Seq::<Seq<char>>::empty());
    while i < take
        invariant
            i <= take <= staged.len(),
            d == staged_destinations(staged@),
            list@ == join_bars(media_urls(d.take(i as int))),
        decreases take - i,
    {
        assert(media_urls(d.take(i + 1)).drop_last() =~= media_urls(d.take(i as int)));
        assert(media_urls(d.take(i + 1)).last() == "file://"@ + d[i as int]);
        if i > 0 {
            proof {
                reveal_strlit("|");
            }
            push_str(&mut list, "|");
        }
        push_str(&mut list, "file://");
        push_str(&mut list, staged[i].destination.as_str());
        assert(d[i as int] == staged@[i as int].destination@);
        assert(list@ =~= join_bars(media_urls(d.take(i + 1))));
        i += 1;
    }
    let fallback = match main_lt {
        Some(n) => if background.fallback {
            let mut f = owned("file://");
            push_str(&mut f, staged[n].destination.as_str());
            assert(d[n as int] == staged@[n as int].destination@);
            f
        } else {
            String::new()
        },
        None => String::new(),
    };
    (list, fallback)
}


pub open spec fn bool_text(b: bool) -> Seq<char> {
    if b {
        "true"@
    } else {
        "false"@
    }
}

/// The battery line values: the first battery's capacity, at most 100.
pub open spec fn battery_percent(battery: Option<u8>) -> nat {
    match battery {
        Some(p) => if p > 100 {
            100
        } else {
            p as nat
        },
        None => 0,
    }
}

pub open spec fn theme_lines(
    preset: Seq<char>,
    mode: Seq<char>,
    strategy: Seq<char>,
    avoid_last: bool,
    media: Seq<char>,
    fallback: Seq<char>,
    accent: Seq<char>,
    text_colour: Seq<char>,
    opacity: Seq<char>,
    selector: bool,
    battery: Option<u8>,
) -> Seq<char> {
    "[General]\nPreset="@ + preset + "\nMode="@ + mode + "\nSelectionStrategy="@ + strategy
        + "\nAvoidLast="@ + bool_text(avoid_last) + "\nMediaList="@ + media + "\nFallback="@
        + fallback + "\nAccent="@ + accent + "\nTextColour="@ + text_colour + "\nPanelOpacity="@
        + opacity + "\nSessionSelectorVisible="@ + bool_text(selector) + "\nBatteryAvailable="@
        + bool_text(battery is Some) + "\nBatteryPercent="@ + decimal(battery_percent(battery))
        + "\n"@
}

pub open spec fn or_missing<T>(v: Option<T>, what: Seq<char>) -> Result<T, Seq<char>> {
    match v {
        Some(x) => Ok(x),
        None => Err("missing "@ + what),
    }
}

/// The greeter theme's configuration, or the first value it lacks.
pub open spec fn theme_config_spec(d: SddmDescriptor, staged: Seq<Seq<char>>, battery: Option<u8>) -> Result<
    Seq<char>,
    Seq<char>,
> {
    match d.background {
        None => Err("missing background"@),
        Some(b) => match d.appearance {
            None => Err("missing appearance"@),
            Some(a) => match required_text(opt_view(d.theme_preset), "theme_preset"@) {
                Err(e) => Err(e),
                Ok(preset) => match required_text(opt_view(b.mode), "mode"@) {
                    Err(e) => Err(e),
                    Ok(mode) => match required_text(opt_view(b.selection_strategy), "selection_strategy"@) {
                        Err(e) => Err(e),
                        Ok(strategy) => match or_missing(b.avoid_last, "avoid_last"@) {
                            Err(e) => Err(e),
                            Ok(avoid_last) => match required_text(opt_view(a.accent), "accent"@) {
                                Err(e) => Err(e),
                                Ok(accent) => match required_text(opt_view(a.text_colour), "text_colour"@) {
                                    Err(e) => Err(e),
                                    Ok(text_colour) => match or_missing(opt_view(a.panel_opacity), "panel_opacity"@) {
                                        Err(e) => Err(e),
                                        Ok(opacity) => match or_missing(a.session_selector_visible, "session_selector_visible"@) {
                                            Err(e) => Err(e),
                                            Ok(selector) => Ok(theme_lines(
                                                preset,
                                                mode,
                                                strategy,
                                                avoid_last,
                                                media_list_spec(b, staged),
                                                fallback_spec(b, staged),
                                                accent,
                                                text_colour,
                                                opacity,
                                                selector,
                                                battery,
                                            )),
                                        },
                                    },
                                },
                            },
                        },
                    },
                },
            },
        },
    }
}

fn bool_string(b: bool) -> (r: &'static str)
    ensures
        r@ == bool_text(b),
{
    if b {
        "true"
    } else {
        "false"
    }
}

fn missing_value(what: &str) -> (r: String)
    ensures
        r@ == "missing "@ + what@,
{
    let mut e = owned("missing ");
    push_str(&mut e, what);
    e
}

/// The greeter theme's configuration file, given the staged media and the
/// capacity of the first battery found.
pub fn theme_config(descriptor: &SddmDescriptor, staged: &[StagedMedia], battery: Option<u8>) -> (r:
    Result<String, String>)
    ensures
        match r {
            Ok(c) => theme_config_spec(*descriptor, staged_destinations(staged@), battery) == Ok::<
                Seq<char>,
                Seq<char>,
            >(c@),
            Err(e) => theme_config_spec(*descriptor, staged_destinations(staged@), battery) == Err::<
                Seq<char>,
                Seq<char>,
            >(e@),
        },
{
    let background = match &descriptor.background {
        None => {
            return Err(owned("missing background"));
        },
        Some(b) => b,
    };
    let appearance = match &descriptor.appearance {
        None => {
            return Err(owned("missing appearance"));
        },
        Some(a) => a,
    };
    let (media, fallback) = theme_media(background, staged);
    let percent: u8 = match battery {
        Some(p) => if p > 100 {
            100
        } else {
            p
        },
        None => 0,
    };
    let preset = required_text_exec(&descriptor.theme_preset, "theme_preset")?;
    let mode = required_text_exec(&background.mode, "mode")?;
    let strategy = required_text_exec(&background.selection_strategy, "selection_strategy")?;
    let avoid_last = match background.avoid_last {
        Some(v) => v,
        None => {
            return Err(missing_value("avoid_last"));
        },
    };
    let accent = required_text_exec(&appearance.accent, "accent")?;
    let text_colour = required_text_exec(&appearance.text_colour, "text_colour")?;
    let opacity = match &appearance.panel_opacity {
        Some(v) => v,
        None => {
            return Err(missing_value("panel_opacity"));
        },
    };
    let selector = match appearance.session_selector_visible {
        Some(v) => v,
        None => {
            return Err(missing_value("session_selector_visible"));
        },
    };
    let mut c = owned("[General]\nPreset=");
    push_str(&mut c, preset.as_str());
    push_str(&mut c, "\nMode=");
    push_str(&mut c, mode.as_str());
    push_str(&mut c, "\nSelectionStrategy=");
    push_str(&mut c, strategy.as_str());
    push_str(&mut c, "\nAvoidLast=");
    push_str(&mut c, bool_string(avoid_last));
    push_str(&mut c, "\nMediaList=");
    push_str(&mut c, media.as_str());
    push_str(&mut c, "\nFallback=");
    push_str(&mut c, fallback.as_str());
    push_str(&mut c, "\nAccent=");
    push_str(&mut c, accent.as_str());
    push_str(&mut c, "\nTextColour=");
    push_str(&mut c, text_colour.as_str());
    push_str(&mut c, "\nPanelOpacity=");
    push_str(&mut c, opacity.as_str());
    push_str(&mut c, "\nSessionSelectorVisible=");
    push_str(&mut c, bool_string(selector));
    push_str(&mut c, "\nBatteryAvailable=");
    push_str(&mut c, bool_string(battery.is_some()));
    push_str(&mut c, "\nBatteryPercent=");
    let p = u64_to_string(percent as u64);
    push_str(&mut c, p.as_str());
    push_str(&mut c, "\n");
    assert(c@ =~= theme_lines(
        preset@,
        mode@,
        strategy@,
        avoid_last,
        media@,
        fallback@,
        accent@,
        text_colour@,
        opacity@,
        selector,
        battery,
    ));
    Ok(c)
}

} // verus!
