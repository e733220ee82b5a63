//! The records of appearance detection, planning and restoration.
use vstd::prelude::*;

use crate::text::{opt_view, views};

verus! {

#[derive(Debug, Clone, Copy, PartialEq, Eq, Structural)]
pub enum AppearanceMode {
    NativePalette,
    Exact,
    Nearest,
    GeneratedConfig,
    ReadOnly,
    Unsupported,
}

/// A condition of the host that the user should fix before applying colors.
#[derive(Debug, Clone, PartialEq, Eq)]
pub struct AppearanceAdvisory {
    pub code: String,
    pub severity: String,
    pub message: String,
    pub config_path: Option<String>,
    pub suggested_json: Option<String>,
}

pub struct AdvisoryView {
    pub code: Seq<char>,
    pub severity: Seq<char>,
    pub message: Seq<char>,
    pub config_path: Option<Seq<char>>,
    pub suggested_json: Option<Seq<char>>,
}

impl View for AppearanceAdvisory {
    type V = AdvisoryView;

    open spec fn view(&self) -> AdvisoryView {
        AdvisoryView {
            code: self.code@,
            severity: self.severity@,
            message: self.message@,
            config_path: opt_view(self.config_path),
            suggested_json: opt_view(self.suggested_json),
        }
    }
}

pub open spec fn advisory_views(s: Seq<AppearanceAdvisory>) -> Seq<AdvisoryView> {
    s.map_values(|a: AppearanceAdvisory| a@)
}

/// What the detected appearance provider can do.
#[derive(Debug, Clone, PartialEq, Eq)]
pub struct AppearanceCapabilities {
    pub supported: bool,
    pub backend: String,
    pub mode: AppearanceMode,
    pub palette_supported: bool,
    pub preview_supported: bool,
    pub apply_supported: bool,
    pub restore_supported: bool,
    pub scopes: Vec<String>,
    pub reason: String,
    pub advisories: Vec<AppearanceAdvisory>,
}

pub struct CapabilitiesView {
    pub supported: bool,
    pub backend: Seq<char>,
    pub mode: AppearanceMode,
    pub palette_supported: bool,
    pub preview_supported: bool,
    pub apply_supported: bool,
    pub restore_supported: bool,
    pub scopes: Seq<Seq<char>>,
    pub reason: Seq<char>,
    pub advisories: Seq<AdvisoryView>,
}

impl View for AppearanceCapabilities {
    type V = CapabilitiesView;

    open spec fn view(&self) -> CapabilitiesView {
        CapabilitiesView {
            supported: self.supported,
            backend: self.backend@,
            mode: self.mode,
            palette_supported: self.palette_supported,
            preview_supported: self.preview_supported,
            apply_supported: self.apply_supported,
            restore_supported: self.restore_supported,
            scopes: views(self.scopes@),
            reason: self.reason@,
            advisories: advisory_views(self.advisories@),
        }
    }
}

/// One command that changes the appearance.
#[derive(Debug, Clone, PartialEq, Eq)]
pub struct AppearanceOperation {
    pub binary: String,
    pub args: Vec<String>,
    pub mutates: bool,
}

pub struct OperationView {
    pub binary: Seq<char>,
    pub args: Seq<Seq<char>>,
    pub mutates: bool,
}

impl View for AppearanceOperation {
    type V = OperationView;

    open spec fn view(&self) -> OperationView {
        OperationView { binary: self.binary@, args: views(self.args@), mutates: self.mutates }
    }
}

pub open spec fn operation_views(s: Seq<AppearanceOperation>) -> Seq<OperationView> {
    s.map_values(|o: AppearanceOperation| o@)
}

/// Caelestia's scheme and wallpaper before the library changed them.
#[derive(Debug, Clone, PartialEq, Eq)]
pub struct CaelestiaSnapshot {
    pub name: String,
    pub flavour: String,
    pub mode: String,
    pub variant: String,
    pub wallpaper: Option<String>,
}

pub struct SnapshotView {
    pub name: Seq<char>,
    pub flavour: Seq<char>,
    pub mode: Seq<char>,
    pub variant: Seq<char>,
    pub wallpaper: Option<Seq<char>>,
}

impl View for CaelestiaSnapshot {
    type V = SnapshotView;

    open spec fn view(&self) -> SnapshotView {
        SnapshotView {
            name: self.name@,
            flavour: self.flavour@,
            mode: self.mode@,
            variant: self.variant@,
            wallpaper: opt_view(self.wallpaper),
        }
    }
}

/// What a restore did or would do.
#[derive(Debug, Clone, PartialEq, Eq)]
pub struct AppearanceRestoreResult {
    pub restored: bool,
    pub dry_run: bool,
    pub provider: AppearanceCapabilities,
    pub operations: Vec<AppearanceOperation>,
}

/// Whether, and for which output, wallpaper changes recolor the desktop.
#[derive(Debug, Clone, PartialEq, Eq)]
pub struct AppearancePolicy {
    pub schema_version: u8,
    pub enabled: bool,
    pub source_output: Option<String>,
    pub automatic_apply: bool,
    pub post_hook_consent: bool,
    pub updated_at_unix_ms: u128,
}

pub struct PolicyView {
    pub schema_version: u8,
    pub enabled: bool,
    pub source_output: Option<Seq<char>>,
    pub automatic_apply: bool,
    pub post_hook_consent: bool,
    pub updated_at_unix_ms: u128,
}

impl View for AppearancePolicy {
    type V = PolicyView;

    open spec fn view(&self) -> PolicyView {
        PolicyView {
            schema_version: self.schema_version,
            enabled: self.enabled,
            source_output: opt_view(self.source_output),
            automatic_apply: self.automatic_apply,
            post_hook_consent: self.post_hook_consent,
            updated_at_unix_ms: self.updated_at_unix_ms,
        }
    }
}

/// The policy in force when none was stored: everything off.
pub open spec fn default_policy() -> PolicyView {
    PolicyView {
        schema_version: 1,
        enabled: false,
        source_output: None,
        automatic_apply: false,
        post_hook_consent: false,
        updated_at_unix_ms: 0,
    }
}

impl Default for AppearancePolicy {
    fn default() -> (r: Self)
        ensures
            r@ == default_policy(),
    {
        AppearancePolicy {
            schema_version: 1,
            enabled: false,
            source_output: None,
            automatic_apply: false,
            post_hook_consent: false,
            updated_at_unix_ms: 0,
        }
    }
}

} // verus!
