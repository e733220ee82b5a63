//! A compositor-neutral backend for Hyprland and Niri sessions: output and
//! application models, wallpaper runtimes, `systemd --user` units, portable
//! automations, active media, appearance providers and the KiSDDM greeter.
use vstd::prelude::*;

pub mod active_media;
pub mod applications;
pub mod appearance;
pub mod automation;
pub mod checks;
pub mod cli;
pub mod contract;
pub mod model;
pub mod process;
pub mod sddm;
pub mod service;
pub mod text;
pub mod unit_manager;
pub mod unit_runs;
pub mod wallpaper;

pub use active_media::{ActiveMediaIndex, ActiveMediaKind, ActiveMediaRecord, ActiveMediaStore};
pub use applications::{application_matches, ApplicationCatalog, ProcessIdentity};
pub use appearance::caelestia::{apply_operations, restore_operations};
pub use appearance::engine::{
    AppearanceEngine, AppearancePolicyStore, AppearanceStateStore, AppliedAppearance, PaletteCache,
};
pub use appearance::model::{
    AppearanceAdvisory, AppearanceCapabilities, AppearanceMode, AppearanceOperation,
    AppearancePolicy, AppearanceRestoreResult, CaelestiaSnapshot,
};
pub use appearance::provider::AppearanceHost;
pub use automation::{
    control_automation, detect_service_manager, plan_automation, plan_automation_batch,
    remove_automation, AutomationBatchDescriptor, AutomationDescriptor, AutomationKind,
    AutomationPlan, AutomationStatus, Schedule, ServiceManagerKind,
};
pub use model::{
    ApplicationWindow, Capabilities, CompositorKind, Detection, DoctorCheck, DoctorReport,
    InstalledApplication, RunningApplication,
};
pub use process::{ProcessExecutor, ProcessOutput};
pub use sddm::{
    SddmApplyResult, SddmCapabilities, SddmManager, SddmPlan, SddmRestoreResult, SddmStatus,
    StagedMedia,
};
pub use service::CompositorBackend;
pub use unit_manager::{
    Registry, RestartPolicy, UnitDescriptor, UnitManager, UnitPlan, UnitRecord, UnitStatus,
};
pub use unit_runs::{BatchAction, BatchRun, RemovalAction, RemovalRun};
pub use wallpaper::{StartAction, StartRun, WallpaperBackend, WallpaperRuntime, WallpaperRuntimeStatus};

verus! {
} // verus!
