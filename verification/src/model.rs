//! The compositor-neutral records the library hands to its consumers.
use vstd::prelude::*;

use crate::text::{decimal, opt_view, owned, str_eq, u64_to_string};

verus! {

#[derive(Debug, Clone, Copy, PartialEq, Eq, Structural)]
pub enum CompositorKind {
    Hyprland,
    Niri,
    Unknown,
}

/// The lowercase name of a compositor kind.
pub open spec fn kind_name(kind: CompositorKind) -> Seq<char> {
    match kind {
        CompositorKind::Hyprland => "hyprland"@,
        CompositorKind::Niri => "niri"@,
        CompositorKind::Unknown => "unknown"@,
    }
}

impl CompositorKind {
    pub fn as_str(self) -> (r: &'static str)
        ensures
            r@ == kind_name(self),
    {
        match self {
            CompositorKind::Hyprland => "hyprland",
            CompositorKind::Niri => "niri",
            CompositorKind::Unknown => "unknown",
        }
    }
}

/// Which compositor answered, through which IPC tool, and why.
#[derive(Debug, Clone, PartialEq)]
pub struct Detection {
    pub ok: bool,
    pub compositor: CompositorKind,
    pub backend: Option<String>,
    pub reason: String,
}

pub struct DetectionView {
    pub ok: bool,
    pub compositor: CompositorKind,
    pub backend: Option<Seq<char>>,
    pub reason: Seq<char>,
}

impl View for Detection {
    type V = DetectionView;

    open spec fn view(&self) -> DetectionView {
        DetectionView {
            ok: self.ok,
            compositor: self.compositor,
            backend: opt_view(self.backend),
            reason: self.reason@,
        }
    }
}

/// A window as a compositor reports it.
#[derive(Debug, Clone, PartialEq, Eq)]
pub struct ApplicationWindow {
    pub app_id: String,
    pub title: Option<String>,
    pub pid: Option<u32>,
    pub output: Option<String>,
    pub workspace: Option<String>,
    pub focused: bool,
    pub fullscreen: bool,
    pub backend: String,
}

pub struct WindowView {
    pub app_id: Seq<char>,
    pub title: Option<Seq<char>>,
    pub pid: Option<u32>,
    pub output: Option<Seq<char>>,
    pub workspace: Option<Seq<char>>,
    pub focused: bool,
    pub fullscreen: bool,
    pub backend: Seq<char>,
}

impl View for ApplicationWindow {
    type V = WindowView;

    open spec fn view(&self) -> WindowView {
        WindowView {
            app_id: self.app_id@,
            title: opt_view(self.title),
            pid: self.pid,
            output: opt_view(self.output),
            workspace: opt_view(self.workspace),
            focused: self.focused,
            fullscreen: self.fullscreen,
            backend: self.backend@,
        }
    }
}

/// A window from one `hyprctl clients` entry, given what the entry holds: its
/// class (`initialClass`, else `class`), title, pid, monitor, workspace name,
/// fullscreen mode and place in the focus history. An entry without a class
/// is refused; the window is fullscreen when the mode is above zero and
/// focused when it leads the focus history.
pub fn hyprland_window(
    class: Option<String>,
    title: Option<String>,
    pid: Option<u32>,
    monitor: Option<String>,
    workspace: Option<String>,
    fullscreen: Option<u64>,
    focus_history: Option<i64>,
) -> (r: Result<ApplicationWindow, String>)
    ensures
        class is None ==> (r matches Err(e) && e@ == "hyprctl client entry missing class"@),
        class matches Some(c) ==> (r matches Ok(w) && w@ == (WindowView {
            app_id: c@,
            title: opt_view(title),
            pid,
            output: opt_view(monitor),
            workspace: opt_view(workspace),
            focused: focus_history == Some(0i64),
            fullscreen: fullscreen matches Some(m) && m > 0,
            backend: "hyprctl"@,
        })),
{
    let app_id = match class {
        Some(c) => c,
        None => {
            return Err(owned("hyprctl client entry missing class"));
        },
    };
    let fullscreen = match fullscreen {
        Some(m) => m > 0,
        None => false,
    };
    let focused = match focus_history {
        Some(h) => h == 0,
        None => false,
    };
    Ok(
        ApplicationWindow {
            app_id,
            title,
            pid,
            output: monitor,
            workspace,
            focused,
            fullscreen,
            backend: owned("hyprctl"),
        },
    )
}

/// The decimal name of an optional workspace id.
pub open spec fn workspace_name(id: Option<u64>) -> Option<Seq<char>> {
    match id {
        Some(n) => Some(decimal(n as nat)),
        None => None,
    }
}

/// A window from one `niri msg windows` entry, given what the entry holds.
/// A window without an app id keeps an empty one, with its pid and title; its
/// workspace is named by the decimal workspace id; focus and fullscreen are
/// off unless the entry says otherwise.
pub fn niri_window(
    app_id: Option<String>,
    title: Option<String>,
    pid: Option<u32>,
    output: Option<String>,
    workspace_id: Option<u64>,
    focused: Option<bool>,
    fullscreen: Option<bool>,
) -> (r: ApplicationWindow)
    ensures
        r@ == (WindowView {
            app_id: match app_id {
                Some(a) => a@,
                None => Seq::<char>::empty(),
            },
            title: opt_view(title),
            pid,
            output: opt_view(output),
            workspace: workspace_name(workspace_id),
            focused: focused == Some(true),
            fullscreen: fullscreen == Some(true),
            backend: "niri msg"@,
        }),
{
    let app_id = match app_id {
        Some(a) => a,
        None => {
            let e = String::new();
            proof {
                assert(e@ =~= Seq::<char>::empty());
            }
            e
        },
    };
    let workspace = match workspace_id {
        Some(n) => Some(u64_to_string(n)),
        None => None,
    };
    ApplicationWindow {
        app_id,
        title,
        pid,
        output,
        workspace,
        focused: focused == Some(true),
        fullscreen: fullscreen == Some(true),
        backend: owned("niri msg"),
    }
}

/// The output of the first workspace whose decimal id is `name`, if any
/// workspace has that id.
pub open spec fn workspace_output(
    workspaces: Seq<(Option<u64>, Option<Seq<char>>)>,
    name: Seq<char>,
) -> Option<Seq<char>>
    decreases workspaces.len(),
{
    if workspaces.len() == 0 {
        None
    } else if workspace_name(workspaces[0].0) == Some(name) {
        workspaces[0].1
    } else {
        workspace_output(workspaces.drop_first(), name)
    }
}

pub open spec fn workspace_views(w: Seq<(Option<u64>, Option<String>)>) -> Seq<
    (Option<u64>, Option<Seq<char>>),
> {
    w.map_values(|e: (Option<u64>, Option<String>)| (e.0, opt_view(e.1)))
}

/// Where a niri window without an output is shown: the output of its
/// workspace, given each workspace's id and output.
pub fn output_of_workspace(workspaces: &[(Option<u64>, Option<String>)], name: &str) -> (r: Option<
    String,
>)
    ensures
        opt_view(r) == workspace_output(workspace_views(workspaces@), name@),
{
    let ghost all = workspace_views(workspaces@);
    assert(all.subrange(0, all.len() as int) =~= all);
    let mut i: usize = 0;
    while i < workspaces.len()
        invariant
            i <= workspaces.len(),
            all == workspace_views(workspaces@),
            workspace_output(all, name@) == workspace_output(all.subrange(i as int, all.len() as int), name@),
        decreases workspaces.len() - i,
    {
        let ghost rest = all.subrange(i as int, all.len() as int);
        assert(rest[0] == all[i as int]);
        let matches = match workspaces[i].0 {
            Some(n) => {
                let text = u64_to_string(n);
                str_eq(text.as_str(), name)
            },
            None => false,
        };
        if matches {
            return match &workspaces[i].1 {
                Some(o) => Some(owned(o.as_str())),
                None => None,
            };
        }
        assert(rest.drop_first() =~= all.subrange(i + 1, all.len() as int));
        i += 1;
    }
    assert(all.subrange(i as int, all.len() as int).len() == 0);
    None
}

/// A visible XDG application entry.
#[derive(Debug, Clone, PartialEq, Eq)]
pub struct InstalledApplication {
    pub id: String,
    pub name: String,
    pub executable: Option<String>,
    pub icon: Option<String>,
    pub desktop_file: String,
}

pub struct InstalledView {
    pub id: Seq<char>,
    pub name: Seq<char>,
    pub executable: Option<Seq<char>>,
    pub icon: Option<Seq<char>>,
    pub desktop_file: Seq<char>,
}

impl View for InstalledApplication {
    type V = InstalledView;

    open spec fn view(&self) -> InstalledView {
        InstalledView {
            id: self.id@,
            name: self.name@,
            executable: opt_view(self.executable),
            icon: opt_view(self.icon),
            desktop_file: self.desktop_file@,
        }
    }
}

impl InstalledApplication {
    /// A copy with the same view.
    pub fn duplicate(&self) -> (r: InstalledApplication)
        ensures
            r@ == self@,
    {
        InstalledApplication {
            id: self.id.clone(),
            name: self.name.clone(),
            executable: crate::text::clone_opt(&self.executable),
            icon: crate::text::clone_opt(&self.icon),
            desktop_file: self.desktop_file.clone(),
        }
    }
}

/// An application that is running, found through a window or a process.
#[derive(Debug, Clone, PartialEq, Eq)]
pub struct RunningApplication {
    pub id: String,
    pub name: String,
    pub app_id: String,
    pub pid: Option<u32>,
    pub title: Option<String>,
    pub focused: bool,
    pub fullscreen: bool,
    pub backend: String,
}

pub struct RunningView {
    pub id: Seq<char>,
    pub name: Seq<char>,
    pub app_id: Seq<char>,
    pub pid: Option<u32>,
    pub title: Option<Seq<char>>,
    pub focused: bool,
    pub fullscreen: bool,
    pub backend: Seq<char>,
}

impl View for RunningApplication {
    type V = RunningView;

    open spec fn view(&self) -> RunningView {
        RunningView {
            id: self.id@,
            name: self.name@,
            app_id: self.app_id@,
            pid: self.pid,
            title: opt_view(self.title),
            focused: self.focused,
            fullscreen: self.fullscreen,
            backend: self.backend@,
        }
    }
}

impl RunningApplication {
    /// A copy with the same view.
    pub fn duplicate(&self) -> (r: RunningApplication)
        ensures
            r@ == self@,
    {
        RunningApplication {
            id: self.id.clone(),
            name: self.name.clone(),
            app_id: self.app_id.clone(),
            pid: self.pid,
            title: crate::text::clone_opt(&self.title),
            focused: self.focused,
            fullscreen: self.fullscreen,
            backend: self.backend.clone(),
        }
    }
}

/// What the detected compositor session supports.
#[derive(Debug, Clone, PartialEq)]
pub struct Capabilities {
    pub compositor: CompositorKind,
    pub multi_output: bool,
    pub output_focus: bool,
    pub output_events: bool,
    pub focus_events: bool,
    pub application_catalog: bool,
    pub application_runtime: bool,
    pub wallpaper_runtime: bool,
    pub service_runtime: bool,
}

/// One line of a health report.
#[derive(Debug, Clone, PartialEq)]
pub struct DoctorCheck {
    pub id: String,
    pub ok: bool,
    pub severity: String,
    pub message: String,
    pub remediation: Option<String>,
}

pub struct CheckView {
    pub id: Seq<char>,
    pub ok: bool,
    pub severity: Seq<char>,
    pub message: Seq<char>,
    pub remediation: Option<Seq<char>>,
}

impl View for DoctorCheck {
    type V = CheckView;

    open spec fn view(&self) -> CheckView {
        CheckView {
            id: self.id@,
            ok: self.ok,
            severity: self.severity@,
            message: self.message@,
            remediation: opt_view(self.remediation),
        }
    }
}

/// A health report: healthy exactly when every check passed.
#[derive(Debug, Clone, PartialEq)]
pub struct DoctorReport {
    pub healthy: bool,
    pub checks: Vec<DoctorCheck>,
}

/// The focused output last reported by a watch, so that only changes are
/// emitted.
pub struct FocusTracker {
    /// `None` before the first report; then the output name reported, if any.
    pub last: Option<Option<String>>,
}

pub open spec fn focus_view(f: Option<Option<String>>) -> Option<Option<Seq<char>>> {
    match f {
        Some(o) => Some(opt_view(o)),
        None => None,
    }
}

impl FocusTracker {
    pub fn new() -> (r: Self)
        ensures
            r.last is None,
    {
        FocusTracker { last: None }
    }

    /// Records the focused output now reported, and tells whether it differs
    /// from the one reported before; the first report is always a change.
    pub fn observe(&mut self, current: Option<String>) -> (changed: bool)
        ensures
            changed == (focus_view(old(self).last) != Some(opt_view(current))),
            focus_view(final(self).last) == Some(opt_view(current)),
    {
        let changed = match (&self.last, &current) {
            (Some(Some(a)), Some(b)) => !str_eq(a.as_str(), b.as_str()),
            (Some(None), None) => false,
            _ => true,
        };
        self.last = Some(current);
        changed
    }
}

} // verus!
