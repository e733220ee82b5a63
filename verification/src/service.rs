//! Which compositor answers, and the reports built on that answer.
use vstd::prelude::*;

use crate::model::{
    Capabilities, CheckView, CompositorKind, Detection, DetectionView, DoctorCheck, DoctorReport,
};
use crate::text::{decimal, is_blank, owned, push_str, str_eq, trim_seq, views};

verus! {

pub open spec fn detected(kind: CompositorKind, backend: Seq<char>, reason: Seq<char>) -> DetectionView {
    DetectionView { ok: true, compositor: kind, backend: Some(backend), reason }
}

pub open spec fn no_compositor_reason() -> Seq<char> {
    "no supported compositor provider responded"@
}

/// The compositor of the running session wins; otherwise the first provider
/// whose probe answers, Hyprland before Niri.
pub open spec fn detection_spec(
    hyprland_session: bool,
    niri_session: bool,
    hyprland_available: bool,
    niri_available: bool,
) -> DetectionView {
    if hyprland_session && hyprland_available {
        detected(CompositorKind::Hyprland, "hyprctl"@, "Hyprland session is active"@)
    } else if niri_session && niri_available {
        detected(CompositorKind::Niri, "niri msg"@, "Niri session is active"@)
    } else if hyprland_available {
        detected(CompositorKind::Hyprland, "hyprctl"@, "hyprctl probe succeeded"@)
    } else if niri_available {
        detected(CompositorKind::Niri, "niri msg"@, "niri probe succeeded"@)
    } else {
        DetectionView {
            ok: false,
            compositor: CompositorKind::Unknown,
            backend: None,
            reason: no_compositor_reason(),
        }
    }
}

fn detected_exec(kind: CompositorKind, backend: &str, reason: &str) -> (r: Detection)
    ensures
        r@ == detected(kind, backend@, reason@),
{
    Detection { ok: true, compositor: kind, backend: Some(owned(backend)), reason: owned(reason) }
}

/// What the session supports once a compositor is detected.
pub open spec fn capabilities_spec(d: DetectionView) -> Capabilities {
    Capabilities {
        compositor: d.compositor,
        multi_output: d.ok,
        output_focus: d.ok,
        output_events: d.ok,
        focus_events: d.ok,
        application_catalog: true,
        application_runtime: d.ok,
        wallpaper_runtime: false,
        service_runtime: false,
    }
}

pub open spec fn provider_check(d: DetectionView) -> CheckView {
    CheckView {
        id: "provider"@,
        ok: d.ok,
        severity: if d.ok {
            "info"@
        } else {
            "error"@
        },
        message: d.reason,
        remediation: if d.ok {
            None
        } else {
            Some(
                "Start a supported compositor session and ensure its IPC command is available"@,
            )
        },
    }
}

pub open spec fn outputs_check(outputs: Result<nat, Seq<char>>) -> CheckView {
    CheckView {
        id: "outputs"@,
        ok: outputs is Ok,
        severity: if outputs is Ok {
            "info"@
        } else {
            "error"@
        },
        message: match outputs {
            Ok(n) => decimal(n) + " output(s) detected"@,
            Err(e) => e,
        },
        remediation: None,
    }
}

pub open spec fn check_views(s: Seq<DoctorCheck>) -> Seq<CheckView> {
    s.map_values(|c: DoctorCheck| c@)
}

/// The provider check, then, when a compositor was detected and its outputs
/// were listed, the outputs check.
pub open spec fn doctor_checks(d: DetectionView, outputs: Option<Result<nat, Seq<char>>>) -> Seq<
    CheckView,
> {
    if d.ok && outputs is Some {
        seq![provider_check(d), outputs_check(outputs->Some_0)]
    } else {
        seq![provider_check(d)]
    }
}

/// The result of an output validation, given the listing of the outputs.
pub open spec fn validation_spec(
    name: Seq<char>,
    outputs: Result<(CompositorKind, Seq<Seq<char>>), Seq<char>>,
) -> Result<(CompositorKind, bool), Seq<char>> {
    if trim_seq(name).len() == 0 {
        Err("output name cannot be empty"@)
    } else {
        match outputs {
            Err(e) => Err(e),
            Ok((kind, names)) => Ok((kind, names.contains(name))),
        }
    }
}

/// The compositor-neutral entry point over a host runner.
pub struct CompositorBackend<R> {
    pub runner: R,
}

impl<R> CompositorBackend<R> {
    pub fn new(runner: R) -> (r: Self)
        ensures
            r.runner == runner,
    {
        CompositorBackend { runner }
    }

    /// Detection from the session variables that are set and the providers
    /// whose IPC probe answered.
    pub fn detect(
        &self,
        hyprland_session: bool,
        niri_session: bool,
        hyprland_available: bool,
        niri_available: bool,
    ) -> (r: Detection)
        ensures
            r@ == detection_spec(hyprland_session, niri_session, hyprland_available, niri_available),
    {
        if hyprland_session && hyprland_available {
            return detected_exec(CompositorKind::Hyprland, "hyprctl", "Hyprland session is active");
        }
        if niri_session && niri_available {
            return detected_exec(CompositorKind::Niri, "niri msg", "Niri session is active");
        }
        if hyprland_available {
            return detected_exec(CompositorKind::Hyprland, "hyprctl", "hyprctl probe succeeded");
        }
        if niri_available {
            return detected_exec(CompositorKind::Niri, "niri msg", "niri probe succeeded");
        }
        Detection {
            ok: false,
            compositor: CompositorKind::Unknown,
            backend: None,
            reason: owned("no supported compositor provider responded"),
        }
    }

    /// Whether an output of the given name exists, given the listing of outputs.
    pub fn validate_output(
        &self,
        name: &str,
        outputs: Result<(CompositorKind, Vec<String>), String>,
    ) -> (r: Result<(CompositorKind, bool), String>)
        ensures
            match r {
                Ok(x) => validation_spec(
                    name@,
                    match outputs {
                        Ok((k, v)) => Ok((k, views(v@))),
                        Err(e) => Err(e@),
                    },
                ) == Ok::<(CompositorKind, bool), Seq<char>>(x),
                Err(e) => validation_spec(
                    name@,
                    match outputs {
                        Ok((k, v)) => Ok((k, views(v@))),
                        Err(e) => Err(e@),
                    },
                ) == Err::<(CompositorKind, bool), Seq<char>>(e@),
            },
    {
        if is_blank(name) {
            proof {
                crate::text::lemma_trim_empty(name@);
            }
            return Err(owned("output name cannot be empty"));
        }
        proof {
            crate::text::lemma_trim_empty(name@);
        }
        match outputs {
            Err(e) => Err(e),
            Ok((kind, names)) => {
                let ghost s = views(names@);
                let mut found = false;
                let mut i: usize = 0;
                while i < names.len()
                    invariant
                        i <= names.len(),
                        s == views(names@),
                        found == exists|k: int| 0 <= k < i && s[k] == name@,
                    decreases names.len() - i,
                {
                    if str_eq(names[i].as_str(), name) {
                        assert(s[i as int] == name@);
                        found = true;
                    }
                    i += 1;
                }
                Ok((kind, found))
            },
        }
    }

    /// What the session supports, given its detection.
    pub fn capabilities(&self, detection: &Detection) -> (r: Capabilities)
        ensures
            r == capabilities_spec(detection@),
    {
        Capabilities {
            compositor: detection.compositor,
            multi_output: detection.ok,
            output_focus: detection.ok,
            output_events: detection.ok,
            focus_events: detection.ok,
            application_catalog: true,
            application_runtime: detection.ok,
            wallpaper_runtime: false,
            service_runtime: false,
        }
    }

    /// The health report, given the detection and, when a compositor was
    /// detected, how many outputs it listed (or why it could not).
    pub fn doctor(&self, detection: &Detection, outputs: Option<Result<usize, String>>) -> (r:
        DoctorReport)
        ensures
            check_views(r.checks@) == doctor_checks(
                detection@,
                match outputs {
                    Some(Ok(n)) => Some(Ok(n as nat)),
                    Some(Err(e)) => Some(Err(e@)),
                    None => None,
                },
            ),
            r.healthy == forall|i: int| 0 <= i < r.checks@.len() ==> (#[trigger] r.checks@[i]).ok,
    {
        let provider = DoctorCheck {
            id: owned("provider"),
            ok: detection.ok,
            severity: if detection.ok {
                owned("info")
            } else {
                owned("error")
            },
            message: detection.reason.clone(),
            remediation: if detection.ok {
                None
            } else {
                Some(
                    owned(
                        "Start a supported compositor session and ensure its IPC command is available",
                    ),
                )
            },
        };
        let mut checks = vec![provider];
        if detection.ok {
            match outputs {
                Some(result) => {
                    let ok = result.is_ok();
                    let message = match result {
                        Ok(n) => {
                            let mut m = crate::text::u64_to_string(n as u64);
                            push_str(&mut m, " output(s) detected");
                            m
                        },
                        Err(e) => e,
                    };
                    let check = DoctorCheck {
                        id: owned("outputs"),
                        ok,
                        severity: if ok {
                            owned("info")
                        } else {
                            owned("error")
                        },
                        message,
                        remediation: None,
                    };
                    checks.push(check);
                },
                None => {},
            }
        }
        let mut healthy = true;
        let mut i: usize = 0;
        while i < checks.len()
            invariant
                i <= checks.len(),
                healthy == forall|k: int| 0 <= k < i ==> (#[trigger] checks@[k]).ok,
            decreases checks.len() - i,
        {
            healthy = healthy && checks[i].ok;
            i += 1;
        }
        let r = DoctorReport { healthy, checks };
        assert(check_views(r.checks@) =~= doctor_checks(
            detection@,
            match outputs {
                Some(Ok(n)) => Some(Ok(n as nat)),
                Some(Err(e)) => Some(Err(e@)),
                None => None,
            },
        ));
        r
    }
}

} // verus!
