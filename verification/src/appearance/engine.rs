//! The appearance engine: automatic-apply policy, compatibility and restoration.
use vstd::prelude::*;

use crate::active_media::{ActiveMediaRecord, ActiveMediaStore};
use crate::appearance::apply_run::{apply_measure, start_apply, ApplyAction, ApplyActionView};
use crate::process::{answers, finds, ProcessOutput};
use crate::unit_runs::outcome_view;
use crate::appearance::caelestia::{
    apply_operations, apply_ops, current_name, current_wallpaper, execute, answered, ran,
    ran_ok_upto,
    restore_operations, restore_ops, scheme_query, snapshot, wallpaper_query, wallpaper_value,
};
use crate::appearance::model::{
    default_policy, operation_views, AdvisoryView, AppearanceAdvisory, AppearanceCapabilities,
    AppearanceOperation,
    AppearancePolicy, AppearanceRestoreResult, CaelestiaSnapshot, CapabilitiesView, PolicyView,
    SnapshotView, advisory_views,
};
use crate::appearance::provider::{detect_for_desktop, detect_spec, AppearanceHost};
use crate::process::ProcessExecutor;
use crate::text::{decimal, opt_view, owned, push_str, str_eq, u64_to_string};

verus! {

/// Where palettes extracted from images are cached.
pub struct PaletteCache {
    pub root: String,
}

impl PaletteCache {
    pub fn new(root: String) -> (r: Self)
        ensures
            r.root@ == root@,
    {
        PaletteCache { root }
    }
}

/// Where the record of the last applied appearance is kept.
pub struct AppearanceStateStore {
    pub path: String,
}

/// The error for a stored record of an unknown schema.
pub open spec fn state_schema_check(schema_version: u8) -> Result<(), Seq<char>> {
    if schema_version == 1 {
        Ok(())
    } else {
        Err("unsupported appearance state schema: "@ + decimal(schema_version as nat))
    }
}

impl AppearanceStateStore {
    pub fn new(path: String) -> (r: Self)
        ensures
            r.path@ == path@,
    {
        AppearanceStateStore { path }
    }

    /// Only records of schema 1 are read.
    pub fn check_schema(&self, schema_version: u8) -> (r: Result<(), String>)
        ensures
            match r {
                Ok(()) => state_schema_check(schema_version) is Ok,
                Err(e) => state_schema_check(schema_version) == Err::<(), Seq<char>>(e@),
            },
    {
        if schema_version == 1 {
            Ok(())
        } else {
            let mut e = owned("unsupported appearance state schema: ");
            let n = u64_to_string(schema_version as u64);
            push_str(&mut e, n.as_str());
            Err(e)
        }
    }
}

/// Where the automatic-apply policy is kept.
pub struct AppearancePolicyStore {
    pub path: String,
}

pub open spec fn policy_result(r: Result<AppearancePolicy, String>) -> Result<PolicyView, Seq<char>> {
    match r {
        Ok(p) => Ok(p@),
        Err(e) => Err(e@),
    }
}

/// The policy in force given what is stored: the default when nothing is, and
/// only policies of schema 1.
pub open spec fn policy_in_force(stored: Option<PolicyView>) -> Result<PolicyView, Seq<char>> {
    match stored {
        None => Ok(default_policy()),
        Some(p) => if p.schema_version == 1 {
            Ok(p)
        } else {
            Err("unsupported appearance policy schema: "@ + decimal(p.schema_version as nat))
        },
    }
}

impl AppearancePolicyStore {
    pub fn new(path: String) -> (r: Self)
        ensures
            r.path@ == path@,
    {
        AppearancePolicyStore { path }
    }

    /// The policy in force, given the one read from disk if the file exists.
    pub fn accept(&self, stored: Option<AppearancePolicy>) -> (r: Result<AppearancePolicy, String>)
        ensures
            policy_result(r) == policy_in_force(
                match stored {
                    Some(p) => Some(p@),
                    None => None,
                },
            ),
    {
        match stored {
            None => Ok(AppearancePolicy::default()),
            Some(p) => if p.schema_version == 1 {
                Ok(p)
            } else {
                let mut e = owned("unsupported appearance policy schema: ");
                let n = u64_to_string(p.schema_version as u64);
                push_str(&mut e, n.as_str());
                Err(e)
            },
        }
    }
}

/// What the engine recorded when it applied colors, as far as restoring needs it.
#[derive(Debug, Clone, PartialEq, Eq)]
pub struct AppliedAppearance {
    pub backend: String,
    pub image: String,
    pub source_output: Option<String>,
    pub previous_caelestia: CaelestiaSnapshot,
}

pub struct AppliedView {
    pub backend: Seq<char>,
    pub image: Seq<char>,
    pub source_output: Option<Seq<char>>,
    pub previous_caelestia: SnapshotView,
}

impl View for AppliedAppearance {
    type V = AppliedView;

    open spec fn view(&self) -> AppliedView {
        AppliedView {
            backend: self.backend@,
            image: self.image@,
            source_output: opt_view(self.source_output),
            previous_caelestia: self.previous_caelestia@,
        }
    }
}

/// The first advisory that blocks applying colors.
pub open spec fn first_blocking(advisories: Seq<AdvisoryView>) -> Option<AdvisoryView>
    decreases advisories.len(),
{
    if advisories.len() == 0 {
        None
    } else if advisories[0].severity == "blocking"@ {
        Some(advisories[0])
    } else {
        first_blocking(advisories.skip(1))
    }
}

/// Colors may be applied unless an advisory blocks it; its message, with any
/// suggested configuration, is then the error.
pub open spec fn compatibility(c: CapabilitiesView) -> Result<(), Seq<char>> {
    match first_blocking(c.advisories) {
        None => Ok(()),
        Some(a) => Err(
            a.message + match a.suggested_json {
                Some(j) => " Suggested configuration: "@ + j,
                None => Seq::empty(),
            },
        ),
    }
}

/// Refuses to apply colors while an advisory blocks it.
pub fn ensure_compatible(capabilities: &AppearanceCapabilities) -> (r: Result<(), String>)
    ensures
        match r {
            Ok(()) => compatibility(capabilities@) is Ok,
            Err(e) => compatibility(capabilities@) == Err::<(), Seq<char>>(e@),
        },
{
    let ghost a = advisory_views(capabilities.advisories@);
    assert(a.skip(0) =~= a);
    let mut i: usize = 0;
    while i < capabilities.advisories.len()
        invariant
            i <= capabilities.advisories.len(),
            a == advisory_views(capabilities.advisories@),
            first_blocking(a) == first_blocking(a.skip(i as int)),
        decreases capabilities.advisories.len() - i,
    {
        let advisory = &capabilities.advisories[i];
        assert(a.skip(i as int)[0] == advisory@);
        if str_eq(advisory.severity.as_str(), "blocking") {
            let mut e = advisory.message.clone();
            match &advisory.suggested_json {
                Some(json) => {
                    push_str(&mut e, " Suggested configuration: ");
                    push_str(&mut e, json.as_str());
                    assert(e@ =~= advisory@.message + (" Suggested configuration: "@ + json@));
                },
                None => {
                    assert(e@ =~= advisory@.message + Seq::<char>::empty());
                },
            }
            assert(first_blocking(a) == Some(advisory@));
            return Err(e);
        }
        assert(a.skip(i as int).skip(1) =~= a.skip(i + 1));
        i += 1;
    }
    Ok(())
}

/// The policy that turns automatic apply on for one output.
pub open spec fn enabled_policy(output: Seq<char>, now: u128) -> PolicyView {
    PolicyView {
        schema_version: 1,
        enabled: true,
        source_output: Some(output),
        automatic_apply: true,
        post_hook_consent: true,
        updated_at_unix_ms: now,
    }
}

pub open spec fn restore_result_ok(
    r: AppearanceRestoreResult,
    provider: CapabilitiesView,
    previous: SnapshotView,
    dry_run: bool,
) -> bool {
    &&& r.restored == !dry_run
    &&& r.dry_run == dry_run
    &&& r.provider@ == provider
    &&& operation_views(r.operations@) == restore_ops(previous)
}

/// Caelestia still shows what the engine applied: the dynamic scheme on the
/// applied image.
pub open spec fn unchanged_since_apply(
    name: Seq<char>,
    wallpaper: Option<Seq<char>>,
    image: Seq<char>,
) -> bool {
    name == "dynamic"@ && wallpaper == Some(image)
}

/// Whether Caelestia was left as the engine set it.
pub fn still_applied(name: &str, wallpaper: &Option<String>, image: &str) -> (r: bool)
    ensures
        r == unchanged_since_apply(name@, opt_view(*wallpaper), image@),
{
    str_eq(name, "dynamic") && match wallpaper {
        Some(w) => str_eq(w.as_str(), image),
        None => false,
    }
}

/// Why a restore is refused when Caelestia no longer shows what was applied.
pub open spec fn restore_conflict() -> Seq<char> {
    "appearance state conflict: Caelestia was changed after compositor apply"@
}

/// Whether a restore may go on, given the scheme and wallpaper Caelestia
/// reports: only when they are still the dynamic scheme on the applied image.
pub fn check_unchanged(name: &str, wallpaper: &Option<String>, image: &str) -> (r: Result<(), String>)
    ensures
        unchanged_since_apply(name@, opt_view(*wallpaper), image@) ==> r is Ok,
        !unchanged_since_apply(name@, opt_view(*wallpaper), image@) ==> (r matches Err(e) && e@
            == restore_conflict()),
{
    if still_applied(name, wallpaper, image) {
        Ok(())
    } else {
        Err(owned("appearance state conflict: Caelestia was changed after compositor apply"))
    }
}

/// Orchestrates palette extraction, provider detection and Caelestia.
pub struct AppearanceEngine<R> {
    pub runner: R,
    pub cache: PaletteCache,
    pub state: AppearanceStateStore,
    pub active_media: ActiveMediaStore,
    pub policy: AppearancePolicyStore,
}

impl<R> AppearanceEngine<R> {
    pub fn new(
        runner: R,
        cache: PaletteCache,
        state: AppearanceStateStore,
        active_media: ActiveMediaStore,
        policy: AppearancePolicyStore,
    ) -> (r: Self)
        ensures
            r.runner == runner,
            r.cache.root@ == cache.root@,
            r.state.path@ == state.path@,
            r.active_media.path@ == active_media.path@,
            r.policy.path@ == policy.path@,
    {
        AppearanceEngine { runner, cache, state, active_media, policy }
    }

    /// The provider this host offers.
    pub fn capabilities(&self, host: &AppearanceHost) -> (r: AppearanceCapabilities)
        ensures
            r@ == detect_spec(host@),
    {
        detect_for_desktop(host)
    }

    /// The policy in force, given the stored one.
    pub fn policy(&self, stored: Option<AppearancePolicy>) -> (r: Result<AppearancePolicy, String>)
        ensures
            policy_result(r) == policy_in_force(
                match stored {
                    Some(p) => Some(p@),
                    None => None,
                },
            ),
    {
        self.policy.accept(stored)
    }

    /// The policy to store so that wallpaper changes on `output` recolor the
    /// desktop; Caelestia may run its post hook, so consent is required.
    pub fn enable_automatic(&self, output: &str, confirmed: bool, now: u128) -> (r: Result<
        AppearancePolicy,
        String,
    >)
        ensures
            !confirmed ==> policy_result(r) == Err::<PolicyView, Seq<char>>(
                "appearance automatic policy requires --confirm because Caelestia may execute postHook"@,
            ),
            confirmed && output@.len() == 0 ==> policy_result(r) == Err::<PolicyView, Seq<char>>(
                "appearance policy output cannot be empty"@,
            ),
            confirmed && output@.len() > 0 ==> policy_result(r) == Ok::<PolicyView, Seq<char>>(
                enabled_policy(output@, now),
            ),
    {
        if !confirmed {
            return Err(
                owned(
                    "appearance automatic policy requires --confirm because Caelestia may execute postHook",
                ),
            );
        }
        if output.is_empty() {
            return Err(owned("appearance policy output cannot be empty"));
        }
        Ok(
            AppearancePolicy {
                schema_version: 1,
                enabled: true,
                source_output: Some(owned(output)),
                automatic_apply: true,
                post_hook_consent: true,
                updated_at_unix_ms: now,
            },
        )
    }

    /// The policy to store to turn automatic apply off.
    pub fn disable_automatic(&self, now: u128) -> (r: AppearancePolicy)
        ensures
            r@ == (PolicyView { updated_at_unix_ms: now, ..default_policy() }),
    {
        let mut p = AppearancePolicy::default();
        p.updated_at_unix_ms = now;
        p
    }

    /// Puts Caelestia back as it was before the engine applied colors, given
    /// the provider and the applied record read from disk. A dry run only
    /// reports the operations; a real one first checks that Caelestia still
    /// shows what was applied. On success the caller forgets the record.
    pub fn restore<E: ProcessExecutor>(
        &self,
        executor: &E,
        provider: AppearanceCapabilities,
        applied: Option<AppliedAppearance>,
        dry_run: bool,
        confirmed: bool,
    ) -> (r: Result<AppearanceRestoreResult, String>)
        ensures
            applied is None ==> r is Err && r->Err_0@ == "no appearance state to restore"@,
            applied is Some && applied->Some_0.backend@ != "caelestia"@ ==> r is Err && r->Err_0@
                == "appearance restore is not implemented for backend: "@ + applied->Some_0.backend@,
            applied is Some && applied->Some_0.backend@ == "caelestia"@ && dry_run ==> r is Ok
                && restore_result_ok(r->Ok_0, provider@, applied->Some_0.previous_caelestia@, true),
            applied is Some && applied->Some_0.backend@ == "caelestia"@ && !dry_run && !confirmed
                ==> r is Err && r->Err_0@ == "appearance restore requires --confirm"@,
            r is Ok ==> applied is Some && restore_result_ok(
                r->Ok_0,
                provider@,
                applied->Some_0.previous_caelestia@,
                dry_run,
            ),
            r is Ok && !dry_run ==> ran_ok_upto(
                *executor,
                operation_views(r->Ok_0.operations@),
                r->Ok_0.operations@.len() as int,
            ),
            r is Ok && !dry_run ==> exists|name: Seq<char>, wallpaper: Seq<char>|
                #![trigger answered(*executor, scheme_query("--name"@), Ok(name)), answered(*executor, wallpaper_query(), Ok(wallpaper))]
                answered(*executor, scheme_query("--name"@), Ok(name)) && answered(*executor, 
                    wallpaper_query(),
                    Ok(wallpaper),
                ) && unchanged_since_apply(name, wallpaper_value(wallpaper), applied->Some_0.image@),
    {
        let applied = match applied {
            Some(a) => a,
            None => {
                return Err(owned("no appearance state to restore"));
            },
        };
        if !str_eq(applied.backend.as_str(), "caelestia") {
            let mut e = owned("appearance restore is not implemented for backend: ");
            push_str(&mut e, applied.backend.as_str());
            return Err(e);
        }
        let operations = restore_operations(&applied.previous_caelestia);
        if dry_run {
            return Ok(AppearanceRestoreResult { restored: false, dry_run: true, provider, operations });
        }
        if !confirmed {
            return Err(owned("appearance restore requires --confirm"));
        }
        let name = current_name(executor)?;
        let wallpaper = current_wallpaper(executor)?;
        check_unchanged(name.as_str(), &wallpaper, applied.image.as_str())?;
        proof {
            let w = choose|v: Seq<char>|
                answered(*executor, wallpaper_query(), Ok(v)) && opt_view(wallpaper) == wallpaper_value(v);
            assert(answered(*executor, scheme_query("--name"@), Ok(name@)));
            assert(answered(*executor, wallpaper_query(), Ok(w)));
            assert(unchanged_since_apply(name@, wallpaper_value(w), applied.image@));
        }
        execute(executor, operations.as_slice())?;
        Ok(AppearanceRestoreResult { restored: true, dry_run: false, provider, operations })
    }
}


/// What applying colors did to Caelestia: what it showed before, and the
/// operations that ran.
pub struct CaelestiaApplied {
    pub previous: CaelestiaSnapshot,
    /// The scheme Caelestia reported just before the apply.
    pub scheme: String,
    pub operations: Vec<AppearanceOperation>,
}

/// The operations that show `image` given the scheme Caelestia reports: the
/// dynamic scheme is switched on unless it is already the current one.
pub fn apply_operations_for(image: &str, current_scheme: &str) -> (r: Vec<AppearanceOperation>)
    ensures
        operation_views(r@) == apply_ops(image@, current_scheme@ != "dynamic"@),
{
    apply_operations(image, !str_eq(current_scheme, "dynamic"))
}

pub open spec fn apply_refusal(
    capabilities: CapabilitiesView,
    dry_run: bool,
    confirmed: bool,
) -> Option<Seq<char>> {
    if dry_run {
        None
    } else if !confirmed {
        Some("appearance apply requires --confirm because Caelestia may execute postHook"@)
    } else {
        match compatibility(capabilities) {
            Err(e) => Some(e),
            Ok(()) => None,
        }
    }
}

/// The message of an apply whose record could not be saved, given how the
/// rollback went.
pub open spec fn save_failure(error: Seq<char>, rollback: Result<(), Seq<char>>) -> Seq<char> {
    match rollback {
        Ok(()) => "appearance state could not be saved; changes rolled back: "@ + error,
        Err(r) => "appearance state could not be saved: "@ + error + "; rollback also failed: "@ + r,
    }
}

fn failure_message(prefix_ok: &str, prefix_err: &str, error: &str, rollback: Result<(), String>) -> (r:
    String)
    ensures
        r@ == match rollback {
            Ok(()) => prefix_ok@ + error@,
            Err(x) => prefix_err@ + error@ + "; rollback also failed: "@ + x@,
        },
{
    match rollback {
        Ok(()) => {
            let mut m = owned(prefix_ok);
            push_str(&mut m, error);
            m
        },
        Err(x) => {
            let mut m = owned(prefix_err);
            push_str(&mut m, error);
            push_str(&mut m, "; rollback also failed: ");
            push_str(&mut m, x.as_str());
            m
        },
    }
}

/// Puts Caelestia back after its new state could not be recorded.
pub fn rollback_unsaved<E: ProcessExecutor>(
    executor: &E,
    previous: &CaelestiaSnapshot,
    error: &str,
) -> (r: String)
    ensures
        exists|o: Result<(), Seq<char>>|
            r@ == #[trigger] save_failure(error@, o) && (o is Ok ==> ran_ok_upto(
                *executor,
                restore_ops(previous@),
                restore_ops(previous@).len() as int,
            )),
{
    let operations = restore_operations(previous);
    let rollback = execute(executor, operations.as_slice());
    let ghost o = match &rollback {
        Ok(()) => Ok::<(), Seq<char>>(()),
        Err(x) => Err::<(), Seq<char>>(x@),
    };
    let r = failure_message(
        "appearance state could not be saved; changes rolled back: ",
        "appearance state could not be saved: ",
        error,
        rollback,
    );
    assert(r@ == save_failure(error@, o));
    r
}

/// Runs one Caelestia operation; the outcome is the executor's.
fn run_operation<E: ProcessExecutor>(executor: &E, operation: &AppearanceOperation) -> (r: Result<
    (),
    String,
>)
    ensures
        ran(*executor, operation@, outcome_view(r)),
{
    let output = executor.run(operation.binary.as_str(), operation.args.as_slice());
    let ghost o = output;
    assert(answers(*executor, operation@.binary, operation@.args, o));
    match output {
        Ok(_) => Ok(()),
        Err(e) => Err(e),
    }
}

impl<R> AppearanceEngine<R> {
    /// Applies colors for `image` through Caelestia, given the provider and the
    /// record of an earlier apply read from disk. A dry run changes nothing.
    /// The snapshot taken before the first apply is kept across later ones, and
    /// a scheme that is already dynamic is not switched again. A failed
    /// operation rolls Caelestia back to that snapshot: each step is the one
    /// [`ApplyRun::advance`](crate::appearance::apply_run::ApplyRun::advance)
    /// chooses for the executor's outcome. On success the caller
    /// records the returned snapshot, and calls [`rollback_unsaved`] if that
    /// fails.
    pub fn apply_plan<E: ProcessExecutor>(
        &self,
        executor: &E,
        capabilities: &AppearanceCapabilities,
        image: &str,
        existing: Result<Option<AppliedAppearance>, String>,
        dry_run: bool,
        confirmed: bool,
    ) -> (r: Result<Option<CaelestiaApplied>, String>)
        ensures
            dry_run ==> r matches Ok(None),
            apply_refusal(capabilities@, dry_run, confirmed) matches Some(e) ==> r is Err
                && r->Err_0@ == e,
            !dry_run && apply_refusal(capabilities@, dry_run, confirmed) is None ==> exists|
                found: bool,
            |
                #[trigger] finds(*executor, "caelestia"@, found) && (!found ==> (r matches Err(e)
                    && e@ == "caelestia is not installed"@)) && (r is Ok ==> found) && (found
                    && existing is Err ==> (r matches Err(e) && e@ == existing->Err_0@)) && (found
                    && existing is Ok && existing->Ok_0 is Some && existing->Ok_0->Some_0.backend@
                    != "caelestia"@ ==> (r matches Err(e) && e@
                    == "appearance state belongs to a different backend: "@
                    + existing->Ok_0->Some_0.backend@)),
            r matches Ok(Some(a)) ==> ran_ok_upto(
                *executor,
                operation_views(a.operations@),
                a.operations@.len() as int,
            ),
            r matches Ok(Some(a)) ==> !dry_run && existing is Ok && operation_views(a.operations@)
                == apply_ops(image@, a.scheme@ != "dynamic"@) && answered(*executor, 
                scheme_query("--name"@),
                Ok(a.scheme@),
            ) && match existing->Ok_0 {
                Some(prior) => a.previous@ == prior.previous_caelestia@,
                None => a.previous@.name == a.scheme@,
            },
    {
        if dry_run {
            return Ok(None);
        }
        if !confirmed {
            return Err(
                owned("appearance apply requires --confirm because Caelestia may execute postHook"),
            );
        }
        ensure_compatible(capabilities)?;
        let installed = executor.command_exists("caelestia");
        if !installed {
            return Err(owned("caelestia is not installed"));
        }
        let stored = existing?;
        let (previous, name) = match stored {
            Some(state) => {
                if !str_eq(state.backend.as_str(), "caelestia") {
                    let mut e = owned("appearance state belongs to a different backend: ");
                    push_str(&mut e, state.backend.as_str());
                    return Err(e);
                }
                let name = current_name(executor)?;
                (state.previous_caelestia, name)
            },
            None => {
                let s = snapshot(executor)?;
                let name = s.name.clone();
                (s, name)
            },
        };
        let mut run = start_apply(image, name.as_str(), &previous);
        let ghost apply_len = run.operations@.len();
        let ghost restore_len = run.restore@.len();
        let ghost ops = run.operations@;
        loop
            invariant
                run.wf(),
                run.operations@ == ops,
                apply_len == ops.len(),
                restore_len == run.restore@.len(),
                operation_views(ops) == apply_ops(image@, name@ != "dynamic"@),
                !dry_run,
                apply_refusal(capabilities@, dry_run, confirmed) is None,
                existing is Ok,
                existing->Ok_0 matches Some(prior) ==> prior.backend@ == "caelestia"@,
                installed,
                finds(*executor, "caelestia"@, installed),
                run.action@ matches ApplyActionView::Apply(i) ==> ran_ok_upto(
                    *executor,
                    operation_views(ops),
                    i as int,
                ),
                run.action@ is Complete ==> ran_ok_upto(
                    *executor,
                    operation_views(ops),
                    apply_len as int,
                ),
            ensures
                run.operations@ == ops,
                ran_ok_upto(*executor, operation_views(ops), apply_len as int),
            decreases apply_measure(run.state(), apply_len, restore_len),
        {
            let ghost before = run.action@;
            let outcome = match &run.action {
                ApplyAction::Apply(i) => run_operation(executor, &run.operations[*i]),
                ApplyAction::Restore(i) => run_operation(executor, &run.restore[*i]),
                ApplyAction::Complete => {
                    break;
                },
                ApplyAction::Fail(e) => {
                    return Err(e.clone());
                },
            };
            let ghost o = outcome_view(outcome);
            run.advance(outcome);
            proof {
                if let ApplyActionView::Apply(i) = before {
                    if o is Ok {
                        assert(operation_views(ops)[i as int] == ops[i as int]@);
                        assert forall|j: int| 0 <= j < i + 1 implies ran(
                            *executor,
                            #[trigger] operation_views(ops)[j],
                            Ok(()),
                        ) by {}
                    }
                }
            }
        }
        let operations = run.operations;
        Ok(Some(CaelestiaApplied { previous, scheme: name, operations }))
    }
}

/// Whether the policy asks to recolor for `output`; a policy that does but
/// lacks post-hook consent is refused.
pub open spec fn automatic_apply_spec(p: PolicyView, output: Seq<char>) -> Result<bool, Seq<char>> {
    if !p.enabled || !p.automatic_apply || p.source_output != Some(output) {
        Ok(false)
    } else if !p.post_hook_consent {
        Err("appearance automatic policy lacks postHook consent"@)
    } else {
        Ok(true)
    }
}

/// An automatic sync recolors nothing for an output unless the policy is on,
/// asks for automatic apply and is bound to that output.
pub proof fn law_automatic_sync_follows_the_policy(p: PolicyView, output: Seq<char>)
    ensures
        !p.enabled || !p.automatic_apply || p.source_output != Some(output) ==> automatic_apply_spec(
            p,
            output,
        ) == Ok::<bool, Seq<char>>(false),
        automatic_apply_spec(p, output) == Ok::<bool, Seq<char>>(true) ==> p.enabled
            && p.automatic_apply && p.source_output == Some(output) && p.post_hook_consent,
{
}

/// Whether a wallpaper change on `output` should recolor the desktop.
pub fn automatic_apply_wanted(policy: &AppearancePolicy, output: &str) -> (r: Result<bool, String>)
    ensures
        match r {
            Ok(b) => automatic_apply_spec(policy@, output@) == Ok::<bool, Seq<char>>(b),
            Err(e) => automatic_apply_spec(policy@, output@) == Err::<bool, Seq<char>>(e@),
        },
{
    let same_output = match &policy.source_output {
        Some(o) => str_eq(o.as_str(), output),
        None => false,
    };
    if !policy.enabled || !policy.automatic_apply || !same_output {
        return Ok(false);
    }
    if !policy.post_hook_consent {
        return Err(owned("appearance automatic policy lacks postHook consent"));
    }
    Ok(true)
}

/// Whether the colors applied last already come from this output's image.
pub fn already_applied(applied: &Option<AppliedAppearance>, output: &str, image: &str) -> (r: bool)
    ensures
        r == match *applied {
            Some(a) => a@.source_output == Some(output@) && a@.image == image@,
            None => false,
        },
{
    match applied {
        Some(a) => {
            let same_output = match &a.source_output {
                Some(o) => str_eq(o.as_str(), output),
                None => false,
            };
            same_output && str_eq(a.image.as_str(), image)
        },
        None => false,
    }
}

/// Whether an automatic sync that the policy asked for applies colors, given
/// what is published for the output and the colors applied last: an error
/// when nothing is published for it, no when the colors applied last already
/// come from its representative image, yes otherwise.
pub fn sync_needed(
    record: &Option<ActiveMediaRecord>,
    applied: &Option<AppliedAppearance>,
    output: &str,
) -> (r: Result<bool, String>)
    ensures
        record is None ==> (r matches Err(e) && e@ == "no active media registered for output: "@
            + output@),
        record matches Some(m) ==> r == Ok::<bool, String>(
            !(match *applied {
                Some(a) => a@.source_output == Some(output@) && a@.image
                    == m.representative_image@,
                None => false,
            }),
        ),
{
    match record {
        None => {
            let mut e = owned("no active media registered for output: ");
            push_str(&mut e, output);
            Err(e)
        },
        Some(m) => Ok(!already_applied(applied, output, m.representative_image.as_str())),
    }
}

/// The operations a plan for `image` proposes: only Caelestia applies colors,
/// and a plan always switches to the dynamic scheme.
pub fn plan_apply_operations(provider: &AppearanceCapabilities, image: &str) -> (r: Result<
    Vec<AppearanceOperation>,
    String,
>)
    ensures
        provider.backend@ == "caelestia"@ ==> (r matches Ok(ops) && operation_views(ops@) == apply_ops(
            image@,
            true,
        )),
        provider.backend@ != "caelestia"@ ==> (r matches Err(e) && e@
            == "appearance apply is not implemented for backend: "@ + provider.backend@),
{
    if !str_eq(provider.backend.as_str(), "caelestia") {
        let mut e = owned("appearance apply is not implemented for backend: ");
        push_str(&mut e, provider.backend.as_str());
        return Err(e);
    }
    Ok(apply_operations(image, true))
}

} // verus!
