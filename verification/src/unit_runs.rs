//! Applying and removing units step by step: the caller performs each file or
//! `systemctl` action and reports its outcome; the run decides what follows,
//! including every restoration after a failure.
use vstd::prelude::*;

use crate::process::ProcessExecutor;
use crate::text::{owned, push_str, views};
use crate::unit_manager::{
    batch_fold, batch_spec, batch_view, control_args, control_command, id_check, removal_spec,
    removal_view, services_have_commands, user_args, validate_id, BatchPlan,
    BatchView, RecordView, Registry, UnitDescriptor, UnitManager, UnitRecord,
};

verus! {

/// Which write of a batch failed.
#[derive(Debug, Clone, Copy, PartialEq, Eq, Structural)]
pub enum BatchStage {
    Units,
    Registry,
    Reload,
}

/// What the caller does next while a batch is applied.
#[derive(Debug, Clone, PartialEq, Eq)]
pub enum BatchAction {
    /// Create the unit directory, then remember the current contents of every
    /// planned unit file.
    PrepareUnitRoot,
    /// Write the `i`-th planned unit file atomically.
    WriteUnit(usize),
    /// Write the batch's registry.
    WriteRegistry,
    /// `systemctl --user daemon-reload`.
    ReloadDaemon,
    /// Put the remembered unit files back; the outcome is not used.
    RestoreUnits,
    /// Put the registry file back as it was; the outcome is not used.
    RestoreRegistry,
    /// Reload again after the restoration; the outcome is not used.
    ReloadAgain,
    /// The batch is applied; its records are the result.
    Complete,
    /// The batch failed with this error.
    Fail(String),
}

pub enum BatchActionView {
    PrepareUnitRoot,
    WriteUnit(nat),
    WriteRegistry,
    ReloadDaemon,
    RestoreUnits,
    RestoreRegistry,
    ReloadAgain,
    Complete,
    Fail(Seq<char>),
}

impl View for BatchAction {
    type V = BatchActionView;

    open spec fn view(&self) -> BatchActionView {
        match self {
            BatchAction::PrepareUnitRoot => BatchActionView::PrepareUnitRoot,
            BatchAction::WriteUnit(i) => BatchActionView::WriteUnit(*i as nat),
            BatchAction::WriteRegistry => BatchActionView::WriteRegistry,
            BatchAction::ReloadDaemon => BatchActionView::ReloadDaemon,
            BatchAction::RestoreUnits => BatchActionView::RestoreUnits,
            BatchAction::RestoreRegistry => BatchActionView::RestoreRegistry,
            BatchAction::ReloadAgain => BatchActionView::ReloadAgain,
            BatchAction::Complete => BatchActionView::Complete,
            BatchAction::Fail(e) => BatchActionView::Fail(e@),
        }
    }
}

impl BatchAction {
    /// A copy with the same view.
    pub fn duplicate(&self) -> (r: BatchAction)
        ensures
            r@ == self@,
    {
        match self {
            BatchAction::PrepareUnitRoot => BatchAction::PrepareUnitRoot,
            BatchAction::WriteUnit(i) => BatchAction::WriteUnit(*i),
            BatchAction::WriteRegistry => BatchAction::WriteRegistry,
            BatchAction::ReloadDaemon => BatchAction::ReloadDaemon,
            BatchAction::RestoreUnits => BatchAction::RestoreUnits,
            BatchAction::RestoreRegistry => BatchAction::RestoreRegistry,
            BatchAction::ReloadAgain => BatchAction::ReloadAgain,
            BatchAction::Complete => BatchAction::Complete,
            BatchAction::Fail(e) => BatchAction::Fail(e.clone()),
        }
    }
}

/// The state of a batch between two actions.
pub struct BatchRunView {
    pub action: BatchActionView,
    pub failed: Option<(BatchStage, Seq<char>)>,
}

pub open spec fn outcome_view(o: Result<(), String>) -> Result<(), Seq<char>> {
    match o {
        Ok(()) => Ok(()),
        Err(e) => Err(e@),
    }
}

pub open spec fn rollback_from(stage: BatchStage, e: Seq<char>) -> BatchRunView {
    BatchRunView { action: BatchActionView::RestoreUnits, failed: Some((stage, e)) }
}

pub open spec fn at(action: BatchActionView, failed: Option<(BatchStage, Seq<char>)>) -> BatchRunView {
    BatchRunView { action, failed }
}

/// One step of a batch: each write follows the one before it succeeded; a
/// failed write restores the unit files, then the registry once it was
/// written, then reloads once the reload was attempted, and fails with the
/// write's error.
pub open spec fn batch_next(
    s: BatchRunView,
    count: nat,
    unit_root: Seq<char>,
    outcome: Result<(), Seq<char>>,
) -> BatchRunView {
    match s.action {
        BatchActionView::PrepareUnitRoot => match outcome {
            Ok(()) => at(BatchActionView::WriteUnit(0), None),
            Err(e) => at(
                BatchActionView::Fail(
                    "failed to create unit directory "@ + unit_root + ": "@ + e,
                ),
                None,
            ),
        },
        BatchActionView::WriteUnit(i) => match outcome {
            Ok(()) => if i + 1 < count {
                at(BatchActionView::WriteUnit(i + 1), None)
            } else {
                at(BatchActionView::WriteRegistry, None)
            },
            Err(e) => rollback_from(BatchStage::Units, e),
        },
        BatchActionView::WriteRegistry => match outcome {
            Ok(()) => at(BatchActionView::ReloadDaemon, None),
            Err(e) => rollback_from(BatchStage::Registry, e),
        },
        BatchActionView::ReloadDaemon => match outcome {
            Ok(()) => at(BatchActionView::Complete, None),
            Err(e) => rollback_from(BatchStage::Reload, e),
        },
        BatchActionView::RestoreUnits => match s.failed {
            Some((BatchStage::Units, e)) => at(BatchActionView::Fail(e), None),
            Some((stage, e)) => at(BatchActionView::RestoreRegistry, Some((stage, e))),
            None => at(BatchActionView::Fail(Seq::empty()), None),
        },
        BatchActionView::RestoreRegistry => match s.failed {
            Some((BatchStage::Reload, e)) => at(BatchActionView::ReloadAgain, Some((BatchStage::Reload, e))),
            Some((_, e)) => at(BatchActionView::Fail(e), None),
            None => at(BatchActionView::Fail(Seq::empty()), None),
        },
        BatchActionView::ReloadAgain => match s.failed {
            Some((_, e)) => at(BatchActionView::Fail(e), None),
            None => at(BatchActionView::Fail(Seq::empty()), None),
        },
        BatchActionView::Complete => s,
        BatchActionView::Fail(_) => s,
    }
}

/// A batch being applied: its plan, and what the caller does next.
pub struct BatchRun {
    pub plan: BatchPlan,
    pub unit_root: String,
    pub action: BatchAction,
    pub failed: Option<(BatchStage, String)>,
}

pub open spec fn failed_view(f: Option<(BatchStage, String)>) -> Option<(BatchStage, Seq<char>)> {
    match f {
        Some((s, e)) => Some((s, e@)),
        None => None,
    }
}

impl BatchRun {
    pub open spec fn state(&self) -> BatchRunView {
        BatchRunView { action: self.action@, failed: failed_view(self.failed) }
    }

    /// The run's plan has at least one unit, and its action names one of them.
    pub open spec fn wf(&self) -> bool {
        &&& self.plan.plans@.len() > 0
        &&& self.action@ matches BatchActionView::WriteUnit(i) ==> i < self.plan.plans@.len()
    }

    /// Takes the outcome of the current action and returns the next one.
    pub fn advance(&mut self, outcome: Result<(), String>) -> (r: BatchAction)
        requires
            old(self).wf(),
        ensures
            final(self).wf(),
            final(self).state() == batch_next(
                old(self).state(),
                old(self).plan.plans@.len(),
                old(self).unit_root@,
                outcome_view(outcome),
            ),
            r@ == final(self).action@,
            final(self).plan.plans@ == old(self).plan.plans@,
            final(self).plan.records@ == old(self).plan.records@,
            final(self).plan.registry@ == old(self).plan.registry@,
            final(self).unit_root@ == old(self).unit_root@,
    {
        let count = self.plan.plans.len();
        let next = match &self.action {
            BatchAction::PrepareUnitRoot => match outcome {
                Ok(()) => {
                    self.failed = None;
                    BatchAction::WriteUnit(0)
                },
                Err(e) => {
                    let mut m = owned("failed to create unit directory ");
                    push_str(&mut m, self.unit_root.as_str());
                    push_str(&mut m, ": ");
                    push_str(&mut m, e.as_str());
                    self.failed = None;
                    BatchAction::Fail(m)
                },
            },
            BatchAction::WriteUnit(i) => match outcome {
                Ok(()) => {
                    self.failed = None;
                    if *i + 1 < count {
                        BatchAction::WriteUnit(*i + 1)
                    } else {
                        BatchAction::WriteRegistry
                    }
                },
                Err(e) => {
                    self.failed = Some((BatchStage::Units, e));
                    BatchAction::RestoreUnits
                },
            },
            BatchAction::WriteRegistry => match outcome {
                Ok(()) => {
                    self.failed = None;
                    BatchAction::ReloadDaemon
                },
                Err(e) => {
                    self.failed = Some((BatchStage::Registry, e));
                    BatchAction::RestoreUnits
                },
            },
            BatchAction::ReloadDaemon => match outcome {
                Ok(()) => {
                    self.failed = None;
                    BatchAction::Complete
                },
                Err(e) => {
                    self.failed = Some((BatchStage::Reload, e));
                    BatchAction::RestoreUnits
                },
            },
            BatchAction::RestoreUnits => match &self.failed {
                Some((BatchStage::Units, e)) => {
                    let e = e.clone();
                    self.failed = None;
                    BatchAction::Fail(e)
                },
                Some((_, _)) => BatchAction::RestoreRegistry,
                None => BatchAction::Fail(String::new()),
            },
            BatchAction::RestoreRegistry => match &self.failed {
                Some((BatchStage::Reload, _)) => BatchAction::ReloadAgain,
                Some((_, e)) => {
                    let e = e.clone();
                    self.failed = None;
                    BatchAction::Fail(e)
                },
                None => BatchAction::Fail(String::new()),
            },
            BatchAction::ReloadAgain => match &self.failed {
                Some((_, e)) => {
                    let e = e.clone();
                    self.failed = None;
                    BatchAction::Fail(e)
                },
                None => BatchAction::Fail(String::new()),
            },
            BatchAction::Complete => BatchAction::Complete,
            BatchAction::Fail(e) => BatchAction::Fail(e.clone()),
        };
        let r = next.duplicate();
        self.action = next;
        r
    }
}


// ---------------------------------------------------------------------------
// Removal
// ---------------------------------------------------------------------------
/// What the caller does next while a unit is removed.
#[derive(Debug, Clone, PartialEq, Eq)]
pub enum RemovalAction {
    /// `systemctl --user disable --now` the unit.
    Disable,
    /// Remember the unit file's contents, then delete it if it exists.
    RemoveUnitFile,
    /// Write the registry without the unit.
    WriteRegistry,
    /// `systemctl --user daemon-reload`.
    ReloadDaemon,
    /// Put the remembered unit file back; the outcome is not used.
    RestoreUnitFile,
    /// Write the registry as it was before; the outcome is not used.
    RestoreRegistry,
    /// The unit is removed; its record is the result.
    Complete,
    /// The removal failed with this error.
    Fail(String),
}

pub enum RemovalActionView {
    Disable,
    RemoveUnitFile,
    WriteRegistry,
    ReloadDaemon,
    RestoreUnitFile,
    RestoreRegistry,
    Complete,
    Fail(Seq<char>),
}

impl View for RemovalAction {
    type V = RemovalActionView;

    open spec fn view(&self) -> RemovalActionView {
        match self {
            RemovalAction::Disable => RemovalActionView::Disable,
            RemovalAction::RemoveUnitFile => RemovalActionView::RemoveUnitFile,
            RemovalAction::WriteRegistry => RemovalActionView::WriteRegistry,
            RemovalAction::ReloadDaemon => RemovalActionView::ReloadDaemon,
            RemovalAction::RestoreUnitFile => RemovalActionView::RestoreUnitFile,
            RemovalAction::RestoreRegistry => RemovalActionView::RestoreRegistry,
            RemovalAction::Complete => RemovalActionView::Complete,
            RemovalAction::Fail(e) => RemovalActionView::Fail(e@),
        }
    }
}

impl RemovalAction {
    /// A copy with the same view.
    pub fn duplicate(&self) -> (r: RemovalAction)
        ensures
            r@ == self@,
    {
        match self {
            RemovalAction::Disable => RemovalAction::Disable,
            RemovalAction::RemoveUnitFile => RemovalAction::RemoveUnitFile,
            RemovalAction::WriteRegistry => RemovalAction::WriteRegistry,
            RemovalAction::ReloadDaemon => RemovalAction::ReloadDaemon,
            RemovalAction::RestoreUnitFile => RemovalAction::RestoreUnitFile,
            RemovalAction::RestoreRegistry => RemovalAction::RestoreRegistry,
            RemovalAction::Complete => RemovalAction::Complete,
            RemovalAction::Fail(e) => RemovalAction::Fail(e.clone()),
        }
    }
}

pub struct RemovalRunView {
    pub action: RemovalActionView,
    pub failed: Option<(bool, Seq<char>)>,
}

/// One step of a removal: the unit is disabled, its file deleted, the registry
/// written and the daemon reloaded, each after the one before it succeeded. A
/// failed registry write puts the unit file back; a failed reload also puts the
/// registry back; either then fails with that error.
pub open spec fn removal_next(s: RemovalRunView, outcome: Result<(), Seq<char>>) -> RemovalRunView {
    match s.action {
        RemovalActionView::Disable => match outcome {
            Ok(()) => RemovalRunView { action: RemovalActionView::RemoveUnitFile, failed: None },
            Err(e) => RemovalRunView { action: RemovalActionView::Fail(e), failed: None },
        },
        RemovalActionView::RemoveUnitFile => match outcome {
            Ok(()) => RemovalRunView { action: RemovalActionView::WriteRegistry, failed: None },
            Err(e) => RemovalRunView {
                action: RemovalActionView::Fail("failed to remove unit file: "@ + e),
                failed: None,
            },
        },
        RemovalActionView::WriteRegistry => match outcome {
            Ok(()) => RemovalRunView { action: RemovalActionView::ReloadDaemon, failed: None },
            Err(e) => RemovalRunView {
                action: RemovalActionView::RestoreUnitFile,
                failed: Some((false, e)),
            },
        },
        RemovalActionView::ReloadDaemon => match outcome {
            Ok(()) => RemovalRunView { action: RemovalActionView::Complete, failed: None },
            Err(e) => RemovalRunView {
                action: RemovalActionView::RestoreUnitFile,
                failed: Some((true, e)),
            },
        },
        RemovalActionView::RestoreUnitFile => match s.failed {
            Some((true, e)) => RemovalRunView {
                action: RemovalActionView::RestoreRegistry,
                failed: Some((true, e)),
            },
            Some((false, e)) => RemovalRunView { action: RemovalActionView::Fail(e), failed: None },
            None => RemovalRunView { action: RemovalActionView::Fail(Seq::empty()), failed: None },
        },
        RemovalActionView::RestoreRegistry => match s.failed {
            Some((_, e)) => RemovalRunView { action: RemovalActionView::Fail(e), failed: None },
            None => RemovalRunView { action: RemovalActionView::Fail(Seq::empty()), failed: None },
        },
        RemovalActionView::Complete => s,
        RemovalActionView::Fail(_) => s,
    }
}

/// A unit being removed: its record, the registry without it, and what the
/// caller does next. `failed` holds the error being rolled back and whether
/// the reload had been attempted.
pub struct RemovalRun {
    pub record: UnitRecord,
    pub registry: Registry,
    pub action: RemovalAction,
    pub failed: Option<(bool, String)>,
}

impl RemovalRun {
    pub open spec fn state(&self) -> RemovalRunView {
        RemovalRunView {
            action: self.action@,
            failed: match self.failed {
                Some((b, e)) => Some((b, e@)),
                None => None,
            },
        }
    }

    /// Takes the outcome of the current action and returns the next one.
    pub fn advance(&mut self, outcome: Result<(), String>) -> (r: RemovalAction)
        ensures
            final(self).state() == removal_next(old(self).state(), outcome_view(outcome)),
            r@ == final(self).action@,
            final(self).record@ == old(self).record@,
            final(self).registry@ == old(self).registry@,
    {
        let next = match &self.action {
            RemovalAction::Disable => match outcome {
                Ok(()) => {
                    self.failed = None;
                    RemovalAction::RemoveUnitFile
                },
                Err(e) => {
                    self.failed = None;
                    RemovalAction::Fail(e)
                },
            },
            RemovalAction::RemoveUnitFile => match outcome {
                Ok(()) => {
                    self.failed = None;
                    RemovalAction::WriteRegistry
                },
                Err(e) => {
                    let mut m = owned("failed to remove unit file: ");
                    push_str(&mut m, e.as_str());
                    self.failed = None;
                    RemovalAction::Fail(m)
                },
            },
            RemovalAction::WriteRegistry => match outcome {
                Ok(()) => {
                    self.failed = None;
                    RemovalAction::ReloadDaemon
                },
                Err(e) => {
                    self.failed = Some((false, e));
                    RemovalAction::RestoreUnitFile
                },
            },
            RemovalAction::ReloadDaemon => match outcome {
                Ok(()) => {
                    self.failed = None;
                    RemovalAction::Complete
                },
                Err(e) => {
                    self.failed = Some((true, e));
                    RemovalAction::RestoreUnitFile
                },
            },
            RemovalAction::RestoreUnitFile => match &self.failed {
                Some((true, _)) => RemovalAction::RestoreRegistry,
                Some((false, e)) => {
                    let e = e.clone();
                    self.failed = None;
                    RemovalAction::Fail(e)
                },
                None => RemovalAction::Fail(String::new()),
            },
            RemovalAction::RestoreRegistry => match &self.failed {
                Some((_, e)) => {
                    let e = e.clone();
                    self.failed = None;
                    RemovalAction::Fail(e)
                },
                None => RemovalAction::Fail(String::new()),
            },
            RemovalAction::Complete => RemovalAction::Complete,
            RemovalAction::Fail(e) => RemovalAction::Fail(e.clone()),
        };
        let r = next.duplicate();
        self.action = next;
        r
    }
}

proof fn lemma_fold_plan_count(
    prev: Seq<RecordView>,
    root: Seq<char>,
    rpath: Seq<char>,
    ds: Seq<UnitDescriptor>,
    present: Seq<bool>,
)
    ensures
        batch_fold(prev, root, rpath, ds, present) is Ok ==> batch_fold(
            prev,
            root,
            rpath,
            ds,
            present,
        )->Ok_0.plans.len() == ds.len(),
    decreases ds.len(),
{
    if ds.len() > 0 {
        lemma_fold_plan_count(prev, root, rpath, ds.drop_last(), present.take(ds.len() - 1));
    }
}

/// An accepted batch plans one unit per descriptor, and has at least one.
proof fn lemma_batch_has_plans(
    prev: Seq<RecordView>,
    root: Seq<char>,
    rpath: Seq<char>,
    ds: Seq<UnitDescriptor>,
    present: Seq<bool>,
    systemctl_available: bool,
)
    ensures
        batch_spec(prev, root, rpath, ds, present, systemctl_available) is Ok ==> batch_spec(
            prev,
            root,
            rpath,
            ds,
            present,
            systemctl_available,
        )->Ok_0.plans.len() == ds.len() && ds.len() > 0,
{
    lemma_fold_plan_count(prev, root, rpath, ds, present);
}

// ---------------------------------------------------------------------------
// Starting runs
// ---------------------------------------------------------------------------
impl<E: ProcessExecutor> UnitManager<E> {
    /// Starts applying a batch against the registry as it was read: an empty
    /// batch, a missing systemctl and a registry that could not be read are
    /// refused in that order; otherwise the run begins by preparing the unit
    /// directory.
    pub fn apply_batch(
        &self,
        registry: Result<Registry, String>,
        descriptors: &[UnitDescriptor],
        executables_present: &[bool],
        systemctl_available: bool,
    ) -> (r: Result<BatchRun, String>)
        requires
            executables_present.len() == descriptors.len(),
            services_have_commands(descriptors@),
        ensures
            descriptors.len() == 0 ==> (r matches Err(e) && e@ == "unit batch cannot be empty"@),
            descriptors.len() > 0 && !systemctl_available ==> (r matches Err(e) && e@
                == "systemctl is not installed"@),
            descriptors.len() > 0 && systemctl_available ==> match registry {
                Err(e) => r == Err::<BatchRun, String>(e),
                Ok(reg) => match r {
                    Ok(run) => batch_view(Ok::<BatchPlan, String>(run.plan)) == batch_spec(
                        reg@,
                        self.unit_root@,
                        self.registry_path@,
                        descriptors@,
                        executables_present@,
                        systemctl_available,
                    ) && run.wf() && run.state() == at(BatchActionView::PrepareUnitRoot, None)
                        && run.unit_root@ == self.unit_root@,
                    Err(e) => batch_spec(
                        reg@,
                        self.unit_root@,
                        self.registry_path@,
                        descriptors@,
                        executables_present@,
                        systemctl_available,
                    ) == Err::<BatchView, Seq<char>>(e@),
                },
            },
    {
        if descriptors.len() == 0 {
            return Err(owned("unit batch cannot be empty"));
        }
        if !systemctl_available {
            return Err(owned("systemctl is not installed"));
        }
        let registry = registry?;
        let plan = self.plan_batch(&registry, descriptors, executables_present, systemctl_available)?;
        proof {
            lemma_batch_has_plans(
                registry@,
                self.unit_root@,
                self.registry_path@,
                descriptors@,
                executables_present@,
                systemctl_available,
            );
        }
        Ok(
            BatchRun {
                plan,
                unit_root: self.unit_root.clone(),
                action: BatchAction::PrepareUnitRoot,
                failed: None,
            },
        )
    }

    /// Starts applying one unit: a batch of one.
    pub fn apply(
        &self,
        registry: Result<Registry, String>,
        descriptor: UnitDescriptor,
        executable_present: bool,
        systemctl_available: bool,
    ) -> (r: Result<BatchRun, String>)
        requires
            services_have_commands(seq![descriptor]),
        ensures
            !systemctl_available ==> (r matches Err(e) && e@ == "systemctl is not installed"@),
            systemctl_available ==> match registry {
                Err(e) => r == Err::<BatchRun, String>(e),
                Ok(reg) => match r {
                    Ok(run) => batch_view(Ok::<BatchPlan, String>(run.plan)) == batch_spec(
                        reg@,
                        self.unit_root@,
                        self.registry_path@,
                        seq![descriptor],
                        seq![executable_present],
                        systemctl_available,
                    ) && run.wf() && run.state() == at(BatchActionView::PrepareUnitRoot, None)
                        && run.unit_root@ == self.unit_root@,
                    Err(e) => batch_spec(
                        reg@,
                        self.unit_root@,
                        self.registry_path@,
                        seq![descriptor],
                        seq![executable_present],
                        systemctl_available,
                    ) == Err::<BatchView, Seq<char>>(e@),
                },
            },
    {
        let ghost d = descriptor;
        let descriptors = vec![descriptor];
        let present = vec![executable_present];
        assert(descriptors@ =~= seq![d]);
        assert(present@ =~= seq![executable_present]);
        self.apply_batch(registry, descriptors.as_slice(), present.as_slice(), systemctl_available)
    }

    /// Starts removing a registered unit, given the registry as it was read:
    /// an invalid id is refused before the registry is looked at; nothing is
    /// to do when `id` is not registered; otherwise the run begins by
    /// disabling the unit.
    pub fn remove(&self, registry: Result<Registry, String>, id: &str) -> (r: Result<Option<RemovalRun>, String>)
        ensures
            id_check(id@) matches Err(e) ==> (r matches Err(e2) && e2@ == e),
            id_check(id@) is Ok ==> match registry {
                Err(e) => r == Err::<Option<RemovalRun>, String>(e),
                Ok(reg) => match r {
                    Ok(Some(run)) => removal_spec(reg@, self.unit_root@, self.registry_path@, id@)
                        == Ok::<Option<(RecordView, Seq<RecordView>)>, Seq<char>>(
                        Some((run.record@, run.registry@)),
                    ) && run.state() == (RemovalRunView {
                        action: RemovalActionView::Disable,
                        failed: None,
                    }),
                    Ok(None) => removal_spec(reg@, self.unit_root@, self.registry_path@, id@)
                        == Ok::<Option<(RecordView, Seq<RecordView>)>, Seq<char>>(None),
                    Err(e) => removal_spec(reg@, self.unit_root@, self.registry_path@, id@)
                        == Err::<Option<(RecordView, Seq<RecordView>)>, Seq<char>>(e@),
                },
            },
            registry matches Ok(reg) ==> (r matches Ok(Some(run)) ==> run.registry.schema_version
                == reg.schema_version),
    {
        validate_id(id)?;
        let registry = registry?;
        match self.prepare_removal(&registry, id)? {
            None => Ok(None),
            Some((record, rest)) => Ok(
                Some(RemovalRun { record, registry: rest, action: RemovalAction::Disable, failed: None }),
            ),
        }
    }
}


// ---------------------------------------------------------------------------
// Laws
// ---------------------------------------------------------------------------
/// When a unit file, the registry or the reload of a batch fails, the run
/// restores the unit files, then the registry if it was written, then reloads
/// if the reload was attempted, and only then fails, with the error that started it,
/// whatever the restorations report.
pub proof fn law_failed_batch_is_rolled_back(
    s: BatchRunView,
    count: nat,
    unit_root: Seq<char>,
    e: Seq<char>,
    o1: Result<(), Seq<char>>,
    o2: Result<(), Seq<char>>,
    o3: Result<(), Seq<char>>,
)
    requires
        s.action is WriteUnit || s.action is WriteRegistry || s.action is ReloadDaemon,
    ensures
        ({
            let s1 = batch_next(s, count, unit_root, Err(e));
            let s2 = batch_next(s1, count, unit_root, o1);
            let s3 = batch_next(s2, count, unit_root, o2);
            let s4 = batch_next(s3, count, unit_root, o3);
            &&& s1.action == BatchActionView::RestoreUnits
            &&& s.action is WriteUnit ==> s2.action == BatchActionView::Fail(e)
            &&& s.action is WriteRegistry ==> s2.action == BatchActionView::RestoreRegistry
                && s3.action == BatchActionView::Fail(e)
            &&& s.action is ReloadDaemon ==> s2.action == BatchActionView::RestoreRegistry
                && s3.action == BatchActionView::ReloadAgain && s4.action == BatchActionView::Fail(e)
        }),
{
}

/// The state after `n` actions that all succeeded.
pub open spec fn batch_after_successes(s: BatchRunView, count: nat, unit_root: Seq<char>, n: nat) -> BatchRunView
    decreases n,
{
    if n == 0 {
        s
    } else {
        batch_next(batch_after_successes(s, count, unit_root, (n - 1) as nat), count, unit_root, Ok(()))
    }
}

proof fn lemma_writes_in_order(count: nat, unit_root: Seq<char>, i: nat)
    requires
        i < count,
    ensures
        batch_after_successes(at(BatchActionView::PrepareUnitRoot, None), count, unit_root, i + 1)
            == at(BatchActionView::WriteUnit(i), None),
    decreases i,
{
    let start = at(BatchActionView::PrepareUnitRoot, None);
    if i > 0 {
        lemma_writes_in_order(count, unit_root, (i - 1) as nat);
        assert(batch_after_successes(start, count, unit_root, i) == at(
            BatchActionView::WriteUnit((i - 1) as nat),
            None,
        ));
    } else {
        assert(batch_after_successes(start, count, unit_root, 0) == start);
    }
}

/// `systemctl --user daemon-reload`.
pub open spec fn reload_args() -> Seq<Seq<char>> {
    user_args(seq!["daemon-reload"@])
}

fn reload_command() -> (r: Vec<String>)
    ensures
        views(r@) == reload_args(),
{
    let mut v: Vec<String> = Vec::new();
    v.push(owned("--user"));
    v.push(owned("daemon-reload"));
    assert(views(v@) =~= reload_args());
    v
}

impl BatchRun {
    /// The systemctl command line the current action runs, if it runs one:
    /// the daemon reload, first or after a rollback.
    pub fn systemctl_command(&self) -> (r: Option<Vec<String>>)
        ensures
            (self.action is ReloadDaemon || self.action is ReloadAgain) ==> (r matches Some(v)
                && views(v@) == reload_args()),
            !(self.action is ReloadDaemon || self.action is ReloadAgain) ==> r is None,
    {
        match self.action {
            BatchAction::ReloadDaemon | BatchAction::ReloadAgain => Some(reload_command()),
            _ => None,
        }
    }
}

impl RemovalRun {
    /// The systemctl command line the current action runs, if it runs one:
    /// disabling the unit at once, or the daemon reload.
    pub fn systemctl_command(&self) -> (r: Option<Vec<String>>)
        ensures
            self.action is Disable ==> (r matches Some(v) && views(v@) == user_args(
                control_args("disable"@, self.record.unit_name@),
            )),
            self.action is ReloadDaemon ==> (r matches Some(v) && views(v@) == reload_args()),
            !(self.action is Disable || self.action is ReloadDaemon) ==> r is None,
    {
        match self.action {
            RemovalAction::Disable => {
                proof {
                    reveal_strlit("disable");
                    reveal_strlit("status");
                    assert("disable"@[0] != "status"@[0]);
                }
                control_command("disable", self.record.unit_name.as_str())
            },
            RemovalAction::ReloadDaemon => Some(reload_command()),
            _ => None,
        }
    }
}

/// A batch whose every action succeeds writes each planned unit file in
/// order, then the registry, then reloads the daemon, and completes.
pub proof fn law_successful_batch_writes_every_unit(count: nat, unit_root: Seq<char>)
    requires
        count > 0,
    ensures
        forall|i: nat|
            i < count ==> #[trigger] batch_after_successes(
                at(BatchActionView::PrepareUnitRoot, None),
                count,
                unit_root,
                i + 1,
            ).action == BatchActionView::WriteUnit(i),
        batch_after_successes(at(BatchActionView::PrepareUnitRoot, None), count, unit_root, count + 1).action
            == BatchActionView::WriteRegistry,
        batch_after_successes(at(BatchActionView::PrepareUnitRoot, None), count, unit_root, count + 2).action
            == BatchActionView::ReloadDaemon,
        batch_after_successes(at(BatchActionView::PrepareUnitRoot, None), count, unit_root, count + 3).action
            == BatchActionView::Complete,
{
    assert forall|i: nat| i < count implies #[trigger] batch_after_successes(
        at(BatchActionView::PrepareUnitRoot, None),
        count,
        unit_root,
        i + 1,
    ).action == BatchActionView::WriteUnit(i) by {
        lemma_writes_in_order(count, unit_root, i);
    }
    lemma_writes_in_order(count, unit_root, (count - 1) as nat);
    let start = at(BatchActionView::PrepareUnitRoot, None);
    assert(batch_after_successes(start, count, unit_root, count + 1) == at(BatchActionView::WriteRegistry, None));
    assert(batch_after_successes(start, count, unit_root, count + 2) == at(BatchActionView::ReloadDaemon, None));
    assert(batch_after_successes(start, count, unit_root, count + 3) == at(BatchActionView::Complete, None));
}

/// When the registry write or the reload of a removal fails, the run puts the
/// unit file back, then the registry if the reload failed, and then fails with
/// the error that started it, whatever the restorations report.
pub proof fn law_failed_removal_is_rolled_back(
    s: RemovalRunView,
    e: Seq<char>,
    o1: Result<(), Seq<char>>,
    o2: Result<(), Seq<char>>,
)
    requires
        s.action is WriteRegistry || s.action is ReloadDaemon,
    ensures
        ({
            let s1 = removal_next(s, Err(e));
            let s2 = removal_next(s1, o1);
            let s3 = removal_next(s2, o2);
            &&& s1.action == RemovalActionView::RestoreUnitFile
            &&& s.action is WriteRegistry ==> s2.action == RemovalActionView::Fail(e)
            &&& s.action is ReloadDaemon ==> s2.action == RemovalActionView::RestoreRegistry
                && s3.action == RemovalActionView::Fail(e)
        }),
{
}

/// A removal whose every action succeeds disables the unit, deletes its file,
/// writes the registry, reloads the daemon and completes, in that order.
pub proof fn law_successful_removal_runs_every_step(failed: Option<(bool, Seq<char>)>)
    ensures
        ({
            let s0 = RemovalRunView { action: RemovalActionView::Disable, failed };
            let s1 = removal_next(s0, Ok(()));
            let s2 = removal_next(s1, Ok(()));
            let s3 = removal_next(s2, Ok(()));
            let s4 = removal_next(s3, Ok(()));
            &&& s1.action == RemovalActionView::RemoveUnitFile
            &&& s2.action == RemovalActionView::WriteRegistry
            &&& s3.action == RemovalActionView::ReloadDaemon
            &&& s4.action == RemovalActionView::Complete
        }),
{
}

} // verus!
