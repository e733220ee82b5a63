//! Portable automation descriptors turned into service-manager artifacts.
use vstd::prelude::*;

use crate::checks::{
    first_error, lemma_first_error_ok, lemma_first_error_prefix, lemma_first_error_step, then_check,
};
use crate::process::{finds, ProcessExecutor};
use crate::text::{
    all_ws, char_is_alnum, chars_of, contains_char, decimal, is_alnum, is_blank, owned,
    opt_view, push_char, push_str, str_eq, text_lt, u64_to_string, views,
};
use crate::unit_manager::{
    env_check, pair_views, record_views, sort_by_id, validate_environment_entry,
    RecordView, Registry, RestartPolicy, UnitDescriptor, UnitManager, UnitRecord, UnitStatus,
};

verus! {

#[derive(Debug, Clone, Copy, PartialEq, Eq, Structural)]
pub enum AutomationKind {
    OneShot,
    Daemon,
}

#[derive(Debug, Clone, PartialEq, Eq, Structural)]
pub struct Schedule {
    pub startup_delay_seconds: Option<u64>,
    pub every_seconds: u64,
}

/// What a product asks for: a command, its kind, restart policy and periodicity.
#[derive(Debug, Clone, PartialEq)]
pub struct AutomationDescriptor {
    pub schema_version: u8,
    pub id: String,
    pub description: String,
    pub command: Vec<String>,
    pub environment: Vec<(String, String)>,
    pub kind: AutomationKind,
    pub restart: RestartPolicy,
    pub autostart: bool,
    pub schedule: Option<Schedule>,
}

/// Environment entries as a map holds them: keys unique and ascending.
pub open spec fn environment_ordered(env: Seq<(String, String)>) -> bool {
    forall|i: int, j: int| 0 <= i < j < env.len() ==> text_lt(env[i].0@, env[j].0@)
}

impl AutomationDescriptor {
    /// The descriptor's environment is a map: its keys are unique and ascending.
    pub open spec fn wf(&self) -> bool {
        environment_ordered(self.environment@)
    }
}

#[derive(Debug, Clone, PartialEq)]
pub struct AutomationBatchDescriptor {
    pub schema_version: u8,
    pub automations: Vec<AutomationDescriptor>,
}

#[derive(Debug, Clone, Copy, PartialEq, Eq, Structural)]
pub enum ServiceManagerKind {
    SystemdUser,
}

#[derive(Debug, Clone, PartialEq)]
pub struct AutomationPlan {
    pub manager: ServiceManagerKind,
    pub automation_id: String,
    pub artifacts: Vec<UnitDescriptor>,
}

#[derive(Debug, Clone, PartialEq)]
pub struct AutomationStatus {
    pub manager: ServiceManagerKind,
    pub automation_id: String,
    pub artifacts: Vec<UnitStatus>,
}

// ---------------------------------------------------------------------------
// Detection
// ---------------------------------------------------------------------------
pub open spec fn manager_spec(systemctl_exists: bool) -> Result<ServiceManagerKind, Seq<char>> {
    if systemctl_exists {
        Ok(ServiceManagerKind::SystemdUser)
    } else {
        Err("no supported user service manager detected"@)
    }
}

pub open spec fn manager_view(r: Result<ServiceManagerKind, String>) -> Result<
    ServiceManagerKind,
    Seq<char>,
> {
    match r {
        Ok(k) => Ok(k),
        Err(e) => Err(e@),
    }
}

/// The service manager that a host with or without systemctl offers.
pub fn service_manager_from(systemctl_exists: bool) -> (r: Result<ServiceManagerKind, String>)
    ensures
        manager_view(r) == manager_spec(systemctl_exists),
{
    if systemctl_exists {
        Ok(ServiceManagerKind::SystemdUser)
    } else {
        Err(owned("no supported user service manager detected"))
    }
}

/// Asks the executor for systemctl and picks the user service manager.
pub fn detect_service_manager<E: ProcessExecutor>(executor: &E) -> (r: Result<
    ServiceManagerKind,
    String,
>)
    ensures
        exists|found: bool|
            #[trigger] finds(*executor, "systemctl"@, found) && manager_view(r) == manager_spec(found),
{
    let exists = executor.command_exists("systemctl");
    service_manager_from(exists)
}

// ---------------------------------------------------------------------------
// Validation
// ---------------------------------------------------------------------------
pub open spec fn automation_id_ok(id: Seq<char>) -> bool {
    id.len() > 0 && forall|i: int|
        0 <= i < id.len() ==> (is_alnum(#[trigger] id[i]) || id[i] == '-' || id[i] == '_')
}

pub open spec fn arg_has_nul(a: Seq<char>) -> Result<(), Seq<char>> {
    if a.contains('\0') {
        Err("automation command contains a null byte"@)
    } else {
        Ok(())
    }
}

pub open spec fn automation_env_check(entry: (Seq<char>, Seq<char>)) -> Result<(), Seq<char>> {
    match env_check(entry) {
        Ok(_) => Ok(()),
        Err(_) => if env_check(entry) == Err::<(), Seq<char>>(
            "invalid environment key: "@ + entry.0,
        ) {
            Err("invalid automation environment key: "@ + entry.0)
        } else {
            Err("invalid automation environment value for "@ + entry.0)
        },
    }
}

/// The first reason a descriptor is refused, in the order the checks run.
pub open spec fn automation_check(d: AutomationDescriptor) -> Result<(), Seq<char>> {
    if d.schema_version != 1 {
        Err("automation schema_version must be 1"@)
    } else if !automation_id_ok(d.id@) {
        Err("invalid automation id: "@ + d.id@)
    } else if all_ws(d.description@) {
        Err("automation description cannot be empty"@)
    } else if d.command@.len() == 0 || !(d.command@[0]@.len() > 0 && d.command@[0]@[0] == '/') {
        Err("automation command must start with an absolute executable path"@)
    } else {
        then_check(
            first_error(views(d.command@), |a: Seq<char>| arg_has_nul(a)),
            then_check(
                first_error(
                    pair_views(d.environment@),
                    |e: (Seq<char>, Seq<char>)| automation_env_check(e),
                ),
                if d.kind == AutomationKind::OneShot && d.restart == RestartPolicy::Always {
                    Err("one-shot automation cannot always restart"@)
                } else {
                    match d.schedule {
                        Some(s) => if d.kind != AutomationKind::OneShot {
                            Err("only one-shot automation can use a schedule"@)
                        } else if s.every_seconds == 0 {
                            Err("schedule every_seconds must be greater than zero"@)
                        } else {
                            Ok(())
                        },
                        None => Ok(()),
                    }
                },
            ),
        )
    }
}

pub open spec fn check_view(r: Result<(), String>) -> Result<(), Seq<char>> {
    match r {
        Ok(()) => Ok(()),
        Err(e) => Err(e@),
    }
}

fn automation_id_valid(id: &str) -> (r: bool)
    ensures
        r == automation_id_ok(id@),
{
    let x = chars_of(id);
    if x.len() == 0 {
        return false;
    }
    let mut i: usize = 0;
    while i < x.len()
        invariant
            x@ == id@,
            i <= x.len(),
            forall|k: int| 0 <= k < i ==> (is_alnum(#[trigger] x@[k]) || x@[k] == '-' || x@[k] == '_'),
        decreases x.len() - i,
    {
        let c = x[i];
        if !(char_is_alnum(c) || c == '-' || c == '_') {
            return false;
        }
        i += 1;
    }
    true
}

fn check_command_nul(command: &Vec<String>) -> (r: Result<(), String>)
    ensures
        check_view(r) == first_error(views(command@), |a: Seq<char>| arg_has_nul(a)),
{
    let ghost s = views(command@);
    let ghost f = |a: Seq<char>| arg_has_nul(a);
    let mut i: usize = 0;
    while i < command.len()
        invariant
            s == views(command@),
            f == (|a: Seq<char>| arg_has_nul(a)),
            i <= command.len(),
            first_error(s.take(i as int), f) is Ok,
        decreases command.len() - i,
    {
        proof {
            lemma_first_error_step(s, f, i as int);
        }
        if contains_char(command[i].as_str(), '\0') {
            proof {
                lemma_first_error_prefix(s, f, i + 1);
            }
            return Err(owned("automation command contains a null byte"));
        }
        i += 1;
    }
    assert(s.take(command.len() as int) =~= s);
    Ok(())
}

fn check_automation_environment(env: &Vec<(String, String)>) -> (r: Result<(), String>)
    ensures
        check_view(r) == first_error(
            pair_views(env@),
            |e: (Seq<char>, Seq<char>)| automation_env_check(e),
        ),
{
    let ghost s = pair_views(env@);
    let ghost f = |e: (Seq<char>, Seq<char>)| automation_env_check(e);
    let mut i: usize = 0;
    while i < env.len()
        invariant
            s == pair_views(env@),
            f == (|e: (Seq<char>, Seq<char>)| automation_env_check(e)),
            i <= env.len(),
            first_error(s.take(i as int), f) is Ok,
        decreases env.len() - i,
    {
        proof {
            lemma_first_error_step(s, f, i as int);
        }
        let key = env[i].0.as_str();
        assert(s[i as int] == (env@[i as int].0@, env@[i as int].1@));
        match validate_environment_entry(key, env[i].1.as_str()) {
            Ok(()) => {},
            Err(e) => {
                let mut is_key = owned("invalid environment key: ");
                push_str(&mut is_key, key);
                let message = if str_eq(e.as_str(), is_key.as_str()) {
                    let mut m = owned("invalid automation environment key: ");
                    push_str(&mut m, key);
                    m
                } else {
                    let mut m = owned("invalid automation environment value for ");
                    push_str(&mut m, key);
                    m
                };
                proof {
                    lemma_first_error_prefix(s, f, i + 1);
                }
                return Err(message);
            },
        }
        i += 1;
    }
    assert(s.take(env.len() as int) =~= s);
    Ok(())
}

/// Checks a descriptor before any artifact is planned.
pub fn validate(descriptor: &AutomationDescriptor) -> (r: Result<(), String>)
    ensures
        check_view(r) == automation_check(*descriptor),
{
    if descriptor.schema_version != 1 {
        return Err(owned("automation schema_version must be 1"));
    }
    if !automation_id_valid(descriptor.id.as_str()) {
        let mut e = owned("invalid automation id: ");
        push_str(&mut e, descriptor.id.as_str());
        return Err(e);
    }
    if is_blank(descriptor.description.as_str()) {
        return Err(owned("automation description cannot be empty"));
    }
    let starts_absolute = descriptor.command.len() > 0 && {
        let first = chars_of(descriptor.command[0].as_str());
        first.len() > 0 && first[0] == '/'
    };
    if !starts_absolute {
        return Err(owned("automation command must start with an absolute executable path"));
    }
    check_command_nul(&descriptor.command)?;
    check_automation_environment(&descriptor.environment)?;
    if descriptor.kind == AutomationKind::OneShot && descriptor.restart == RestartPolicy::Always {
        return Err(owned("one-shot automation cannot always restart"));
    }
    match &descriptor.schedule {
        Some(schedule) => {
            if descriptor.kind != AutomationKind::OneShot {
                return Err(owned("only one-shot automation can use a schedule"));
            }
            if schedule.every_seconds == 0 {
                return Err(owned("schedule every_seconds must be greater than zero"));
            }
        },
        None => {},
    }
    Ok(())
}

// ---------------------------------------------------------------------------
// Planning
// ---------------------------------------------------------------------------
pub open spec fn seconds_text(n: u64) -> Seq<char> {
    decimal(n as nat) + seq!['s']
}

/// The service artifact that runs the automation.
pub open spec fn is_service_artifact(a: UnitDescriptor, d: AutomationDescriptor) -> bool {
    match a {
        UnitDescriptor::Service {
            id,
            unit_name,
            description,
            exec_start,
            environment,
            restart,
            wanted_by,
        } => {
            &&& id@ == d.id@
            &&& unit_name@ == d.id@ + ".service"@
            &&& description@ == d.description@
            &&& views(exec_start@) == views(d.command@)
            &&& pair_views(environment@) == pair_views(d.environment@)
            &&& restart == d.restart
            &&& wanted_by@ == "default.target"@
        },
        UnitDescriptor::Timer { .. } => false,
    }
}

/// The timer artifact that schedules the service.
pub open spec fn is_timer_artifact(a: UnitDescriptor, d: AutomationDescriptor, s: Schedule) -> bool {
    match a {
        UnitDescriptor::Timer {
            id,
            unit_name,
            description,
            target_unit,
            on_boot_sec,
            on_active_sec,
            on_unit_active_sec,
            wanted_by,
        } => {
            &&& id@ == d.id@ + "-timer"@
            &&& unit_name@ == d.id@ + ".timer"@
            &&& description@ == "Schedule: "@ + d.description@
            &&& target_unit@ == d.id@ + ".service"@
            &&& on_boot_sec is None
            &&& opt_view(on_active_sec) == match s.startup_delay_seconds {
                Some(n) => Some(seconds_text(n)),
                None => None::<Seq<char>>,
            }
            &&& opt_view(on_unit_active_sec) == Some(seconds_text(s.every_seconds))
            &&& wanted_by@ == "timers.target"@
        },
        UnitDescriptor::Service { .. } => false,
    }
}

/// The systemd form: a service, and a timer for a schedule.
pub open spec fn is_systemd_plan(p: AutomationPlan, d: AutomationDescriptor) -> bool {
    &&& p.manager == ServiceManagerKind::SystemdUser
    &&& p.automation_id@ == d.id@
    &&& match d.schedule {
        Some(s) => p.artifacts@.len() == 2 && is_service_artifact(p.artifacts@[0], d)
            && is_timer_artifact(p.artifacts@[1], d, s),
        None => p.artifacts@.len() == 1 && is_service_artifact(p.artifacts@[0], d),
    }
}

fn copy_strings(v: &Vec<String>) -> (r: Vec<String>)
    ensures
        views(r@) == views(v@),
{
    let mut r: Vec<String> = Vec::new();
    let mut i: usize = 0;
    while i < v.len()
        invariant
            i <= v.len(),
            views(r@) == views(v@).take(i as int),
        decreases v.len() - i,
    {
        let ghost before = views(r@);
        r.push(v[i].clone());
        assert(views(r@) =~= before.push(v@[i as int]@));
        assert(views(r@) =~= views(v@).take(i + 1));
        i += 1;
    }
    assert(views(v@).take(v.len() as int) =~= views(v@));
    r
}

fn copy_pairs(v: &Vec<(String, String)>) -> (r: Vec<(String, String)>)
    ensures
        pair_views(r@) == pair_views(v@),
{
    let mut r: Vec<(String, String)> = Vec::new();
    let mut i: usize = 0;
    while i < v.len()
        invariant
            i <= v.len(),
            pair_views(r@) == pair_views(v@).take(i as int),
        decreases v.len() - i,
    {
        let ghost before = pair_views(r@);
        r.push((v[i].0.clone(), v[i].1.clone()));
        assert(pair_views(r@) =~= before.push((v@[i as int].0@, v@[i as int].1@)));
        assert(pair_views(r@) =~= pair_views(v@).take(i + 1));
        i += 1;
    }
    assert(pair_views(v@).take(v.len() as int) =~= pair_views(v@));
    r
}

fn seconds(n: u64) -> (r: String)
    ensures
        r@ == seconds_text(n),
{
    let mut r = u64_to_string(n);
    push_char(&mut r, 's');
    r
}

fn with_suffix(base: &str, suffix: &str) -> (r: String)
    ensures
        r@ == base@ + suffix@,
{
    let mut r = owned(base);
    push_str(&mut r, suffix);
    r
}

/// Turns a descriptor into `systemd --user` artifacts.
pub fn plan_systemd(descriptor: &AutomationDescriptor) -> (r: Result<AutomationPlan, String>)
    ensures
        r matches Ok(p) && is_systemd_plan(p, *descriptor),
{
    let service_name = with_suffix(descriptor.id.as_str(), ".service");
    let mut artifacts: Vec<UnitDescriptor> = Vec::new();
    artifacts.push(
        UnitDescriptor::Service {
            id: descriptor.id.clone(),
            unit_name: service_name.clone(),
            description: descriptor.description.clone(),
            exec_start: copy_strings(&descriptor.command),
            environment: copy_pairs(&descriptor.environment),
            restart: descriptor.restart,
            wanted_by: owned("default.target"),
        },
    );
    match &descriptor.schedule {
        Some(schedule) => {
            let on_active_sec = match schedule.startup_delay_seconds {
                Some(n) => Some(seconds(n)),
                None => None,
            };
            artifacts.push(
                UnitDescriptor::Timer {
                    id: with_suffix(descriptor.id.as_str(), "-timer"),
                    unit_name: with_suffix(descriptor.id.as_str(), ".timer"),
                    description: with_suffix("Schedule: ", descriptor.description.as_str()),
                    target_unit: service_name,
                    on_boot_sec: None,
                    on_active_sec,
                    on_unit_active_sec: Some(seconds(schedule.every_seconds)),
                    wanted_by: owned("timers.target"),
                },
            );
        },
        None => {},
    }
    Ok(
        AutomationPlan {
            manager: ServiceManagerKind::SystemdUser,
            automation_id: descriptor.id.clone(),
            artifacts,
        },
    )
}

/// Validates a descriptor and plans it for the given manager.
pub fn plan_automation(descriptor: &AutomationDescriptor, manager: ServiceManagerKind) -> (r:
    Result<AutomationPlan, String>)
    requires
        descriptor.wf(),
    ensures
        match automation_check(*descriptor) {
            Err(e) => r matches Err(x) && x@ == e,
            Ok(_) => r matches Ok(p) && is_systemd_plan(p, *descriptor),
        },
{
    validate(descriptor)?;
    match manager {
        ServiceManagerKind::SystemdUser => plan_systemd(descriptor),
    }
}

} // verus!

verus! {

// ---------------------------------------------------------------------------
// Batches
// ---------------------------------------------------------------------------
pub open spec fn batch_item_check(earlier: Seq<AutomationDescriptor>, d: AutomationDescriptor) -> Result<
    (),
    Seq<char>,
> {
    if exists|j: int| 0 <= j < earlier.len() && (#[trigger] earlier[j]).id@ == d.id@ {
        Err("duplicate automation id in batch: "@ + d.id@)
    } else {
        automation_check(d)
    }
}

pub open spec fn batch_items(ds: Seq<AutomationDescriptor>) -> Seq<
    (Seq<AutomationDescriptor>, AutomationDescriptor),
> {
    Seq::new(ds.len(), |i: int| (ds.take(i), ds[i]))
}

/// The first refused descriptor of a batch: a repeated id, or a descriptor's own error.
pub open spec fn automation_batch_check(batch: AutomationBatchDescriptor) -> Result<(), Seq<char>> {
    if batch.schema_version != 1 {
        Err("automation batch schema_version must be 1"@)
    } else if batch.automations@.len() == 0 {
        Err("automation batch cannot be empty"@)
    } else {
        first_error(
            batch_items(batch.automations@),
            |p: (Seq<AutomationDescriptor>, AutomationDescriptor)| batch_item_check(p.0, p.1),
        )
    }
}

fn id_seen(ds: &Vec<AutomationDescriptor>, upto: usize, id: &str) -> (r: bool)
    requires
        upto <= ds.len(),
    ensures
        r == exists|j: int| 0 <= j < upto && (#[trigger] ds@.take(upto as int)[j]).id@ == id@,
{
    let mut i: usize = 0;
    while i < upto
        invariant
            upto <= ds.len(),
            i <= upto,
            forall|j: int| 0 <= j < i ==> (#[trigger] ds@.take(upto as int)[j]).id@ != id@,
        decreases upto - i,
    {
        assert(ds@.take(upto as int)[i as int] == ds@[i as int]);
        if str_eq(ds[i].id.as_str(), id) {
            return true;
        }
        i += 1;
    }
    false
}

/// Plans every descriptor of a batch, refusing repeated ids.
pub fn plan_automation_batch(batch: &AutomationBatchDescriptor, manager: ServiceManagerKind) -> (r:
    Result<Vec<AutomationPlan>, String>)
    requires
        forall|i: int| 0 <= i < batch.automations@.len() ==> (#[trigger] batch.automations@[i]).wf(),
    ensures
        match automation_batch_check(*batch) {
            Err(e) => r matches Err(x) && x@ == e,
            Ok(_) => r matches Ok(plans) && plans.len() == batch.automations.len() && forall|i: int|
                0 <= i < plans.len() ==> is_systemd_plan(
                    #[trigger] plans@[i],
                    batch.automations@[i],
                ),
        },
{
    if batch.schema_version != 1 {
        return Err(owned("automation batch schema_version must be 1"));
    }
    if batch.automations.len() == 0 {
        return Err(owned("automation batch cannot be empty"));
    }
    let ghost ds = batch.automations@;
    let ghost s = batch_items(ds);
    let ghost f = |p: (Seq<AutomationDescriptor>, AutomationDescriptor)| batch_item_check(p.0, p.1);
    let mut plans: Vec<AutomationPlan> = Vec::new();
    let mut i: usize = 0;
    while i < batch.automations.len()
        invariant
            ds == batch.automations@,
            forall|k: int| 0 <= k < ds.len() ==> (#[trigger] ds[k]).wf(),
            batch.schema_version == 1,
            ds.len() > 0,
            s == batch_items(ds),
            f == (|p: (Seq<AutomationDescriptor>, AutomationDescriptor)|
                batch_item_check(p.0, p.1)),
            i <= ds.len(),
            first_error(s.take(i as int), f) is Ok,
            plans.len() == i,
            forall|k: int| 0 <= k < i ==> is_systemd_plan(#[trigger] plans@[k], ds[k]),
        decreases ds.len() - i,
    {
        proof {
            lemma_first_error_step(s, f, i as int);
        }
        let descriptor = &batch.automations[i];
        assert(s[i as int] == (ds.take(i as int), ds[i as int]));
        if id_seen(&batch.automations, i, descriptor.id.as_str()) {
            let mut e = owned("duplicate automation id in batch: ");
            push_str(&mut e, descriptor.id.as_str());
            proof {
                lemma_first_error_prefix(s, f, i + 1);
            }
            return Err(e);
        }
        match plan_automation(descriptor, manager) {
            Ok(plan) => {
                plans.push(plan);
            },
            Err(e) => {
                proof {
                    lemma_first_error_prefix(s, f, i + 1);
                }
                return Err(e);
            },
        }
        i += 1;
    }
    assert(s.take(ds.len() as int) =~= s);
    Ok(plans)
}

/// A batch is accepted exactly when its automations have distinct ids and each
/// would be accepted alone; each is then planned as planning it alone plans it
/// (see the contracts of `plan_automation` and `plan_automation_batch`).
pub proof fn law_batch_accepts_what_each_plan_accepts(batch: AutomationBatchDescriptor)
    requires
        batch.schema_version == 1,
        batch.automations@.len() > 0,
    ensures
        (automation_batch_check(batch) is Ok) == ((forall|i: int, j: int|
            0 <= i < j < batch.automations@.len() ==> batch.automations@[i].id@
                != batch.automations@[j].id@) && (forall|i: int|
            0 <= i < batch.automations@.len() ==> automation_check(
                #[trigger] batch.automations@[i],
            ) is Ok)),
{
    let ds = batch.automations@;
    let s = batch_items(ds);
    let f = |p: (Seq<AutomationDescriptor>, AutomationDescriptor)| batch_item_check(p.0, p.1);
    lemma_first_error_ok(s, f);
    assert forall|i: int| 0 <= i < ds.len() implies #[trigger] s[i] == (ds.take(i), ds[i]) by {}
    if automation_batch_check(batch) is Ok {
        assert forall|i: int, j: int| 0 <= i < j < ds.len() implies ds[i].id@ != ds[j].id@ by {
            assert(s[j] == (ds.take(j), ds[j]));
            assert(f(s[j]) is Ok);
            assert(ds.take(j)[i] == ds[i]);
        }
        assert forall|i: int| 0 <= i < ds.len() implies automation_check(#[trigger] ds[i]) is Ok by {
            assert(s[i] == (ds.take(i), ds[i]));
            assert(f(s[i]) is Ok);
        }
    }
    if (forall|i: int, j: int| 0 <= i < j < ds.len() ==> ds[i].id@ != ds[j].id@) && (forall|i: int|
        0 <= i < ds.len() ==> automation_check(#[trigger] ds[i]) is Ok) {
        assert forall|i: int| 0 <= i < s.len() implies f(#[trigger] s[i]) is Ok by {
            assert(s[i] == (ds.take(i), ds[i]));
            assert(automation_check(ds[i]) is Ok);
            if exists|j: int| 0 <= j < ds.take(i).len() && (#[trigger] ds.take(i)[j]).id@ == ds[i].id@ {
                let j = choose|j: int| 0 <= j < ds.take(i).len() && (#[trigger] ds.take(i)[j]).id@
                    == ds[i].id@;
                assert(ds.take(i)[j] == ds[j]);
            }
        }
    }
}

/// Every automation of an accepted batch has its own id.
pub proof fn law_batch_ids_are_distinct(batch: AutomationBatchDescriptor)
    requires
        automation_batch_check(batch) is Ok,
    ensures
        forall|i: int, j: int|
            0 <= i < j < batch.automations@.len() ==> batch.automations@[i].id@
                != batch.automations@[j].id@,
{
    let ds = batch.automations@;
    let s = batch_items(ds);
    let f = |p: (Seq<AutomationDescriptor>, AutomationDescriptor)| batch_item_check(p.0, p.1);
    crate::checks::lemma_first_error_ok(s, f);
    assert forall|i: int, j: int| 0 <= i < j < ds.len() implies ds[i].id@ != ds[j].id@ by {
        assert(f(s[j]) is Ok);
        assert(s[j] == (ds.take(j), ds[j]));
        assert(ds.take(j)[i] == ds[i]);
    }
}

// ---------------------------------------------------------------------------
// Control
// ---------------------------------------------------------------------------
pub open spec fn belongs_to(r: RecordView, id: Seq<char>) -> bool {
    r.id == id || r.id == id + "-timer"@
}

/// The registered artifacts of an automation: its service and its timer.
pub open spec fn automation_filter(s: Seq<RecordView>, id: Seq<char>) -> Seq<RecordView>
    decreases s.len(),
{
    if s.len() == 0 {
        s
    } else if belongs_to(s.last(), id) {
        automation_filter(s.drop_last(), id).push(s.last())
    } else {
        automation_filter(s.drop_last(), id)
    }
}

/// The first artifact of the given unit type.
pub open spec fn first_of_type(s: Seq<RecordView>, unit_type: Seq<char>) -> Option<RecordView>
    decreases s.len(),
{
    if s.len() == 0 {
        None
    } else {
        match first_of_type(s.drop_last(), unit_type) {
            Some(r) => Some(r),
            None => if s.last().unit_type == unit_type {
                Some(s.last())
            } else {
                None
            },
        }
    }
}

pub open spec fn ids_of(s: Seq<RecordView>) -> Seq<Seq<char>> {
    s.map_values(|r: RecordView| r.id)
}

pub open spec fn opt_ids(o: Option<RecordView>) -> Seq<Seq<char>> {
    match o {
        Some(r) => seq![r.id],
        None => Seq::empty(),
    }
}

/// The artifacts an action reaches, scheduler before task where both exist.
pub open spec fn automation_targets(records: Seq<RecordView>, id: Seq<char>, action: Seq<char>) -> Result<
    Seq<Seq<char>>,
    Seq<char>,
> {
    let timer = first_of_type(records, "timer"@);
    let service = first_of_type(records, "service"@);
    if action == "status"@ {
        Ok(ids_of(records))
    } else if action == "start"@ || action == "restart"@ || action == "enable"@ {
        if timer is Some {
            Ok(opt_ids(timer))
        } else if service is Some {
            Ok(opt_ids(service))
        } else {
            Err("automation has no controllable artifacts: "@ + id)
        }
    } else if action == "stop"@ || action == "disable"@ {
        Ok(opt_ids(timer) + opt_ids(service))
    } else {
        Err("unsupported automation action: "@ + action)
    }
}

fn belongs_exec(record: &UnitRecord, id: &str, timer_id: &str) -> (r: bool)
    requires
        timer_id@ == id@ + "-timer"@,
    ensures
        r == belongs_to(record@, id@),
{
    str_eq(record.id.as_str(), id) || str_eq(record.id.as_str(), timer_id)
}

/// The registered service and timer of an automation, in id order.
pub fn automation_records<E: ProcessExecutor>(
    manager: &UnitManager<E>,
    registry: &Registry,
    id: &str,
) -> (r: Result<Vec<UnitRecord>, String>)
    ensures
        match r {
            Ok(v) => crate::unit_manager::roots_check(manager.unit_root@, manager.registry_path@) is Ok
                && record_views(v@) == automation_filter(sort_by_id(registry@), id@),
            Err(e) => crate::unit_manager::roots_check(
                manager.unit_root@,
                manager.registry_path@,
            ) == Err::<(), Seq<char>>(e@),
        },
{
    let all = manager.list(registry)?;
    let timer_id = with_suffix(id, "-timer");
    let ghost s = record_views(all@);
    let mut v: Vec<UnitRecord> = Vec::new();
    let mut i: usize = 0;
    while i < all.len()
        invariant
            s == record_views(all@),
            timer_id@ == id@ + "-timer"@,
            i <= all.len(),
            record_views(v@) == automation_filter(s.take(i as int), id@),
        decreases all.len() - i,
    {
        assert(s.take(i + 1).drop_last() =~= s.take(i as int));
        assert(s[i as int] == all@[i as int]@);
        if belongs_exec(&all[i], id, timer_id.as_str()) {
            let ghost before = record_views(v@);
            v.push(all[i].duplicate());
            assert(record_views(v@) =~= before.push(s[i as int]));
        }
        i += 1;
    }
    assert(s.take(all.len() as int) =~= s);
    Ok(v)
}

fn first_of_type_exec(records: &Vec<UnitRecord>, unit_type: &str) -> (r: Option<usize>)
    ensures
        match r {
            Some(k) => k < records.len() && first_of_type(record_views(records@), unit_type@)
                == Some(records@[k as int]@),
            None => first_of_type(record_views(records@), unit_type@) is None,
        },
{
    let ghost s = record_views(records@);
    let mut i: usize = 0;
    while i < records.len()
        invariant
            s == record_views(records@),
            i <= records.len(),
            first_of_type(s.take(i as int), unit_type@) is None,
        decreases records.len() - i,
    {
        assert(s.take(i + 1).drop_last() =~= s.take(i as int));
        assert(s[i as int] == records@[i as int]@);
        if str_eq(records[i].unit_type.as_str(), unit_type) {
            proof {
                lemma_first_of_type_prefix(s, unit_type@, i + 1);
            }
            return Some(i);
        }
        i += 1;
    }
    assert(s.take(records.len() as int) =~= s);
    None
}

pub proof fn lemma_first_of_type_prefix(s: Seq<RecordView>, t: Seq<char>, k: int)
    requires
        0 <= k <= s.len(),
        first_of_type(s.take(k), t) is Some,
    ensures
        first_of_type(s, t) == first_of_type(s.take(k), t),
    decreases s.len() - k,
{
    if k == s.len() {
        assert(s.take(k) =~= s);
    } else {
        assert(s.take(k + 1).drop_last() =~= s.take(k));
        lemma_first_of_type_prefix(s, t, k + 1);
    }
}

/// The status reports one artifact per target, in order.
pub open spec fn reaches(st: AutomationStatus, id: Seq<char>, targets: Seq<Seq<char>>) -> bool {
    &&& st.manager == ServiceManagerKind::SystemdUser
    &&& st.automation_id@ == id
    &&& st.artifacts.len() == targets.len()
    &&& forall|i: int| 0 <= i < targets.len() ==> (#[trigger] st.artifacts@[i]).id@ == targets[i]
}

pub open spec fn control_outcome(
    records: Seq<RecordView>,
    id: Seq<char>,
    action: Seq<char>,
    r: Result<AutomationStatus, String>,
) -> bool {
    if records.len() == 0 {
        r is Err && r->Err_0@ == "automation id not found: "@ + id
    } else {
        match automation_targets(records, id, action) {
            Err(e) => r is Err && r->Err_0@ == e,
            Ok(targets) => r is Ok ==> reaches(r->Ok_0, id, targets),
        }
    }
}

/// Controls every artifact of an automation through the unit manager.
///
/// `unit_files[i]` tells whether the file of `registry.units[i]` exists.
pub fn control_automation<E: ProcessExecutor>(
    manager: &UnitManager<E>,
    registry: &Registry,
    unit_files: &[bool],
    id: &str,
    action: &str,
) -> (r: Result<AutomationStatus, String>)
    requires
        unit_files.len() == registry.units.len(),
    ensures
        crate::unit_manager::roots_check(manager.unit_root@, manager.registry_path@) is Err
            ==> r is Err,
        crate::unit_manager::roots_check(manager.unit_root@, manager.registry_path@) is Ok
            ==> control_outcome(automation_filter(sort_by_id(registry@), id@), id@, action@, r),
{
    let records = automation_records(manager, registry, id)?;
    if records.len() == 0 {
        let mut e = owned("automation id not found: ");
        push_str(&mut e, id);
        return Err(e);
    }
    let timer = first_of_type_exec(&records, "timer");
    let service = first_of_type_exec(&records, "service");
    let ghost rs = record_views(records@);
    let mut targets: Vec<String> = Vec::new();
    let mut unit_action = action;
    if str_eq(action, "status") {
        let mut i: usize = 0;
        while i < records.len()
            invariant
                rs == record_views(records@),
                i <= records.len(),
                views(targets@) == ids_of(rs).take(i as int),
            decreases records.len() - i,
        {
            let ghost before = views(targets@);
            targets.push(records[i].id.clone());
            assert(views(targets@) =~= before.push(rs[i as int].id));
            assert(views(targets@) =~= ids_of(rs).take(i + 1));
            i += 1;
        }
        assert(ids_of(rs).take(records.len() as int) =~= ids_of(rs));
        unit_action = "status";
    } else if str_eq(action, "start") || str_eq(action, "restart") || str_eq(action, "enable") {
        let chosen = match timer {
            Some(k) => k,
            None => match service {
                Some(k) => k,
                None => {
                    let mut e = owned("automation has no controllable artifacts: ");
                    push_str(&mut e, id);
                    return Err(e);
                },
            },
        };
        targets.push(records[chosen].id.clone());
        assert(views(targets@) =~= seq![records@[chosen as int]@.id]);
    } else if str_eq(action, "stop") || str_eq(action, "disable") {
        match timer {
            Some(k) => {
                targets.push(records[k].id.clone());
            },
            None => {},
        }
        match service {
            Some(k) => {
                targets.push(records[k].id.clone());
            },
            None => {},
        }
        assert(views(targets@) =~= opt_ids(first_of_type(rs, "timer"@)) + opt_ids(
            first_of_type(rs, "service"@),
        ));
    } else {
        let mut e = owned("unsupported automation action: ");
        push_str(&mut e, action);
        return Err(e);
    }
    let ghost tv = views(targets@);
    assert(automation_targets(rs, id@, action@) == Ok::<Seq<Seq<char>>, Seq<char>>(tv));
    let mut statuses: Vec<UnitStatus> = Vec::new();
    let mut i: usize = 0;
    while i < targets.len()
        invariant
            tv == views(targets@),
            rs == automation_filter(sort_by_id(registry@), id@),
            rs.len() > 0,
            automation_targets(rs, id@, action@) == Ok::<Seq<Seq<char>>, Seq<char>>(tv),
            crate::unit_manager::roots_check(manager.unit_root@, manager.registry_path@) is Ok,
            unit_files.len() == registry.units.len(),
            i <= targets.len(),
            statuses.len() == i,
            forall|k: int| 0 <= k < i ==> (#[trigger] statuses@[k]).id@ == tv[k],
        decreases targets.len() - i,
    {
        let status = manager.control(registry, unit_files, targets[i].as_str(), unit_action)?;
        proof {
            let c = crate::unit_manager::control_spec(
                registry@,
                manager.unit_root@,
                manager.registry_path@,
                targets@[i as int]@,
                unit_action@,
            );
            if c is Ok {
                crate::unit_manager::lemma_find_first(registry@, targets@[i as int]@);
            }
        }
        statuses.push(status);
        i += 1;
    }
    Ok(
        AutomationStatus {
            manager: ServiceManagerKind::SystemdUser,
            automation_id: owned(id),
            artifacts: statuses,
        },
    )
}

/// The ids to remove for an automation: the scheduler before the task.
pub fn automation_removal_order(records: &Vec<UnitRecord>) -> (r: Vec<String>)
    ensures
        views(r@) == ids_of(record_views(records@).filter(|x: RecordView| x.unit_type == "timer"@))
            + ids_of(record_views(records@).filter(|x: RecordView| x.unit_type == "service"@)),
{
    let ghost s = record_views(records@);
    let ghost timers = |x: RecordView| x.unit_type == "timer"@;
    let ghost services = |x: RecordView| x.unit_type == "service"@;
    let mut first: Vec<String> = Vec::new();
    let mut i: usize = 0;
    while i < records.len()
        invariant
            s == record_views(records@),
            timers == (|x: RecordView| x.unit_type == "timer"@),
            i <= records.len(),
            views(first@) == ids_of(s.take(i as int).filter(timers)),
        decreases records.len() - i,
    {
        reveal_with_fuel(Seq::filter, 1);
        assert(s.take(i + 1).drop_last() =~= s.take(i as int));
        assert(s[i as int] == records@[i as int]@);
        if str_eq(records[i].unit_type.as_str(), "timer") {
            let ghost before = views(first@);
            first.push(records[i].id.clone());
            assert(views(first@) =~= before.push(s[i as int].id));
        }
        assert(views(first@) =~= ids_of(s.take(i + 1).filter(timers)));
        i += 1;
    }
    let mut second: Vec<String> = Vec::new();
    let mut j: usize = 0;
    while j < records.len()
        invariant
            s == record_views(records@),
            services == (|x: RecordView| x.unit_type == "service"@),
            j <= records.len(),
            views(second@) == ids_of(s.take(j as int).filter(services)),
        decreases records.len() - j,
    {
        reveal_with_fuel(Seq::filter, 1);
        assert(s.take(j + 1).drop_last() =~= s.take(j as int));
        assert(s[j as int] == records@[j as int]@);
        if str_eq(records[j].unit_type.as_str(), "service") {
            let ghost before = views(second@);
            second.push(records[j].id.clone());
            assert(views(second@) =~= before.push(s[j as int].id));
        }
        assert(views(second@) =~= ids_of(s.take(j + 1).filter(services)));
        j += 1;
    }
    assert(s.take(records.len() as int) =~= s);
    let ghost a = views(first@);
    let ghost b = views(second@);
    let mut k: usize = 0;
    while k < second.len()
        invariant
            b == views(second@),
            views(first@) == a + b.take(k as int),
            k <= second.len(),
        decreases second.len() - k,
    {
        let ghost before = views(first@);
        first.push(second[k].clone());
        assert(b[k as int] == second@[k as int]@);
        assert(views(first@) =~= before.push(b[k as int]));
        assert(b.take(k + 1) =~= b.take(k as int).push(b[k as int]));
        assert(views(first@) =~= a + b.take(k + 1));
        k += 1;
    }
    assert(b.take(second.len() as int) =~= b);
    first
}


/// The units to remove for an automation, scheduler before task; the caller
/// removes each through the unit manager, in this order, keeping the records
/// that were removed.
pub fn remove_automation<E: ProcessExecutor>(
    manager: &UnitManager<E>,
    registry: &Registry,
    id: &str,
) -> (r: Result<Vec<String>, String>)
    ensures
        match r {
            Ok(v) => crate::unit_manager::roots_check(manager.unit_root@, manager.registry_path@) is Ok
                && views(v@) == ids_of(
                automation_filter(sort_by_id(registry@), id@).filter(|x: RecordView| x.unit_type == "timer"@),
            ) + ids_of(
                automation_filter(sort_by_id(registry@), id@).filter(|x: RecordView| x.unit_type == "service"@),
            ),
            Err(e) => crate::unit_manager::roots_check(
                manager.unit_root@,
                manager.registry_path@,
            ) == Err::<(), Seq<char>>(e@),
        },
{
    let records = automation_records(manager, registry, id)?;
    Ok(automation_removal_order(&records))
}


/// The unit to enable once an automation is applied: its timer when it has a
/// schedule, its service when it starts automatically, else none.
pub open spec fn activation_spec(d: AutomationDescriptor) -> Option<Seq<char>> {
    if d.schedule is Some {
        Some(d.id@ + "-timer"@)
    } else if d.autostart {
        Some(d.id@)
    } else {
        None
    }
}

pub fn activation_after_apply(descriptor: &AutomationDescriptor) -> (r: Option<String>)
    ensures
        opt_view(r) == activation_spec(*descriptor),
{
    if descriptor.schedule.is_some() {
        Some(with_suffix(descriptor.id.as_str(), "-timer"))
    } else if descriptor.autostart {
        Some(descriptor.id.clone())
    } else {
        None
    }
}

} // verus!
