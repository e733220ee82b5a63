use kitsune_compositor_backend::unit_manager::{
    control_command, escape_percent, quote_systemd, render,
};
use kitsune_compositor_backend::{
    BatchAction, ProcessExecutor, ProcessOutput, Registry, RemovalAction, RestartPolicy,
    UnitDescriptor, UnitManager, UnitRecord,
};

struct Systemctl;

impl ProcessExecutor for Systemctl {
    fn command_exists(&self, binary: &str) -> bool {
        binary == "systemctl"
    }

    fn run(&self, _binary: &str, _args: &[String]) -> Result<ProcessOutput, String> {
        Ok(ProcessOutput { stdout: String::new(), stderr: String::new() })
    }

    fn spawn(&self, _binary: &str, _args: &[String]) -> Result<u32, String> {
        Ok(1)
    }
}

const ROOT: &str = "/home/me/.config/systemd/user";
const REGISTRY: &str = "/home/me/.local/state/kitsune-compositor/services.json";

fn manager() -> UnitManager<Systemctl> {
    UnitManager::new(Systemctl, ROOT.into(), REGISTRY.into())
}

fn service(id: &str) -> UnitDescriptor {
    UnitDescriptor::Service {
        id: id.into(),
        unit_name: format!("{id}.service"),
        description: "Kitowall 100% watcher".into(),
        exec_start: vec!["/opt/Kitowall/bin/kitowall".into(), "watch outputs".into()],
        environment: vec![("MODE".into(), "fast".into())],
        restart: RestartPolicy::OnFailure,
        wanted_by: "default.target".into(),
    }
}

fn timer(id: &str, target: &str) -> UnitDescriptor {
    UnitDescriptor::Timer {
        id: id.into(),
        unit_name: format!("{id}.timer"),
        description: "Tick".into(),
        target_unit: target.into(),
        on_boot_sec: None,
        on_active_sec: Some("2s".into()),
        on_unit_active_sec: Some("600s".into()),
        wanted_by: "timers.target".into(),
    }
}

#[test]
fn renders_typed_service_and_escapes_systemd_specifiers() {
    let plan = manager().plan(&service("kitowall-watch")).unwrap();
    assert!(plan.content.contains("Kitowall 100%% watcher"));
    assert!(plan.content.contains("\"watch outputs\""));
    assert!(plan.content.contains("Restart=on-failure"));
    assert_eq!(plan.path, format!("{ROOT}/kitowall-watch.service"));
    assert_eq!(escape_percent("50%"), "50%%");
    assert!(quote_systemd("a b").starts_with('"'));
}

#[test]
fn timers_need_a_schedule_and_valid_durations() {
    let (_, _, content) = render(&timer("tick", "tick.service")).unwrap();
    assert!(content.contains("OnActiveSec=2s\n"));
    assert!(content.contains("OnUnitActiveSec=600s\n"));
    assert!(content.contains("Unit=tick.service\n"));
    let bare = UnitDescriptor::Timer {
        id: "tick".into(),
        unit_name: "tick.timer".into(),
        description: "Tick".into(),
        target_unit: "tick.service".into(),
        on_boot_sec: None,
        on_active_sec: None,
        on_unit_active_sec: None,
        wanted_by: "timers.target".into(),
    };
    assert_eq!(
        render(&bare).unwrap_err(),
        "timer requires on_boot_sec, on_active_sec or on_unit_active_sec"
    );
}

#[test]
fn batch_run_writes_every_unit_then_registry_then_reloads() {
    let m = manager();
    let registry = Registry { schema_version: 1, units: Vec::new() };
    let descriptors = vec![service("tick"), timer("tick-timer", "tick.service")];
    let mut run = m.apply_batch(Ok(registry.clone()), &descriptors, &[true, true], true).unwrap();
    assert_eq!(run.action, BatchAction::PrepareUnitRoot);
    assert_eq!(run.advance(Ok(())), BatchAction::WriteUnit(0));
    assert_eq!(run.advance(Ok(())), BatchAction::WriteUnit(1));
    assert_eq!(run.advance(Ok(())), BatchAction::WriteRegistry);
    assert_eq!(run.advance(Ok(())), BatchAction::ReloadDaemon);
    assert_eq!(run.advance(Ok(())), BatchAction::Complete);
    assert_eq!(run.plan.records.len(), 2);
    assert_eq!(run.plan.registry.units.len(), 2);
    assert_eq!(run.plan.records[1].target_unit.as_deref(), Some("tick.service"));
}

#[test]
fn failed_reload_restores_files_and_registry_before_failing() {
    let m = manager();
    let registry = Registry { schema_version: 1, units: Vec::new() };
    let mut run = m.apply(Ok(registry.clone()), service("tick"), true, true).unwrap();
    run.advance(Ok(()));
    run.advance(Ok(()));
    assert_eq!(run.advance(Ok(())), BatchAction::ReloadDaemon);
    assert_eq!(run.systemctl_command().unwrap(), vec!["--user", "daemon-reload"]);
    assert_eq!(run.advance(Err("reload failed".into())), BatchAction::RestoreUnits);
    assert!(run.systemctl_command().is_none());
    assert_eq!(run.advance(Err("ignored".into())), BatchAction::RestoreRegistry);
    assert_eq!(run.advance(Ok(())), BatchAction::ReloadAgain);
    assert_eq!(run.advance(Err("ignored".into())), BatchAction::Fail("reload failed".into()));
    let mut early = m.apply(Ok(registry.clone()), service("tick"), true, true).unwrap();
    assert_eq!(
        early.advance(Err("denied".into())),
        BatchAction::Fail(format!("failed to create unit directory {ROOT}: denied"))
    );
    let mut write = m.apply(Ok(registry.clone()), service("tick"), true, true).unwrap();
    write.advance(Ok(()));
    assert_eq!(write.advance(Err("disk full".into())), BatchAction::RestoreUnits);
    assert_eq!(write.advance(Ok(())), BatchAction::Fail("disk full".into()));
}

#[test]
fn batches_are_checked_against_the_registry() {
    let m = manager();
    let registry = Registry { schema_version: 1, units: Vec::new() };
    assert_eq!(
        m.apply_batch(Ok(registry.clone()), &[], &[], true).err().unwrap(),
        "unit batch cannot be empty"
    );
    assert_eq!(
        m.apply(Ok(registry.clone()), service("tick"), true, false).err().unwrap(),
        "systemctl is not installed"
    );
    assert_eq!(
        m.apply(Ok(registry.clone()), service("tick"), false, true).err().unwrap(),
        "service executable must be an existing absolute file"
    );
    assert_eq!(
        m.apply(Ok(registry.clone()), timer("tick-timer", "tick.service"), true, true).err().unwrap(),
        "timer target is not registered by the compositor: tick.service"
    );
}

#[test]
fn removal_refuses_a_service_that_a_timer_needs_and_rolls_back() {
    let m = manager();
    let registry = Registry {
        schema_version: 1,
        units: vec![
            UnitRecord {
                id: "tick".into(),
                unit_name: "tick.service".into(),
                path: format!("{ROOT}/tick.service"),
                unit_type: "service".into(),
                target_unit: None,
            },
            UnitRecord {
                id: "tick-timer".into(),
                unit_name: "tick.timer".into(),
                path: format!("{ROOT}/tick.timer"),
                unit_type: "timer".into(),
                target_unit: Some("tick.service".into()),
            },
        ],
    };
    assert_eq!(
        m.remove(Ok(registry.clone()), "tick").err().unwrap(),
        "unit is required by registered timer: tick.timer"
    );
    assert!(m.remove(Ok(registry.clone()), "absent").unwrap().is_none());
    let mut run = m.remove(Ok(registry.clone()), "tick-timer").unwrap().unwrap();
    assert_eq!(run.registry.units.len(), 1);
    assert_eq!(run.action, RemovalAction::Disable);
    assert_eq!(run.advance(Ok(())), RemovalAction::RemoveUnitFile);
    assert_eq!(run.advance(Ok(())), RemovalAction::WriteRegistry);
    assert_eq!(run.advance(Ok(())), RemovalAction::ReloadDaemon);
    assert_eq!(run.advance(Err("no bus".into())), RemovalAction::RestoreUnitFile);
    assert_eq!(run.advance(Ok(())), RemovalAction::RestoreRegistry);
    assert_eq!(run.advance(Ok(())), RemovalAction::Fail("no bus".into()));
    let mut gone = m.remove(Ok(registry.clone()), "tick-timer").unwrap().unwrap();
    gone.advance(Ok(()));
    assert_eq!(
        gone.advance(Err("busy".into())),
        RemovalAction::Fail("failed to remove unit file: busy".into())
    );
}

#[test]
fn a_registry_that_cannot_be_read_is_reported_after_the_batch_checks() {
    let m = manager();
    assert_eq!(
        m.apply_batch(Err("failed to parse service registry: eof".into()), &[], &[], true)
            .err()
            .unwrap(),
        "unit batch cannot be empty"
    );
    assert_eq!(
        m.apply(Err("failed to parse service registry: eof".into()), service("tick"), true, true)
            .err()
            .unwrap(),
        "failed to parse service registry: eof"
    );
    assert_eq!(
        m.remove(Err("failed to read service registry: denied".into()), "bad id").err().unwrap(),
        "invalid service id: bad id"
    );
    assert_eq!(
        m.remove(Err("failed to read service registry: denied".into()), "tick").err().unwrap(),
        "failed to read service registry: denied"
    );
}

#[test]
fn only_schema_one_registries_are_accepted() {
    let current = Registry { schema_version: 1, units: Vec::new() };
    assert!(current.accept().is_ok());
    let future = Registry { schema_version: 2, units: Vec::new() };
    assert_eq!(future.accept().err().unwrap(), "unsupported service registry schema: 2");
}

#[test]
fn rejects_unit_names_that_escape_the_unit_root() {
    let escaping = UnitDescriptor::Timer {
        id: "bad".into(),
        unit_name: "../bad.timer".into(),
        description: "Bad timer".into(),
        target_unit: "kitowall-next.service".into(),
        on_boot_sec: Some("1m".into()),
        on_active_sec: None,
        on_unit_active_sec: None,
        wanted_by: "timers.target".into(),
    };
    assert_eq!(manager().plan(&escaping).unwrap_err(), "invalid unit name: ../bad.timer");
}

#[test]
fn refuses_tampered_registry_paths_outside_the_managed_root() {
    let m = manager();
    let tampered = Registry {
        schema_version: 1,
        units: vec![UnitRecord {
            id: "kitowall".into(),
            unit_name: "kitowall.service".into(),
            path: "/home/me/outside.service".into(),
            unit_type: "service".into(),
            target_unit: None,
        }],
    };
    assert_eq!(
        m.remove(Ok(tampered.clone()), "kitowall").err().unwrap(),
        "registered unit path does not match managed root: /home/me/outside.service"
    );
    assert!(m.control(&tampered, &[true], "kitowall", "start").is_err());
}

#[test]
fn timer_requires_registered_service_and_blocks_early_service_removal() {
    let m = manager();
    let empty = Registry::empty();
    assert_eq!(
        m.apply(Ok(empty.clone()), timer("tick-timer", "tick.service"), true, true).err().unwrap(),
        "timer target is not registered by the compositor: tick.service"
    );
    let mut run = m.apply(Ok(empty), service("tick"), true, true).unwrap();
    while !matches!(run.advance(Ok(())), BatchAction::Complete) {}
    let with_service = run.plan.registry.clone();
    let mut run = m.apply(Ok(with_service), timer("tick-timer", "tick.service"), true, true).unwrap();
    while !matches!(run.advance(Ok(())), BatchAction::Complete) {}
    let both = run.plan.registry.clone();
    assert_eq!(both.units.len(), 2);
    assert_eq!(
        m.remove(Ok(both.clone()), "tick").err().unwrap(),
        "unit is required by registered timer: tick-timer.timer"
    );
    let mut removal = m.remove(Ok(both), "tick-timer").unwrap().unwrap();
    while !matches!(removal.advance(Ok(())), RemovalAction::Complete) {}
    assert!(m.remove(Ok(removal.registry.clone()), "tick").unwrap().is_some());
}

#[test]
fn reapplying_a_unit_keeps_one_record_per_id() {
    let m = manager();
    let mut first = m.apply(Ok(Registry::empty()), service("tick"), true, true).unwrap();
    while !matches!(first.advance(Ok(())), BatchAction::Complete) {}
    let mut again = m.apply(Ok(first.plan.registry.clone()), service("tick"), true, true).unwrap();
    while !matches!(again.advance(Ok(())), BatchAction::Complete) {}
    assert_eq!(again.plan.registry.units.len(), 1);
    assert_eq!(m.list(&again.plan.registry).unwrap().len(), 1);
    let other_name = UnitDescriptor::Service {
        id: "tick".into(),
        unit_name: "tock.service".into(),
        description: "Tock".into(),
        exec_start: vec!["/opt/tock".into()],
        environment: Vec::new(),
        restart: RestartPolicy::No,
        wanted_by: "default.target".into(),
    };
    assert_eq!(
        m.apply(Ok(again.plan.registry.clone()), other_name, true, true).err().unwrap(),
        "service id already owns another unit: tick.service"
    );
}

#[test]
fn applying_then_removing_a_fresh_unit_gives_back_the_registry() {
    let m = manager();
    let mut setup = m.apply(Ok(Registry::empty()), service("keep"), true, true).unwrap();
    while !matches!(setup.advance(Ok(())), BatchAction::Complete) {}
    let before = setup.plan.registry.clone();
    let mut run = m.apply(Ok(before.clone()), service("tick"), true, true).unwrap();
    while !matches!(run.advance(Ok(())), BatchAction::Complete) {}
    let mut removal = m.remove(Ok(run.plan.registry.clone()), "tick").unwrap().unwrap();
    assert_eq!(removal.record, run.plan.records[0]);
    while !matches!(removal.advance(Ok(())), RemovalAction::Complete) {}
    assert_eq!(removal.registry.units, before.units);
}

#[test]
fn control_runs_the_action_on_the_unit_and_status_runs_nothing() {
    assert_eq!(
        control_command("enable", "tick.timer").unwrap(),
        vec!["--user", "enable", "--now", "tick.timer"]
    );
    assert_eq!(
        control_command("start", "tick.service").unwrap(),
        vec!["--user", "start", "tick.service"]
    );
    assert_eq!(
        control_command("disable", "tick.service").unwrap(),
        vec!["--user", "disable", "--now", "tick.service"]
    );
    assert!(control_command("status", "tick.service").is_none());
}

#[test]
fn a_successful_removal_runs_every_step() {
    let m = manager();
    let registry = Registry {
        schema_version: 1,
        units: vec![UnitRecord {
            id: "tick".into(),
            unit_name: "tick.service".into(),
            path: format!("{ROOT}/tick.service"),
            unit_type: "service".into(),
            target_unit: None,
        }],
    };
    let mut run = m.remove(Ok(registry), "tick").unwrap().unwrap();
    assert_eq!(run.action, RemovalAction::Disable);
    assert_eq!(
        run.systemctl_command().unwrap(),
        vec!["--user", "disable", "--now", "tick.service"]
    );
    assert_eq!(run.advance(Ok(())), RemovalAction::RemoveUnitFile);
    assert!(run.systemctl_command().is_none());
    assert_eq!(run.advance(Ok(())), RemovalAction::WriteRegistry);
    assert_eq!(run.advance(Ok(())), RemovalAction::ReloadDaemon);
    assert_eq!(run.systemctl_command().unwrap(), vec!["--user", "daemon-reload"]);
    assert_eq!(run.advance(Ok(())), RemovalAction::Complete);
    assert!(run.registry.units.is_empty());
}

#[test]
fn listing_orders_records_by_id() {
    let m = manager();
    let record = |id: &str| UnitRecord {
        id: id.into(),
        unit_name: format!("{id}.service"),
        path: format!("{ROOT}/{id}.service"),
        unit_type: "service".into(),
        target_unit: None,
    };
    let registry = Registry { schema_version: 1, units: vec![record("zeta"), record("alpha"), record("mid")] };
    let ids: Vec<String> = m.list(&registry).unwrap().into_iter().map(|r| r.id).collect();
    assert_eq!(ids, vec!["alpha", "mid", "zeta"]);
}

#[test]
fn applying_one_unit_is_a_batch_of_one() {
    let m = manager();
    let registry = Registry {
        schema_version: 1,
        units: vec![UnitRecord {
            id: "tick".into(),
            unit_name: "tick.service".into(),
            path: format!("{ROOT}/tick.service"),
            unit_type: "service".into(),
            target_unit: None,
        }],
    };
    let one = m.apply(Ok(registry.clone()), timer("tick-timer", "tick.service"), true, true).unwrap();
    let batch = m
        .apply_batch(Ok(registry.clone()), &[timer("tick-timer", "tick.service")], &[true], true)
        .unwrap();
    assert_eq!(one.plan.plans, batch.plan.plans);
    assert_eq!(one.plan.records, batch.plan.records);
    assert_eq!(one.plan.registry.units, batch.plan.registry.units);
    assert_eq!(one.action, batch.action);
    assert_eq!(
        m.apply(Ok(registry.clone()), timer("t", "gone.service"), true, true).err(),
        m.apply_batch(Ok(registry), &[timer("t", "gone.service")], &[true], true).err()
    );
}

#[test]
fn removing_a_timer_keeps_its_service_and_frees_it_for_removal() {
    let m = manager();
    let registry = Registry {
        schema_version: 3,
        units: vec![
            UnitRecord {
                id: "tick".into(),
                unit_name: "tick.service".into(),
                path: format!("{ROOT}/tick.service"),
                unit_type: "service".into(),
                target_unit: None,
            },
            UnitRecord {
                id: "tick-timer".into(),
                unit_name: "tick.timer".into(),
                path: format!("{ROOT}/tick.timer"),
                unit_type: "timer".into(),
                target_unit: Some("tick.service".into()),
            },
        ],
    };
    let run = m.remove(Ok(registry), "tick-timer").unwrap().unwrap();
    assert_eq!(run.registry.schema_version, 3);
    assert_eq!(run.registry.units.len(), 1);
    assert_eq!(run.registry.units[0].unit_name, "tick.service");
    let after = m.remove(Ok(run.registry.clone()), "tick").unwrap().unwrap();
    assert!(after.registry.units.is_empty());
}
