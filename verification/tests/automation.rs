use kitsune_compositor_backend::automation::{automation_removal_order, service_manager_from};
use kitsune_compositor_backend::{
    plan_automation, plan_automation_batch, remove_automation, AutomationBatchDescriptor,
    AutomationDescriptor, AutomationKind, ProcessExecutor, ProcessOutput, Registry,
    RestartPolicy, Schedule, ServiceManagerKind, UnitDescriptor, UnitManager, UnitRecord,
};

struct NoExecutor;

impl ProcessExecutor for NoExecutor {
    fn command_exists(&self, _binary: &str) -> bool {
        false
    }

    fn run(&self, binary: &str, _args: &[String]) -> Result<ProcessOutput, String> {
        Err(format!("failed to execute {binary}"))
    }

    fn spawn(&self, binary: &str, _args: &[String]) -> Result<u32, String> {
        Err(format!("failed to start {binary}"))
    }
}

fn descriptor(id: &str, kind: AutomationKind, restart: RestartPolicy) -> AutomationDescriptor {
    AutomationDescriptor {
        schema_version: 1,
        id: id.into(),
        description: "Rotate static wallpaper".into(),
        command: vec!["/opt/kitowall/bin/kitowall".into(), "rotate-now".into()],
        environment: Vec::new(),
        kind,
        restart,
        autostart: false,
        schedule: None,
    }
}

fn record(id: &str, unit_name: &str, unit_type: &str) -> UnitRecord {
    UnitRecord {
        id: id.into(),
        unit_name: unit_name.into(),
        path: format!("/home/me/.config/systemd/user/{unit_name}"),
        unit_type: unit_type.into(),
        target_unit: None,
    }
}

#[test]
fn portable_schedule_becomes_service_and_timer() {
    let plan = plan_automation(
        &AutomationDescriptor {
            schema_version: 1,
            id: "kitowall-next".into(),
            description: "Rotate static wallpaper".into(),
            command: vec!["/opt/kitowall/bin/kitowall".into(), "rotate-now".into()],
            environment: Vec::new(),
            kind: AutomationKind::OneShot,
            restart: RestartPolicy::No,
            autostart: false,
            schedule: Some(Schedule {
                startup_delay_seconds: Some(2),
                every_seconds: 600,
            }),
        },
        ServiceManagerKind::SystemdUser,
    )
    .unwrap();
    assert_eq!(plan.artifacts.len(), 2);
    assert!(matches!(plan.artifacts[0], UnitDescriptor::Service { .. }));
    assert!(matches!(plan.artifacts[1], UnitDescriptor::Timer { .. }));
    assert_eq!(plan.manager, ServiceManagerKind::SystemdUser);
    match &plan.artifacts[1] {
        UnitDescriptor::Timer { on_active_sec, on_boot_sec, on_unit_active_sec, .. } => {
            assert_eq!(on_active_sec.as_deref(), Some("2s"));
            assert!(on_boot_sec.is_none());
            assert_eq!(on_unit_active_sec.as_deref(), Some("600s"));
        }
        UnitDescriptor::Service { .. } => unreachable!(),
    }
}

#[test]
fn rejects_system_specific_and_invalid_portable_values() {
    let descriptor = AutomationDescriptor {
        schema_version: 1,
        id: "bad.service".into(),
        description: "Bad".into(),
        command: vec!["kitowall".into()],
        environment: Vec::new(),
        kind: AutomationKind::Daemon,
        restart: RestartPolicy::OnFailure,
        autostart: true,
        schedule: None,
    };
    assert!(plan_automation(&descriptor, ServiceManagerKind::SystemdUser).is_err());
}

#[test]
fn portable_one_shot_preserves_retry_policy() {
    let plan = plan_automation(
        &AutomationDescriptor {
            schema_version: 1,
            id: "kitowall-login-apply".into(),
            description: "Restore wallpaper after login".into(),
            command: vec!["/opt/kitowall/bin/kitowall".into(), "rotate-now".into()],
            environment: Vec::new(),
            kind: AutomationKind::OneShot,
            restart: RestartPolicy::OnFailure,
            autostart: true,
            schedule: None,
        },
        ServiceManagerKind::SystemdUser,
    )
    .unwrap();
    assert!(matches!(
        plan.artifacts[0],
        UnitDescriptor::Service {
            restart: RestartPolicy::OnFailure,
            ..
        }
    ));
}

#[test]
fn portable_one_shot_rejects_unconditional_restart() {
    let descriptor = AutomationDescriptor {
        schema_version: 1,
        id: "bad-loop".into(),
        description: "Never settle".into(),
        command: vec!["/opt/tool".into()],
        environment: Vec::new(),
        kind: AutomationKind::OneShot,
        restart: RestartPolicy::Always,
        autostart: true,
        schedule: None,
    };
    assert!(plan_automation(&descriptor, ServiceManagerKind::SystemdUser).is_err());
}

#[test]
fn schedules_need_a_one_shot_and_a_period() {
    let mut daemon = descriptor("watch", AutomationKind::Daemon, RestartPolicy::Always);
    daemon.schedule = Some(Schedule { startup_delay_seconds: None, every_seconds: 60 });
    assert_eq!(
        plan_automation(&daemon, ServiceManagerKind::SystemdUser).unwrap_err(),
        "only one-shot automation can use a schedule"
    );
    let mut zero = descriptor("tick", AutomationKind::OneShot, RestartPolicy::No);
    zero.schedule = Some(Schedule { startup_delay_seconds: None, every_seconds: 0 });
    assert_eq!(
        plan_automation(&zero, ServiceManagerKind::SystemdUser).unwrap_err(),
        "schedule every_seconds must be greater than zero"
    );
}

#[test]
fn batches_refuse_repeated_ids() {
    let batch = AutomationBatchDescriptor {
        schema_version: 1,
        automations: vec![
            descriptor("one", AutomationKind::OneShot, RestartPolicy::No),
            descriptor("one", AutomationKind::OneShot, RestartPolicy::No),
        ],
    };
    assert_eq!(
        plan_automation_batch(&batch, ServiceManagerKind::SystemdUser).unwrap_err(),
        "duplicate automation id in batch: one"
    );
    let empty = AutomationBatchDescriptor { schema_version: 1, automations: Vec::new() };
    assert_eq!(
        plan_automation_batch(&empty, ServiceManagerKind::SystemdUser).unwrap_err(),
        "automation batch cannot be empty"
    );
}

#[test]
fn service_manager_requires_systemctl() {
    assert_eq!(service_manager_from(true), Ok(ServiceManagerKind::SystemdUser));
    assert_eq!(
        service_manager_from(false).unwrap_err(),
        "no supported user service manager detected"
    );
}

#[test]
fn removal_takes_the_scheduler_before_the_task() {
    let registry = Registry {
        schema_version: 1,
        units: vec![
            record("kitowall-next", "kitowall-next.service", "service"),
            record("other", "other.service", "service"),
            record("kitowall-next-timer", "kitowall-next.timer", "timer"),
        ],
    };
    let manager = UnitManager::new(
        NoExecutor,
        "/home/me/.config/systemd/user".into(),
        "/home/me/.local/state/kitsune/registry.json".into(),
    );
    assert_eq!(
        remove_automation(&manager, &registry, "kitowall-next").unwrap(),
        vec!["kitowall-next-timer".to_string(), "kitowall-next".to_string()]
    );
    assert_eq!(
        automation_removal_order(&registry.units),
        vec!["kitowall-next-timer".to_string(), "kitowall-next".to_string(), "other".to_string()]
    );
    let relative = UnitManager::new(NoExecutor, "units".into(), "/r.json".into());
    assert_eq!(
        remove_automation(&relative, &registry, "kitowall-next").unwrap_err(),
        "service unit and registry paths must be absolute"
    );
}

#[test]
fn a_batch_plans_each_automation_as_it_plans_alone() {
    let one = descriptor("one", AutomationKind::OneShot, RestartPolicy::No);
    let two = descriptor("two", AutomationKind::Daemon, RestartPolicy::OnFailure);
    let batch = AutomationBatchDescriptor { schema_version: 1, automations: vec![one.clone(), two.clone()] };
    let plans = plan_automation_batch(&batch, ServiceManagerKind::SystemdUser).unwrap();
    assert_eq!(plans[0], plan_automation(&one, ServiceManagerKind::SystemdUser).unwrap());
    assert_eq!(plans[1], plan_automation(&two, ServiceManagerKind::SystemdUser).unwrap());
    let mut bad = descriptor("bad", AutomationKind::OneShot, RestartPolicy::No);
    bad.command = vec!["relative".into()];
    let refused = AutomationBatchDescriptor { schema_version: 1, automations: vec![one, bad.clone()] };
    assert_eq!(
        plan_automation_batch(&refused, ServiceManagerKind::SystemdUser).unwrap_err(),
        plan_automation(&bad, ServiceManagerKind::SystemdUser).unwrap_err()
    );
}
