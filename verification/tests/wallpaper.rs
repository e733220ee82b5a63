use kitsune_compositor_backend::wallpaper::{
    backend_from, serve_command, stop_command, stop_result, validate_identifier,
};
use kitsune_compositor_backend::{
    ProcessExecutor, ProcessOutput, StartAction, StartRun, WallpaperBackend, WallpaperRuntime,
    WallpaperRuntimeStatus,
};
use std::cell::RefCell;
use std::collections::BTreeSet;

#[derive(Default)]
struct FakeExecutor {
    commands: BTreeSet<String>,
    calls: RefCell<Vec<(String, Vec<String>)>>,
}

impl ProcessExecutor for FakeExecutor {
    fn command_exists(&self, binary: &str) -> bool {
        self.commands.contains(binary)
    }

    fn run(&self, binary: &str, args: &[String]) -> Result<ProcessOutput, String> {
        self.calls.borrow_mut().push((binary.into(), args.to_vec()));
        Ok(ProcessOutput {
            stdout: String::new(),
            stderr: String::new(),
        })
    }

    fn spawn(&self, binary: &str, args: &[String]) -> Result<u32, String> {
        self.calls.borrow_mut().push((binary.into(), args.to_vec()));
        Ok(42)
    }
}

#[test]
fn serves_the_runtime_in_the_foreground() {
    let runtime = WallpaperRuntime::new(FakeExecutor {
        commands: ["awww".into(), "awww-daemon".into()].into_iter().collect(),
        ..Default::default()
    });
    runtime.serve("kitowall").unwrap();
    let calls = runtime.executor.calls.borrow();
    assert_eq!(calls[0].0, "awww-daemon");
    assert_eq!(
        calls[0].1,
        ["--layer", "background", "--namespace", "kitowall"]
    );
}

#[test]
fn prefers_awww_and_falls_back_to_swww() {
    assert_eq!(backend_from(true, true, true, true), Ok(WallpaperBackend::Awww));
    assert_eq!(backend_from(true, false, true, true), Ok(WallpaperBackend::Swww));
    assert_eq!(
        backend_from(false, false, false, false).unwrap_err(),
        "no supported wallpaper runtime is installed (expected awww or swww)"
    );
    let runtime = WallpaperRuntime::new(FakeExecutor {
        commands: ["swww".into(), "swww-daemon".into()].into_iter().collect(),
        ..Default::default()
    });
    assert_eq!(runtime.available_backend(), Some(WallpaperBackend::Swww));
}

#[test]
fn stop_kills_a_running_namespace() {
    let runtime = WallpaperRuntime::new(FakeExecutor {
        commands: ["awww".into(), "awww-daemon".into()].into_iter().collect(),
        ..Default::default()
    });
    let status = runtime.stop("kitowall").unwrap();
    assert!(!status.running);
    let calls = runtime.executor.calls.borrow();
    assert_eq!(calls.len(), 2);
    assert_eq!(calls[1].0, "awww");
    assert!(calls[1].1.contains(&"kill".to_string()));
    assert!(calls[1].1.contains(&"kitowall".to_string()));
}

#[test]
fn namespaces_are_plain_identifiers() {
    assert_eq!(
        validate_identifier("namespace", "bad namespace").unwrap_err(),
        "invalid namespace: bad namespace"
    );
    assert!(validate_identifier("namespace", "kito_wall-1.x").is_ok());
    assert!(validate_identifier("namespace", "").is_err());
    let runtime = WallpaperRuntime::new(FakeExecutor::default());
    assert_eq!(runtime.serve("a/b").unwrap_err(), "invalid namespace: a/b");
    assert!(runtime.executor.calls.borrow().is_empty());
}

fn stopped() -> WallpaperRuntimeStatus {
    WallpaperRuntimeStatus {
        backend: WallpaperBackend::Awww,
        available: true,
        running: false,
        namespace: "kitowall".into(),
    }
}

#[test]
fn a_running_daemon_needs_no_start() {
    let runtime = WallpaperRuntime::new(FakeExecutor {
        commands: ["awww".into(), "awww-daemon".into()].into_iter().collect(),
        ..Default::default()
    });
    let run = runtime.start("kitowall").unwrap();
    assert!(run.status.running);
    assert_eq!(run.action, StartAction::Ready);
    assert!(runtime.start("bad namespace").is_err());
}

#[test]
fn a_spawned_daemon_is_polled_until_it_answers() {
    let mut run = StartRun::from_status(stopped());
    assert_eq!(run.action, StartAction::Spawn);
    assert_eq!(run.advance(Ok(())), StartAction::Query);
    assert_eq!(run.advance(Err("not yet".into())), StartAction::Wait);
    assert_eq!(run.advance(Ok(())), StartAction::Query);
    assert_eq!(run.advance(Ok(())), StartAction::Ready);
    assert!(run.status.running);
    let mut broken = StartRun::from_status(stopped());
    assert_eq!(broken.advance(Err("no such file".into())), StartAction::Fail("no such file".into()));
}

#[test]
fn a_daemon_that_never_answers_fails_after_ten_queries() {
    let mut run = StartRun::from_status(stopped());
    assert_eq!(run.advance(Ok(())), StartAction::Query);
    let mut queries = 1;
    loop {
        assert_eq!(run.advance(Err("down".into())), StartAction::Wait);
        match run.advance(Ok(())) {
            StartAction::Query => queries += 1,
            other => {
                assert_eq!(
                    other,
                    StartAction::Fail("wallpaper runtime did not become ready for namespace kitowall".into())
                );
                break;
            }
        }
    }
    assert_eq!(queries, 10);
    assert!(!run.status.running);
}

#[test]
fn stopping_kills_only_a_running_daemon_and_reports_the_kill() {
    assert!(stop_command(&stopped()).is_none());
    let running = WallpaperRuntimeStatus { running: true, ..stopped() };
    assert_eq!(stop_command(&running).unwrap(), vec!["kill", "--namespace", "kitowall"]);
    assert_eq!(stop_result(stopped(), None).unwrap(), stopped());
    assert_eq!(stop_result(running.clone(), Some(Err("gone".into()))).unwrap_err(), "gone");
    assert_eq!(stop_result(running, Some(Ok(()))).unwrap(), stopped());
}

#[test]
fn serving_runs_the_daemon_with_the_start_arguments() {
    let (daemon, args) = serve_command(WallpaperBackend::Awww, "kitowall");
    assert_eq!(daemon, "awww-daemon");
    assert_eq!(args, vec!["--layer", "background", "--namespace", "kitowall"]);
    let (daemon, args) = serve_command(WallpaperBackend::Swww, "kitowall");
    assert_eq!(daemon, "swww-daemon");
    assert_eq!(args, vec!["--namespace", "kitowall"]);
}
