//! The wallpaper renderer runtime (`awww`, with `swww` as fallback), driven by exact arguments.
use vstd::prelude::*;

use crate::process::{answers, finds, ProcessExecutor, ProcessOutput};
use crate::text::{char_is_alnum, chars_of, is_alnum, owned, push_str, views};

verus! {

#[derive(Debug, Clone, Copy, PartialEq, Eq, Structural)]
pub enum WallpaperBackend {
    Awww,
    Swww,
}

#[derive(Debug, Clone, PartialEq, Eq)]
pub struct WallpaperRuntimeStatus {
    pub backend: WallpaperBackend,
    pub available: bool,
    pub running: bool,
    pub namespace: String,
}

pub struct WallpaperRuntime<E> {
    pub executor: E,
}

pub open spec fn identifier_char(c: char) -> bool {
    is_alnum(c) || c == '-' || c == '_' || c == '.'
}

pub open spec fn identifier_ok(v: Seq<char>) -> bool {
    v.len() > 0 && forall|i: int| 0 <= i < v.len() ==> identifier_char(#[trigger] v[i])
}

pub open spec fn identifier_check(label: Seq<char>, v: Seq<char>) -> Result<(), Seq<char>> {
    if identifier_ok(v) {
        Ok(())
    } else {
        Err("invalid "@ + label + ": "@ + v)
    }
}

/// Accepts namespaces, outputs and transition names made of `[A-Za-z0-9._-]`.
pub fn validate_identifier(label: &str, value: &str) -> (r: Result<(), String>)
    ensures
        match r {
            Ok(()) => identifier_check(label@, value@) is Ok,
            Err(e) => identifier_check(label@, value@) == Err::<(), Seq<char>>(e@),
        },
{
    let x = chars_of(value);
    let mut ok = x.len() > 0;
    let mut i: usize = 0;
    while i < x.len()
        invariant
            x@ == value@,
            i <= x.len(),
            ok == (x.len() > 0 && forall|k: int| 0 <= k < i ==> identifier_char(#[trigger] x@[k])),
        decreases x.len() - i,
    {
        let c = x[i];
        let good = char_is_alnum(c) || c == '-' || c == '_' || c == '.';
        assert(good == identifier_char(x@[i as int]));
        ok = ok && good;
        i += 1;
    }
    if ok {
        Ok(())
    } else {
        let mut e = owned("invalid ");
        push_str(&mut e, label);
        push_str(&mut e, ": ");
        push_str(&mut e, value);
        Err(e)
    }
}

pub open spec fn binary_name(b: WallpaperBackend) -> Seq<char> {
    match b {
        WallpaperBackend::Awww => "awww"@,
        WallpaperBackend::Swww => "swww"@,
    }
}

pub open spec fn daemon_name(b: WallpaperBackend) -> Seq<char> {
    match b {
        WallpaperBackend::Awww => "awww-daemon"@,
        WallpaperBackend::Swww => "swww-daemon"@,
    }
}

/// The client program of a backend.
pub fn binary(backend: WallpaperBackend) -> (r: &'static str)
    ensures
        r@ == binary_name(backend),
{
    match backend {
        WallpaperBackend::Awww => "awww",
        WallpaperBackend::Swww => "swww",
    }
}

/// The daemon program of a backend.
pub fn daemon_binary(backend: WallpaperBackend) -> (r: &'static str)
    ensures
        r@ == daemon_name(backend),
{
    match backend {
        WallpaperBackend::Awww => "awww-daemon",
        WallpaperBackend::Swww => "swww-daemon",
    }
}

pub open spec fn query_spec(b: WallpaperBackend, namespace: Seq<char>) -> Seq<Seq<char>> {
    if b == WallpaperBackend::Awww {
        seq!["query"@, "--json"@, "--namespace"@, namespace]
    } else {
        seq!["query"@, "--namespace"@, namespace]
    }
}

pub open spec fn start_spec(b: WallpaperBackend, namespace: Seq<char>) -> Seq<Seq<char>> {
    if b == WallpaperBackend::Awww {
        seq!["--layer"@, "background"@, "--namespace"@, namespace]
    } else {
        seq!["--namespace"@, namespace]
    }
}

pub open spec fn kill_spec(namespace: Seq<char>) -> Seq<Seq<char>> {
    seq!["kill"@, "--namespace"@, namespace]
}

/// Arguments that ask whether the daemon of a namespace answers.
pub fn query_args(backend: WallpaperBackend, namespace: &str) -> (r: Vec<String>)
    ensures
        views(r@) == query_spec(backend, namespace@),
{
    let mut args: Vec<String> = Vec::new();
    args.push(owned("query"));
    if backend == WallpaperBackend::Awww {
        args.push(owned("--json"));
    }
    args.push(owned("--namespace"));
    args.push(owned(namespace));
    assert(views(args@) =~= query_spec(backend, namespace@));
    args
}

/// Arguments of the daemon for a namespace.
pub fn start_args(backend: WallpaperBackend, namespace: &str) -> (r: Vec<String>)
    ensures
        views(r@) == start_spec(backend, namespace@),
{
    let mut args: Vec<String> = Vec::new();
    if backend == WallpaperBackend::Awww {
        args.push(owned("--layer"));
        args.push(owned("background"));
    }
    args.push(owned("--namespace"));
    args.push(owned(namespace));
    assert(views(args@) =~= start_spec(backend, namespace@));
    args
}

/// Arguments that stop the daemon of a namespace.
pub fn kill_args(backend: WallpaperBackend, namespace: &str) -> (r: Vec<String>)
    ensures
        views(r@) == kill_spec(namespace@),
{
    let mut args: Vec<String> = Vec::new();
    args.push(owned("kill"));
    args.push(owned("--namespace"));
    args.push(owned(namespace));
    assert(views(args@) =~= kill_spec(namespace@));
    args
}

pub open spec fn backend_spec(awww: bool, awww_daemon: bool, swww: bool, swww_daemon: bool) -> Result<
    WallpaperBackend,
    Seq<char>,
> {
    if awww && awww_daemon {
        Ok(WallpaperBackend::Awww)
    } else if swww && swww_daemon {
        Ok(WallpaperBackend::Swww)
    } else {
        Err("no supported wallpaper runtime is installed (expected awww or swww)"@)
    }
}

pub open spec fn backend_view(r: Result<WallpaperBackend, String>) -> Result<
    WallpaperBackend,
    Seq<char>,
> {
    match r {
        Ok(b) => Ok(b),
        Err(e) => Err(e@),
    }
}

/// `awww` is preferred; `swww` is kept for compatibility.
pub fn backend_from(awww: bool, awww_daemon: bool, swww: bool, swww_daemon: bool) -> (r: Result<
    WallpaperBackend,
    String,
>)
    ensures
        backend_view(r) == backend_spec(awww, awww_daemon, swww, swww_daemon),
{
    if awww && awww_daemon {
        Ok(WallpaperBackend::Awww)
    } else if swww && swww_daemon {
        Ok(WallpaperBackend::Swww)
    } else {
        Err(owned("no supported wallpaper runtime is installed (expected awww or swww)"))
    }
}

/// The answers the executor gave to the lookups of the renderers: each
/// program is asked about only while the choice is still open.
pub open spec fn backend_probes<E>(executor: E, a: bool, ad: bool, s: bool, sd: bool) -> bool {
    &&& finds(executor, "awww"@, a)
    &&& a ==> finds(executor, "awww-daemon"@, ad)
    &&& !a ==> !ad
    &&& !(a && ad) ==> finds(executor, "swww"@, s)
    &&& a && ad ==> !s
    &&& !(a && ad) && s ==> finds(executor, "swww-daemon"@, sd)
    &&& !(!(a && ad) && s) ==> !sd
}

/// A backend is found, or the runtime is reported missing.
pub open spec fn resolved(r: Result<WallpaperBackend, String>) -> bool {
    r is Ok || (r is Err && r->Err_0@
        == "no supported wallpaper runtime is installed (expected awww or swww)"@)
}

/// The status of a namespace once its daemon answered or not.
pub fn status_from(backend: WallpaperBackend, running: bool, namespace: &str) -> (r:
    WallpaperRuntimeStatus)
    ensures
        r.backend == backend,
        r.available,
        r.running == running,
        r.namespace@ == namespace@,
{
    WallpaperRuntimeStatus { backend, available: true, running, namespace: owned(namespace) }
}

impl<E: ProcessExecutor> WallpaperRuntime<E> {
    pub fn new(executor: E) -> (r: Self)
        ensures
            r.executor == executor,
    {
        WallpaperRuntime { executor }
    }

    /// Asks the executor which renderer is installed: `awww` and its daemon
    /// first, then `swww` and its daemon, each asked only while the answer
    /// is still open.
    pub fn resolve_backend(&self) -> (r: Result<WallpaperBackend, String>)
        ensures
            resolved(r),
            exists|a: bool, ad: bool, s: bool, sd: bool|
                #[trigger] backend_probes(self.executor, a, ad, s, sd) && backend_view(r)
                    == backend_spec(a, ad, s, sd),
    {
        let awww = self.executor.command_exists("awww");
        let awww_daemon = if awww {
            self.executor.command_exists("awww-daemon")
        } else {
            false
        };
        let both = awww && awww_daemon;
        let swww = if !both {
            self.executor.command_exists("swww")
        } else {
            false
        };
        let swww_daemon = if !both && swww {
            self.executor.command_exists("swww-daemon")
        } else {
            false
        };
        assert(backend_probes(self.executor, awww, awww_daemon, swww, swww_daemon));
        backend_from(awww, awww_daemon, swww, swww_daemon)
    }

    /// The renderer installed, if any, found as `resolve_backend` finds it.
    pub fn available_backend(&self) -> (r: Option<WallpaperBackend>)
        ensures
            exists|a: bool, ad: bool, s: bool, sd: bool|
                #[trigger] backend_probes(self.executor, a, ad, s, sd) && match r {
                    Some(b) => backend_spec(a, ad, s, sd) == Ok::<WallpaperBackend, Seq<char>>(b),
                    None => backend_spec(a, ad, s, sd) is Err,
                },
    {
        match self.resolve_backend() {
            Ok(backend) => Some(backend),
            Err(_) => None,
        }
    }

    /// Whether the daemon of a valid namespace answers a query.
    pub fn status(&self, namespace: &str) -> (r: Result<WallpaperRuntimeStatus, String>)
        ensures
            identifier_check("namespace"@, namespace@) is Err ==> r is Err && r->Err_0@
                == identifier_check("namespace"@, namespace@)->Err_0,
            r is Ok ==> identifier_ok(namespace@) && r->Ok_0.available && r->Ok_0.namespace@
                == namespace@,
            identifier_ok(namespace@) && r is Err ==> r->Err_0@
                == "no supported wallpaper runtime is installed (expected awww or swww)"@
                && exists|a: bool, ad: bool, s: bool, sd: bool|
                #[trigger] backend_probes(self.executor, a, ad, s, sd) && backend_spec(
                    a,
                    ad,
                    s,
                    sd,
                ) is Err,
            r is Ok ==> exists|a: bool, ad: bool, s: bool, sd: bool|
                #[trigger] backend_probes(self.executor, a, ad, s, sd) && backend_spec(a, ad, s, sd)
                    == Ok::<WallpaperBackend, Seq<char>>(r->Ok_0.backend),
            r is Ok ==> exists|o: Result<ProcessOutput, String>|
                #[trigger] answers(
                    self.executor,
                    binary_name(r->Ok_0.backend),
                    query_spec(r->Ok_0.backend, namespace@),
                    o,
                ) && r->Ok_0.running == o is Ok,
    {
        validate_identifier("namespace", namespace)?;
        let backend = self.resolve_backend()?;
        let args = query_args(backend, namespace);
        let output = self.executor.run(binary(backend), args.as_slice());
        let ghost o = output;
        let running = output.is_ok();
        assert(answers(self.executor, binary_name(backend), query_spec(backend, namespace@), o));
        Ok(status_from(backend, running, namespace))
    }

    /// Runs the daemon of a valid namespace in the foreground until it exits.
    pub fn serve(&self, namespace: &str) -> (r: Result<(), String>)
        ensures
            identifier_check("namespace"@, namespace@) is Err ==> r is Err && r->Err_0@
                == identifier_check("namespace"@, namespace@)->Err_0,
            identifier_ok(namespace@) ==> exists|a: bool, ad: bool, s: bool, sd: bool|
                #[trigger] backend_probes(self.executor, a, ad, s, sd) && (backend_spec(
                    a,
                    ad,
                    s,
                    sd,
                ) is Err ==> (r matches Err(e) && e@
                    == "no supported wallpaper runtime is installed (expected awww or swww)"@)),
    {
        validate_identifier("namespace", namespace)?;
        let backend = self.resolve_backend()?;
        let (daemon, args) = serve_command(backend, namespace);
        self.executor.run_foreground(daemon, args.as_slice())
    }

    /// Stops the daemon of a namespace when it runs.
    pub fn stop(&self, namespace: &str) -> (r: Result<WallpaperRuntimeStatus, String>)
        ensures
            identifier_check("namespace"@, namespace@) is Err ==> r is Err && r->Err_0@
                == identifier_check("namespace"@, namespace@)->Err_0,
            r is Ok ==> !r->Ok_0.running && r->Ok_0.available && r->Ok_0.namespace@
                == namespace@,
            r is Ok ==> (exists|b: WallpaperBackend, o: Result<ProcessOutput, String>|
                #[trigger] answers(self.executor, binary_name(b), query_spec(b, namespace@), o)
                    && o is Err) || (exists|b: WallpaperBackend, o: Result<ProcessOutput, String>|
                #[trigger] answers(self.executor, binary_name(b), kill_spec(namespace@), o)
                    && o is Ok),
            identifier_ok(namespace@) ==> (r matches Err(e) ==> (e@
                == "no supported wallpaper runtime is installed (expected awww or swww)"@ || exists|
                b: WallpaperBackend,
            | #[trigger] answers(self.executor, binary_name(b), kill_spec(namespace@), Err(e)))),
    {
        let current = self.status(namespace)?;
        let kill = match stop_command(&current) {
            None => None,
            Some(args) => {
                let output = self.executor.run(binary(current.backend), args.as_slice());
                let ghost o = output;
                assert(answers(
                    self.executor,
                    binary_name(current.backend),
                    kill_spec(namespace@),
                    o,
                ));
                Some(
                    match output {
                        Ok(_) => Ok(()),
                        Err(e) => Err(e),
                    },
                )
            },
        };
        stop_result(current, kill)
    }
}

/// What stopping runs once the daemon's query has answered: nothing when it
/// does not run, else `kill` for its namespace.
pub fn stop_command(current: &WallpaperRuntimeStatus) -> (r: Option<Vec<String>>)
    ensures
        !current.running ==> r is None,
        current.running ==> (r matches Some(v) && views(v@) == kill_spec(current.namespace@)),
{
    if current.running {
        Some(kill_args(current.backend, current.namespace.as_str()))
    } else {
        None
    }
}

/// The outcome of a stop, given the outcome of the kill (none when nothing ran):
/// the status unchanged, the kill's error, or the same daemon stopped.
pub fn stop_result(current: WallpaperRuntimeStatus, kill: Option<Result<(), String>>) -> (r: Result<
    WallpaperRuntimeStatus,
    String,
>)
    ensures
        kill is None ==> r == Ok::<WallpaperRuntimeStatus, String>(current),
        kill matches Some(Err(e)) ==> r == Err::<WallpaperRuntimeStatus, String>(e),
        kill matches Some(Ok(())) ==> (r matches Ok(s) && !s.running && s.backend == current.backend
            && s.available && s.namespace@ == current.namespace@),
{
    match kill {
        None => Ok(current),
        Some(Err(e)) => Err(e),
        Some(Ok(())) => Ok(status_from(current.backend, false, current.namespace.as_str())),
    }
}

/// What serving a namespace runs in the foreground once the backend is known:
/// the backend's daemon with the start arguments.
pub fn serve_command(backend: WallpaperBackend, namespace: &str) -> (r: (&'static str, Vec<String>))
    ensures
        r.0@ == daemon_name(backend),
        views(r.1@) == start_spec(backend, namespace@),
{
    (daemon_binary(backend), start_args(backend, namespace))
}

// ---------------------------------------------------------------------------
// Starting the daemon
// ---------------------------------------------------------------------------
/// How many times a freshly spawned daemon is queried before giving up.
pub const READY_QUERIES: u8 = 10;

/// What the caller does next while a renderer daemon starts.
#[derive(Debug, Clone, PartialEq, Eq)]
pub enum StartAction {
    /// Spawn `daemon_binary(backend)` with `start_args`.
    Spawn,
    /// Run `binary(backend)` with `query_args`.
    Query,
    /// Sleep 100 ms before going on.
    Wait,
    /// The daemon answers; the run's status is the result.
    Ready,
    /// Starting failed with this error.
    Fail(String),
}

pub enum StartActionView {
    Spawn,
    Query,
    Wait,
    Ready,
    Fail(Seq<char>),
}

impl View for StartAction {
    type V = StartActionView;

    open spec fn view(&self) -> StartActionView {
        match self {
            StartAction::Spawn => StartActionView::Spawn,
            StartAction::Query => StartActionView::Query,
            StartAction::Wait => StartActionView::Wait,
            StartAction::Ready => StartActionView::Ready,
            StartAction::Fail(e) => StartActionView::Fail(e@),
        }
    }
}

/// A start in progress: the status found before it, the queries that failed
/// so far, and what the caller does next.
pub struct StartRun {
    pub status: WallpaperRuntimeStatus,
    pub failed_queries: u8,
    pub action: StartAction,
}

pub struct StartView {
    pub running: bool,
    pub failed_queries: nat,
    pub action: StartActionView,
}

impl StartRun {
    pub open spec fn state(&self) -> StartView {
        StartView {
            running: self.status.running,
            failed_queries: self.failed_queries as nat,
            action: self.action@,
        }
    }

    pub open spec fn wf(&self) -> bool {
        &&& self.failed_queries <= READY_QUERIES
        &&& self.action is Query ==> self.failed_queries < READY_QUERIES
        &&& self.action is Spawn ==> self.failed_queries == 0
    }
}

pub open spec fn not_ready(namespace: Seq<char>) -> Seq<char> {
    "wallpaper runtime did not become ready for namespace "@ + namespace
}

/// One step of a start: a spawned daemon is queried until it answers, waiting
/// after each failed query; after the tenth wait the start fails.
pub open spec fn start_next(s: StartView, namespace: Seq<char>, outcome: Result<(), Seq<char>>) -> StartView {
    match s.action {
        StartActionView::Spawn => match outcome {
            Ok(()) => StartView { action: StartActionView::Query, ..s },
            Err(e) => StartView { action: StartActionView::Fail(e), ..s },
        },
        StartActionView::Query => match outcome {
            Ok(()) => StartView { running: true, action: StartActionView::Ready, ..s },
            Err(_) => StartView {
                failed_queries: s.failed_queries + 1,
                action: StartActionView::Wait,
                ..s
            },
        },
        StartActionView::Wait => if s.failed_queries < READY_QUERIES {
            StartView { action: StartActionView::Query, ..s }
        } else {
            StartView { action: StartActionView::Fail(not_ready(namespace)), ..s }
        },
        StartActionView::Ready => s,
        StartActionView::Fail(_) => s,
    }
}

impl StartRun {
    /// A start from the status found: nothing to do when the daemon runs,
    /// else spawn it.
    pub fn from_status(status: WallpaperRuntimeStatus) -> (r: StartRun)
        ensures
            r.wf(),
            r.status == status,
            r.failed_queries == 0,
            r.action@ == (if status.running {
                StartActionView::Ready
            } else {
                StartActionView::Spawn
            }),
    {
        let action = if status.running {
            StartAction::Ready
        } else {
            StartAction::Spawn
        };
        StartRun { status, failed_queries: 0, action }
    }

    /// Takes the outcome of the current action and returns the next one.
    pub fn advance(&mut self, outcome: Result<(), String>) -> (r: StartAction)
        requires
            old(self).wf(),
        ensures
            final(self).wf(),
            final(self).state() == start_next(
                old(self).state(),
                old(self).status.namespace@,
                match outcome {
                    Ok(()) => Ok::<(), Seq<char>>(()),
                    Err(e) => Err::<(), Seq<char>>(e@),
                },
            ),
            final(self).status.backend == old(self).status.backend,
            final(self).status.available == old(self).status.available,
            final(self).status.namespace == old(self).status.namespace,
            r@ == final(self).action@,
    {
        match self.action {
            StartAction::Spawn => {
                self.action = match outcome {
                    Ok(()) => StartAction::Query,
                    Err(e) => StartAction::Fail(e),
                };
            },
            StartAction::Query => {
                match outcome {
                    Ok(()) => {
                        self.status.running = true;
                        self.action = StartAction::Ready;
                    },
                    Err(_) => {
                        self.failed_queries = self.failed_queries + 1;
                        self.action = StartAction::Wait;
                    },
                }
            },
            StartAction::Wait => {
                if self.failed_queries < READY_QUERIES {
                    self.action = StartAction::Query;
                } else {
                    let mut e = owned("wallpaper runtime did not become ready for namespace ");
                    push_str(&mut e, self.status.namespace.as_str());
                    self.action = StartAction::Fail(e);
                }
            },
            StartAction::Ready => {},
            StartAction::Fail(_) => {},
        }
        match &self.action {
            StartAction::Spawn => StartAction::Spawn,
            StartAction::Query => StartAction::Query,
            StartAction::Wait => StartAction::Wait,
            StartAction::Ready => StartAction::Ready,
            StartAction::Fail(e) => StartAction::Fail(e.clone()),
        }
    }
}

/// A spawned daemon is queried at most ten times: every run that starts by
/// spawning reaches `Ready` or `Fail` within twenty-one steps, whatever the
/// outcomes.
pub proof fn law_start_is_bounded(s: StartView, namespace: Seq<char>, outcomes: Seq<Result<(), Seq<char>>>)
    requires
        s.action == StartActionView::Spawn,
        s.failed_queries == 0,
        outcomes.len() == 21,
    ensures
        start_after(s, namespace, outcomes).action is Ready || start_after(s, namespace, outcomes).action is Fail,
{
    lemma_start_progress(s, namespace, outcomes);
}

/// The state after taking the outcomes in turn.
pub open spec fn start_after(s: StartView, namespace: Seq<char>, outcomes: Seq<Result<(), Seq<char>>>) -> StartView
    decreases outcomes.len(),
{
    if outcomes.len() == 0 {
        s
    } else {
        start_next(start_after(s, namespace, outcomes.drop_last()), namespace, outcomes.last())
    }
}

/// The measure that every step lowers until the run ends.
pub open spec fn start_measure(s: StartView) -> int {
    match s.action {
        StartActionView::Spawn => 21,
        StartActionView::Query => 2 * (READY_QUERIES - s.failed_queries),
        StartActionView::Wait => 2 * (READY_QUERIES - s.failed_queries) + 1,
        StartActionView::Ready => 0,
        StartActionView::Fail(_) => 0,
    }
}

proof fn lemma_start_progress(s: StartView, namespace: Seq<char>, outcomes: Seq<Result<(), Seq<char>>>)
    requires
        s.action == StartActionView::Spawn,
        s.failed_queries == 0,
    ensures
        start_after(s, namespace, outcomes).failed_queries <= READY_QUERIES,
        start_after(s, namespace, outcomes).action is Query ==> start_after(s, namespace, outcomes).failed_queries
            < READY_QUERIES,
        start_after(s, namespace, outcomes).action is Spawn ==> outcomes.len() == 0,
        (start_after(s, namespace, outcomes).action is Ready || start_after(s, namespace, outcomes).action is Fail)
            || start_measure(start_after(s, namespace, outcomes)) <= 21 - outcomes.len(),
    decreases outcomes.len(),
{
    if outcomes.len() > 0 {
        lemma_start_progress(s, namespace, outcomes.drop_last());
    }
}

impl<E: ProcessExecutor> WallpaperRuntime<E> {
    /// Starts the daemon of a valid namespace unless it already runs; the
    /// caller performs the returned run's actions.
    pub fn start(&self, namespace: &str) -> (r: Result<StartRun, String>)
        ensures
            identifier_check("namespace"@, namespace@) is Err ==> r is Err && r->Err_0@
                == identifier_check("namespace"@, namespace@)->Err_0,
            identifier_ok(namespace@) && r is Err ==> r->Err_0@
                == "no supported wallpaper runtime is installed (expected awww or swww)"@,
            r is Ok ==> r->Ok_0.wf() && r->Ok_0.failed_queries == 0 && r->Ok_0.status.available
                && r->Ok_0.status.namespace@ == namespace@ && r->Ok_0.action@ == (if r->Ok_0.status.running {
                StartActionView::Ready
            } else {
                StartActionView::Spawn
            }),
    {
        let status = self.status(namespace)?;
        Ok(StartRun::from_status(status))
    }
}

} // verus!
