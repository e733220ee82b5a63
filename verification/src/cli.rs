//! The command line: which command an argument vector asks for, with the
//! contract's errors for every malformed invocation.
use vstd::prelude::*;

use crate::active_media::{kind_spec, ActiveMediaKind};
use crate::contract::{option_spec, option_value, required_option};
use crate::text::{is_digit, owned, push_str, str_eq, trim_chars, trim_seq, views};

verus! {

// ---------------------------------------------------------------------------
// Invocation flags
// ---------------------------------------------------------------------------
/// The arguments without the global `--lc` flag, the command's name and the
/// output flags.
pub struct Invocation {
    pub args: Vec<String>,
    pub command: String,
    pub contract: bool,
    pub json: bool,
}

pub open spec fn without_local(s: Seq<Seq<char>>) -> Seq<Seq<char>>
    decreases s.len(),
{
    if s.len() == 0 {
        s
    } else if s.last() == "--lc"@ {
        without_local(s.drop_last())
    } else {
        without_local(s.drop_last()).push(s.last())
    }
}

pub open spec fn has_arg(s: Seq<Seq<char>>, a: Seq<char>) -> bool {
    s.contains(a)
}

pub fn invocation(raw: &[String]) -> (r: Invocation)
    ensures
        views(r.args@) == without_local(views(raw@)),
        r.command@ == (if views(r.args@).len() > 1 {
            views(r.args@)[1]
        } else {
            "help"@
        }),
        r.contract == has_arg(views(r.args@), "--contract-v1"@),
        r.json == (r.contract || has_arg(views(r.args@), "--json"@)),
{
    let ghost s = views(raw@);
    let mut args: Vec<String> = Vec::new();
    let mut contract = false;
    let mut json = false;
    let mut i: usize = 0;
    assert(s.take(0) =~= Seq::<Seq<char>>::empty());
    while i < raw.len()
        invariant
            i <= raw.len(),
            s == views(raw@),
            views(args@) == without_local(s.take(i as int)),
            contract == has_arg(views(args@), "--contract-v1"@),
            json == has_arg(views(args@), "--json"@),
        decreases raw.len() - i,
    {
        assert(s.take(i + 1).drop_last() =~= s.take(i as int));
        assert(s[i as int] == raw@[i as int]@);
        if !str_eq(raw[i].as_str(), "--lc") {
            let ghost before = views(args@);
            let a = raw[i].clone();
            let c = str_eq(a.as_str(), "--contract-v1");
            let j = str_eq(a.as_str(), "--json");
            args.push(a);
            assert(views(args@) =~= before.push(s[i as int]));
            proof {
                assert forall|x: Seq<char>| has_arg(views(args@), x) == (has_arg(before, x) || x
                    == s[i as int]) by {
                    if has_arg(views(args@), x) {
                        let k = choose|k: int| 0 <= k < views(args@).len() && views(args@)[k] == x;
                        if k < before.len() {
                            assert(before[k] == x);
                        }
                    }
                    if has_arg(before, x) {
                        let k = choose|k: int| 0 <= k < before.len() && before[k] == x;
                        assert(views(args@)[k] == x);
                    }
                    if x == s[i as int] {
                        assert(views(args@)[before.len() as int] == x);
                    }
                }
            }
            contract = contract || c;
            json = json || j;
        }
        i += 1;
    }
    assert(s.take(raw@.len() as int) =~= s);
    let command = if args.len() > 1 {
        args[1].clone()
    } else {
        owned("help")
    };
    let json = contract || json;
    Invocation { args, command, contract, json }
}

// ---------------------------------------------------------------------------
// Numbers and lists
// ---------------------------------------------------------------------------
pub open spec fn digits_value(s: Seq<char>) -> nat
    decreases s.len(),
{
    if s.len() == 0 {
        0
    } else {
        digits_value(s.drop_last()) * 10 + ((s.last() as nat) - 48) as nat
    }
}

pub open spec fn all_digits(s: Seq<char>) -> bool {
    forall|i: int| 0 <= i < s.len() ==> is_digit(#[trigger] s[i])
}

/// `str::parse::<u64>`: an optional `+`, then decimal digits, within range.
pub open spec fn parse_u64_spec(s: Seq<char>) -> Option<u64> {
    let d = if s.len() > 0 && s[0] == '+' {
        s.skip(1)
    } else {
        s
    };
    if d.len() > 0 && all_digits(d) && digits_value(d) <= u64::MAX {
        Some(digits_value(d) as u64)
    } else {
        None
    }
}

proof fn lemma_digits_value_grows(d: Seq<char>, k: int)
    requires
        0 <= k <= d.len(),
        all_digits(d),
    ensures
        digits_value(d.take(k)) <= digits_value(d),
    decreases d.len() - k,
{
    if k < d.len() {
        lemma_digits_value_grows(d, k + 1);
        assert(d.take(k + 1).drop_last() =~= d.take(k));
        assert(is_digit(d[k]));
    } else {
        assert(d.take(k) =~= d);
    }
}

pub fn parse_u64(s: &str) -> (r: Option<u64>)
    ensures
        r == parse_u64_spec(s@),
{
    let x = crate::text::chars_of(s);
    let start: usize = if x.len() > 0 && x[0] == '+' {
        1
    } else {
        0
    };
    let ghost d = if s@.len() > 0 && s@[0] == '+' {
        s@.skip(1)
    } else {
        s@
    };
    assert(x@.skip(start as int) =~= d);
    if start >= x.len() {
        return None;
    }
    assert(d.len() > 0);
    let mut value: u64 = 0;
    let mut i: usize = start;
    assert(d.take(0) =~= Seq::<char>::empty());
    while i < x.len()
        invariant
            start <= i <= x.len(),
            x@ == s@,
            x@.skip(start as int) == d,
            d == (if s@.len() > 0 && s@[0] == '+' {
                s@.skip(1)
            } else {
                s@
            }),
            d.len() > 0,
            all_digits(d.take(i - start)),
            value == digits_value(d.take(i - start)),
        decreases x.len() - i,
    {
        let c = x[i];
        assert(d[i - start] == c);
        assert(d.take(i - start + 1).drop_last() =~= d.take(i - start));
        if !('0' <= c && c <= '9') {
            assert(!all_digits(d)) by {
                assert(!is_digit(d[i - start]));
            }
            return None;
        }
        let digit: u64 = (c as u32 - 48) as u64;
        let next = match value.checked_mul(10) {
            Some(v) => v.checked_add(digit),
            None => None,
        };
        match next {
            Some(v) => {
                value = v;
            },
            None => {
                proof {
                    let k = (i - start) as int;
                    assert(all_digits(d.take(k + 1)));
                    assert(digits_value(d.take(k + 1)) == digits_value(d.take(k)) * 10 + ((c as nat)
                        - 48) as nat);
                    assert(digits_value(d.take(k + 1)) > u64::MAX);
                    if all_digits(d) {
                        lemma_digits_value_grows(d, k + 1);
                    }
                }
                return None;
            },
        }
        i += 1;
    }
    assert(d.take(d.len() as int) =~= d);
    Some(value)
}

/// The pieces of `s` between commas.
pub open spec fn split_commas(s: Seq<char>) -> Seq<Seq<char>>
    decreases s.len(),
{
    if s.len() == 0 {
        seq![Seq::<char>::empty()]
    } else {
        let p = split_commas(s.drop_last());
        if s.last() == ',' {
            p.push(Seq::<char>::empty())
        } else {
            p.update(p.len() - 1, p.last().push(s.last()))
        }
    }
}

/// The trimmed, non-empty pieces, in order.
pub open spec fn nonblank_trimmed(p: Seq<Seq<char>>) -> Seq<Seq<char>>
    decreases p.len(),
{
    if p.len() == 0 {
        Seq::empty()
    } else if trim_seq(p.last()).len() == 0 {
        nonblank_trimmed(p.drop_last())
    } else {
        nonblank_trimmed(p.drop_last()).push(trim_seq(p.last()))
    }
}

/// The ids of a comma-separated list.
pub open spec fn id_list(s: Seq<char>) -> Seq<Seq<char>> {
    nonblank_trimmed(split_commas(s))
}

proof fn lemma_split_commas_nonempty(s: Seq<char>)
    ensures
        split_commas(s).len() >= 1,
    decreases s.len(),
{
    if s.len() > 0 {
        lemma_split_commas_nonempty(s.drop_last());
    }
}

fn push_trimmed(out: &mut Vec<String>, piece: &[char])
    ensures
        views(final(out)@) == (if trim_seq(piece@).len() == 0 {
            views(old(out)@)
        } else {
            views(old(out)@).push(trim_seq(piece@))
        }),
{
    let t = trim_chars(piece);
    if t.len() > 0 {
        let ghost before = views(out@);
        out.push(crate::text::string_from_chars(t.as_slice()));
        assert(views(out@) =~= before.push(trim_seq(piece@)));
    }
}

pub fn parse_ids(value: &str) -> (r: Vec<String>)
    ensures
        views(r@) == id_list(value@),
{
    let x = crate::text::chars_of(value);
    let mut out: Vec<String> = Vec::new();
    let mut cur: Vec<char> = Vec::new();
    let ghost mut done: Seq<Seq<char>> = Seq::empty();
    let mut i: usize = 0;
    assert(x@.take(0) =~= Seq::<char>::empty());
    while i < x.len()
        invariant
            i <= x.len(),
            x@ == value@,
            split_commas(x@.take(i as int)) == done.push(cur@),
            views(out@) == nonblank_trimmed(done),
        decreases x.len() - i,
    {
        let c = x[i];
        assert(x@.take(i + 1).drop_last() =~= x@.take(i as int));
        proof {
            lemma_split_commas_nonempty(x@.take(i as int));
        }
        if c == ',' {
            push_trimmed(&mut out, cur.as_slice());
            proof {
                assert(done.push(cur@).drop_last() =~= done);
                done = done.push(cur@);
            }
            cur = Vec::new();
            assert(split_commas(x@.take(i + 1)) =~= done.push(cur@));
        } else {
            cur.push(c);
            assert(split_commas(x@.take(i + 1)) =~= done.push(cur@));
        }
        i += 1;
    }
    push_trimmed(&mut out, cur.as_slice());
    proof {
        assert(x@.take(x@.len() as int) =~= x@);
        assert(done.push(cur@).drop_last() =~= done);
    }
    out
}

// ---------------------------------------------------------------------------
// Commands
// ---------------------------------------------------------------------------
#[derive(Debug, Clone, Copy, PartialEq, Eq, Structural)]
pub enum WatchTarget {
    Outputs,
    Focus,
}

#[derive(Debug, Clone, PartialEq, Eq)]
pub enum ApplicationsCommand {
    List,
    Running,
    Match(Vec<String>),
}

#[derive(Debug, Clone, PartialEq, Eq)]
pub enum WallpaperCommand {
    Status,
    Start,
    Serve,
    Stop,
    /// Transition options are read by the caller.
    Apply { output: String, image: String },
}

#[derive(Debug, Clone, PartialEq, Eq)]
pub enum AutomationCommand {
    Control { action: String, id: String },
    Remove { id: String },
    PlanBatch { descriptor: String },
    ApplyBatch { descriptor: String },
    Plan { descriptor: String },
    Apply { descriptor: String },
}

#[derive(Debug, Clone, PartialEq, Eq)]
pub enum ServiceCommand {
    Plan { descriptor: String },
    Apply { descriptor: String },
    Remove { id: String },
    List,
    Control { action: String, id: String },
}

/// The image whose colors an appearance command uses: a file, or the media
/// published for an output.
#[derive(Debug, Clone, PartialEq, Eq)]
pub enum AppearanceSource {
    Image(String),
    Output(String),
}

#[derive(Debug, Clone, PartialEq, Eq)]
pub enum AppearanceCommand {
    Capabilities,
    Current,
    Preview { source: AppearanceSource, use_cache: bool },
    Apply { source: AppearanceSource, dry_run: bool, confirmed: bool },
    Restore { dry_run: bool, confirmed: bool },
    PolicyShow,
    PolicyEnable { output: String, confirmed: bool },
    PolicyDisable,
}

#[derive(Debug, Clone, PartialEq, Eq)]
pub enum ActiveMediaCommand {
    List,
    Get { output: String },
    /// Without `--representative-image` the source is its own representative.
    Publish {
        output: String,
        owner: String,
        kind: ActiveMediaKind,
        source: String,
        representative_image: Option<String>,
    },
}

/// What an invocation asks for.
#[derive(Debug, Clone, PartialEq, Eq)]
pub enum Command {
    Help,
    Version,
    Detect,
    Outputs,
    FocusedOutput,
    ValidateOutput(String),
    Watch { target: WatchTarget, poll_ms: u64, once: bool, json_lines: bool },
    Applications(ApplicationsCommand),
    Wallpaper { namespace: String, action: WallpaperCommand },
    Automation(AutomationCommand),
    Service(ServiceCommand),
    Appearance(AppearanceCommand),
    ActiveMedia(ActiveMediaCommand),
    Status,
    Doctor,
    Capabilities,
    ConfigShow,
}

pub enum SourceView {
    Image(Seq<char>),
    Output(Seq<char>),
}

pub enum AppearanceView {
    Capabilities,
    Current,
    Preview { source: SourceView, use_cache: bool },
    Apply { source: SourceView, dry_run: bool, confirmed: bool },
    Restore { dry_run: bool, confirmed: bool },
    PolicyShow,
    PolicyEnable { output: Seq<char>, confirmed: bool },
    PolicyDisable,
}

pub enum ActiveMediaView {
    List,
    Get { output: Seq<char> },
    Publish {
        output: Seq<char>,
        owner: Seq<char>,
        kind: ActiveMediaKind,
        source: Seq<char>,
        representative_image: Option<Seq<char>>,
    },
}

pub enum AppsView {
    List,
    Running,
    Match(Seq<Seq<char>>),
}

pub enum WallpaperView {
    Status,
    Start,
    Serve,
    Stop,
    Apply { output: Seq<char>, image: Seq<char> },
}

pub enum AutomationView {
    Control { action: Seq<char>, id: Seq<char> },
    Remove { id: Seq<char> },
    PlanBatch { descriptor: Seq<char> },
    ApplyBatch { descriptor: Seq<char> },
    Plan { descriptor: Seq<char> },
    Apply { descriptor: Seq<char> },
}

pub enum ServiceView {
    Plan { descriptor: Seq<char> },
    Apply { descriptor: Seq<char> },
    Remove { id: Seq<char> },
    List,
    Control { action: Seq<char>, id: Seq<char> },
}

pub enum CommandView {
    Help,
    Version,
    Detect,
    Outputs,
    FocusedOutput,
    ValidateOutput(Seq<char>),
    Watch { target: WatchTarget, poll_ms: u64, once: bool, json_lines: bool },
    Applications(AppsView),
    Wallpaper { namespace: Seq<char>, action: WallpaperView },
    Automation(AutomationView),
    Service(ServiceView),
    Appearance(AppearanceView),
    ActiveMedia(ActiveMediaView),
    Status,
    Doctor,
    Capabilities,
    ConfigShow,
}

impl View for AppearanceSource {
    type V = SourceView;

    open spec fn view(&self) -> SourceView {
        match self {
            AppearanceSource::Image(i) => SourceView::Image(i@),
            AppearanceSource::Output(o) => SourceView::Output(o@),
        }
    }
}

impl View for AppearanceCommand {
    type V = AppearanceView;

    open spec fn view(&self) -> AppearanceView {
        match self {
            AppearanceCommand::Capabilities => AppearanceView::Capabilities,
            AppearanceCommand::Current => AppearanceView::Current,
            AppearanceCommand::Preview { source, use_cache } => AppearanceView::Preview {
                source: source@,
                use_cache: *use_cache,
            },
            AppearanceCommand::Apply { source, dry_run, confirmed } => AppearanceView::Apply {
                source: source@,
                dry_run: *dry_run,
                confirmed: *confirmed,
            },
            AppearanceCommand::Restore { dry_run, confirmed } => AppearanceView::Restore {
                dry_run: *dry_run,
                confirmed: *confirmed,
            },
            AppearanceCommand::PolicyShow => AppearanceView::PolicyShow,
            AppearanceCommand::PolicyEnable { output, confirmed } => AppearanceView::PolicyEnable {
                output: output@,
                confirmed: *confirmed,
            },
            AppearanceCommand::PolicyDisable => AppearanceView::PolicyDisable,
        }
    }
}

impl View for ActiveMediaCommand {
    type V = ActiveMediaView;

    open spec fn view(&self) -> ActiveMediaView {
        match self {
            ActiveMediaCommand::List => ActiveMediaView::List,
            ActiveMediaCommand::Get { output } => ActiveMediaView::Get { output: output@ },
            ActiveMediaCommand::Publish { output, owner, kind, source, representative_image } =>
                ActiveMediaView::Publish {
                output: output@,
                owner: owner@,
                kind: *kind,
                source: source@,
                representative_image: match representative_image {
                    Some(r) => Some(r@),
                    None => None,
                },
            },
        }
    }
}

impl View for ApplicationsCommand {
    type V = AppsView;

    open spec fn view(&self) -> AppsView {
        match self {
            ApplicationsCommand::List => AppsView::List,
            ApplicationsCommand::Running => AppsView::Running,
            ApplicationsCommand::Match(ids) => AppsView::Match(views(ids@)),
        }
    }
}

impl View for WallpaperCommand {
    type V = WallpaperView;

    open spec fn view(&self) -> WallpaperView {
        match self {
            WallpaperCommand::Status => WallpaperView::Status,
            WallpaperCommand::Start => WallpaperView::Start,
            WallpaperCommand::Serve => WallpaperView::Serve,
            WallpaperCommand::Stop => WallpaperView::Stop,
            WallpaperCommand::Apply { output, image } => WallpaperView::Apply {
                output: output@,
                image: image@,
            },
        }
    }
}

impl View for AutomationCommand {
    type V = AutomationView;

    open spec fn view(&self) -> AutomationView {
        match self {
            AutomationCommand::Control { action, id } => AutomationView::Control {
                action: action@,
                id: id@,
            },
            AutomationCommand::Remove { id } => AutomationView::Remove { id: id@ },
            AutomationCommand::PlanBatch { descriptor } => AutomationView::PlanBatch {
                descriptor: descriptor@,
            },
            AutomationCommand::ApplyBatch { descriptor } => AutomationView::ApplyBatch {
                descriptor: descriptor@,
            },
            AutomationCommand::Plan { descriptor } => AutomationView::Plan {
                descriptor: descriptor@,
            },
            AutomationCommand::Apply { descriptor } => AutomationView::Apply {
                descriptor: descriptor@,
            },
        }
    }
}

impl View for ServiceCommand {
    type V = ServiceView;

    open spec fn view(&self) -> ServiceView {
        match self {
            ServiceCommand::Plan { descriptor } => ServiceView::Plan { descriptor: descriptor@ },
            ServiceCommand::Apply { descriptor } => ServiceView::Apply { descriptor: descriptor@ },
            ServiceCommand::Remove { id } => ServiceView::Remove { id: id@ },
            ServiceCommand::List => ServiceView::List,
            ServiceCommand::Control { action, id } => ServiceView::Control {
                action: action@,
                id: id@,
            },
        }
    }
}

impl View for Command {
    type V = CommandView;

    open spec fn view(&self) -> CommandView {
        match self {
            Command::Help => CommandView::Help,
            Command::Version => CommandView::Version,
            Command::Detect => CommandView::Detect,
            Command::Outputs => CommandView::Outputs,
            Command::FocusedOutput => CommandView::FocusedOutput,
            Command::ValidateOutput(name) => CommandView::ValidateOutput(name@),
            Command::Watch { target, poll_ms, once, json_lines } => CommandView::Watch {
                target: *target,
                poll_ms: *poll_ms,
                once: *once,
                json_lines: *json_lines,
            },
            Command::Applications(a) => CommandView::Applications(a@),
            Command::Wallpaper { namespace, action } => CommandView::Wallpaper {
                namespace: namespace@,
                action: action@,
            },
            Command::Automation(a) => CommandView::Automation(a@),
            Command::Service(s) => CommandView::Service(s@),
            Command::Appearance(a) => CommandView::Appearance(a@),
            Command::ActiveMedia(m) => CommandView::ActiveMedia(m@),
            Command::Status => CommandView::Status,
            Command::Doctor => CommandView::Doctor,
            Command::Capabilities => CommandView::Capabilities,
            Command::ConfigShow => CommandView::ConfigShow,
        }
    }
}

pub open spec fn arg_at(args: Seq<Seq<char>>, i: int) -> Option<Seq<char>> {
    if 0 <= i < args.len() {
        Some(args[i])
    } else {
        None
    }
}

pub open spec fn required_spec(args: Seq<Seq<char>>, key: Seq<char>) -> Result<Seq<char>, Seq<char>> {
    match option_spec(args, key) {
        Some(v) => Ok(v),
        None => Err("missing required option: "@ + key),
    }
}

pub open spec fn is_control_action(a: Seq<char>) -> bool {
    a == "status"@ || a == "start"@ || a == "stop"@ || a == "restart"@ || a == "enable"@ || a
        == "disable"@
}

pub open spec fn watch_spec(args: Seq<Seq<char>>) -> Result<CommandView, Seq<char>> {
    match arg_at(args, 2) {
        None => Err("missing watch target (outputs|focus)"@),
        Some(t) => if t != "outputs"@ && t != "focus"@ {
            Err("watch target must be outputs or focus"@)
        } else {
            let poll = match option_spec(args, "--poll-ms"@) {
                None => Ok(1000u64),
                Some(v) => match parse_u64_spec(v) {
                    Some(n) => Ok(n),
                    None => Err("--poll-ms must be an integer"@),
                },
            };
            match poll {
                Err(e) => Err(e),
                Ok(n) => if n < 100 || n > 60000 {
                    Err("--poll-ms must be between 100 and 60000"@)
                } else {
                    Ok(
                        CommandView::Watch {
                            target: if t == "outputs"@ {
                                WatchTarget::Outputs
                            } else {
                                WatchTarget::Focus
                            },
                            poll_ms: n,
                            once: has_arg(args, "--once"@),
                            json_lines: has_arg(args, "--json-lines"@) || has_arg(
                                args,
                                "--contract-v1"@,
                            ),
                        },
                    )
                },
            }
        },
    }
}

pub open spec fn applications_spec(args: Seq<Seq<char>>) -> Result<AppsView, Seq<char>> {
    match arg_at(args, 2) {
        None => Err("missing applications action"@),
        Some(a) => if a == "list"@ {
            Ok(AppsView::List)
        } else if a == "running"@ {
            Ok(AppsView::Running)
        } else if a == "match"@ {
            match required_spec(args, "--ids"@) {
                Err(e) => Err(e),
                Ok(v) => if id_list(v).len() == 0 {
                    Err("--ids requires at least one application id"@)
                } else {
                    Ok(AppsView::Match(id_list(v)))
                },
            }
        } else {
            Err("invalid applications action (use: list, running or match --ids <ids>)"@)
        },
    }
}

pub open spec fn wallpaper_spec(args: Seq<Seq<char>>) -> Result<CommandView, Seq<char>> {
    match arg_at(args, 2) {
        None => Err("missing wallpaper action (status|start|stop|apply)"@),
        Some(a) => match required_spec(args, "--namespace"@) {
            Err(e) => Err(e),
            Ok(ns) => {
                let action = if a == "status"@ {
                    Ok(WallpaperView::Status)
                } else if a == "start"@ {
                    Ok(WallpaperView::Start)
                } else if a == "serve"@ {
                    Ok(WallpaperView::Serve)
                } else if a == "stop"@ {
                    Ok(WallpaperView::Stop)
                } else if a == "apply"@ {
                    match required_spec(args, "--output"@) {
                        Err(e) => Err(e),
                        Ok(output) => match required_spec(args, "--image"@) {
                            Err(e) => Err(e),
                            Ok(image) => Ok(WallpaperView::Apply { output, image }),
                        },
                    }
                } else {
                    Err("wallpaper action must be status, start, serve, stop or apply"@)
                };
                match action {
                    Err(e) => Err(e),
                    Ok(w) => Ok(CommandView::Wallpaper { namespace: ns, action: w }),
                }
            },
        },
    }
}

pub open spec fn automation_spec(args: Seq<Seq<char>>) -> Result<AutomationView, Seq<char>> {
    match arg_at(args, 2) {
        None => Err("missing automation action"@),
        Some(a) => if is_control_action(a) {
            match required_spec(args, "--id"@) {
                Err(e) => Err(e),
                Ok(id) => Ok(AutomationView::Control { action: a, id }),
            }
        } else if a == "remove"@ {
            match required_spec(args, "--id"@) {
                Err(e) => Err(e),
                Ok(id) => Ok(AutomationView::Remove { id }),
            }
        } else if a == "plan-batch"@ || a == "apply-batch"@ {
            match required_spec(args, "--descriptor"@) {
                Err(e) => Err(e),
                Ok(d) => if a == "plan-batch"@ {
                    Ok(AutomationView::PlanBatch { descriptor: d })
                } else {
                    Ok(AutomationView::ApplyBatch { descriptor: d })
                },
            }
        } else if a == "plan"@ || a == "apply"@ {
            match required_spec(args, "--descriptor"@) {
                Err(e) => Err(e),
                Ok(d) => if a == "plan"@ {
                    Ok(AutomationView::Plan { descriptor: d })
                } else {
                    Ok(AutomationView::Apply { descriptor: d })
                },
            }
        } else {
            Err("unsupported automation action"@)
        },
    }
}

pub open spec fn service_spec(args: Seq<Seq<char>>) -> Result<ServiceView, Seq<char>> {
    match arg_at(args, 2) {
        None => Err("missing service action"@),
        Some(a) => if a == "plan"@ || a == "apply"@ {
            match required_spec(args, "--descriptor"@) {
                Err(e) => Err(e),
                Ok(d) => if a == "plan"@ {
                    Ok(ServiceView::Plan { descriptor: d })
                } else {
                    Ok(ServiceView::Apply { descriptor: d })
                },
            }
        } else if a == "remove"@ {
            match required_spec(args, "--id"@) {
                Err(e) => Err(e),
                Ok(id) => Ok(ServiceView::Remove { id }),
            }
        } else if a == "list"@ {
            Ok(ServiceView::List)
        } else if is_control_action(a) {
            match required_spec(args, "--id"@) {
                Err(e) => Err(e),
                Ok(id) => Ok(ServiceView::Control { action: a, id }),
            }
        } else {
            Err("unsupported service action: "@ + a)
        },
    }
}

/// Where an appearance command takes its image from: `--image`, else
/// `--output`.
pub open spec fn source_spec(args: Seq<Seq<char>>) -> Result<SourceView, Seq<char>> {
    match option_spec(args, "--image"@) {
        Some(i) => Ok(SourceView::Image(i)),
        None => match option_spec(args, "--output"@) {
            Some(o) => Ok(SourceView::Output(o)),
            None => Err("missing required option: --image or --output"@),
        },
    }
}

pub open spec fn policy_spec(args: Seq<Seq<char>>) -> Result<AppearanceView, Seq<char>> {
    let a = arg_at(args, 3);
    if a == Some("show"@) {
        Ok(AppearanceView::PolicyShow)
    } else if a == Some("disable"@) {
        Ok(AppearanceView::PolicyDisable)
    } else if a == Some("enable"@) {
        match required_spec(args, "--output"@) {
            Err(e) => Err(e),
            Ok(output) => Ok(
                AppearanceView::PolicyEnable { output, confirmed: has_arg(args, "--confirm"@) },
            ),
        }
    } else {
        Err("invalid appearance policy action (use: show, enable --output <name> or disable)"@)
    }
}

pub open spec fn appearance_spec(args: Seq<Seq<char>>) -> Result<AppearanceView, Seq<char>> {
    match arg_at(args, 2) {
        None => Err("missing appearance action"@),
        Some(a) => if a == "capabilities"@ {
            Ok(AppearanceView::Capabilities)
        } else if a == "current"@ {
            Ok(AppearanceView::Current)
        } else if a == "preview"@ {
            match source_spec(args) {
                Err(e) => Err(e),
                Ok(source) => Ok(
                    AppearanceView::Preview { source, use_cache: !has_arg(args, "--no-cache"@) },
                ),
            }
        } else if a == "apply"@ {
            match source_spec(args) {
                Err(e) => Err(e),
                Ok(source) => Ok(
                    AppearanceView::Apply {
                        source,
                        dry_run: has_arg(args, "--dry-run"@),
                        confirmed: has_arg(args, "--confirm"@),
                    },
                ),
            }
        } else if a == "restore"@ {
            Ok(
                AppearanceView::Restore {
                    dry_run: has_arg(args, "--dry-run"@),
                    confirmed: has_arg(args, "--confirm"@),
                },
            )
        } else if a == "policy"@ {
            policy_spec(args)
        } else {
            Err("unsupported appearance action: "@ + a)
        },
    }
}

pub open spec fn publish_spec(args: Seq<Seq<char>>) -> Result<ActiveMediaView, Seq<char>> {
    match required_spec(args, "--output"@) {
        Err(e) => Err(e),
        Ok(output) => match required_spec(args, "--owner"@) {
            Err(e) => Err(e),
            Ok(owner) => match required_spec(args, "--kind"@) {
                Err(e) => Err(e),
                Ok(k) => match kind_spec(k) {
                    Err(e) => Err(e),
                    Ok(kind) => match required_spec(args, "--source"@) {
                        Err(e) => Err(e),
                        Ok(source) => Ok(
                            ActiveMediaView::Publish {
                                output,
                                owner,
                                kind,
                                source,
                                representative_image: option_spec(args, "--representative-image"@),
                            },
                        ),
                    },
                },
            },
        },
    }
}

pub open spec fn active_media_spec(args: Seq<Seq<char>>) -> Result<ActiveMediaView, Seq<char>> {
    match arg_at(args, 2) {
        None => Err("missing active-media action"@),
        Some(a) => if a == "list"@ {
            Ok(ActiveMediaView::List)
        } else if a == "get"@ {
            match required_spec(args, "--output"@) {
                Err(e) => Err(e),
                Ok(output) => Ok(ActiveMediaView::Get { output }),
            }
        } else if a == "publish"@ {
            publish_spec(args)
        } else {
            Err("unsupported active-media action: "@ + a)
        },
    }
}

/// The command that an argument vector (program name first, `--lc` removed)
/// asks for, or the error the command line reports.
pub open spec fn command_spec(args: Seq<Seq<char>>) -> Result<CommandView, Seq<char>> {
    match arg_at(args, 1) {
        None => Ok(CommandView::Help),
        Some(c) => if c == "help"@ || c == "--help"@ || c == "-h"@ {
            Ok(CommandView::Help)
        } else if c == "version"@ || c == "--version"@ || c == "-v"@ {
            Ok(CommandView::Version)
        } else if c == "detect"@ {
            Ok(CommandView::Detect)
        } else if c == "outputs"@ {
            Ok(CommandView::Outputs)
        } else if c == "focused-output"@ {
            Ok(CommandView::FocusedOutput)
        } else if c == "validate-output"@ {
            match arg_at(args, 2) {
                None => Err("missing output name"@),
                Some(n) => Ok(CommandView::ValidateOutput(n)),
            }
        } else if c == "watch"@ {
            watch_spec(args)
        } else if c == "applications"@ {
            match applications_spec(args) {
                Err(e) => Err(e),
                Ok(a) => Ok(CommandView::Applications(a)),
            }
        } else if c == "wallpaper"@ {
            wallpaper_spec(args)
        } else if c == "automation"@ {
            match automation_spec(args) {
                Err(e) => Err(e),
                Ok(a) => Ok(CommandView::Automation(a)),
            }
        } else if c == "service"@ {
            match service_spec(args) {
                Err(e) => Err(e),
                Ok(s) => Ok(CommandView::Service(s)),
            }
        } else if c == "appearance"@ {
            match appearance_spec(args) {
                Err(e) => Err(e),
                Ok(a) => Ok(CommandView::Appearance(a)),
            }
        } else if c == "active-media"@ {
            match active_media_spec(args) {
                Err(e) => Err(e),
                Ok(m) => Ok(CommandView::ActiveMedia(m)),
            }
        } else if c == "status"@ {
            Ok(CommandView::Status)
        } else if c == "doctor"@ {
            Ok(CommandView::Doctor)
        } else if c == "capabilities"@ {
            Ok(CommandView::Capabilities)
        } else if c == "config"@ {
            if arg_at(args, 2) == Some("show"@) {
                Ok(CommandView::ConfigShow)
            } else {
                Err("invalid config command (use: config show)"@)
            }
        } else {
            Err("unknown command: "@ + c)
        },
    }
}

pub open spec fn command_result(r: Result<Command, String>) -> Result<CommandView, Seq<char>> {
    match r {
        Ok(c) => Ok(c@),
        Err(e) => Err(e@),
    }
}

fn arg(args: &[String], i: usize) -> (r: Option<&str>)
    ensures
        match r {
            Some(a) => arg_at(views(args@), i as int) == Some(a@),
            None => arg_at(views(args@), i as int) is None,
        },
{
    if i < args.len() {
        Some(args[i].as_str())
    } else {
        None
    }
}

fn has_flag(args: &[String], a: &str) -> (r: bool)
    ensures
        r == has_arg(views(args@), a@),
{
    let ghost s = views(args@);
    let mut i: usize = 0;
    while i < args.len()
        invariant
            i <= args.len(),
            s == views(args@),
            forall|k: int| 0 <= k < i ==> s[k] != a@,
        decreases args.len() - i,
    {
        if str_eq(args[i].as_str(), a) {
            assert(s[i as int] == a@);
            return true;
        }
        i += 1;
    }
    false
}

fn required(args: &[String], key: &str) -> (r: Result<String, String>)
    ensures
        match r {
            Ok(v) => required_spec(views(args@), key@) == Ok::<Seq<char>, Seq<char>>(v@),
            Err(e) => required_spec(views(args@), key@) == Err::<Seq<char>, Seq<char>>(e@),
        },
{
    match required_option(args, key) {
        Ok(v) => Ok(owned(v)),
        Err(e) => Err(e),
    }
}

fn control_action(a: &str) -> (r: bool)
    ensures
        r == is_control_action(a@),
{
    str_eq(a, "status") || str_eq(a, "start") || str_eq(a, "stop") || str_eq(a, "restart")
        || str_eq(a, "enable") || str_eq(a, "disable")
}

fn parse_watch(args: &[String]) -> (r: Result<Command, String>)
    ensures
        command_result(r) == watch_spec(views(args@)),
{
    let target = match arg(args, 2) {
        None => {
            return Err(owned("missing watch target (outputs|focus)"));
        },
        Some(t) => t,
    };
    let outputs = str_eq(target, "outputs");
    if !outputs && !str_eq(target, "focus") {
        return Err(owned("watch target must be outputs or focus"));
    }
    let poll_ms: u64 = match option_value(args, "--poll-ms") {
        None => 1000,
        Some(v) => match parse_u64(v) {
            Some(n) => n,
            None => {
                return Err(owned("--poll-ms must be an integer"));
            },
        },
    };
    if poll_ms < 100 || poll_ms > 60000 {
        return Err(owned("--poll-ms must be between 100 and 60000"));
    }
    let once = has_flag(args, "--once");
    let json_lines = has_flag(args, "--json-lines") || has_flag(args, "--contract-v1");
    Ok(
        Command::Watch {
            target: if outputs {
                WatchTarget::Outputs
            } else {
                WatchTarget::Focus
            },
            poll_ms,
            once,
            json_lines,
        },
    )
}

fn parse_applications(args: &[String]) -> (r: Result<ApplicationsCommand, String>)
    ensures
        match r {
            Ok(a) => applications_spec(views(args@)) == Ok::<AppsView, Seq<char>>(a@),
            Err(e) => applications_spec(views(args@)) == Err::<AppsView, Seq<char>>(e@),
        },
{
    let action = match arg(args, 2) {
        None => {
            return Err(owned("missing applications action"));
        },
        Some(a) => a,
    };
    if str_eq(action, "list") {
        return Ok(ApplicationsCommand::List);
    }
    if str_eq(action, "running") {
        return Ok(ApplicationsCommand::Running);
    }
    if str_eq(action, "match") {
        let value = required(args, "--ids")?;
        let ids = parse_ids(value.as_str());
        if ids.len() == 0 {
            return Err(owned("--ids requires at least one application id"));
        }
        return Ok(ApplicationsCommand::Match(ids));
    }
    Err(owned("invalid applications action (use: list, running or match --ids <ids>)"))
}

fn parse_wallpaper(args: &[String]) -> (r: Result<Command, String>)
    ensures
        command_result(r) == wallpaper_spec(views(args@)),
{
    let action = match arg(args, 2) {
        None => {
            return Err(owned("missing wallpaper action (status|start|stop|apply)"));
        },
        Some(a) => a,
    };
    let namespace = required(args, "--namespace")?;
    let command = if str_eq(action, "status") {
        WallpaperCommand::Status
    } else if str_eq(action, "start") {
        WallpaperCommand::Start
    } else if str_eq(action, "serve") {
        WallpaperCommand::Serve
    } else if str_eq(action, "stop") {
        WallpaperCommand::Stop
    } else if str_eq(action, "apply") {
        let output = required(args, "--output")?;
        let image = required(args, "--image")?;
        WallpaperCommand::Apply { output, image }
    } else {
        return Err(owned("wallpaper action must be status, start, serve, stop or apply"));
    };
    Ok(Command::Wallpaper { namespace, action: command })
}

fn parse_automation(args: &[String]) -> (r: Result<AutomationCommand, String>)
    ensures
        match r {
            Ok(a) => automation_spec(views(args@)) == Ok::<AutomationView, Seq<char>>(a@),
            Err(e) => automation_spec(views(args@)) == Err::<AutomationView, Seq<char>>(e@),
        },
{
    let action = match arg(args, 2) {
        None => {
            return Err(owned("missing automation action"));
        },
        Some(a) => a,
    };
    if control_action(action) {
        let id = required(args, "--id")?;
        return Ok(AutomationCommand::Control { action: owned(action), id });
    }
    if str_eq(action, "remove") {
        let id = required(args, "--id")?;
        return Ok(AutomationCommand::Remove { id });
    }
    let plan_batch = str_eq(action, "plan-batch");
    if plan_batch || str_eq(action, "apply-batch") {
        let descriptor = required(args, "--descriptor")?;
        return if plan_batch {
            Ok(AutomationCommand::PlanBatch { descriptor })
        } else {
            Ok(AutomationCommand::ApplyBatch { descriptor })
        };
    }
    let plan = str_eq(action, "plan");
    if plan || str_eq(action, "apply") {
        let descriptor = required(args, "--descriptor")?;
        return if plan {
            Ok(AutomationCommand::Plan { descriptor })
        } else {
            Ok(AutomationCommand::Apply { descriptor })
        };
    }
    Err(owned("unsupported automation action"))
}

fn parse_service(args: &[String]) -> (r: Result<ServiceCommand, String>)
    ensures
        match r {
            Ok(s) => service_spec(views(args@)) == Ok::<ServiceView, Seq<char>>(s@),
            Err(e) => service_spec(views(args@)) == Err::<ServiceView, Seq<char>>(e@),
        },
{
    let action = match arg(args, 2) {
        None => {
            return Err(owned("missing service action"));
        },
        Some(a) => a,
    };
    let plan = str_eq(action, "plan");
    if plan || str_eq(action, "apply") {
        let descriptor = required(args, "--descriptor")?;
        return if plan {
            Ok(ServiceCommand::Plan { descriptor })
        } else {
            Ok(ServiceCommand::Apply { descriptor })
        };
    }
    if str_eq(action, "remove") {
        let id = required(args, "--id")?;
        return Ok(ServiceCommand::Remove { id });
    }
    if str_eq(action, "list") {
        return Ok(ServiceCommand::List);
    }
    if control_action(action) {
        let id = required(args, "--id")?;
        return Ok(ServiceCommand::Control { action: owned(action), id });
    }
    let mut e = owned("unsupported service action: ");
    push_str(&mut e, action);
    Err(e)
}

fn parse_source(args: &[String]) -> (r: Result<AppearanceSource, String>)
    ensures
        match r {
            Ok(s) => source_spec(views(args@)) == Ok::<SourceView, Seq<char>>(s@),
            Err(e) => source_spec(views(args@)) == Err::<SourceView, Seq<char>>(e@),
        },
{
    match option_value(args, "--image") {
        Some(i) => Ok(AppearanceSource::Image(owned(i))),
        None => match option_value(args, "--output") {
            Some(o) => Ok(AppearanceSource::Output(owned(o))),
            None => Err(owned("missing required option: --image or --output")),
        },
    }
}

fn arg_is(args: &[String], i: usize, word: &str) -> (r: bool)
    ensures
        r == (arg_at(views(args@), i as int) == Some(word@)),
{
    match arg(args, i) {
        Some(a) => str_eq(a, word),
        None => false,
    }
}

fn parse_policy(args: &[String]) -> (r: Result<AppearanceCommand, String>)
    ensures
        match r {
            Ok(a) => policy_spec(views(args@)) == Ok::<AppearanceView, Seq<char>>(a@),
            Err(e) => policy_spec(views(args@)) == Err::<AppearanceView, Seq<char>>(e@),
        },
{
    if arg_is(args, 3, "show") {
        return Ok(AppearanceCommand::PolicyShow);
    }
    if arg_is(args, 3, "disable") {
        return Ok(AppearanceCommand::PolicyDisable);
    }
    if arg_is(args, 3, "enable") {
        let output = required(args, "--output")?;
        return Ok(AppearanceCommand::PolicyEnable { output, confirmed: has_flag(args, "--confirm") });
    }
    Err(owned("invalid appearance policy action (use: show, enable --output <name> or disable)"))
}

fn parse_appearance(args: &[String]) -> (r: Result<AppearanceCommand, String>)
    ensures
        match r {
            Ok(a) => appearance_spec(views(args@)) == Ok::<AppearanceView, Seq<char>>(a@),
            Err(e) => appearance_spec(views(args@)) == Err::<AppearanceView, Seq<char>>(e@),
        },
{
    let action = match arg(args, 2) {
        None => {
            return Err(owned("missing appearance action"));
        },
        Some(a) => a,
    };
    if str_eq(action, "capabilities") {
        return Ok(AppearanceCommand::Capabilities);
    }
    if str_eq(action, "current") {
        return Ok(AppearanceCommand::Current);
    }
    if str_eq(action, "preview") {
        let source = parse_source(args)?;
        return Ok(AppearanceCommand::Preview { source, use_cache: !has_flag(args, "--no-cache") });
    }
    if str_eq(action, "apply") {
        let source = parse_source(args)?;
        return Ok(
            AppearanceCommand::Apply {
                source,
                dry_run: has_flag(args, "--dry-run"),
                confirmed: has_flag(args, "--confirm"),
            },
        );
    }
    if str_eq(action, "restore") {
        return Ok(
            AppearanceCommand::Restore {
                dry_run: has_flag(args, "--dry-run"),
                confirmed: has_flag(args, "--confirm"),
            },
        );
    }
    if str_eq(action, "policy") {
        return parse_policy(args);
    }
    let mut e = owned("unsupported appearance action: ");
    push_str(&mut e, action);
    Err(e)
}

fn parse_publish(args: &[String]) -> (r: Result<ActiveMediaCommand, String>)
    ensures
        match r {
            Ok(m) => publish_spec(views(args@)) == Ok::<ActiveMediaView, Seq<char>>(m@),
            Err(e) => publish_spec(views(args@)) == Err::<ActiveMediaView, Seq<char>>(e@),
        },
{
    let output = required(args, "--output")?;
    let owner = required(args, "--owner")?;
    let kind = required(args, "--kind")?;
    let kind = ActiveMediaKind::parse(kind.as_str())?;
    let source = required(args, "--source")?;
    let representative_image = match option_value(args, "--representative-image") {
        Some(r) => Some(owned(r)),
        None => None,
    };
    Ok(ActiveMediaCommand::Publish { output, owner, kind, source, representative_image })
}

fn parse_active_media(args: &[String]) -> (r: Result<ActiveMediaCommand, String>)
    ensures
        match r {
            Ok(m) => active_media_spec(views(args@)) == Ok::<ActiveMediaView, Seq<char>>(m@),
            Err(e) => active_media_spec(views(args@)) == Err::<ActiveMediaView, Seq<char>>(e@),
        },
{
    let action = match arg(args, 2) {
        None => {
            return Err(owned("missing active-media action"));
        },
        Some(a) => a,
    };
    if str_eq(action, "list") {
        return Ok(ActiveMediaCommand::List);
    }
    if str_eq(action, "get") {
        let output = required(args, "--output")?;
        return Ok(ActiveMediaCommand::Get { output });
    }
    if str_eq(action, "publish") {
        return parse_publish(args);
    }
    let mut e = owned("unsupported active-media action: ");
    push_str(&mut e, action);
    Err(e)
}

/// The command an argument vector asks for (program name first, `--lc`
/// removed), or the error to report.
pub fn parse_command(args: &[String]) -> (r: Result<Command, String>)
    ensures
        command_result(r) == command_spec(views(args@)),
{
    let c = match arg(args, 1) {
        None => {
            return Ok(Command::Help);
        },
        Some(c) => c,
    };
    if str_eq(c, "help") || str_eq(c, "--help") || str_eq(c, "-h") {
        return Ok(Command::Help);
    }
    if str_eq(c, "version") || str_eq(c, "--version") || str_eq(c, "-v") {
        return Ok(Command::Version);
    }
    if str_eq(c, "detect") {
        return Ok(Command::Detect);
    }
    if str_eq(c, "outputs") {
        return Ok(Command::Outputs);
    }
    if str_eq(c, "focused-output") {
        return Ok(Command::FocusedOutput);
    }
    if str_eq(c, "validate-output") {
        return match arg(args, 2) {
            None => Err(owned("missing output name")),
            Some(n) => Ok(Command::ValidateOutput(owned(n))),
        };
    }
    if str_eq(c, "watch") {
        return parse_watch(args);
    }
    if str_eq(c, "applications") {
        return match parse_applications(args) {
            Ok(a) => Ok(Command::Applications(a)),
            Err(e) => Err(e),
        };
    }
    if str_eq(c, "wallpaper") {
        return parse_wallpaper(args);
    }
    if str_eq(c, "automation") {
        return match parse_automation(args) {
            Ok(a) => Ok(Command::Automation(a)),
            Err(e) => Err(e),
        };
    }
    if str_eq(c, "service") {
        return match parse_service(args) {
            Ok(s) => Ok(Command::Service(s)),
            Err(e) => Err(e),
        };
    }
    if str_eq(c, "appearance") {
        return match parse_appearance(args) {
            Ok(a) => Ok(Command::Appearance(a)),
            Err(e) => Err(e),
        };
    }
    if str_eq(c, "active-media") {
        return match parse_active_media(args) {
            Ok(m) => Ok(Command::ActiveMedia(m)),
            Err(e) => Err(e),
        };
    }
    if str_eq(c, "status") {
        return Ok(Command::Status);
    }
    if str_eq(c, "doctor") {
        return Ok(Command::Doctor);
    }
    if str_eq(c, "capabilities") {
        return Ok(Command::Capabilities);
    }
    if str_eq(c, "config") {
        let show = match arg(args, 2) {
            Some(a) => str_eq(a, "show"),
            None => false,
        };
        return if show {
            Ok(Command::ConfigShow)
        } else {
            Err(owned("invalid config command (use: config show)"))
        };
    }
    let mut e = owned("unknown command: ");
    push_str(&mut e, c);
    Err(e)
}

} // verus!
