//! The Caelestia commands that apply and restore colors, and the queries of its state.
use vstd::prelude::*;

use crate::appearance::model::{
    operation_views, AppearanceOperation, CaelestiaSnapshot, OperationView, SnapshotView,
};
use crate::process::{answers, ProcessExecutor, ProcessOutput};
use crate::text::{opt_view, owned, push_str, str_eq, trim, trim_seq, views};

verus! {

pub open spec fn caelestia_op(args: Seq<Seq<char>>) -> OperationView {
    OperationView { binary: "caelestia"@, args, mutates: true }
}

pub open spec fn wallpaper_op(image: Seq<char>) -> OperationView {
    caelestia_op(seq!["wallpaper"@, "--file"@, image])
}

pub open spec fn dynamic_scheme_op() -> OperationView {
    caelestia_op(seq!["scheme"@, "set"@, "--name"@, "dynamic"@])
}

/// Set the wallpaper, then switch to the dynamic scheme when asked to.
pub open spec fn apply_ops(image: Seq<char>, activate_dynamic: bool) -> Seq<OperationView> {
    if activate_dynamic {
        seq![wallpaper_op(image), dynamic_scheme_op()]
    } else {
        seq![wallpaper_op(image)]
    }
}

pub open spec fn scheme_op(s: SnapshotView) -> OperationView {
    caelestia_op(
        seq![
            "scheme"@,
            "set"@,
            "--name"@,
            s.name,
            "--flavour"@,
            s.flavour,
            "--mode"@,
            s.mode,
            "--variant"@,
            s.variant,
        ],
    )
}

/// Put back a snapshot. A dynamic scheme follows the wallpaper, so its
/// wallpaper goes back first; any other scheme goes back first.
pub open spec fn restore_ops(s: SnapshotView) -> Seq<OperationView> {
    let w = match s.wallpaper {
        Some(p) => seq![wallpaper_op(p)],
        None => Seq::empty(),
    };
    if s.name == "dynamic"@ {
        w.push(scheme_op(s))
    } else {
        seq![scheme_op(s)] + w
    }
}

fn operation(args: Vec<String>) -> (r: AppearanceOperation)
    ensures
        r@ == caelestia_op(views(args@)),
{
    AppearanceOperation { binary: owned("caelestia"), args, mutates: true }
}

fn wallpaper_operation(image: &str) -> (r: AppearanceOperation)
    ensures
        r@ == wallpaper_op(image@),
{
    let args = vec![owned("wallpaper"), owned("--file"), owned(image)];
    assert(views(args@) =~= seq!["wallpaper"@, "--file"@, image@]);
    operation(args)
}

/// The operations that show `image`; the dynamic scheme is switched on only
/// when `activate_dynamic` asks for it.
pub fn apply_operations(image: &str, activate_dynamic: bool) -> (r: Vec<AppearanceOperation>)
    ensures
        operation_views(r@) == apply_ops(image@, activate_dynamic),
{
    let wallpaper = wallpaper_operation(image);
    if activate_dynamic {
        let args = vec![owned("scheme"), owned("set"), owned("--name"), owned("dynamic")];
        assert(views(args@) =~= seq!["scheme"@, "set"@, "--name"@, "dynamic"@]);
        let scheme = operation(args);
        let r = vec![wallpaper, scheme];
        assert(operation_views(r@) =~= apply_ops(image@, activate_dynamic));
        r
    } else {
        let r = vec![wallpaper];
        assert(operation_views(r@) =~= apply_ops(image@, activate_dynamic));
        r
    }
}

/// The operations that put a snapshot back.
pub fn restore_operations(snapshot: &CaelestiaSnapshot) -> (r: Vec<AppearanceOperation>)
    ensures
        operation_views(r@) == restore_ops(snapshot@),
{
    let args = vec![
        owned("scheme"),
        owned("set"),
        owned("--name"),
        snapshot.name.clone(),
        owned("--flavour"),
        snapshot.flavour.clone(),
        owned("--mode"),
        snapshot.mode.clone(),
        owned("--variant"),
        snapshot.variant.clone(),
    ];
    assert(views(args@) =~= seq![
        "scheme"@,
        "set"@,
        "--name"@,
        snapshot@.name,
        "--flavour"@,
        snapshot@.flavour,
        "--mode"@,
        snapshot@.mode,
        "--variant"@,
        snapshot@.variant,
    ]);
    let scheme = operation(args);
    let dynamic = str_eq(snapshot.name.as_str(), "dynamic");
    let r = match &snapshot.wallpaper {
        Some(path) => {
            let wallpaper = wallpaper_operation(path.as_str());
            if dynamic {
                vec![wallpaper, scheme]
            } else {
                vec![scheme, wallpaper]
            }
        },
        None => vec![scheme],
    };
    assert(operation_views(r@) =~= restore_ops(snapshot@));
    r
}

// ---------------------------------------------------------------------------
// Queries
// ---------------------------------------------------------------------------
/// Arguments joined by single spaces.
pub open spec fn join_words(s: Seq<Seq<char>>) -> Seq<char>
    decreases s.len(),
{
    if s.len() == 0 {
        Seq::empty()
    } else if s.len() == 1 {
        s[0]
    } else {
        join_words(s.drop_last()) + seq![' '] + s.last()
    }
}

pub open spec fn output_view(o: Result<ProcessOutput, String>) -> Result<Seq<char>, Seq<char>> {
    match o {
        Ok(p) => Ok(p.stdout@),
        Err(e) => Err(e@),
    }
}

pub open spec fn text_result(r: Result<String, String>) -> Result<Seq<char>, Seq<char>> {
    match r {
        Ok(v) => Ok(v@),
        Err(e) => Err(e@),
    }
}

/// The answer of a query: the trimmed output, which must not be empty.
pub open spec fn query_outcome(args: Seq<Seq<char>>, out: Result<Seq<char>, Seq<char>>) -> Result<
    Seq<char>,
    Seq<char>,
> {
    match out {
        Err(e) => Err(e),
        Ok(stdout) => if trim_seq(stdout).len() == 0 {
            Err("caelestia returned an empty value for "@ + join_words(args))
        } else {
            Ok(trim_seq(stdout))
        },
    }
}

/// `v` is what an outcome that `executor` gives to the Caelestia query `args`
/// means.
pub open spec fn answered<E>(executor: E, args: Seq<Seq<char>>, v: Result<Seq<char>, Seq<char>>) -> bool {
    exists|o: Result<ProcessOutput, String>|
        #[trigger] answers(executor, "caelestia"@, args, o) && query_outcome(args, output_view(o)) == v
}

fn join_args(args: &[String]) -> (r: String)
    ensures
        r@ == join_words(views(args@)),
{
    let ghost s = views(args@);
    let mut out = String::new();
    let mut i: usize = 0;
    assert(s.take(0) =~= Seq::<Seq<char>>::empty());
    while i < args.len()
        invariant
            i <= args.len(),
            s == views(args@),
            out@ == join_words(s.take(i as int)),
        decreases args.len() - i,
    {
        assert(s.take(i + 1).drop_last() =~= s.take(i as int));
        if i > 0 {
            proof {
                reveal_strlit(" ");
            }
            push_str(&mut out, " ");
        }
        push_str(&mut out, args[i].as_str());
        assert(out@ =~= join_words(s.take(i + 1)));
        i += 1;
    }
    assert(s.take(args@.len() as int) =~= s);
    out
}

/// The answer of a query, given what the command returned.
pub fn query_value(args: &[String], output: Result<ProcessOutput, String>) -> (r: Result<
    String,
    String,
>)
    ensures
        text_result(r) == query_outcome(views(args@), output_view(output)),
{
    match output {
        Err(error) => Err(error),
        Ok(output) => {
            let value = trim(output.stdout.as_str());
            if value.as_str().is_empty() {
                let mut message = owned("caelestia returned an empty value for ");
                let joined = join_args(args);
                push_str(&mut message, joined.as_str());
                Err(message)
            } else {
                Ok(value)
            }
        },
    }
}

fn query<E: ProcessExecutor>(executor: &E, args: Vec<String>) -> (r: Result<String, String>)
    ensures
        answered(*executor, views(args@), text_result(r)),
{
    let output = executor.run("caelestia", args.as_slice());
    let ghost o = output;
    let r = query_value(args.as_slice(), output);
    assert(answers(*executor, "caelestia"@, views(args@), o));
    assert(query_outcome(views(args@), output_view(o)) == text_result(r));
    r
}

pub open spec fn scheme_query(field: Seq<char>) -> Seq<Seq<char>> {
    seq!["scheme"@, "get"@, field]
}

pub open spec fn wallpaper_query() -> Seq<Seq<char>> {
    seq!["wallpaper"@]
}

fn scheme_get<E: ProcessExecutor>(executor: &E, field: &str) -> (r: Result<String, String>)
    ensures
        answered(*executor, scheme_query(field@), text_result(r)),
{
    let args = vec![owned("scheme"), owned("get"), owned(field)];
    assert(views(args@) =~= scheme_query(field@));
    query(executor, args)
}

/// The name of the active scheme.
pub fn current_name<E: ProcessExecutor>(executor: &E) -> (r: Result<String, String>)
    ensures
        answered(*executor, scheme_query("--name"@), text_result(r)),
{
    scheme_get(executor, "--name")
}

/// What Caelestia's wallpaper answer means: a path when it is an absolute one.
pub open spec fn wallpaper_value(v: Seq<char>) -> Option<Seq<char>> {
    if v != "No wallpaper set"@ && v.len() > 0 && v[0] == '/' {
        Some(v)
    } else {
        None
    }
}

/// The wallpaper named by a query answer.
pub fn wallpaper_from(value: String) -> (r: Option<String>)
    ensures
        opt_view(r) == wallpaper_value(value@),
{
    let absolute = match crate::text::chars_of(value.as_str()).first() {
        Some(c) => *c == '/',
        None => false,
    };
    if !str_eq(value.as_str(), "No wallpaper set") && absolute {
        Some(value)
    } else {
        None
    }
}

/// The wallpaper Caelestia shows, if it names an absolute path.
pub fn current_wallpaper<E: ProcessExecutor>(executor: &E) -> (r: Result<Option<String>, String>)
    ensures
        r is Ok ==> exists|v: Seq<char>|
            answered(*executor, wallpaper_query(), Ok(v)) && opt_view(r->Ok_0) == wallpaper_value(v),
        r matches Err(e) ==> answered(*executor, wallpaper_query(), Err(e@)),
{
    let args = vec![owned("wallpaper")];
    assert(views(args@) =~= wallpaper_query());
    let value = query(executor, args)?;
    let ghost v = value@;
    let r = wallpaper_from(value);
    assert(answered(*executor, wallpaper_query(), Ok(v)) && opt_view(r) == wallpaper_value(v));
    Ok(r)
}

/// Caelestia's scheme and wallpaper, read field by field.
pub fn snapshot<E: ProcessExecutor>(executor: &E) -> (r: Result<CaelestiaSnapshot, String>)
    ensures
        r is Ok ==> {
            let s = r->Ok_0@;
            &&& answered(*executor, scheme_query("--name"@), Ok(s.name))
            &&& answered(*executor, scheme_query("--flavour"@), Ok(s.flavour))
            &&& answered(*executor, scheme_query("--mode"@), Ok(s.mode))
            &&& answered(*executor, scheme_query("--variant"@), Ok(s.variant))
            &&& exists|v: Seq<char>|
                answered(*executor, wallpaper_query(), Ok(v)) && s.wallpaper == wallpaper_value(v)
        },
        r matches Err(e) ==> {
            ||| answered(*executor, wallpaper_query(), Err(e@))
            ||| answered(*executor, scheme_query("--name"@), Err(e@))
            ||| answered(*executor, scheme_query("--flavour"@), Err(e@))
            ||| answered(*executor, scheme_query("--mode"@), Err(e@))
            ||| answered(*executor, scheme_query("--variant"@), Err(e@))
        },
{
    let wallpaper = current_wallpaper(executor)?;
    let name = scheme_get(executor, "--name")?;
    let flavour = scheme_get(executor, "--flavour")?;
    let mode = scheme_get(executor, "--mode")?;
    let variant = scheme_get(executor, "--variant")?;
    Ok(CaelestiaSnapshot { name, flavour, mode, variant, wallpaper })
}

/// The next step of a run of operations: run the operation at an index, or
/// finish with a result.
#[derive(Debug, PartialEq, Eq)]
pub enum ExecuteStep {
    Run(usize),
    Finish(Result<(), String>),
}

/// The first step of running `count` operations: the first one, or success
/// when there is none.
pub fn execute_start(count: usize) -> (r: ExecuteStep)
    ensures
        count == 0 ==> r == ExecuteStep::Finish(Ok(())),
        count > 0 ==> r == ExecuteStep::Run(0),
{
    if count == 0 {
        ExecuteStep::Finish(Ok(()))
    } else {
        ExecuteStep::Run(0)
    }
}

/// The step after operation `index` of `count` ran with `outcome`: its
/// failure ends the run with that error; after a success the next operation
/// runs, and after the last one the run succeeds.
pub fn execute_next(count: usize, index: usize, outcome: Result<(), String>) -> (r: ExecuteStep)
    requires
        index < count,
    ensures
        outcome is Err ==> r == ExecuteStep::Finish(outcome),
        outcome is Ok && index + 1 < count ==> r == ExecuteStep::Run((index + 1) as usize),
        outcome is Ok && index + 1 == count ==> r == ExecuteStep::Finish(Ok(())),
{
    match outcome {
        Err(e) => ExecuteStep::Finish(Err(e)),
        Ok(()) => if index + 1 < count {
            ExecuteStep::Run(index + 1)
        } else {
            ExecuteStep::Finish(Ok(()))
        },
    }
}

/// What the outcome of a run means for an operation: success, or its error.
pub open spec fn unit_outcome(o: Result<ProcessOutput, String>) -> Result<(), Seq<char>> {
    match o {
        Ok(_) => Ok(()),
        Err(e) => Err(e@),
    }
}

/// `outcome` is what an outcome that `executor` gives for `op` comes to.
pub open spec fn ran<E>(executor: E, op: OperationView, outcome: Result<(), Seq<char>>) -> bool {
    exists|o: Result<ProcessOutput, String>|
        #[trigger] answers(executor, op.binary, op.args, o) && unit_outcome(o) == outcome
}

/// The first `k` operations ran to success.
pub open spec fn ran_ok_upto<E>(executor: E, ops: Seq<OperationView>, k: int) -> bool {
    forall|i: int| 0 <= i < k ==> ran(executor, #[trigger] ops[i], Ok(()))
}

/// Runs the operations in order and stops at the first failure, each step
/// chosen by `execute_start` and `execute_next`: on success every operation
/// ran to success; on an error, the operations before one ran to success and
/// that one failed with it.
pub fn execute<E: ProcessExecutor>(executor: &E, operations: &[AppearanceOperation]) -> (r: Result<
    (),
    String,
>)
    ensures
        operations@.len() == 0 ==> r is Ok,
        r is Ok ==> ran_ok_upto(*executor, operation_views(operations@), operations@.len() as int),
        r matches Err(e) ==> exists|k: int|
            0 <= k < operations@.len() && ran_ok_upto(*executor, operation_views(operations@), k)
                && #[trigger] ran(*executor, operation_views(operations@)[k], Err(e@)),
{
    let count = operations.len();
    let ghost ops = operation_views(operations@);
    let mut step = execute_start(count);
    loop
        invariant
            count == operations@.len(),
            ops == operation_views(operations@),
            step matches ExecuteStep::Run(i) ==> i < count && ran_ok_upto(*executor, ops, i as int),
            step matches ExecuteStep::Finish(f) ==> (count == 0 ==> f is Ok),
            step matches ExecuteStep::Finish(f) ==> (f is Ok ==> ran_ok_upto(*executor, ops, count as int)),
            step is Finish && step->Finish_0 is Err ==> exists|k: int|
                0 <= k < count && ran_ok_upto(*executor, ops, k) && #[trigger] ran(
                *executor,
                ops[k],
                Err(step->Finish_0->Err_0@),
            ),
        decreases (match step {
            ExecuteStep::Run(i) => count - i,
            ExecuteStep::Finish(_) => 0,
        }),
    {
        match step {
            ExecuteStep::Finish(result) => {
                return result;
            },
            ExecuteStep::Run(i) => {
                let operation = &operations[i];
                let output = executor.run(operation.binary.as_str(), operation.args.as_slice());
                let ghost o = output;
                assert(ops[i as int] == operation@);
                assert(answers(*executor, ops[i as int].binary, ops[i as int].args, o));
                let outcome = match output {
                    Ok(_) => Ok(()),
                    Err(e) => Err(e),
                };
                proof {
                    if o is Ok {
                        assert(ran(*executor, ops[i as int], Ok(())));
                        assert forall|j: int| 0 <= j < i + 1 implies ran(
                            *executor,
                            #[trigger] ops[j],
                            Ok(()),
                        ) by {}
                    } else {
                        assert(ran(*executor, ops[i as int], Err(o->Err_0@)));
                    }
                }
                step = execute_next(count, i, outcome);
                proof {
                    if o is Err {
                        assert(ran_ok_upto(*executor, ops, i as int));
                        assert(ran(*executor, ops[i as int], Err(o->Err_0@)));
                        assert(step == ExecuteStep::Finish(Err(o->Err_0)));
                        assert(step->Finish_0->Err_0@ == o->Err_0@);
                    } else {
                        assert(ran_ok_upto(*executor, ops, i + 1));
                    }
                }
            },
        }
    }
}


// ---------------------------------------------------------------------------
// Effect of the operations
// ---------------------------------------------------------------------------
/// What a Caelestia command records: `wallpaper --file P` makes P the
/// wallpaper; `scheme set --name N` makes N the scheme, and with
/// `--flavour F --mode M --variant V` also those fields. Anything else
/// changes nothing that a snapshot holds.
pub open spec fn effect(s: SnapshotView, op: OperationView) -> SnapshotView {
    let a = op.args;
    if a.len() == 3 && a[0] == "wallpaper"@ && a[1] == "--file"@ {
        SnapshotView { wallpaper: Some(a[2]), ..s }
    } else if a.len() >= 4 && a[0] == "scheme"@ && a[1] == "set"@ && a[2] == "--name"@ {
        if a.len() == 10 && a[4] == "--flavour"@ && a[6] == "--mode"@ && a[8] == "--variant"@ {
            SnapshotView { name: a[3], flavour: a[5], mode: a[7], variant: a[9], ..s }
        } else {
            SnapshotView { name: a[3], ..s }
        }
    } else {
        s
    }
}

/// The state after running the operations in order.
pub open spec fn after_ops(s: SnapshotView, ops: Seq<OperationView>) -> SnapshotView
    decreases ops.len(),
{
    if ops.len() == 0 {
        s
    } else {
        effect(after_ops(s, ops.drop_last()), ops.last())
    }
}

/// Restoring a snapshot after applying colors, from whatever state Caelestia
/// was in, brings back the snapshot's scheme, flavour, mode and variant, and its
/// wallpaper when it had one.
pub proof fn law_restore_brings_back_the_snapshot(
    s: SnapshotView,
    image: Seq<char>,
    activate_dynamic: bool,
    p: SnapshotView,
)
    ensures
        ({
            let after = after_ops(after_ops(s, apply_ops(image, activate_dynamic)), restore_ops(p));
            &&& after.name == p.name
            &&& after.flavour == p.flavour
            &&& after.mode == p.mode
            &&& after.variant == p.variant
            &&& p.wallpaper is Some ==> after.wallpaper == p.wallpaper
        }),
{
    reveal_strlit("wallpaper");
    reveal_strlit("scheme");
    assert("wallpaper"@.len() == 9);
    assert("scheme"@.len() == 6);
    let mid = after_ops(s, apply_ops(image, activate_dynamic));
    let ops = restore_ops(p);
    let sch = scheme_op(p);
    assert(sch.args.len() == 10);
    assert(sch.args[0] == "scheme"@);
    assert(sch.args[0] != "wallpaper"@);
    let e1 = effect(mid, sch);
    assert(after_ops(mid, Seq::<OperationView>::empty()) == mid);
    assert(e1.name == p.name && e1.flavour == p.flavour && e1.mode == p.mode && e1.variant == p.variant);
    match p.wallpaper {
        Some(w) => {
            let wop = wallpaper_op(w);
            assert(wop.args[0] == "wallpaper"@);
            assert(wop.args[0] != "scheme"@);
            if p.name == "dynamic"@ {
                assert(ops =~= seq![wop, sch]);
                assert(ops.drop_last() =~= seq![wop]);
                assert(seq![wop].drop_last() =~= Seq::<OperationView>::empty());
                assert(seq![wop].last() == wop);
                assert(after_ops(mid, seq![wop]) == effect(mid, wop));
                assert(after_ops(mid, ops) == effect(effect(mid, wop), sch));
            } else {
                assert(ops =~= seq![sch, wop]);
                assert(ops.drop_last() =~= seq![sch]);
                assert(seq![sch].drop_last() =~= Seq::<OperationView>::empty());
                assert(seq![sch].last() == sch);
                assert(after_ops(mid, seq![sch]) == e1);
                assert(after_ops(mid, ops) == effect(e1, wop));
            }
        },
        None => {
            assert(ops =~= seq![sch]);
            assert(seq![sch].drop_last() =~= Seq::<OperationView>::empty());
            assert(seq![sch].last() == sch);
            assert(after_ops(mid, ops) == e1);
        },
    }
}


/// Applying colors for an image makes it Caelestia's wallpaper; the scheme
/// becomes the dynamic one when asked to, and is left alone otherwise.
pub proof fn law_apply_shows_the_image(s: SnapshotView, image: Seq<char>, activate_dynamic: bool)
    ensures
        after_ops(s, apply_ops(image, activate_dynamic)).wallpaper == Some(image),
        activate_dynamic ==> after_ops(s, apply_ops(image, activate_dynamic)).name == "dynamic"@,
        !activate_dynamic ==> after_ops(s, apply_ops(image, activate_dynamic)).name == s.name,
{
    reveal_strlit("wallpaper");
    reveal_strlit("scheme");
    assert("wallpaper"@.len() == 9);
    assert("scheme"@.len() == 6);
    let wop = wallpaper_op(image);
    let dop = dynamic_scheme_op();
    assert(wop.args.len() == 3 && wop.args[0] == "wallpaper"@ && wop.args[1] == "--file"@);
    assert(dop.args.len() == 4 && dop.args[0] == "scheme"@ && dop.args[0] != "wallpaper"@);
    let w = effect(s, wop);
    assert(seq![wop].drop_last() =~= Seq::<OperationView>::empty());
    assert(seq![wop].last() == wop);
    assert(after_ops(s, Seq::<OperationView>::empty()) == s);
    assert(after_ops(s, seq![wop]) == w);
    if activate_dynamic {
        let ops = seq![wop, dop];
        assert(apply_ops(image, true) == ops);
        assert(ops.drop_last() =~= seq![wop]);
        assert(ops.last() == dop);
        assert(after_ops(s, ops) == effect(w, dop));
    } else {
        assert(apply_ops(image, false) == seq![wop]);
    }
}

} // verus!
