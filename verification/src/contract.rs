//! The command-line contract: error codes, exit statuses and option lookup.
use vstd::prelude::*;

use crate::active_media::kind_spec;
use crate::cli::{
    active_media_spec, appearance_spec, applications_spec, policy_spec, publish_spec, required_spec,
    service_spec, source_spec, wallpaper_spec, watch_spec,
};
use crate::unit_manager::{duration_check, id_check, unit_name_check};
use crate::wallpaper::identifier_check;
use crate::text::{contains, owned, push_str, seq_contains, seq_starts_with, starts_with, str_eq, views};

verus! {

pub open spec fn str_views(s: Seq<&str>) -> Seq<Seq<char>> {
    s.map_values(|x: &str| x@)
}

/// Errors that blame the invocation.
pub open spec fn invalid_argument_prefixes() -> Seq<Seq<char>> {
    seq![
        "unknown command"@,
        "missing output name"@,
        "invalid config"@,
        "output name cannot"@,
        "missing watch target"@,
        "missing applications action"@,
        "invalid applications action"@,
        "--ids requires"@,
        "watch target"@,
        "--poll-ms"@,
        "missing wallpaper action"@,
        "wallpaper action"@,
        "missing required option"@,
        "invalid value"@,
        "invalid namespace"@,
        "invalid output"@,
        "invalid transition"@,
        "transition "@,
        "wallpaper image path"@,
        "missing service action"@,
        "unsupported service action"@,
        "service descriptor"@,
        "invalid service descriptor"@,
        "invalid service id"@,
        "invalid unit name"@,
        "unit name"@,
        "service exec_start"@,
        "service executable"@,
        "timer requires"@,
        "invalid systemd duration"@,
        "service unit and registry paths"@,
        "missing appearance action"@,
        "unsupported appearance action"@,
        "invalid appearance policy action"@,
        "missing active-media action"@,
        "unsupported active-media action"@,
        "active media kind"@,
    ]
}

/// Errors that the state of the registry, or of the desktop, explains.
pub open spec fn state_conflict_prefixes() -> Seq<Seq<char>> {
    seq![
        "service id already owns"@,
        "unit is already registered"@,
        "timer target is not registered"@,
        "unit is required by registered timer"@,
        "appearance state conflict"@,
    ]
}

/// Errors of reading or writing files.
pub open spec fn io_error_prefixes() -> Seq<Seq<char>> {
    seq![
        "failed to read service registry"@,
        "failed to parse service registry"@,
        "failed to create unit directory"@,
        "failed to write"@,
        "failed to replace"@,
        "failed to remove unit file"@,
        "unsupported service registry schema"@,
        "registered unit path"@,
    ]
}

pub open spec fn starts_with_any(e: Seq<char>, prefixes: Seq<Seq<char>>) -> bool {
    exists|k: int| 0 <= k < prefixes.len() && seq_starts_with(e, #[trigger] prefixes[k])
}

/// The error code, exit status and hint of an error message.
pub open spec fn classify_spec(e: Seq<char>) -> (Seq<char>, i32, Option<Seq<char>>) {
    if starts_with_any(e, invalid_argument_prefixes()) {
        ("INVALID_ARGUMENT"@, 2, Some("Run kitsune-compositor help"@))
    } else if seq_contains(e, "no supported compositor"@) || seq_contains(e, "no focused output"@) {
        ("COMPOSITOR_UNAVAILABLE"@, 5, None)
    } else if seq_starts_with(e, "output not found"@) {
        ("OUTPUT_NOT_FOUND"@, 3, None)
    } else if seq_contains(e, "no supported wallpaper runtime"@) {
        ("DEPENDENCY_MISSING"@, 4, None)
    } else if seq_contains(e, "systemctl is not installed"@) {
        ("DEPENDENCY_MISSING"@, 4, None)
    } else if seq_starts_with(e, "service id not found"@) {
        ("RESOURCE_NOT_FOUND"@, 3, None)
    } else if starts_with_any(e, state_conflict_prefixes()) {
        ("STATE_CONFLICT"@, 6, None)
    } else if starts_with_any(e, io_error_prefixes()) {
        ("IO_ERROR"@, 7, None)
    } else if seq_contains(e, "failed to execute"@) {
        ("DEPENDENCY_MISSING"@, 4, None)
    } else if seq_contains(e, "exited with status"@) || seq_contains(e, "invalid json"@) {
        ("EXTERNAL_COMMAND_FAILED"@, 8, None)
    } else {
        ("INTERNAL_ERROR"@, 10, None)
    }
}

proof fn lemma_starts_with_prefix(p: Seq<char>, rest: Seq<char>)
    ensures
        seq_starts_with(p + rest, p),
{
    assert((p + rest).take(p.len() as int) =~= p);
}

proof fn lemma_invalid_argument(e: Seq<char>, k: int)
    requires
        0 <= k < invalid_argument_prefixes().len(),
        seq_starts_with(e, invalid_argument_prefixes()[k]),
    ensures
        classify_spec(e) == (("INVALID_ARGUMENT"@, 2i32, Some("Run kitsune-compositor help"@))),
{
}

/// `label` and `rest` after `invalid `, read as one prefix `invalid <label>`.
proof fn lemma_invalid_label(label: Seq<char>, rest: Seq<char>, whole: Seq<char>)
    requires
        whole == "invalid "@ + label,
    ensures
        seq_starts_with("invalid "@ + label + rest, whole),
{
    assert("invalid "@ + label + rest =~= whole + rest);
    lemma_starts_with_prefix(whole, rest);
}

/// What a validator of user input refuses is the caller's mistake: a service
/// id, a unit or target name, a systemd duration, a wallpaper namespace or
/// output that is refused is classified `INVALID_ARGUMENT`, exit status 2,
/// with the hint to run `help`.
pub proof fn law_refused_input_is_an_invalid_argument(v: Seq<char>, suffix: Seq<char>)
    ensures
        id_check(v) matches Err(e) ==> classify_spec(e) == (("INVALID_ARGUMENT"@, 2i32, Some(
            "Run kitsune-compositor help"@,
        ))),
        unit_name_check(v, suffix) matches Err(e) ==> classify_spec(e) == ((
            "INVALID_ARGUMENT"@,
            2i32,
            Some("Run kitsune-compositor help"@),
        )),
        duration_check(v) matches Err(e) ==> classify_spec(e) == ((
            "INVALID_ARGUMENT"@,
            2i32,
            Some("Run kitsune-compositor help"@),
        )),
        identifier_check("namespace"@, v) matches Err(e) ==> classify_spec(e) == ((
            "INVALID_ARGUMENT"@,
            2i32,
            Some("Run kitsune-compositor help"@),
        )),
        identifier_check("output"@, v) matches Err(e) ==> classify_spec(e) == ((
            "INVALID_ARGUMENT"@,
            2i32,
            Some("Run kitsune-compositor help"@),
        )),
{
    reveal_strlit("invalid ");
    reveal_strlit("service id");
    reveal_strlit("invalid service id");
    reveal_strlit("unit name");
    reveal_strlit("invalid unit name");
    reveal_strlit("unit name must end with ");
    reveal_strlit("invalid systemd duration: ");
    reveal_strlit("invalid systemd duration");
    reveal_strlit("namespace");
    reveal_strlit("invalid namespace");
    reveal_strlit("output");
    reveal_strlit("invalid output");
    let ps = invalid_argument_prefixes();
    if let Err(e) = id_check(v) {
        assert("invalid "@ + "service id"@ =~= "invalid service id"@);
        lemma_invalid_label("service id"@, ": "@ + v, "invalid service id"@);
        assert(e == "invalid "@ + "service id"@ + (": "@ + v)) by {
            assert("invalid "@ + "service id"@ + ": "@ + v =~= "invalid "@ + "service id"@ + (": "@
                + v));
        }
        assert(ps[23] == "invalid service id"@);
        lemma_invalid_argument(e, 23);
    }
    if let Err(e) = unit_name_check(v, suffix) {
        if e == "invalid "@ + "unit name"@ + ": "@ + v {
            assert("invalid "@ + "unit name"@ =~= "invalid unit name"@);
            lemma_invalid_label("unit name"@, ": "@ + v, "invalid unit name"@);
            assert("invalid "@ + "unit name"@ + ": "@ + v =~= "invalid "@ + "unit name"@ + (": "@
                + v));
            assert(ps[24] == "invalid unit name"@);
            lemma_invalid_argument(e, 24);
        } else {
            assert(e == "unit name must end with "@ + suffix);
            assert("unit name must end with "@ =~= "unit name"@ + " must end with "@) by {
                reveal_strlit(" must end with ");
            }
            assert(e =~= "unit name"@ + (" must end with "@ + suffix));
            lemma_starts_with_prefix("unit name"@, " must end with "@ + suffix);
            assert(ps[25] == "unit name"@);
            lemma_invalid_argument(e, 25);
        }
    }
    if let Err(e) = duration_check(v) {
        assert("invalid systemd duration: "@ =~= "invalid systemd duration"@ + ": "@) by {
            reveal_strlit(": ");
        }
        assert(e =~= "invalid systemd duration"@ + (": "@ + v));
        lemma_starts_with_prefix("invalid systemd duration"@, ": "@ + v);
        assert(ps[29] == "invalid systemd duration"@);
        lemma_invalid_argument(e, 29);
    }
    if let Err(e) = identifier_check("namespace"@, v) {
        assert("invalid "@ + "namespace"@ =~= "invalid namespace"@);
        lemma_invalid_label("namespace"@, ": "@ + v, "invalid namespace"@);
        assert("invalid "@ + "namespace"@ + ": "@ + v =~= "invalid "@ + "namespace"@ + (": "@ + v));
        assert(ps[14] == "invalid namespace"@);
        lemma_invalid_argument(e, 14);
    }
    if let Err(e) = identifier_check("output"@, v) {
        assert("invalid "@ + "output"@ =~= "invalid output"@);
        lemma_invalid_label("output"@, ": "@ + v, "invalid output"@);
        assert("invalid "@ + "output"@ + ": "@ + v =~= "invalid "@ + "output"@ + (": "@ + v));
        assert(ps[15] == "invalid output"@);
        lemma_invalid_argument(e, 15);
    }
}

proof fn lemma_missing_option_is_invalid(args: Seq<Seq<char>>, key: Seq<char>)
    ensures
        required_spec(args, key) matches Err(e) ==> classify_spec(e) == ((
            "INVALID_ARGUMENT"@,
            2i32,
            Some("Run kitsune-compositor help"@),
        )),
{
    if let Err(e) = required_spec(args, key) {
        lemma_starts_with_prefix("missing required option"@, ": "@ + key);
        assert(e =~= "missing required option"@ + (": "@ + key)) by {
            reveal_strlit("missing required option: ");
            reveal_strlit("missing required option");
            reveal_strlit(": ");
        }
        assert(invalid_argument_prefixes()[12] == "missing required option"@);
        lemma_invalid_argument(e, 12);
    }
}

proof fn lemma_literal_is_invalid(e: Seq<char>, k: int)
    requires
        0 <= k < invalid_argument_prefixes().len(),
        e == invalid_argument_prefixes()[k],
    ensures
        classify_spec(e) == (("INVALID_ARGUMENT"@, 2i32, Some("Run kitsune-compositor help"@))),
{
    assert(e.take(e.len() as int) =~= e);
    lemma_invalid_argument(e, k);
}

/// A refused `appearance` or `active-media` command line is the caller's
/// mistake: its error is classified `INVALID_ARGUMENT`, exit status 2, with the
/// hint to run `help`.
pub proof fn law_refused_commands_are_invalid_arguments(args: Seq<Seq<char>>)
    ensures
        appearance_spec(args) matches Err(e) ==> classify_spec(e) == ((
            "INVALID_ARGUMENT"@,
            2i32,
            Some("Run kitsune-compositor help"@),
        )),
        active_media_spec(args) matches Err(e) ==> classify_spec(e) == ((
            "INVALID_ARGUMENT"@,
            2i32,
            Some("Run kitsune-compositor help"@),
        )),
{
    let ps = invalid_argument_prefixes();
    lemma_missing_option_is_invalid(args, "--output"@);
    lemma_missing_option_is_invalid(args, "--owner"@);
    lemma_missing_option_is_invalid(args, "--kind"@);
    lemma_missing_option_is_invalid(args, "--source"@);
    if let Err(e) = appearance_spec(args) {
        if e == "missing appearance action"@ {
            lemma_literal_is_invalid(e, 31);
        } else if e == "missing required option: --image or --output"@ {
            reveal_strlit("missing required option: --image or --output");
            reveal_strlit("missing required option");
            assert(ps[12] == "missing required option"@);
            assert(e.take(ps[12].len() as int) =~= ps[12]);
            lemma_invalid_argument(e, 12);
        } else if e == "invalid appearance policy action (use: show, enable --output <name> or disable)"@ {
            reveal_strlit(
                "invalid appearance policy action (use: show, enable --output <name> or disable)",
            );
            reveal_strlit("invalid appearance policy action");
            assert(ps[33] == "invalid appearance policy action"@);
            assert(e.take(ps[33].len() as int) =~= ps[33]);
            lemma_invalid_argument(e, 33);
        } else if policy_spec(args) is Err && e == policy_spec(args)->Err_0 {
        } else {
            let a = args[2];
            assert(e == "unsupported appearance action: "@ + a);
            assert(e =~= "unsupported appearance action"@ + (": "@ + a)) by {
                reveal_strlit("unsupported appearance action: ");
                reveal_strlit("unsupported appearance action");
                reveal_strlit(": ");
            }
            lemma_starts_with_prefix("unsupported appearance action"@, ": "@ + a);
            lemma_invalid_argument(e, 32);
        }
    }
    if let Err(e) = active_media_spec(args) {
        if e == "missing active-media action"@ {
            lemma_literal_is_invalid(e, 34);
        } else if e == "active media kind must be static or live"@ {
            reveal_strlit("active media kind must be static or live");
            reveal_strlit("active media kind");
            assert(ps[36] == "active media kind"@);
            assert(e.take(ps[36].len() as int) =~= ps[36]);
            lemma_invalid_argument(e, 36);
        } else if publish_spec(args) is Err && e == publish_spec(args)->Err_0 {
        } else {
            let a = args[2];
            assert(e == "unsupported active-media action: "@ + a);
            assert(e =~= "unsupported active-media action"@ + (": "@ + a)) by {
                reveal_strlit("unsupported active-media action: ");
                reveal_strlit("unsupported active-media action");
                reveal_strlit(": ");
            }
            lemma_starts_with_prefix("unsupported active-media action"@, ": "@ + a);
            lemma_invalid_argument(e, 35);
        }
    }
}

/// A refused `watch`, `applications`, `wallpaper` or `service` command line is
/// the caller's mistake: its error is classified `INVALID_ARGUMENT`, exit
/// status 2, with the hint to run `help`.
pub proof fn law_refused_invocations_are_invalid_arguments(args: Seq<Seq<char>>)
    ensures
        watch_spec(args) matches Err(e) ==> classify_spec(e) == ((
            "INVALID_ARGUMENT"@,
            2i32,
            Some("Run kitsune-compositor help"@),
        )),
        applications_spec(args) matches Err(e) ==> classify_spec(e) == ((
            "INVALID_ARGUMENT"@,
            2i32,
            Some("Run kitsune-compositor help"@),
        )),
        wallpaper_spec(args) matches Err(e) ==> classify_spec(e) == ((
            "INVALID_ARGUMENT"@,
            2i32,
            Some("Run kitsune-compositor help"@),
        )),
        service_spec(args) matches Err(e) ==> classify_spec(e) == ((
            "INVALID_ARGUMENT"@,
            2i32,
            Some("Run kitsune-compositor help"@),
        )),
{
    let ps = invalid_argument_prefixes();
    if let Err(e) = watch_spec(args) {
        if e == "missing watch target (outputs|focus)"@ {
            reveal_strlit("missing watch target (outputs|focus)");
            reveal_strlit("missing watch target");
            assert(ps[4] == "missing watch target"@);
            assert(e.take(ps[4].len() as int) =~= ps[4]);
            lemma_invalid_argument(e, 4);
        }
        if e == "watch target must be outputs or focus"@ {
            reveal_strlit("watch target must be outputs or focus");
            reveal_strlit("watch target");
            assert(ps[8] == "watch target"@);
            assert(e.take(ps[8].len() as int) =~= ps[8]);
            lemma_invalid_argument(e, 8);
        }
        if e == "--poll-ms must be an integer"@ {
            reveal_strlit("--poll-ms must be an integer");
            reveal_strlit("--poll-ms");
            assert(ps[9] == "--poll-ms"@);
            assert(e.take(ps[9].len() as int) =~= ps[9]);
            lemma_invalid_argument(e, 9);
        }
        if e == "--poll-ms must be between 100 and 60000"@ {
            reveal_strlit("--poll-ms must be between 100 and 60000");
            reveal_strlit("--poll-ms");
            assert(ps[9] == "--poll-ms"@);
            assert(e.take(ps[9].len() as int) =~= ps[9]);
            lemma_invalid_argument(e, 9);
        }
    }
    lemma_missing_option_is_invalid(args, "--ids"@);
    if let Err(e) = applications_spec(args) {
        if e == "missing applications action"@ {
            reveal_strlit("missing applications action");
            reveal_strlit("missing applications action");
            assert(ps[5] == "missing applications action"@);
            assert(e.take(ps[5].len() as int) =~= ps[5]);
            lemma_invalid_argument(e, 5);
        }
        if e == "--ids requires at least one application id"@ {
            reveal_strlit("--ids requires at least one application id");
            reveal_strlit("--ids requires");
            assert(ps[7] == "--ids requires"@);
            assert(e.take(ps[7].len() as int) =~= ps[7]);
            lemma_invalid_argument(e, 7);
        }
        if e == "invalid applications action (use: list, running or match --ids <ids>)"@ {
            reveal_strlit("invalid applications action (use: list, running or match --ids <ids>)");
            reveal_strlit("invalid applications action");
            assert(ps[6] == "invalid applications action"@);
            assert(e.take(ps[6].len() as int) =~= ps[6]);
            lemma_invalid_argument(e, 6);
        }
    }
    lemma_missing_option_is_invalid(args, "--namespace"@);
    lemma_missing_option_is_invalid(args, "--output"@);
    lemma_missing_option_is_invalid(args, "--image"@);
    if let Err(e) = wallpaper_spec(args) {
        if e == "missing wallpaper action (status|start|stop|apply)"@ {
            reveal_strlit("missing wallpaper action (status|start|stop|apply)");
            reveal_strlit("missing wallpaper action");
            assert(ps[10] == "missing wallpaper action"@);
            assert(e.take(ps[10].len() as int) =~= ps[10]);
            lemma_invalid_argument(e, 10);
        }
        if e == "wallpaper action must be status, start, serve, stop or apply"@ {
            reveal_strlit("wallpaper action must be status, start, serve, stop or apply");
            reveal_strlit("wallpaper action");
            assert(ps[11] == "wallpaper action"@);
            assert(e.take(ps[11].len() as int) =~= ps[11]);
            lemma_invalid_argument(e, 11);
        }
    }
    lemma_missing_option_is_invalid(args, "--descriptor"@);
    lemma_missing_option_is_invalid(args, "--id"@);
    if let Err(e) = service_spec(args) {
        if e == "missing service action"@ {
            reveal_strlit("missing service action");
            reveal_strlit("missing service action");
            assert(ps[19] == "missing service action"@);
            assert(e.take(ps[19].len() as int) =~= ps[19]);
            lemma_invalid_argument(e, 19);
        }
        if e != "missing service action"@ && !(required_spec(args, "--descriptor"@) matches Err(x) && x == e)
            && !(required_spec(args, "--id"@) matches Err(x) && x == e) {
            let a = args[2];
            assert(e == "unsupported service action: "@ + a);
            assert(e =~= "unsupported service action"@ + (": "@ + a)) by {
                reveal_strlit("unsupported service action: ");
                reveal_strlit("unsupported service action");
                reveal_strlit(": ");
            }
            lemma_starts_with_prefix("unsupported service action"@, ": "@ + a);
            assert(ps[20] == "unsupported service action"@);
            lemma_invalid_argument(e, 20);
        }
    }
}

fn starts_with_one_of(e: &str, prefixes: &Vec<&str>) -> (r: bool)
    ensures
        r == starts_with_any(e@, str_views(prefixes@)),
{
    let ghost s = str_views(prefixes@);
    let mut i: usize = 0;
    while i < prefixes.len()
        invariant
            i <= prefixes.len(),
            s == str_views(prefixes@),
            forall|k: int| 0 <= k < i ==> !seq_starts_with(e@, #[trigger] s[k]),
        decreases prefixes.len() - i,
    {
        if starts_with(e, prefixes[i]) {
            assert(seq_starts_with(e@, s[i as int]));
            return true;
        }
        i += 1;
    }
    false
}

/// The contract's error code, exit status and hint for an error message.
pub fn classify(error: &str) -> (r: (&'static str, i32, Option<String>))
    ensures
        r.0@ == classify_spec(error@).0,
        r.1 == classify_spec(error@).1,
        match r.2 {
            Some(h) => classify_spec(error@).2 == Some(h@),
            None => classify_spec(error@).2 is None,
        },
{
    let invalid: Vec<&str> = vec![
        "unknown command",
        "missing output name",
        "invalid config",
        "output name cannot",
        "missing watch target",
        "missing applications action",
        "invalid applications action",
        "--ids requires",
        "watch target",
        "--poll-ms",
        "missing wallpaper action",
        "wallpaper action",
        "missing required option",
        "invalid value",
        "invalid namespace",
        "invalid output",
        "invalid transition",
        "transition ",
        "wallpaper image path",
        "missing service action",
        "unsupported service action",
        "service descriptor",
        "invalid service descriptor",
        "invalid service id",
        "invalid unit name",
        "unit name",
        "service exec_start",
        "service executable",
        "timer requires",
        "invalid systemd duration",
        "service unit and registry paths",
        "missing appearance action",
        "unsupported appearance action",
        "invalid appearance policy action",
        "missing active-media action",
        "unsupported active-media action",
        "active media kind",
    ];
    assert(str_views(invalid@) =~= invalid_argument_prefixes());
    if starts_with_one_of(error, &invalid) {
        return ("INVALID_ARGUMENT", 2, Some(owned("Run kitsune-compositor help")));
    }
    if contains(error, "no supported compositor") || contains(error, "no focused output") {
        return ("COMPOSITOR_UNAVAILABLE", 5, None);
    }
    if starts_with(error, "output not found") {
        return ("OUTPUT_NOT_FOUND", 3, None);
    }
    if contains(error, "no supported wallpaper runtime") {
        return ("DEPENDENCY_MISSING", 4, None);
    }
    if contains(error, "systemctl is not installed") {
        return ("DEPENDENCY_MISSING", 4, None);
    }
    if starts_with(error, "service id not found") {
        return ("RESOURCE_NOT_FOUND", 3, None);
    }
    let conflict: Vec<&str> = vec![
        "service id already owns",
        "unit is already registered",
        "timer target is not registered",
        "unit is required by registered timer",
        "appearance state conflict",
    ];
    assert(str_views(conflict@) =~= state_conflict_prefixes());
    if starts_with_one_of(error, &conflict) {
        return ("STATE_CONFLICT", 6, None);
    }
    let io: Vec<&str> = vec![
        "failed to read service registry",
        "failed to parse service registry",
        "failed to create unit directory",
        "failed to write",
        "failed to replace",
        "failed to remove unit file",
        "unsupported service registry schema",
        "registered unit path",
    ];
    assert(str_views(io@) =~= io_error_prefixes());
    if starts_with_one_of(error, &io) {
        return ("IO_ERROR", 7, None);
    }
    if contains(error, "failed to execute") {
        return ("DEPENDENCY_MISSING", 4, None);
    }
    if contains(error, "exited with status") || contains(error, "invalid json") {
        return ("EXTERNAL_COMMAND_FAILED", 8, None);
    }
    ("INTERNAL_ERROR", 10, None)
}

pub open spec fn key_at(args: Seq<Seq<char>>, key: Seq<char>, k: int) -> bool {
    &&& 0 <= k < args.len()
    &&& args[k] == key
    &&& forall|j: int| 0 <= j < k ==> args[j] != key
}

/// The argument after the first occurrence of `key`, if both exist.
pub open spec fn option_spec(args: Seq<Seq<char>>, key: Seq<char>) -> Option<Seq<char>> {
    if exists|k: int| key_at(args, key, k) {
        let k = choose|k: int| key_at(args, key, k);
        if k + 1 < args.len() {
            Some(args[k + 1])
        } else {
            None
        }
    } else {
        None
    }
}

/// The value that follows `key` on the command line.
pub fn option_value<'a>(args: &'a [String], key: &str) -> (r: Option<&'a str>)
    ensures
        match r {
            Some(v) => option_spec(views(args@), key@) == Some(v@),
            None => option_spec(views(args@), key@) is None,
        },
{
    let ghost s = views(args@);
    let mut i: usize = 0;
    while i < args.len()
        invariant
            i <= args.len(),
            s == views(args@),
            forall|j: int| 0 <= j < i ==> s[j] != key@,
        decreases args.len() - i,
    {
        if str_eq(args[i].as_str(), key) {
            proof {
                assert(key_at(s, key@, i as int));
                let k = choose|k: int| key_at(s, key@, k);
                if k < i {
                    assert(s[k] != key@);
                }
                if k > i {
                    assert(s[i as int] != key@);
                }
            }
            if i + 1 < args.len() {
                return Some(args[i + 1].as_str());
            } else {
                return None;
            }
        }
        i += 1;
    }
    proof {
        assert forall|k: int| !key_at(s, key@, k) by {
            if 0 <= k < s.len() {
                assert(s[k] != key@);
            }
        }
    }
    None
}

/// The value of an option that must be present.
pub fn required_option<'a>(args: &'a [String], key: &str) -> (r: Result<&'a str, String>)
    ensures
        match r {
            Ok(v) => option_spec(views(args@), key@) == Some(v@),
            Err(e) => option_spec(views(args@), key@) is None && e@ == "missing required option: "@
                + key@,
        },
{
    match option_value(args, key) {
        Some(v) => Ok(v),
        None => {
            let mut e = owned("missing required option: ");
            push_str(&mut e, key);
            Err(e)
        },
    }
}

} // verus!
