//! Typed `systemd --user` units: validation, rendering and the private registry.
use vstd::prelude::*;

use crate::checks::{first_error, lemma_first_error_prefix, lemma_first_error_step, then_check};
use crate::process::{answers, finds, ProcessExecutor, ProcessOutput};
use crate::text::{
    all_ws, any_control, char_is_alnum, char_is_alpha, char_is_digit, chars_of, contains_char,
    ends_with, has_control, is_alnum, is_alpha, is_blank, is_digit, owned, push_char, push_str,
    opt_view, seq_ends_with, str_eq, views, decimal, u64_to_string, text_lt, text_lt_str,
    lemma_text_le_transitive, lemma_text_lt_asymmetric,
};

verus! {

// ---------------------------------------------------------------------------
// Types
// ---------------------------------------------------------------------------
#[derive(Debug, Clone, Copy, PartialEq, Eq, Structural)]
pub enum RestartPolicy {
    No,
    OnFailure,
    Always,
}

impl Default for RestartPolicy {
    fn default() -> (r: Self)
        ensures
            r == RestartPolicy::No,
    {
        RestartPolicy::No
    }
}

pub open spec fn restart_text(policy: RestartPolicy) -> Seq<char> {
    match policy {
        RestartPolicy::No => "no"@,
        RestartPolicy::OnFailure => "on-failure"@,
        RestartPolicy::Always => "always"@,
    }
}

impl RestartPolicy {
    /// The value of `Restart=` for this policy.
    pub fn as_systemd(self) -> (r: &'static str)
        ensures
            r@ == restart_text(self),
    {
        match self {
            RestartPolicy::No => "no",
            RestartPolicy::OnFailure => "on-failure",
            RestartPolicy::Always => "always",
        }
    }
}

/// A unit the compositor may materialize.
#[derive(Debug, Clone, PartialEq)]
pub enum UnitDescriptor {
    Service {
        id: String,
        unit_name: String,
        description: String,
        exec_start: Vec<String>,
        environment: Vec<(String, String)>,
        restart: RestartPolicy,
        wanted_by: String,
    },
    Timer {
        id: String,
        unit_name: String,
        description: String,
        target_unit: String,
        on_boot_sec: Option<String>,
        on_active_sec: Option<String>,
        on_unit_active_sec: Option<String>,
        wanted_by: String,
    },
}

#[derive(Debug, Clone, PartialEq)]
pub struct UnitPlan {
    pub id: String,
    pub unit_name: String,
    pub path: String,
    pub content: String,
}

#[derive(Debug, Clone, PartialEq)]
pub struct UnitRecord {
    pub id: String,
    pub unit_name: String,
    pub path: String,
    pub unit_type: String,
    pub target_unit: Option<String>,
}

#[derive(Debug, Clone, PartialEq)]
pub struct UnitStatus {
    pub id: String,
    pub unit_name: String,
    pub installed: bool,
    pub enabled: bool,
    pub active: bool,
}

pub struct PlanView {
    pub id: Seq<char>,
    pub unit_name: Seq<char>,
    pub path: Seq<char>,
    pub content: Seq<char>,
}

pub struct RecordView {
    pub id: Seq<char>,
    pub unit_name: Seq<char>,
    pub path: Seq<char>,
    pub unit_type: Seq<char>,
    pub target_unit: Option<Seq<char>>,
}

pub open spec fn pair_views(v: Seq<(String, String)>) -> Seq<(Seq<char>, Seq<char>)> {
    v.map_values(|p: (String, String)| (p.0@, p.1@))
}

impl UnitPlan {
    /// A copy with the same view.
    pub fn duplicate(&self) -> (r: UnitPlan)
        ensures
            r@ == self@,
    {
        UnitPlan {
            id: self.id.clone(),
            unit_name: self.unit_name.clone(),
            path: self.path.clone(),
            content: self.content.clone(),
        }
    }
}

impl View for UnitPlan {
    type V = PlanView;

    open spec fn view(&self) -> PlanView {
        PlanView {
            id: self.id@,
            unit_name: self.unit_name@,
            path: self.path@,
            content: self.content@,
        }
    }
}

impl UnitRecord {
    /// A copy with the same view.
    pub fn duplicate(&self) -> (r: UnitRecord)
        ensures
            r@ == self@,
    {
        UnitRecord {
            id: self.id.clone(),
            unit_name: self.unit_name.clone(),
            path: self.path.clone(),
            unit_type: self.unit_type.clone(),
            target_unit: match &self.target_unit {
                Some(t) => Some(t.clone()),
                None => None,
            },
        }
    }
}

impl View for UnitRecord {
    type V = RecordView;

    open spec fn view(&self) -> RecordView {
        RecordView {
            id: self.id@,
            unit_name: self.unit_name@,
            path: self.path@,
            unit_type: self.unit_type@,
            target_unit: opt_view(self.target_unit),
        }
    }
}

// ---------------------------------------------------------------------------
// Validation
// ---------------------------------------------------------------------------
pub open spec fn safe_char(c: char) -> bool {
    is_alnum(c) || c == '-' || c == '_' || c == '.' || c == '@'
}

pub open spec fn is_safe_name(v: Seq<char>) -> bool {
    v.len() > 0 && forall|i: int| 0 <= i < v.len() ==> safe_char(#[trigger] v[i])
}

pub open spec fn safe_name_check(label: Seq<char>, v: Seq<char>) -> Result<(), Seq<char>> {
    if is_safe_name(v) {
        Ok(())
    } else {
        Err("invalid "@ + label + ": "@ + v)
    }
}

pub open spec fn id_check(v: Seq<char>) -> Result<(), Seq<char>> {
    safe_name_check("service id"@, v)
}

pub open spec fn unit_name_check(v: Seq<char>, suffix: Seq<char>) -> Result<(), Seq<char>> {
    then_check(
        safe_name_check("unit name"@, v),
        if seq_ends_with(v, suffix) {
            Ok(())
        } else {
            Err("unit name must end with "@ + suffix)
        },
    )
}

pub open spec fn target_check(v: Seq<char>) -> Result<(), Seq<char>> {
    unit_name_check(v, ".target"@)
}

pub open spec fn text_check(label: Seq<char>, v: Seq<char>) -> Result<(), Seq<char>> {
    if all_ws(v) || has_control(v) {
        Err("invalid "@ + label)
    } else {
        Ok(())
    }
}

pub open spec fn argument_check(v: Seq<char>) -> Result<(), Seq<char>> {
    if v.len() == 0 || has_control(v) {
        Err("service arguments cannot be empty or contain control characters"@)
    } else {
        Ok(())
    }
}

pub open spec fn duration_char(c: char) -> bool {
    is_alnum(c) || c == '.' || c == '-'
}

pub open spec fn duration_check(v: Seq<char>) -> Result<(), Seq<char>> {
    if v.len() > 0 && forall|i: int| 0 <= i < v.len() ==> duration_char(#[trigger] v[i]) {
        Ok(())
    } else {
        Err("invalid systemd duration: "@ + v)
    }
}

pub open spec fn opt_duration_check(v: Option<Seq<char>>) -> Result<(), Seq<char>> {
    match v {
        Some(d) => duration_check(d),
        None => Ok(()),
    }
}

/// `[A-Za-z_][A-Za-z0-9_]*`
pub open spec fn env_key_ok(k: Seq<char>) -> bool {
    k.len() > 0 && forall|i: int|
        0 <= i < k.len() ==> (#[trigger] k[i] == '_' || is_alpha(k[i]) || (i > 0 && is_digit(k[i])))
}

pub open spec fn env_value_ok(v: Seq<char>) -> bool {
    !v.contains('\0') && !v.contains('\n') && !v.contains('\r')
}

pub open spec fn env_check(entry: (Seq<char>, Seq<char>)) -> Result<(), Seq<char>> {
    if !env_key_ok(entry.0) {
        Err("invalid environment key: "@ + entry.0)
    } else if !env_value_ok(entry.1) {
        Err("invalid environment value for "@ + entry.0)
    } else {
        Ok(())
    }
}

fn err_invalid(label: &str, value: &str) -> (r: String)
    ensures
        r@ == "invalid "@ + label@ + ": "@ + value@,
{
    let mut r = owned("invalid ");
    push_str(&mut r, label);
    push_str(&mut r, ": ");
    push_str(&mut r, value);
    r
}

fn all_safe(v: &str) -> (r: bool)
    ensures
        r == is_safe_name(v@),
{
    let x = chars_of(v);
    if x.len() == 0 {
        return false;
    }
    let mut i: usize = 0;
    while i < x.len()
        invariant
            x@ == v@,
            i <= x.len(),
            forall|k: int| 0 <= k < i ==> safe_char(#[trigger] x@[k]),
        decreases x.len() - i,
    {
        let c = x[i];
        if !(char_is_alnum(c) || c == '-' || c == '_' || c == '.' || c == '@') {
            assert(!safe_char(v@[i as int]));
            return false;
        }
        i += 1;
    }
    true
}

pub fn validate_safe_name(label: &str, value: &str) -> (r: Result<(), String>)
    ensures
        match r {
            Ok(()) => safe_name_check(label@, value@) is Ok,
            Err(e) => safe_name_check(label@, value@) == Err::<(), Seq<char>>(e@),
        },
{
    if all_safe(value) {
        Ok(())
    } else {
        Err(err_invalid(label, value))
    }
}

pub fn validate_id(value: &str) -> (r: Result<(), String>)
    ensures
        match r {
            Ok(()) => id_check(value@) is Ok,
            Err(e) => id_check(value@) == Err::<(), Seq<char>>(e@),
        },
{
    validate_safe_name("service id", value)
}

pub fn validate_unit_name(value: &str, suffix: &str) -> (r: Result<(), String>)
    ensures
        match r {
            Ok(()) => unit_name_check(value@, suffix@) is Ok,
            Err(e) => unit_name_check(value@, suffix@) == Err::<(), Seq<char>>(e@),
        },
{
    validate_safe_name("unit name", value)?;
    if !ends_with(value, suffix) {
        let mut e = owned("unit name must end with ");
        push_str(&mut e, suffix);
        return Err(e);
    }
    Ok(())
}

pub fn validate_target(value: &str) -> (r: Result<(), String>)
    ensures
        match r {
            Ok(()) => target_check(value@) is Ok,
            Err(e) => target_check(value@) == Err::<(), Seq<char>>(e@),
        },
{
    validate_unit_name(value, ".target")
}

pub fn validate_text(label: &str, value: &str) -> (r: Result<(), String>)
    ensures
        match r {
            Ok(()) => text_check(label@, value@) is Ok,
            Err(e) => text_check(label@, value@) == Err::<(), Seq<char>>(e@),
        },
{
    if is_blank(value) || any_control(value) {
        let mut e = owned("invalid ");
        push_str(&mut e, label);
        return Err(e);
    }
    Ok(())
}

pub fn validate_argument(value: &str) -> (r: Result<(), String>)
    ensures
        match r {
            Ok(()) => argument_check(value@) is Ok,
            Err(e) => argument_check(value@) == Err::<(), Seq<char>>(e@),
        },
{
    if value.is_empty() || any_control(value) {
        return Err(owned("service arguments cannot be empty or contain control characters"));
    }
    Ok(())
}

pub fn validate_duration(value: &str) -> (r: Result<(), String>)
    ensures
        match r {
            Ok(()) => duration_check(value@) is Ok,
            Err(e) => duration_check(value@) == Err::<(), Seq<char>>(e@),
        },
{
    let x = chars_of(value);
    let mut e = owned("invalid systemd duration: ");
    push_str(&mut e, value);
    if x.len() == 0 {
        return Err(e);
    }
    let mut i: usize = 0;
    while i < x.len()
        invariant
            x@ == value@,
            e@ == "invalid systemd duration: "@ + value@,
            i <= x.len(),
            forall|k: int| 0 <= k < i ==> duration_char(#[trigger] x@[k]),
        decreases x.len() - i,
    {
        let c = x[i];
        if !(char_is_alnum(c) || c == '.' || c == '-') {
            assert(!duration_char(x@[i as int]));
            return Err(e);
        }
        i += 1;
    }
    Ok(())
}

fn env_key_is_valid(key: &str) -> (r: bool)
    ensures
        r == env_key_ok(key@),
{
    let x = chars_of(key);
    if x.len() == 0 {
        return false;
    }
    let mut i: usize = 0;
    while i < x.len()
        invariant
            x@ == key@,
            i <= x.len(),
            forall|k: int|
                0 <= k < i ==> (#[trigger] x@[k] == '_' || is_alpha(x@[k]) || (k > 0 && is_digit(
                    x@[k],
                ))),
        decreases x.len() - i,
    {
        let c = x[i];
        if !(c == '_' || char_is_alpha(c) || (i > 0 && char_is_digit(c))) {
            return false;
        }
        i += 1;
    }
    true
}

pub fn validate_environment_entry(key: &str, value: &str) -> (r: Result<(), String>)
    ensures
        match r {
            Ok(()) => env_check((key@, value@)) is Ok,
            Err(e) => env_check((key@, value@)) == Err::<(), Seq<char>>(e@),
        },
{
    if !env_key_is_valid(key) {
        let mut e = owned("invalid environment key: ");
        push_str(&mut e, key);
        return Err(e);
    }
    if contains_char(value, '\0') || contains_char(value, '\n') || contains_char(value, '\r') {
        let mut e = owned("invalid environment value for ");
        push_str(&mut e, key);
        return Err(e);
    }
    Ok(())
}

// ---------------------------------------------------------------------------
// Escaping
// ---------------------------------------------------------------------------
/// `%` doubled, so that systemd does not read specifiers.
pub open spec fn escape_percent_seq(s: Seq<char>) -> Seq<char>
    decreases s.len(),
{
    if s.len() == 0 {
        s
    } else {
        escape_percent_seq(s.drop_last()) + if s.last() == '%' {
            seq!['%', '%']
        } else {
            seq![s.last()]
        }
    }
}

pub open spec fn systemd_escape_char(c: char) -> Seq<char> {
    if c == '%' {
        seq!['%', '%']
    } else if c == '\\' {
        seq!['\\', '\\']
    } else if c == '"' {
        seq!['\\', '"']
    } else {
        seq![c]
    }
}

pub open spec fn systemd_escape_seq(s: Seq<char>) -> Seq<char>
    decreases s.len(),
{
    if s.len() == 0 {
        s
    } else {
        systemd_escape_seq(s.drop_last()) + systemd_escape_char(s.last())
    }
}

/// A double-quoted systemd word: `%` doubled, `\` and `"` escaped.
pub open spec fn quote_seq(s: Seq<char>) -> Seq<char> {
    seq!['"'] + systemd_escape_seq(s) + seq!['"']
}

/// How systemd reads the inside of a double-quoted word: `%%` is `%`, `\\`
/// is `\`, `\"` is `"`; any other `%` starts a specifier, and any other `\`
/// or a bare `"` does not stand for itself, so such text reads as nothing.
pub open spec fn systemd_unescape(s: Seq<char>) -> Option<Seq<char>>
    decreases s.len(),
{
    if s.len() == 0 {
        Some(s)
    } else if s[0] == '%' || s[0] == '\\' {
        if s.len() >= 2 && ((s[0] == '%' && s[1] == '%') || (s[0] == '\\' && (s[1] == '\\' || s[1]
            == '"'))) {
            match systemd_unescape(s.subrange(2, s.len() as int)) {
                Some(rest) => Some(seq![s[1]] + rest),
                None => None,
            }
        } else {
            None
        }
    } else if s[0] == '"' {
        None
    } else {
        match systemd_unescape(s.subrange(1, s.len() as int)) {
            Some(rest) => Some(seq![s[0]] + rest),
            None => None,
        }
    }
}

/// The argument that systemd reads from one double-quoted word.
pub open spec fn systemd_word(q: Seq<char>) -> Option<Seq<char>> {
    if q.len() >= 2 && q[0] == '"' && q[q.len() - 1] == '"' {
        systemd_unescape(q.subrange(1, q.len() - 1))
    } else {
        None
    }
}

proof fn lemma_escape_concat(a: Seq<char>, b: Seq<char>)
    ensures
        systemd_escape_seq(a + b) == systemd_escape_seq(a) + systemd_escape_seq(b),
    decreases b.len(),
{
    if b.len() == 0 {
        assert(a + b =~= a);
        assert(systemd_escape_seq(a) + systemd_escape_seq(b) =~= systemd_escape_seq(a));
    } else {
        lemma_escape_concat(a, b.drop_last());
        assert((a + b).drop_last() =~= a + b.drop_last());
        assert((a + b).last() == b.last());
        assert(systemd_escape_seq(a + b) =~= systemd_escape_seq(a) + systemd_escape_seq(b));
    }
}

proof fn lemma_escape_roundtrip(s: Seq<char>)
    ensures
        systemd_unescape(systemd_escape_seq(s)) == Some(s),
    decreases s.len(),
{
    if s.len() > 0 {
        let c = s[0];
        let rest = s.subrange(1, s.len() as int);
        assert(s =~= seq![c] + rest);
        lemma_escape_concat(seq![c], rest);
        assert(seq![c].drop_last() =~= Seq::<char>::empty());
        assert(seq![c].last() == c);
        assert(systemd_escape_seq(Seq::<char>::empty()) =~= Seq::<char>::empty());
        assert(systemd_escape_seq(seq![c]) == systemd_escape_seq(seq![c].drop_last())
            + systemd_escape_char(c));
        assert(systemd_escape_seq(seq![c]) =~= systemd_escape_char(c));
        lemma_escape_roundtrip(rest);
        let e = systemd_escape_seq(s);
        let t = systemd_escape_seq(rest);
        assert(e =~= systemd_escape_char(c) + t);
        let k = systemd_escape_char(c).len() as int;
        assert(e.subrange(k, e.len() as int) =~= t);
        assert(seq![c] + rest =~= s);
    } else {
        assert(systemd_escape_seq(s) =~= s);
    }
}

proof fn lemma_escape_front(w: Seq<char>)
    requires
        w.len() > 0,
    ensures
        systemd_escape_seq(w) == systemd_escape_char(w[0]) + systemd_escape_seq(w.skip(1)),
{
    let c = w[0];
    assert(w =~= seq![c] + w.skip(1));
    lemma_escape_concat(seq![c], w.skip(1));
    assert(seq![c].drop_last() =~= Seq::<char>::empty());
    assert(seq![c].last() == c);
    assert(systemd_escape_seq(Seq::<char>::empty()) =~= Seq::<char>::empty());
    assert(systemd_escape_seq(seq![c]) == systemd_escape_seq(seq![c].drop_last())
        + systemd_escape_char(c));
    assert(systemd_escape_seq(seq![c]) =~= systemd_escape_char(c));
}

/// How systemd reads one double-quoted word after its opening quote, with
/// `acc` read so far: the word and the text after its closing quote.
pub open spec fn systemd_read_quoted(s: Seq<char>, acc: Seq<char>) -> Option<(Seq<char>, Seq<char>)>
    decreases s.len(),
{
    if s.len() == 0 {
        None
    } else if s[0] == '"' {
        Some((acc, s.skip(1)))
    } else if s[0] == '%' || s[0] == '\\' {
        if s.len() >= 2 && ((s[0] == '%' && s[1] == '%') || (s[0] == '\\' && (s[1] == '\\' || s[1]
            == '"'))) {
            systemd_read_quoted(s.skip(2), acc.push(s[1]))
        } else {
            None
        }
    } else {
        systemd_read_quoted(s.skip(1), acc.push(s[0]))
    }
}

/// How systemd reads a command line of double-quoted words separated by
/// single spaces: the arguments, or nothing if the line is not such a line.
pub open spec fn systemd_read_words(s: Seq<char>) -> Option<Seq<Seq<char>>>
    decreases s.len(),
{
    if s.len() == 0 {
        Some(Seq::empty())
    } else if s[0] != '"' {
        None
    } else {
        match systemd_read_quoted(s.skip(1), Seq::empty()) {
            None => None,
            Some((w, rest)) => if rest.len() == 0 {
                Some(seq![w])
            } else if rest[0] == ' ' && rest.len() < s.len() {
                match systemd_read_words(rest.skip(1)) {
                    Some(ws) => Some(seq![w] + ws),
                    None => None,
                }
            } else {
                None
            },
        }
    }
}

proof fn lemma_read_quoted(w: Seq<char>, acc: Seq<char>, t: Seq<char>)
    ensures
        systemd_read_quoted(systemd_escape_seq(w) + seq!['"'] + t, acc) == Some((acc + w, t)),
    decreases w.len(),
{
    let s = systemd_escape_seq(w) + seq!['"'] + t;
    if w.len() == 0 {
        assert(systemd_escape_seq(w) =~= Seq::<char>::empty());
        assert(s =~= seq!['"'] + t);
        assert(s.skip(1) =~= t);
        assert(acc + w =~= acc);
    } else {
        let c = w[0];
        let r = w.skip(1);
        lemma_escape_front(w);
        lemma_read_quoted(r, acc.push(c), t);
        let tail = systemd_escape_seq(r) + seq!['"'] + t;
        let k = systemd_escape_char(c).len() as int;
        assert(s =~= systemd_escape_char(c) + tail);
        assert(s.skip(k) =~= tail);
        assert(acc.push(c) + r =~= acc + w);
        if c == '%' || c == '\\' || c == '"' {
            assert(k == 2);
        } else {
            assert(k == 1);
        }
    }
}

proof fn lemma_join_front(a: Seq<char>, rest: Seq<Seq<char>>)
    requires
        rest.len() > 0,
    ensures
        join_quoted(seq![a] + rest) == quote_seq(a) + seq![' '] + join_quoted(rest),
    decreases rest.len(),
{
    let all = seq![a] + rest;
    if rest.len() == 1 {
        assert(all.len() == 2);
        assert(all.drop_last() =~= seq![a]);
        assert(all.last() == rest[0]);
        assert(seq![a][0] == a);
        assert(join_quoted(seq![a]) == quote_seq(a));
        assert(join_quoted(rest) == quote_seq(rest[0]));
        assert(join_quoted(all) == join_quoted(all.drop_last()) + seq![' '] + quote_seq(all.last()));
    } else {
        lemma_join_front(a, rest.drop_last());
        assert(all.drop_last() =~= seq![a] + rest.drop_last());
        assert(all.last() == rest.last());
        assert(join_quoted(all) =~= quote_seq(a) + seq![' '] + join_quoted(rest));
    }
}

/// Every argument quoted for an `ExecStart=` line reads back, by systemd's
/// rules, as exactly that argument: no `%` is left for systemd to take as a
/// specifier, and no `\` or `"` changes meaning.
pub proof fn law_quoted_arguments_read_back(arg: Seq<char>)
    ensures
        systemd_word(quote_seq(arg)) == Some(arg),
{
    let q = quote_seq(arg);
    lemma_escape_roundtrip(arg);
    assert(q.subrange(1, q.len() - 1) =~= systemd_escape_seq(arg));
}

pub fn escape_percent(value: &str) -> (r: String)
    ensures
        r@ == escape_percent_seq(value@),
{
    let x = chars_of(value);
    let mut r = String::new();
    let mut i: usize = 0;
    while i < x.len()
        invariant
            x@ == value@,
            i <= x.len(),
            r@ == escape_percent_seq(x@.take(i as int)),
        decreases x.len() - i,
    {
        let c = x[i];
        push_char(&mut r, c);
        if c == '%' {
            push_char(&mut r, '%');
        }
        assert(x@.take(i + 1).drop_last() =~= x@.take(i as int));
        i += 1;
    }
    assert(x@.take(x@.len() as int) =~= x@);
    r
}

fn push_systemd_escaped(r: &mut String, value: &str)
    ensures
        final(r)@ == old(r)@ + systemd_escape_seq(value@),
{
    let x = chars_of(value);
    let ghost start = r@;
    let mut i: usize = 0;
    while i < x.len()
        invariant
            x@ == value@,
            i <= x.len(),
            r@ == start + systemd_escape_seq(x@.take(i as int)),
        decreases x.len() - i,
    {
        let c = x[i];
        if c == '%' {
            push_char(r, '%');
            push_char(r, '%');
        } else if c == '\\' {
            push_char(r, '\\');
            push_char(r, '\\');
        } else if c == '"' {
            push_char(r, '\\');
            push_char(r, '"');
        } else {
            push_char(r, c);
        }
        assert(x@.take(i + 1).drop_last() =~= x@.take(i as int));
        assert(r@ =~= start + systemd_escape_seq(x@.take(i + 1)));
        i += 1;
    }
    assert(x@.take(x@.len() as int) =~= x@);
}

pub fn quote_systemd(value: &str) -> (r: String)
    ensures
        r@ == quote_seq(value@),
{
    let mut r = String::new();
    push_char(&mut r, '"');
    push_systemd_escaped(&mut r, value);
    push_char(&mut r, '"');
    assert(r@ =~= quote_seq(value@));
    r
}

// ---------------------------------------------------------------------------
// Rendering
// ---------------------------------------------------------------------------
/// Arguments quoted and separated by one space.
pub open spec fn join_quoted(args: Seq<Seq<char>>) -> Seq<char>
    decreases args.len(),
{
    if args.len() == 0 {
        Seq::empty()
    } else if args.len() == 1 {
        quote_seq(args[0])
    } else {
        join_quoted(args.drop_last()) + seq![' '] + quote_seq(args.last())
    }
}

/// An `ExecStart=` command line reads back, by systemd's rules, as exactly the
/// arguments it was rendered from, in order.
pub proof fn law_command_line_reads_back(args: Seq<Seq<char>>)
    ensures
        systemd_read_words(join_quoted(args)) == Some(args),
    decreases args.len(),
{
    if args.len() > 0 {
        let a = args[0];
        let rest = args.skip(1);
        assert(args =~= seq![a] + rest);
        let q = quote_seq(a);
        if rest.len() == 0 {
            assert(args =~= seq![a]);
            assert(join_quoted(args) == q);
            lemma_read_quoted(a, Seq::empty(), Seq::empty());
            assert(q.skip(1) =~= systemd_escape_seq(a) + seq!['"'] + Seq::<char>::empty());
            assert(Seq::<char>::empty() + a =~= a);
        } else {
            lemma_join_front(a, rest);
            law_command_line_reads_back(rest);
            let line = join_quoted(args);
            let t = seq![' '] + join_quoted(rest);
            assert(line =~= q + seq![' '] + join_quoted(rest));
            assert(line.skip(1) =~= systemd_escape_seq(a) + seq!['"'] + t);
            lemma_read_quoted(a, Seq::empty(), t);
            assert(Seq::<char>::empty() + a =~= a);
            assert(t.skip(1) =~= join_quoted(rest));
            assert(seq![a] + rest =~= args);
        }
    } else {
        assert(join_quoted(args) =~= Seq::<char>::empty());
    }
}

pub open spec fn env_lines(env: Seq<(Seq<char>, Seq<char>)>) -> Seq<char>
    decreases env.len(),
{
    if env.len() == 0 {
        Seq::empty()
    } else {
        env_lines(env.drop_last()) + "Environment="@ + quote_seq(
            env.last().0 + seq!['='] + env.last().1,
        ) + seq!['\n']
    }
}

pub open spec fn service_content(
    description: Seq<char>,
    exec_start: Seq<Seq<char>>,
    environment: Seq<(Seq<char>, Seq<char>)>,
    restart: RestartPolicy,
    wanted_by: Seq<char>,
) -> Seq<char> {
    "[Unit]\nDescription="@ + escape_percent_seq(description) + "\n\n[Service]\nType=simple\n"@
        + env_lines(environment) + "ExecStart="@ + join_quoted(exec_start) + "\nRestart="@
        + restart_text(restart) + "\n\n[Install]\nWantedBy="@ + wanted_by + "\n"@
}

/// `content` is `pre`, an `ExecStart=` whose command is `line`, then `post`
/// from the end of that line on.
pub open spec fn exec_start_at(content: Seq<char>, pre: Seq<char>, line: Seq<char>, post: Seq<char>) -> bool {
    content == pre + "ExecStart="@ + line + post && post.len() > 0 && post[0] == '\n'
}

/// A rendered service runs exactly its arguments: its unit holds an
/// `ExecStart=` line whose command, read by systemd's rules, is the
/// descriptor's `exec_start`.
pub proof fn law_service_runs_its_arguments(
    description: Seq<char>,
    exec_start: Seq<Seq<char>>,
    environment: Seq<(Seq<char>, Seq<char>)>,
    restart: RestartPolicy,
    wanted_by: Seq<char>,
)
    ensures
        exists|pre: Seq<char>, line: Seq<char>, post: Seq<char>|
            #[trigger] exec_start_at(
                service_content(description, exec_start, environment, restart, wanted_by),
                pre,
                line,
                post,
            ) && systemd_read_words(line) == Some(exec_start),
{
    let pre = "[Unit]\nDescription="@ + escape_percent_seq(description)
        + "\n\n[Service]\nType=simple\n"@ + env_lines(environment);
    let line = join_quoted(exec_start);
    let post = "\nRestart="@ + restart_text(restart) + "\n\n[Install]\nWantedBy="@ + wanted_by
        + "\n"@;
    law_command_line_reads_back(exec_start);
    reveal_strlit("\nRestart=");
    assert(service_content(description, exec_start, environment, restart, wanted_by) =~= pre
        + "ExecStart="@ + line + post);
    assert(post[0] == '\n');
    assert(exec_start_at(
        service_content(description, exec_start, environment, restart, wanted_by),
        pre,
        line,
        post,
    ));
}

pub open spec fn schedule_line(key: Seq<char>, value: Option<Seq<char>>) -> Seq<char> {
    match value {
        Some(v) => key + v + seq!['\n'],
        None => Seq::empty(),
    }
}

pub open spec fn timer_content(
    description: Seq<char>,
    target_unit: Seq<char>,
    on_boot_sec: Option<Seq<char>>,
    on_active_sec: Option<Seq<char>>,
    on_unit_active_sec: Option<Seq<char>>,
    wanted_by: Seq<char>,
) -> Seq<char> {
    "[Unit]\nDescription="@ + escape_percent_seq(description) + "\n\n[Timer]\n"@ + schedule_line(
        "OnBootSec="@,
        on_boot_sec,
    ) + schedule_line("OnActiveSec="@, on_active_sec) + schedule_line(
        "OnUnitActiveSec="@,
        on_unit_active_sec,
    ) + "Unit="@ + target_unit + "\nPersistent=true\n\n[Install]\nWantedBy="@ + wanted_by
        + "\n"@
}

pub open spec fn service_checks(
    id: Seq<char>,
    unit_name: Seq<char>,
    description: Seq<char>,
    exec_start: Seq<Seq<char>>,
    environment: Seq<(Seq<char>, Seq<char>)>,
    wanted_by: Seq<char>,
) -> Result<(), Seq<char>> {
    then_check(
        id_check(id),
        then_check(
            unit_name_check(unit_name, ".service"@),
            then_check(
                text_check("description"@, description),
                then_check(
                    target_check(wanted_by),
                    then_check(
                        if exec_start.len() == 0 {
                            Err("service exec_start cannot be empty"@)
                        } else {
                            Ok(())
                        },
                        then_check(
                            first_error(exec_start, |a: Seq<char>| argument_check(a)),
                            first_error(
                                environment,
                                |e: (Seq<char>, Seq<char>)| env_check(e),
                            ),
                        ),
                    ),
                ),
            ),
        ),
    )
}

pub open spec fn timer_checks(
    id: Seq<char>,
    unit_name: Seq<char>,
    description: Seq<char>,
    target_unit: Seq<char>,
    on_boot_sec: Option<Seq<char>>,
    on_active_sec: Option<Seq<char>>,
    on_unit_active_sec: Option<Seq<char>>,
    wanted_by: Seq<char>,
) -> Result<(), Seq<char>> {
    then_check(
        id_check(id),
        then_check(
            unit_name_check(unit_name, ".timer"@),
            then_check(
                unit_name_check(target_unit, ".service"@),
                then_check(
                    text_check("description"@, description),
                    then_check(
                        target_check(wanted_by),
                        then_check(
                            if on_boot_sec is None && on_active_sec is None
                                && on_unit_active_sec is None {
                                Err(
                                    "timer requires on_boot_sec, on_active_sec or on_unit_active_sec"@,
                                )
                            } else {
                                Ok(())
                            },
                            then_check(
                                opt_duration_check(on_boot_sec),
                                then_check(
                                    opt_duration_check(on_active_sec),
                                    opt_duration_check(on_unit_active_sec),
                                ),
                            ),
                        ),
                    ),
                ),
            ),
        ),
    )
}

/// `(id, unit name, file content)` of a valid descriptor, or the first validation error.
pub open spec fn render_spec(d: UnitDescriptor) -> Result<
    (Seq<char>, Seq<char>, Seq<char>),
    Seq<char>,
> {
    match d {
        UnitDescriptor::Service {
            id,
            unit_name,
            description,
            exec_start,
            environment,
            restart,
            wanted_by,
        } => match service_checks(
            id@,
            unit_name@,
            description@,
            views(exec_start@),
            pair_views(environment@),
            wanted_by@,
        ) {
            Err(e) => Err(e),
            Ok(_) => Ok(
                (
                    id@,
                    unit_name@,
                    service_content(
                        description@,
                        views(exec_start@),
                        pair_views(environment@),
                        restart,
                        wanted_by@,
                    ),
                ),
            ),
        },
        UnitDescriptor::Timer {
            id,
            unit_name,
            description,
            target_unit,
            on_boot_sec,
            on_active_sec,
            on_unit_active_sec,
            wanted_by,
        } => match timer_checks(
            id@,
            unit_name@,
            description@,
            target_unit@,
            opt_view(on_boot_sec),
            opt_view(on_active_sec),
            opt_view(on_unit_active_sec),
            wanted_by@,
        ) {
            Err(e) => Err(e),
            Ok(_) => Ok(
                (
                    id@,
                    unit_name@,
                    timer_content(
                        description@,
                        target_unit@,
                        opt_view(on_boot_sec),
                        opt_view(on_active_sec),
                        opt_view(on_unit_active_sec),
                        wanted_by@,
                    ),
                ),
            ),
        },
    }
}

pub open spec fn render_view(r: Result<(String, String, String), String>) -> Result<
    (Seq<char>, Seq<char>, Seq<char>),
    Seq<char>,
> {
    match r {
        Ok(t) => Ok((t.0@, t.1@, t.2@)),
        Err(e) => Err(e@),
    }
}

fn validate_arguments(args: &Vec<String>) -> (r: Result<(), String>)
    ensures
        match r {
            Ok(()) => first_error(views(args@), |a: Seq<char>| argument_check(a)) is Ok,
            Err(e) => first_error(views(args@), |a: Seq<char>| argument_check(a)) == Err::<
                (),
                Seq<char>,
            >(e@),
        },
{
    let ghost s = views(args@);
    let ghost f = |a: Seq<char>| argument_check(a);
    let mut i: usize = 0;
    while i < args.len()
        invariant
            s == views(args@),
            f == (|a: Seq<char>| argument_check(a)),
            i <= args.len(),
            first_error(s.take(i as int), f) is Ok,
        decreases args.len() - i,
    {
        let check = validate_argument(args[i].as_str());
        proof {
            lemma_first_error_step(s, f, i as int);
        }
        match check {
            Ok(()) => {},
            Err(e) => {
                proof {
                    lemma_first_error_prefix(s, f, i + 1);
                }
                return Err(e);
            },
        }
        i += 1;
    }
    assert(s.take(args.len() as int) =~= s);
    Ok(())
}

fn validate_environment(env: &Vec<(String, String)>) -> (r: Result<(), String>)
    ensures
        match r {
            Ok(()) => first_error(pair_views(env@), |e: (Seq<char>, Seq<char>)| env_check(e)) is Ok,
            Err(e) => first_error(pair_views(env@), |e: (Seq<char>, Seq<char>)| env_check(e))
                == Err::<(), Seq<char>>(e@),
        },
{
    let ghost s = pair_views(env@);
    let ghost f = |e: (Seq<char>, Seq<char>)| env_check(e);
    let mut i: usize = 0;
    while i < env.len()
        invariant
            s == pair_views(env@),
            f == (|e: (Seq<char>, Seq<char>)| env_check(e)),
            i <= env.len(),
            first_error(s.take(i as int), f) is Ok,
        decreases env.len() - i,
    {
        let check = validate_environment_entry(env[i].0.as_str(), env[i].1.as_str());
        proof {
            lemma_first_error_step(s, f, i as int);
        }
        match check {
            Ok(()) => {},
            Err(e) => {
                proof {
                    lemma_first_error_prefix(s, f, i + 1);
                }
                return Err(e);
            },
        }
        i += 1;
    }
    assert(s.take(env.len() as int) =~= s);
    Ok(())
}

fn push_joined_quoted(r: &mut String, args: &Vec<String>)
    ensures
        final(r)@ == old(r)@ + join_quoted(views(args@)),
{
    let ghost s = views(args@);
    let ghost start = r@;
    let mut i: usize = 0;
    while i < args.len()
        invariant
            s == views(args@),
            i <= args.len(),
            r@ == start + join_quoted(s.take(i as int)),
        decreases args.len() - i,
    {
        if i > 0 {
            push_char(r, ' ');
        }
        let q = quote_systemd(args[i].as_str());
        push_str(r, q.as_str());
        assert(s.take(i + 1).drop_last() =~= s.take(i as int));
        assert(r@ =~= start + join_quoted(s.take(i + 1)));
        i += 1;
    }
    assert(s.take(args.len() as int) =~= s);
}

fn push_env_lines(r: &mut String, env: &Vec<(String, String)>)
    ensures
        final(r)@ == old(r)@ + env_lines(pair_views(env@)),
{
    let ghost s = pair_views(env@);
    let ghost start = r@;
    let mut i: usize = 0;
    while i < env.len()
        invariant
            s == pair_views(env@),
            i <= env.len(),
            r@ == start + env_lines(s.take(i as int)),
        decreases env.len() - i,
    {
        let mut assignment = owned(env[i].0.as_str());
        push_char(&mut assignment, '=');
        push_str(&mut assignment, env[i].1.as_str());
        let q = quote_systemd(assignment.as_str());
        assert(s[i as int] == (env@[i as int].0@, env@[i as int].1@));
        assert(assignment@ =~= s[i as int].0 + seq!['='] + s[i as int].1);
        push_str(r, "Environment=");
        push_str(r, q.as_str());
        push_char(r, '\n');
        assert(s.take(i + 1).drop_last() =~= s.take(i as int));
        assert(r@ =~= start + env_lines(s.take(i + 1)));
        i += 1;
    }
    assert(s.take(env.len() as int) =~= s);
}

fn push_schedule_line(r: &mut String, key: &str, value: &Option<String>)
    ensures
        final(r)@ == old(r)@ + schedule_line(key@, opt_view(*value)),
{
    match value {
        Some(v) => {
            push_str(r, key);
            push_str(r, v.as_str());
            push_char(r, '\n');
            assert(r@ =~= old(r)@ + schedule_line(key@, opt_view(*value)));
        },
        None => {
            assert(r@ =~= old(r)@ + schedule_line(key@, opt_view(*value)));
        },
    }
}

fn validate_optional_duration(value: &Option<String>) -> (r: Result<(), String>)
    ensures
        match r {
            Ok(()) => opt_duration_check(opt_view(*value)) is Ok,
            Err(e) => opt_duration_check(opt_view(*value)) == Err::<(), Seq<char>>(e@),
        },
{
    match value {
        Some(v) => validate_duration(v.as_str()),
        None => Ok(()),
    }
}

/// Validates a descriptor and renders its unit file.
pub fn render(descriptor: &UnitDescriptor) -> (r: Result<(String, String, String), String>)
    ensures
        render_view(r) == render_spec(*descriptor),
{
    match descriptor {
        UnitDescriptor::Service {
            id,
            unit_name,
            description,
            exec_start,
            environment,
            restart,
            wanted_by,
        } => {
            validate_id(id.as_str())?;
            validate_unit_name(unit_name.as_str(), ".service")?;
            validate_text("description", description.as_str())?;
            validate_target(wanted_by.as_str())?;
            if exec_start.len() == 0 {
                return Err(owned("service exec_start cannot be empty"));
            }
            validate_arguments(exec_start)?;
            validate_environment(environment)?;
            let mut content = owned("[Unit]\nDescription=");
            let escaped = escape_percent(description.as_str());
            push_str(&mut content, escaped.as_str());
            push_str(&mut content, "\n\n[Service]\nType=simple\n");
            push_env_lines(&mut content, environment);
            push_str(&mut content, "ExecStart=");
            push_joined_quoted(&mut content, exec_start);
            push_str(&mut content, "\nRestart=");
            push_str(&mut content, restart.as_systemd());
            push_str(&mut content, "\n\n[Install]\nWantedBy=");
            push_str(&mut content, wanted_by.as_str());
            push_str(&mut content, "\n");
            assert(content@ =~= service_content(
                description@,
                views(exec_start@),
                pair_views(environment@),
                *restart,
                wanted_by@,
            ));
            Ok((id.clone(), unit_name.clone(), content))
        },
        UnitDescriptor::Timer {
            id,
            unit_name,
            description,
            target_unit,
            on_boot_sec,
            on_active_sec,
            on_unit_active_sec,
            wanted_by,
        } => {
            validate_id(id.as_str())?;
            validate_unit_name(unit_name.as_str(), ".timer")?;
            validate_unit_name(target_unit.as_str(), ".service")?;
            validate_text("description", description.as_str())?;
            validate_target(wanted_by.as_str())?;
            if on_boot_sec.is_none() && on_active_sec.is_none() && on_unit_active_sec.is_none() {
                return Err(
                    owned("timer requires on_boot_sec, on_active_sec or on_unit_active_sec"),
                );
            }
            validate_optional_duration(on_boot_sec)?;
            validate_optional_duration(on_active_sec)?;
            validate_optional_duration(on_unit_active_sec)?;
            let mut content = owned("[Unit]\nDescription=");
            let escaped = escape_percent(description.as_str());
            push_str(&mut content, escaped.as_str());
            push_str(&mut content, "\n\n[Timer]\n");
            push_schedule_line(&mut content, "OnBootSec=", on_boot_sec);
            push_schedule_line(&mut content, "OnActiveSec=", on_active_sec);
            push_schedule_line(&mut content, "OnUnitActiveSec=", on_unit_active_sec);
            push_str(&mut content, "Unit=");
            push_str(&mut content, target_unit.as_str());
            push_str(&mut content, "\nPersistent=true\n\n[Install]\nWantedBy=");
            push_str(&mut content, wanted_by.as_str());
            push_str(&mut content, "\n");
            assert(content@ =~= timer_content(
                description@,
                target_unit@,
                opt_view(*on_boot_sec),
                opt_view(*on_active_sec),
                opt_view(*on_unit_active_sec),
                wanted_by@,
            ));
            Ok((id.clone(), unit_name.clone(), content))
        },
    }
}

} // verus!

verus! {

// ---------------------------------------------------------------------------
// Paths
// ---------------------------------------------------------------------------
/// Unix absolute path.
pub open spec fn is_absolute(p: Seq<char>) -> bool {
    p.len() > 0 && p[0] == '/'
}

/// `PathBuf::join` of a relative file name onto a directory.
pub open spec fn path_join(root: Seq<char>, name: Seq<char>) -> Seq<char> {
    if root.len() == 0 {
        name
    } else if root.last() == '/' {
        root + name
    } else {
        root + seq!['/'] + name
    }
}

pub fn absolute(path: &str) -> (r: bool)
    ensures
        r == is_absolute(path@),
{
    let x = chars_of(path);
    x.len() > 0 && x[0] == '/'
}

pub fn join_path(root: &str, name: &str) -> (r: String)
    ensures
        r@ == path_join(root@, name@),
{
    let x = chars_of(root);
    let mut r = owned(root);
    if x.len() > 0 && x[x.len() - 1] != '/' {
        push_char(&mut r, '/');
    }
    push_str(&mut r, name);
    r
}

pub open spec fn roots_check(unit_root: Seq<char>, registry_path: Seq<char>) -> Result<(), Seq<char>> {
    if is_absolute(unit_root) && is_absolute(registry_path) {
        Ok(())
    } else {
        Err("service unit and registry paths must be absolute"@)
    }
}

/// The plan of a descriptor under the given roots.
pub open spec fn plan_spec(unit_root: Seq<char>, registry_path: Seq<char>, d: UnitDescriptor) -> Result<
    PlanView,
    Seq<char>,
> {
    match roots_check(unit_root, registry_path) {
        Err(e) => Err(e),
        Ok(_) => match render_spec(d) {
            Err(e) => Err(e),
            Ok(t) => Ok(
                PlanView { id: t.0, unit_name: t.1, path: path_join(unit_root, t.1), content: t.2 },
            ),
        },
    }
}

pub open spec fn unit_type_of(d: UnitDescriptor) -> Seq<char> {
    match d {
        UnitDescriptor::Service { .. } => "service"@,
        UnitDescriptor::Timer { .. } => "timer"@,
    }
}

pub open spec fn target_of(d: UnitDescriptor) -> Option<Seq<char>> {
    match d {
        UnitDescriptor::Service { .. } => None,
        UnitDescriptor::Timer { target_unit, .. } => Some(target_unit@),
    }
}

pub open spec fn record_spec(d: UnitDescriptor, plan: PlanView) -> RecordView {
    RecordView {
        id: plan.id,
        unit_name: plan.unit_name,
        path: plan.path,
        unit_type: unit_type_of(d),
        target_unit: target_of(d),
    }
}

/// The registry record of a planned descriptor.
pub fn record_for(descriptor: &UnitDescriptor, plan: &UnitPlan) -> (r: UnitRecord)
    ensures
        r@ == record_spec(*descriptor, plan@),
{
    match descriptor {
        UnitDescriptor::Service { .. } => UnitRecord {
            id: plan.id.clone(),
            unit_name: plan.unit_name.clone(),
            path: plan.path.clone(),
            unit_type: owned("service"),
            target_unit: None,
        },
        UnitDescriptor::Timer { target_unit, .. } => UnitRecord {
            id: plan.id.clone(),
            unit_name: plan.unit_name.clone(),
            path: plan.path.clone(),
            unit_type: owned("timer"),
            target_unit: Some(target_unit.clone()),
        },
    }
}

pub fn default_target() -> (r: String)
    ensures
        r@ == "default.target"@,
{
    owned("default.target")
}

pub fn default_timer_target() -> (r: String)
    ensures
        r@ == "timers.target"@,
{
    owned("timers.target")
}

// ---------------------------------------------------------------------------
// Registry model
// ---------------------------------------------------------------------------
/// The compositor's private record of the units it created.
#[derive(Debug, Clone)]
pub struct Registry {
    pub schema_version: u8,
    pub units: Vec<UnitRecord>,
}

pub open spec fn record_views(units: Seq<UnitRecord>) -> Seq<RecordView> {
    units.map_values(|r: UnitRecord| r@)
}

impl View for Registry {
    type V = Seq<RecordView>;

    open spec fn view(&self) -> Seq<RecordView> {
        record_views(self.units@)
    }
}

impl Registry {
    /// The registry that exists before anything was registered.
    pub fn empty() -> (r: Registry)
        ensures
            r@ == Seq::<RecordView>::empty(),
            r.schema_version == 1,
    {
        let r = Registry { schema_version: 1, units: Vec::new() };
        assert(r@ =~= Seq::<RecordView>::empty());
        r
    }

    /// A registry that was read back is used only when it has schema 1.
    pub fn accept(self) -> (r: Result<Registry, String>)
        ensures
            match r {
                Ok(reg) => self.schema_version == 1 && reg == self,
                Err(e) => self.schema_version != 1 && e@ == "unsupported service registry schema: "@
                    + decimal(self.schema_version as nat),
            },
    {
        if self.schema_version == 1 {
            Ok(self)
        } else {
            let mut e = owned("unsupported service registry schema: ");
            let n = u64_to_string(self.schema_version as u64);
            push_str(&mut e, n.as_str());
            Err(e)
        }
    }
}

/// The first record registered under `id`.
pub open spec fn find_first(s: Seq<RecordView>, id: Seq<char>) -> Option<int>
    decreases s.len(),
{
    if s.len() == 0 {
        None
    } else {
        match find_first(s.drop_last(), id) {
            Some(k) => Some(k),
            None => if s.last().id == id {
                Some(s.len() - 1)
            } else {
                None
            },
        }
    }
}

/// The registry without any record under `id`.
pub open spec fn without_id(s: Seq<RecordView>, id: Seq<char>) -> Seq<RecordView>
    decreases s.len(),
{
    if s.len() == 0 {
        s
    } else if s.last().id == id {
        without_id(s.drop_last(), id)
    } else {
        without_id(s.drop_last(), id).push(s.last())
    }
}

/// The registry with `r` recorded under its id.
pub open spec fn with_record(s: Seq<RecordView>, r: RecordView) -> Seq<RecordView> {
    without_id(s, r.id).push(r)
}

pub open spec fn has_id(s: Seq<RecordView>, id: Seq<char>) -> bool {
    exists|j: int| 0 <= j < s.len() && (#[trigger] s[j]).id == id
}

pub proof fn lemma_find_first(s: Seq<RecordView>, id: Seq<char>)
    ensures
        match find_first(s, id) {
            Some(k) => 0 <= k < s.len() && s[k].id == id && forall|j: int|
                0 <= j < k ==> (#[trigger] s[j]).id != id,
            None => !has_id(s, id),
        },
    decreases s.len(),
{
    if s.len() > 0 {
        let t = s.drop_last();
        lemma_find_first(t, id);
        match find_first(t, id) {
            Some(k) => {
                assert forall|j: int| 0 <= j < k implies (#[trigger] s[j]).id != id by {
                    assert(s[j] == t[j]);
                }
                assert(s[k] == t[k]);
            },
            None => {
                if s.last().id != id {
                    assert forall|j: int| 0 <= j < s.len() implies (#[trigger] s[j]).id != id by {
                        if j < s.len() - 1 {
                            assert(s[j] == t[j]);
                        }
                    }
                } else {
                    assert forall|j: int| 0 <= j < s.len() - 1 implies (#[trigger] s[j]).id
                        != id by {
                        assert(s[j] == t[j]);
                    }
                }
            },
        }
    }
}

/// Removing an id that is not registered leaves the registry unchanged.
pub proof fn lemma_without_absent(s: Seq<RecordView>, id: Seq<char>)
    requires
        !has_id(s, id),
    ensures
        without_id(s, id) == s,
    decreases s.len(),
{
    if s.len() > 0 {
        let t = s.drop_last();
        assert(!has_id(t, id)) by {
            if has_id(t, id) {
                let j = choose|j: int| 0 <= j < t.len() && (#[trigger] t[j]).id == id;
                assert(s[j] == t[j]);
            }
        }
        assert(s[s.len() - 1].id != id);
        lemma_without_absent(t, id);
        assert(t.push(s.last()) =~= s);
    }
}

fn find_record(units: &Vec<UnitRecord>, id: &str) -> (r: Option<usize>)
    ensures
        match r {
            Some(k) => k < units.len() && find_first(record_views(units@), id@) == Some(k as int),
            None => find_first(record_views(units@), id@) is None,
        },
{
    let ghost s = record_views(units@);
    proof {
        lemma_find_first(s, id@);
    }
    let mut i: usize = 0;
    while i < units.len()
        invariant
            s == record_views(units@),
            i <= units.len(),
            forall|j: int| 0 <= j < i ==> (#[trigger] s[j]).id != id@,
        decreases units.len() - i,
    {
        if str_eq(units[i].id.as_str(), id) {
            proof {
                lemma_find_first(s, id@);
                match find_first(s, id@) {
                    Some(k) => {
                        if k > i {
                        } else if k < i {
                            assert(s[k].id != id@);
                        }
                    },
                    None => {
                        assert(s[i as int].id == id@);
                    },
                }
            }
            return Some(i);
        }
        i += 1;
    }
    proof {
        lemma_find_first(s, id@);
        if find_first(s, id@) is Some {
            let k = find_first(s, id@)->0;
            assert(s[k].id != id@);
        }
    }
    None
}

fn remove_id(units: &Vec<UnitRecord>, id: &str) -> (r: Vec<UnitRecord>)
    ensures
        record_views(r@) == without_id(record_views(units@), id@),
{
    let ghost s = record_views(units@);
    let mut r: Vec<UnitRecord> = Vec::new();
    let mut i: usize = 0;
    while i < units.len()
        invariant
            s == record_views(units@),
            i <= units.len(),
            record_views(r@) == without_id(s.take(i as int), id@),
        decreases units.len() - i,
    {
        assert(s.take(i + 1).drop_last() =~= s.take(i as int));
        if !str_eq(units[i].id.as_str(), id) {
            r.push(units[i].duplicate());
            assert(record_views(r@) =~= without_id(s.take(i as int), id@).push(s[i as int]));
        }
        i += 1;
    }
    assert(s.take(units.len() as int) =~= s);
    r
}

fn insert_record(units: &Vec<UnitRecord>, record: UnitRecord) -> (r: Vec<UnitRecord>)
    ensures
        record_views(r@) == with_record(record_views(units@), record@),
{
    let mut r = remove_id(units, record.id.as_str());
    let ghost before = record_views(r@);
    r.push(record);
    assert(record_views(r@) =~= before.push(record@));
    r
}

} // verus!

verus! {

// ---------------------------------------------------------------------------
// Batches
// ---------------------------------------------------------------------------
/// What a validated batch adds: the next registry, the plans and the records.
pub struct BatchView {
    pub registry: Seq<RecordView>,
    pub plans: Seq<PlanView>,
    pub records: Seq<RecordView>,
}

pub open spec fn runtime_check(d: UnitDescriptor, executable_present: bool) -> Result<(), Seq<char>> {
    match d {
        UnitDescriptor::Service { exec_start, .. } => if is_absolute(exec_start@[0]@)
            && executable_present {
            Ok(())
        } else {
            Err("service executable must be an existing absolute file"@)
        },
        UnitDescriptor::Timer { .. } => Ok(()),
    }
}

pub open spec fn plans_clash(plans: Seq<PlanView>, plan: PlanView) -> bool {
    exists|j: int|
        0 <= j < plans.len() && ((#[trigger] plans[j]).id == plan.id || plans[j].unit_name
            == plan.unit_name)
}

pub open spec fn name_taken_by_other(prev: Seq<RecordView>, plan: PlanView) -> bool {
    exists|j: int|
        0 <= j < prev.len() && (#[trigger] prev[j]).id != plan.id && prev[j].unit_name
            == plan.unit_name
}

/// One descriptor of a batch, checked against the batch so far and the previous registry.
pub open spec fn batch_step(
    prev: Seq<RecordView>,
    unit_root: Seq<char>,
    registry_path: Seq<char>,
    acc: BatchView,
    d: UnitDescriptor,
    executable_present: bool,
) -> Result<BatchView, Seq<char>> {
    match runtime_check(d, executable_present) {
        Err(e) => Err(e),
        Ok(_) => match plan_spec(unit_root, registry_path, d) {
            Err(e) => Err(e),
            Ok(plan) => if plans_clash(acc.plans, plan) {
                Err("duplicate unit in batch: "@ + plan.unit_name)
            } else if find_first(prev, plan.id) is Some && prev[find_first(
                prev,
                plan.id,
            )->0].unit_name != plan.unit_name {
                Err(
                    "service id already owns another unit: "@ + prev[find_first(
                        prev,
                        plan.id,
                    )->0].unit_name,
                )
            } else if name_taken_by_other(prev, plan) {
                Err("unit is already registered under another id: "@ + plan.unit_name)
            } else {
                Ok(
                    BatchView {
                        registry: with_record(acc.registry, record_spec(d, plan)),
                        plans: acc.plans.push(plan),
                        records: acc.records.push(record_spec(d, plan)),
                    },
                )
            },
        },
    }
}

pub open spec fn batch_fold(
    prev: Seq<RecordView>,
    unit_root: Seq<char>,
    registry_path: Seq<char>,
    ds: Seq<UnitDescriptor>,
    present: Seq<bool>,
) -> Result<BatchView, Seq<char>>
    decreases ds.len(),
{
    if ds.len() == 0 {
        Ok(BatchView { registry: prev, plans: Seq::empty(), records: Seq::empty() })
    } else {
        match batch_fold(prev, unit_root, registry_path, ds.drop_last(), present.take(ds.len() - 1)) {
            Err(e) => Err(e),
            Ok(acc) => batch_step(
                prev,
                unit_root,
                registry_path,
                acc,
                ds.last(),
                present[ds.len() - 1],
            ),
        }
    }
}

pub open spec fn has_service_named(s: Seq<RecordView>, name: Seq<char>) -> bool {
    exists|j: int|
        0 <= j < s.len() && (#[trigger] s[j]).unit_name == name && s[j].unit_type == "service"@
}

pub open spec fn timer_target_check(registry: Seq<RecordView>, d: UnitDescriptor) -> Result<
    (),
    Seq<char>,
> {
    match d {
        UnitDescriptor::Timer { target_unit, .. } => if has_service_named(registry, target_unit@) {
            Ok(())
        } else {
            Err("timer target is not registered by the compositor: "@ + target_unit@)
        },
        UnitDescriptor::Service { .. } => Ok(()),
    }
}

/// The outcome of materializing a batch, given whether systemctl is available.
pub open spec fn batch_spec(
    prev: Seq<RecordView>,
    unit_root: Seq<char>,
    registry_path: Seq<char>,
    ds: Seq<UnitDescriptor>,
    present: Seq<bool>,
    systemctl_available: bool,
) -> Result<BatchView, Seq<char>> {
    if ds.len() == 0 {
        Err("unit batch cannot be empty"@)
    } else if !systemctl_available {
        Err("systemctl is not installed"@)
    } else {
        match roots_check(unit_root, registry_path) {
            Err(e) => Err(e),
            Ok(_) => match batch_fold(prev, unit_root, registry_path, ds, present) {
                Err(e) => Err(e),
                Ok(acc) => match first_error(ds, |d: UnitDescriptor| timer_target_check(acc.registry, d)) {
                    Err(e) => Err(e),
                    Ok(_) => Ok(acc),
                },
            },
        }
    }
}

/// The registry, unit files and records that a valid batch produces.
pub struct BatchPlan {
    pub registry: Registry,
    pub plans: Vec<UnitPlan>,
    pub records: Vec<UnitRecord>,
}

pub open spec fn plan_views(v: Seq<UnitPlan>) -> Seq<PlanView> {
    v.map_values(|p: UnitPlan| p@)
}

pub open spec fn batch_view(r: Result<BatchPlan, String>) -> Result<BatchView, Seq<char>> {
    match r {
        Ok(b) => Ok(
            BatchView {
                registry: b.registry@,
                plans: plan_views(b.plans@),
                records: record_views(b.records@),
            },
        ),
        Err(e) => Err(e@),
    }
}

pub open spec fn services_have_commands(ds: Seq<UnitDescriptor>) -> bool {
    forall|i: int|
        0 <= i < ds.len() ==> match #[trigger] ds[i] {
            UnitDescriptor::Service { exec_start, .. } => exec_start@.len() > 0,
            UnitDescriptor::Timer { .. } => true,
        }
}

// ---------------------------------------------------------------------------
// Removal and control
// ---------------------------------------------------------------------------
pub open spec fn record_check(unit_root: Seq<char>, r: RecordView) -> Result<(), Seq<char>> {
    then_check(
        id_check(r.id),
        then_check(
            unit_name_check(
                r.unit_name,
                if seq_ends_with(r.unit_name, ".service"@) {
                    ".service"@
                } else {
                    ".timer"@
                },
            ),
            if r.path == path_join(unit_root, r.unit_name) {
                Ok(())
            } else {
                Err("registered unit path does not match managed root: "@ + r.path)
            },
        ),
    )
}

/// The first record that schedules the unit `name`.
pub open spec fn find_dependent(s: Seq<RecordView>, name: Seq<char>) -> Option<int>
    decreases s.len(),
{
    if s.len() == 0 {
        None
    } else {
        match find_dependent(s.drop_last(), name) {
            Some(k) => Some(k),
            None => if s.last().target_unit == Some(name) {
                Some(s.len() - 1)
            } else {
                None
            },
        }
    }
}

/// What removing `id` does to the registry: nothing to remove, or the record and the rest.
pub open spec fn removal_spec(
    prev: Seq<RecordView>,
    unit_root: Seq<char>,
    registry_path: Seq<char>,
    id: Seq<char>,
) -> Result<Option<(RecordView, Seq<RecordView>)>, Seq<char>> {
    match id_check(id) {
        Err(e) => Err(e),
        Ok(_) => match roots_check(unit_root, registry_path) {
            Err(e) => Err(e),
            Ok(_) => match find_first(prev, id) {
                None => Ok(None),
                Some(k) => match record_check(unit_root, prev[k]) {
                    Err(e) => Err(e),
                    Ok(_) => match find_dependent(prev, prev[k].unit_name) {
                        Some(j) => Err("unit is required by registered timer: "@ + prev[j].unit_name),
                        None => Ok(Some((prev[k], without_id(prev, id)))),
                    },
                },
            },
        },
    }
}

pub open spec fn removal_view(r: Result<Option<(UnitRecord, Registry)>, String>) -> Result<
    Option<(RecordView, Seq<RecordView>)>,
    Seq<char>,
> {
    match r {
        Ok(Some(p)) => Ok(Some((p.0@, p.1@))),
        Ok(None) => Ok(None),
        Err(e) => Err(e@),
    }
}

pub open spec fn control_action_known(action: Seq<char>) -> bool {
    action == "status"@ || action == "start"@ || action == "stop"@ || action == "restart"@ || action
        == "enable"@ || action == "disable"@
}

/// The record that `control` acts on, or why it refuses.
pub open spec fn control_spec(
    prev: Seq<RecordView>,
    unit_root: Seq<char>,
    registry_path: Seq<char>,
    id: Seq<char>,
    action: Seq<char>,
) -> Result<int, Seq<char>> {
    match id_check(id) {
        Err(e) => Err(e),
        Ok(_) => match roots_check(unit_root, registry_path) {
            Err(e) => Err(e),
            Ok(_) => match find_first(prev, id) {
                None => Err("service id not found: "@ + id),
                Some(k) => match record_check(unit_root, prev[k]) {
                    Err(e) => Err(e),
                    Ok(_) => if control_action_known(action) {
                        Ok(k)
                    } else {
                        Err("unsupported service action: "@ + action)
                    },
                },
            },
        },
    }
}

/// The systemctl arguments, after `--user`, that an action on a unit runs; none for `status`.
pub open spec fn control_args(action: Seq<char>, unit_name: Seq<char>) -> Seq<Seq<char>> {
    if action == "status"@ {
        Seq::empty()
    } else if action == "enable"@ {
        seq!["enable"@, "--now"@, unit_name]
    } else if action == "disable"@ {
        seq!["disable"@, "--now"@, unit_name]
    } else {
        seq![action, unit_name]
    }
}

pub open spec fn user_args(args: Seq<Seq<char>>) -> Seq<Seq<char>> {
    seq!["--user"@] + args
}

// ---------------------------------------------------------------------------
// The manager
// ---------------------------------------------------------------------------
/// Materializes typed units under one directory and keeps their registry.
pub struct UnitManager<E> {
    pub executor: E,
    pub unit_root: String,
    pub registry_path: String,
}

/// `systemctl --user verb unit`.
pub open spec fn unit_query(verb: Seq<char>, unit_name: Seq<char>) -> Seq<Seq<char>> {
    user_args(seq![verb, unit_name])
}

/// `r` is what an outcome that `executor` gives for `systemctl args` comes to.
pub open spec fn systemctl_ran<E>(executor: E, args: Seq<Seq<char>>, r: Result<(), String>) -> bool {
    exists|o: Result<ProcessOutput, String>|
        #[trigger] answers(executor, "systemctl"@, args, o) && match o {
            Ok(_) => r is Ok,
            Err(x) => r == Err::<(), String>(x),
        }
}

/// The systemctl command line, `--user` first, that an action on a unit runs;
/// none for `status`.
pub fn control_command(action: &str, unit_name: &str) -> (r: Option<Vec<String>>)
    requires
        control_action_known(action@),
    ensures
        action@ == "status"@ ==> r is None,
        action@ != "status"@ ==> (r matches Some(v) && views(v@) == user_args(
            control_args(action@, unit_name@),
        )),
{
    if str_eq(action, "status") {
        return None;
    }
    let mut v: Vec<String> = Vec::new();
    v.push(owned("--user"));
    if str_eq(action, "enable") || str_eq(action, "disable") {
        v.push(owned(action));
        v.push(owned("--now"));
    } else {
        v.push(owned(action));
    }
    v.push(owned(unit_name));
    assert(views(v@) =~= user_args(control_args(action@, unit_name@)));
    Some(v)
}

/// `["--user", args...]` for systemctl.
pub fn systemctl_args(args: &[&str]) -> (r: Vec<String>)
    ensures
        views(r@) == user_args(args@.map_values(|a: &str| a@)),
{
    let mut r: Vec<String> = Vec::new();
    r.push(owned("--user"));
    let mut i: usize = 0;
    while i < args.len()
        invariant
            i <= args.len(),
            views(r@) == user_args(args@.map_values(|a: &str| a@).take(i as int)),
        decreases args.len() - i,
    {
        let ghost before = views(r@);
        let a = owned(args[i]);
        r.push(a);
        assert(args@.map_values(|a: &str| a@)[i as int] == args@[i as int]@);
        assert(views(r@) =~= before.push(args@[i as int]@));
        assert(args@.map_values(|a: &str| a@).take(i + 1) =~= args@.map_values(|a: &str| a@).take(
            i as int,
        ).push(args@[i as int]@));
        assert(views(r@) =~= user_args(args@.map_values(|a: &str| a@).take(i + 1)));
        i += 1;
    }
    assert(args@.map_values(|a: &str| a@).take(args.len() as int) =~= args@.map_values(
        |a: &str| a@,
    ));
    r
}

impl<E: ProcessExecutor> UnitManager<E> {
    pub fn new(executor: E, unit_root: String, registry_path: String) -> (r: Self)
        ensures
            r.executor == executor,
            r.unit_root@ == unit_root@,
            r.registry_path@ == registry_path@,
    {
        UnitManager { executor, unit_root, registry_path }
    }

    /// Whether systemctl can be run, as the executor reports it.
    /// Whether the executor finds systemctl.
    pub fn available(&self) -> (r: bool)
        ensures
            finds(self.executor, "systemctl"@, r),
    {
        self.executor.command_exists("systemctl")
    }

    pub fn validate_roots(&self) -> (r: Result<(), String>)
        ensures
            match r {
                Ok(()) => roots_check(self.unit_root@, self.registry_path@) is Ok,
                Err(e) => roots_check(self.unit_root@, self.registry_path@) == Err::<
                    (),
                    Seq<char>,
                >(e@),
            },
    {
        if !absolute(self.unit_root.as_str()) || !absolute(self.registry_path.as_str()) {
            return Err(owned("service unit and registry paths must be absolute"));
        }
        Ok(())
    }

    /// Validates a descriptor and renders the unit file it would install.
    pub fn plan(&self, descriptor: &UnitDescriptor) -> (r: Result<UnitPlan, String>)
        ensures
            match r {
                Ok(p) => plan_spec(self.unit_root@, self.registry_path@, *descriptor) == Ok::<
                    PlanView,
                    Seq<char>,
                >(p@),
                Err(e) => plan_spec(self.unit_root@, self.registry_path@, *descriptor) == Err::<
                    PlanView,
                    Seq<char>,
                >(e@),
            },
    {
        self.validate_roots()?;
        let (id, unit_name, content) = render(descriptor)?;
        let path = join_path(self.unit_root.as_str(), unit_name.as_str());
        Ok(UnitPlan { id, unit_name, path, content })
    }

    /// Runs `systemctl --user args...`; the outcome is the executor's.
    pub fn systemctl(&self, args: &[&str]) -> (r: Result<(), String>)
        ensures
            systemctl_ran(self.executor, user_args(args@.map_values(|a: &str| a@)), r),
    {
        let args = systemctl_args(args);
        self.run_systemctl(args.as_slice())
    }

    /// Runs systemctl with exactly these arguments; the outcome is the executor's.
    pub fn run_systemctl(&self, args: &[String]) -> (r: Result<(), String>)
        ensures
            systemctl_ran(self.executor, views(args@), r),
    {
        let output = self.executor.run("systemctl", args);
        let ghost o = output;
        assert(answers(self.executor, "systemctl"@, views(args@), o));
        match output {
            Ok(_) => Ok(()),
            Err(e) => Err(e),
        }
    }

    /// Refuses a tampered record whose identity or path leaves the managed root.
    pub fn validate_record(&self, record: &UnitRecord) -> (r: Result<(), String>)
        ensures
            match r {
                Ok(()) => record_check(self.unit_root@, record@) is Ok,
                Err(e) => record_check(self.unit_root@, record@) == Err::<(), Seq<char>>(e@),
            },
    {
        validate_id(record.id.as_str())?;
        let suffix = if ends_with(record.unit_name.as_str(), ".service") {
            ".service"
        } else {
            ".timer"
        };
        validate_unit_name(record.unit_name.as_str(), suffix)?;
        let expected = join_path(self.unit_root.as_str(), record.unit_name.as_str());
        if !str_eq(record.path.as_str(), expected.as_str()) {
            let mut e = owned("registered unit path does not match managed root: ");
            push_str(&mut e, record.path.as_str());
            return Err(e);
        }
        Ok(())
    }

    /// The status of a registered unit; `installed` is whether its file exists,
    /// and systemctl's `is-enabled` and `is-active` answers give the rest.
    pub fn status_for(&self, record: &UnitRecord, installed: bool) -> (r: UnitStatus)
        ensures
            r.id@ == record.id@,
            r.unit_name@ == record.unit_name@,
            r.installed == installed,
            exists|x: Result<(), String>|
                #[trigger] systemctl_ran(
                    self.executor,
                    unit_query("is-enabled"@, record.unit_name@),
                    x,
                ) && r.enabled == x is Ok,
            exists|x: Result<(), String>|
                #[trigger] systemctl_ran(
                    self.executor,
                    unit_query("is-active"@, record.unit_name@),
                    x,
                ) && r.active == x is Ok,
    {
        let name = record.unit_name.as_str();
        let enabled_args = systemctl_args(&["is-enabled", name]);
        assert(views(enabled_args@) =~= unit_query("is-enabled"@, record.unit_name@)) by {
            reveal_strlit("is-enabled");
        }
        let enabled_run = self.run_systemctl(enabled_args.as_slice());
        let enabled = enabled_run.is_ok();
        let active_args = systemctl_args(&["is-active", name]);
        assert(views(active_args@) =~= unit_query("is-active"@, record.unit_name@)) by {
            reveal_strlit("is-active");
        }
        let active_run = self.run_systemctl(active_args.as_slice());
        let active = active_run.is_ok();
        UnitStatus {
            id: record.id.clone(),
            unit_name: record.unit_name.clone(),
            installed,
            enabled,
            active,
        }
    }

    /// The registered records.
    pub fn list(&self, registry: &Registry) -> (r: Result<Vec<UnitRecord>, String>)
        ensures
            match r {
                Ok(v) => roots_check(self.unit_root@, self.registry_path@) is Ok && record_views(
                    v@,
                ) == sort_by_id(registry@),
                Err(e) => roots_check(self.unit_root@, self.registry_path@) == Err::<
                    (),
                    Seq<char>,
                >(e@),
            },
    {
        self.validate_roots()?;
        let ghost s = registry@;
        let mut out: Vec<UnitRecord> = Vec::new();
        let mut i: usize = 0;
        assert(s.take(0) =~= Seq::<RecordView>::empty());
        while i < registry.units.len()
            invariant
                i <= registry.units.len(),
                s == registry@,
                record_views(out@) == sort_by_id(s.take(i as int)),
            decreases registry.units.len() - i,
        {
            let x = registry.units[i].duplicate();
            let ghost o = record_views(out@);
            assert(s.take(i + 1).drop_last() =~= s.take(i as int));
            assert(s.take(i + 1).last() == x@);
            let mut j: usize = out.len();
            while j > 0 && text_lt_str(x.id.as_str(), out[j - 1].id.as_str())
                invariant
                    j <= out.len(),
                    o == record_views(out@),
                    forall|m: int| j <= m < o.len() ==> text_lt(x@.id, #[trigger] o[m].id),
                decreases j,
            {
                j -= 1;
            }
            proof {
                lemma_insert_by_id_at(o, x@, j as int);
            }
            let ghost xv = x@;
            out.insert(j, x);
            assert(record_views(out@) =~= o.insert(j as int, xv));
            i += 1;
        }
        assert(s.take(registry.units.len() as int) =~= s);
        Ok(out)
    }

    /// Starts, stops, restarts, enables, disables or reports a registered unit.
    ///
    /// `unit_files[i]` tells whether the file of `registry.units[i]` exists.
    pub fn control(&self, registry: &Registry, unit_files: &[bool], id: &str, action: &str) -> (r:
        Result<UnitStatus, String>)
        requires
            unit_files.len() == registry.units.len(),
        ensures
            match control_spec(registry@, self.unit_root@, self.registry_path@, id@, action@) {
                Err(e) => r matches Err(x) && x@ == e,
                Ok(k) => match r {
                    Ok(s) => s.id@ == registry@[k].id && s.unit_name@ == registry@[k].unit_name
                        && s.installed == unit_files@[k],
                    Err(x) => control_args(action@, registry@[k].unit_name).len() > 0
                        && systemctl_ran(
                        self.executor,
                        user_args(control_args(action@, registry@[k].unit_name)),
                        Err(x),
                    ),
                },
            },
            match control_spec(registry@, self.unit_root@, self.registry_path@, id@, action@) {
                Ok(k) => r is Ok && control_args(action@, registry@[k].unit_name).len() > 0
                    ==> systemctl_ran(
                    self.executor,
                    user_args(control_args(action@, registry@[k].unit_name)),
                    Ok(()),
                ),
                Err(_) => true,
            },
    {
        validate_id(id)?;
        self.validate_roots()?;
        let k = match find_record(&registry.units, id) {
            Some(k) => k,
            None => {
                let mut e = owned("service id not found: ");
                push_str(&mut e, id);
                return Err(e);
            },
        };
        let record = &registry.units[k];
        assert(record@ == registry@[k as int]);
        self.validate_record(record)?;
        let name = record.unit_name.as_str();
        let known = str_eq(action, "status") || str_eq(action, "start") || str_eq(action, "stop")
            || str_eq(action, "restart") || str_eq(action, "enable") || str_eq(action, "disable");
        if !known {
            let mut e = owned("unsupported service action: ");
            push_str(&mut e, action);
            return Err(e);
        }
        match control_command(action, name) {
            Some(args) => {
                self.run_systemctl(args.as_slice())?;
            },
            None => {},
        }
        Ok(self.status_for(record, unit_files[k]))
    }
}

} // verus!

verus! {

/// A batch error at a prefix is the batch's error.
pub proof fn lemma_batch_fold_prefix(
    prev: Seq<RecordView>,
    unit_root: Seq<char>,
    registry_path: Seq<char>,
    ds: Seq<UnitDescriptor>,
    present: Seq<bool>,
    k: int,
)
    requires
        0 <= k <= ds.len(),
        present.len() == ds.len(),
        batch_fold(prev, unit_root, registry_path, ds.take(k), present.take(k)) is Err,
    ensures
        batch_fold(prev, unit_root, registry_path, ds, present) == batch_fold(
            prev,
            unit_root,
            registry_path,
            ds.take(k),
            present.take(k),
        ),
    decreases ds.len() - k,
{
    if k == ds.len() {
        assert(ds.take(k) =~= ds);
        assert(present.take(k) =~= present);
    } else {
        lemma_batch_fold_unfold(prev, unit_root, registry_path, ds, present, k);
        lemma_batch_fold_prefix(prev, unit_root, registry_path, ds, present, k + 1);
    }
}

pub proof fn lemma_batch_fold_unfold(
    prev: Seq<RecordView>,
    unit_root: Seq<char>,
    registry_path: Seq<char>,
    ds: Seq<UnitDescriptor>,
    present: Seq<bool>,
    i: int,
)
    requires
        0 <= i < ds.len(),
        present.len() == ds.len(),
    ensures
        batch_fold(prev, unit_root, registry_path, ds.take(i + 1), present.take(i + 1)) == match batch_fold(
            prev,
            unit_root,
            registry_path,
            ds.take(i),
            present.take(i),
        ) {
            Err(e) => Err(e),
            Ok(acc) => batch_step(prev, unit_root, registry_path, acc, ds[i], present[i]),
        },
{
    assert(ds.take(i + 1).drop_last() =~= ds.take(i));
    assert(present.take(i + 1).take(i) =~= present.take(i));
}

fn plans_clash_exec(plans: &Vec<UnitPlan>, plan: &UnitPlan) -> (r: bool)
    ensures
        r == plans_clash(plan_views(plans@), plan@),
{
    let ghost s = plan_views(plans@);
    let mut i: usize = 0;
    while i < plans.len()
        invariant
            s == plan_views(plans@),
            i <= plans.len(),
            forall|j: int|
                0 <= j < i ==> !((#[trigger] s[j]).id == plan@.id || s[j].unit_name
                    == plan@.unit_name),
        decreases plans.len() - i,
    {
        if str_eq(plans[i].id.as_str(), plan.id.as_str()) || str_eq(
            plans[i].unit_name.as_str(),
            plan.unit_name.as_str(),
        ) {
            assert(s[i as int] == plans@[i as int]@);
            return true;
        }
        i += 1;
    }
    false
}

fn name_taken_exec(prev: &Vec<UnitRecord>, plan: &UnitPlan) -> (r: bool)
    ensures
        r == name_taken_by_other(record_views(prev@), plan@),
{
    let ghost s = record_views(prev@);
    let mut i: usize = 0;
    while i < prev.len()
        invariant
            s == record_views(prev@),
            i <= prev.len(),
            forall|j: int|
                0 <= j < i ==> !((#[trigger] s[j]).id != plan@.id && s[j].unit_name
                    == plan@.unit_name),
        decreases prev.len() - i,
    {
        if !str_eq(prev[i].id.as_str(), plan.id.as_str()) && str_eq(
            prev[i].unit_name.as_str(),
            plan.unit_name.as_str(),
        ) {
            assert(s[i as int] == prev@[i as int]@);
            return true;
        }
        i += 1;
    }
    false
}

fn has_service_named_exec(units: &Vec<UnitRecord>, name: &str) -> (r: bool)
    ensures
        r == has_service_named(record_views(units@), name@),
{
    let ghost s = record_views(units@);
    let mut i: usize = 0;
    while i < units.len()
        invariant
            s == record_views(units@),
            i <= units.len(),
            forall|j: int|
                0 <= j < i ==> !((#[trigger] s[j]).unit_name == name@ && s[j].unit_type
                    == "service"@),
        decreases units.len() - i,
    {
        if str_eq(units[i].unit_name.as_str(), name) && str_eq(
            units[i].unit_type.as_str(),
            "service",
        ) {
            assert(s[i as int] == units@[i as int]@);
            return true;
        }
        i += 1;
    }
    false
}

fn check_timer_targets(registry: &Vec<UnitRecord>, descriptors: &[UnitDescriptor]) -> (r: Result<
    (),
    String,
>)
    ensures
        match r {
            Ok(()) => first_error(
                descriptors@,
                |d: UnitDescriptor| timer_target_check(record_views(registry@), d),
            ) is Ok,
            Err(e) => first_error(
                descriptors@,
                |d: UnitDescriptor| timer_target_check(record_views(registry@), d),
            ) == Err::<(), Seq<char>>(e@),
        },
{
    let ghost s = descriptors@;
    let ghost f = |d: UnitDescriptor| timer_target_check(record_views(registry@), d);
    let mut i: usize = 0;
    while i < descriptors.len()
        invariant
            s == descriptors@,
            f == (|d: UnitDescriptor| timer_target_check(record_views(registry@), d)),
            i <= descriptors.len(),
            first_error(s.take(i as int), f) is Ok,
        decreases descriptors.len() - i,
    {
        proof {
            lemma_first_error_step(s, f, i as int);
        }
        match &descriptors[i] {
            UnitDescriptor::Timer { target_unit, .. } => {
                if !has_service_named_exec(registry, target_unit.as_str()) {
                    let mut e = owned("timer target is not registered by the compositor: ");
                    push_str(&mut e, target_unit.as_str());
                    proof {
                        lemma_first_error_prefix(s, f, i + 1);
                    }
                    return Err(e);
                }
            },
            UnitDescriptor::Service { .. } => {},
        }
        i += 1;
    }
    assert(s.take(descriptors.len() as int) =~= s);
    Ok(())
}

impl<E: ProcessExecutor> UnitManager<E> {
    /// Validates a batch against the registry; `systemctl_available` is the executor's answer.
    ///
    /// `executables_present[i]` tells whether the executable of a service descriptor `i`
    /// is an existing file.
    pub fn plan_batch(
        &self,
        registry: &Registry,
        descriptors: &[UnitDescriptor],
        executables_present: &[bool],
        systemctl_available: bool,
    ) -> (r: Result<BatchPlan, String>)
        requires
            executables_present.len() == descriptors.len(),
            services_have_commands(descriptors@),
        ensures
            batch_view(r) == batch_spec(
                registry@,
                self.unit_root@,
                self.registry_path@,
                descriptors@,
                executables_present@,
                systemctl_available,
            ),
            r matches Ok(b) ==> b.registry.schema_version == 1,
    {
        if descriptors.len() == 0 {
            return Err(owned("unit batch cannot be empty"));
        }
        if !systemctl_available {
            return Err(owned("systemctl is not installed"));
        }
        self.validate_roots()?;
        let ghost prev = registry@;
        let ghost ds = descriptors@;
        let ghost present = executables_present@;
        let ghost root = self.unit_root@;
        let ghost rpath = self.registry_path@;
        let mut units: Vec<UnitRecord> = Vec::new();
        let mut j: usize = 0;
        while j < registry.units.len()
            invariant
                j <= registry.units.len(),
                record_views(units@) == record_views(registry.units@).take(j as int),
            decreases registry.units.len() - j,
        {
            let ghost before = record_views(units@);
            let d = registry.units[j].duplicate();
            units.push(d);
            assert(record_views(units@) =~= before.push(registry.units@[j as int]@));
            assert(record_views(units@) =~= record_views(registry.units@).take(j + 1));
            j += 1;
        }
        assert(record_views(registry.units@).take(registry.units.len() as int) =~= prev);
        let mut plans: Vec<UnitPlan> = Vec::new();
        let mut records: Vec<UnitRecord> = Vec::new();
        assert(ds.take(0) =~= Seq::<UnitDescriptor>::empty());
        assert(record_views(units@) =~= prev);
        assert(plan_views(plans@) =~= Seq::<PlanView>::empty());
        assert(record_views(records@) =~= Seq::<RecordView>::empty());
        let mut i: usize = 0;
        while i < descriptors.len()
            invariant
                ds == descriptors@,
                present == executables_present@,
                prev == registry@,
                root == self.unit_root@,
                rpath == self.registry_path@,
                roots_check(root, rpath) is Ok,
                systemctl_available,
                ds.len() > 0,
                present.len() == ds.len(),
                services_have_commands(ds),
                i <= ds.len(),
                batch_fold(prev, root, rpath, ds.take(i as int), present.take(i as int)) == Ok::<
                    BatchView,
                    Seq<char>,
                >(
                    BatchView {
                        registry: record_views(units@),
                        plans: plan_views(plans@),
                        records: record_views(records@),
                    },
                ),
            decreases ds.len() - i,
        {
            proof {
                lemma_batch_fold_unfold(prev, root, rpath, ds, present, i as int);
            }
            let descriptor = &descriptors[i];
            match descriptor {
                UnitDescriptor::Service { exec_start, .. } => {
                    assert(exec_start@.len() > 0) by {
                        assert(match ds[i as int] {
                            UnitDescriptor::Service { exec_start, .. } => exec_start@.len() > 0,
                            UnitDescriptor::Timer { .. } => true,
                        });
                    }
                    if !(absolute(exec_start[0].as_str()) && executables_present[i]) {
                        proof {
                            assert(runtime_check(ds[i as int], present[i as int]) is Err);
                            assert(batch_fold(prev, root, rpath, ds.take(i + 1), present.take(i + 1)) is Err);
                            lemma_batch_fold_prefix(prev, root, rpath, ds, present, i + 1);
                        }
                        return Err(owned("service executable must be an existing absolute file"));
                    }
                },
                UnitDescriptor::Timer { .. } => {},
            }
            let plan = match self.plan(descriptor) {
                Ok(p) => p,
                Err(e) => {
                    proof {
                        lemma_batch_fold_prefix(prev, root, rpath, ds, present, i + 1);
                    }
                    return Err(e);
                },
            };
            if plans_clash_exec(&plans, &plan) {
                let mut e = owned("duplicate unit in batch: ");
                push_str(&mut e, plan.unit_name.as_str());
                proof {
                    lemma_batch_fold_prefix(prev, root, rpath, ds, present, i + 1);
                }
                return Err(e);
            }
            match find_record(&registry.units, plan.id.as_str()) {
                Some(k) => {
                    if !str_eq(registry.units[k].unit_name.as_str(), plan.unit_name.as_str()) {
                        let mut e = owned("service id already owns another unit: ");
                        push_str(&mut e, registry.units[k].unit_name.as_str());
                        proof {
                            assert(prev[k as int] == registry.units@[k as int]@);
                            lemma_batch_fold_prefix(prev, root, rpath, ds, present, i + 1);
                        }
                        return Err(e);
                    }
                    assert(prev[k as int] == registry.units@[k as int]@);
                },
                None => {},
            }
            if name_taken_exec(&registry.units, &plan) {
                let mut e = owned("unit is already registered under another id: ");
                push_str(&mut e, plan.unit_name.as_str());
                proof {
                    lemma_batch_fold_prefix(prev, root, rpath, ds, present, i + 1);
                }
                return Err(e);
            }
            let record = record_for(descriptor, &plan);
            units = insert_record(&units, record.duplicate());
            let ghost plans_before = plan_views(plans@);
            let ghost records_before = record_views(records@);
            let ghost pv = plan@;
            let ghost rv = record@;
            plans.push(plan);
            records.push(record);
            assert(plan_views(plans@) =~= plans_before.push(pv));
            assert(record_views(records@) =~= records_before.push(rv));
            i += 1;
        }
        assert(ds.take(ds.len() as int) =~= ds);
        assert(present.take(present.len() as int) =~= present);
        check_timer_targets(&units, descriptors)?;
        Ok(BatchPlan { registry: Registry { schema_version: 1, units }, plans, records })
    }

    /// Validates a batch, asking the executor whether systemctl is available.
    pub fn prepare_batch(
        &self,
        registry: &Registry,
        descriptors: &[UnitDescriptor],
        executables_present: &[bool],
    ) -> (r: Result<BatchPlan, String>)
        requires
            executables_present.len() == descriptors.len(),
            services_have_commands(descriptors@),
        ensures
            batch_view(r) == batch_spec(
                registry@,
                self.unit_root@,
                self.registry_path@,
                descriptors@,
                executables_present@,
                true,
            ) || batch_view(r) == batch_spec(
                registry@,
                self.unit_root@,
                self.registry_path@,
                descriptors@,
                executables_present@,
                false,
            ),
    {
        let available = self.available();
        self.plan_batch(registry, descriptors, executables_present, available)
    }

    /// Decides what removing `id` does: nothing, or the record and the registry without it.
    pub fn prepare_removal(&self, registry: &Registry, id: &str) -> (r: Result<
        Option<(UnitRecord, Registry)>,
        String,
    >)
        ensures
            removal_view(r) == removal_spec(
                registry@,
                self.unit_root@,
                self.registry_path@,
                id@,
            ),
            r matches Ok(Some((_, rest))) ==> rest.schema_version == registry.schema_version,
    {
        validate_id(id)?;
        self.validate_roots()?;
        let k = match find_record(&registry.units, id) {
            Some(k) => k,
            None => {
                return Ok(None);
            },
        };
        let record = registry.units[k].duplicate();
        assert(record@ == registry@[k as int]);
        self.validate_record(&record)?;
        match find_dependent_exec(&registry.units, record.unit_name.as_str()) {
            Some(j) => {
                let mut e = owned("unit is required by registered timer: ");
                push_str(&mut e, registry.units[j].unit_name.as_str());
                assert(registry@[j as int] == registry.units@[j as int]@);
                return Err(e);
            },
            None => {},
        }
        let rest = remove_id(&registry.units, id);
        Ok(Some((record, Registry { schema_version: registry.schema_version, units: rest })))
    }
}

fn find_dependent_exec(units: &Vec<UnitRecord>, name: &str) -> (r: Option<usize>)
    ensures
        match r {
            Some(k) => k < units.len() && find_dependent(record_views(units@), name@) == Some(
                k as int,
            ),
            None => find_dependent(record_views(units@), name@) is None,
        },
{
    let ghost s = record_views(units@);
    let mut i: usize = 0;
    while i < units.len()
        invariant
            s == record_views(units@),
            i <= units.len(),
            find_dependent(s.take(i as int), name@) is None,
        decreases units.len() - i,
    {
        assert(s.take(i + 1).drop_last() =~= s.take(i as int));
        let hit = match &units[i].target_unit {
            Some(t) => str_eq(t.as_str(), name),
            None => false,
        };
        assert(s[i as int] == units@[i as int]@);
        if hit {
            proof {
                lemma_find_dependent_prefix(s, name@, i + 1);
            }
            return Some(i);
        }
        i += 1;
    }
    assert(s.take(units.len() as int) =~= s);
    None
}

pub proof fn lemma_find_dependent_prefix(s: Seq<RecordView>, name: Seq<char>, k: int)
    requires
        0 <= k <= s.len(),
        find_dependent(s.take(k), name) is Some,
    ensures
        find_dependent(s, name) == find_dependent(s.take(k), name),
    decreases s.len() - k,
{
    if k == s.len() {
        assert(s.take(k) =~= s);
    } else {
        assert(s.take(k + 1).drop_last() =~= s.take(k));
        lemma_find_dependent_prefix(s, name, k + 1);
    }
}

} // verus!

verus! {

pub proof fn lemma_find_first_push(s: Seq<RecordView>, r: RecordView)
    requires
        !has_id(s, r.id),
    ensures
        find_first(s.push(r), r.id) == Some(s.len() as int),
{
    lemma_find_first(s, r.id);
    assert(s.push(r).drop_last() =~= s);
}

pub proof fn lemma_find_dependent_none(s: Seq<RecordView>, name: Seq<char>)
    requires
        forall|j: int| 0 <= j < s.len() ==> (#[trigger] s[j]).target_unit != Some(name),
    ensures
        find_dependent(s, name) is None,
    decreases s.len(),
{
    if s.len() > 0 {
        let t = s.drop_last();
        assert forall|j: int| 0 <= j < t.len() implies (#[trigger] t[j]).target_unit != Some(
            name,
        ) by {
            assert(t[j] == s[j]);
        }
        lemma_find_dependent_none(t, name);
        assert(s[s.len() - 1].target_unit != Some(name));
    }
}

pub proof fn lemma_find_dependent_some(s: Seq<RecordView>, name: Seq<char>)
    ensures
        find_dependent(s, name) is None ==> forall|j: int|
            0 <= j < s.len() ==> (#[trigger] s[j]).target_unit != Some(name),
    decreases s.len(),
{
    if s.len() > 0 {
        let t = s.drop_last();
        lemma_find_dependent_some(t, name);
        if find_dependent(s, name) is None {
            assert forall|j: int| 0 <= j < s.len() implies (#[trigger] s[j]).target_unit != Some(
                name,
            ) by {
                if j < s.len() - 1 {
                    assert(t[j] == s[j]);
                }
            }
        }
    }
}

/// Applying a unit under a fresh id and then removing that id gives back the registry
/// as it was, when no registered timer schedules the unit.
pub proof fn law_apply_then_remove_restores_registry(
    prev: Seq<RecordView>,
    unit_root: Seq<char>,
    registry_path: Seq<char>,
    d: UnitDescriptor,
    executable_present: bool,
)
    requires
        batch_spec(prev, unit_root, registry_path, seq![d], seq![executable_present], true) is Ok,
        !has_id(
            prev,
            batch_spec(
                prev,
                unit_root,
                registry_path,
                seq![d],
                seq![executable_present],
                true,
            )->Ok_0.records[0].id,
        ),
        find_dependent(
            prev,
            batch_spec(
                prev,
                unit_root,
                registry_path,
                seq![d],
                seq![executable_present],
                true,
            )->Ok_0.records[0].unit_name,
        ) is None,
    ensures
        ({
            let acc = batch_spec(
                prev,
                unit_root,
                registry_path,
                seq![d],
                seq![executable_present],
                true,
            )->Ok_0;
            removal_spec(acc.registry, unit_root, registry_path, acc.records[0].id) == Ok::<
                Option<(RecordView, Seq<RecordView>)>,
                Seq<char>,
            >(Some((acc.records[0], prev)))
        }),
{
    let ds = seq![d];
    let present = seq![executable_present];
    assert(ds.drop_last() =~= Seq::<UnitDescriptor>::empty());
    assert(present.take(0) =~= Seq::<bool>::empty());
    let acc0 = BatchView { registry: prev, plans: Seq::empty(), records: Seq::empty() };
    assert(batch_fold(prev, unit_root, registry_path, ds.drop_last(), present.take(0)) == Ok::<
        BatchView,
        Seq<char>,
    >(acc0));
    let acc = batch_spec(prev, unit_root, registry_path, ds, present, true)->Ok_0;
    let plan = plan_spec(unit_root, registry_path, d)->Ok_0;
    let rec = record_spec(d, plan);
    assert(acc.records[0] == rec);
    lemma_without_absent(prev, rec.id);
    assert(acc.registry == prev.push(rec));
    lemma_find_first_push(prev, rec);
    // the record passes its own checks
    let t = render_spec(d)->Ok_0;
    assert(rec.path == path_join(unit_root, rec.unit_name));
    match d {
        UnitDescriptor::Service { unit_name, .. } => {
            assert(seq_ends_with(rec.unit_name, ".service"@));
        },
        UnitDescriptor::Timer { unit_name, target_unit, .. } => {
            reveal_strlit(".service");
            reveal_strlit(".timer");
            assert(seq_ends_with(rec.unit_name, ".timer"@));
            if seq_ends_with(rec.unit_name, ".service"@) {
                let n = rec.unit_name.len() as int;
                assert(rec.unit_name.skip(n - 8)[7] == rec.unit_name[n - 1]);
                assert(rec.unit_name.skip(n - 6)[5] == rec.unit_name[n - 1]);
                assert(rec.unit_name[rec.unit_name.len() - 1] == 'e');
                assert(rec.unit_name[rec.unit_name.len() - 1] == 'r');
            }
            assert(seq_ends_with(target_unit@, ".service"@));
            if target_unit@ == rec.unit_name {
                let n = rec.unit_name.len() as int;
                assert(rec.unit_name.skip(n - 8)[7] == rec.unit_name[n - 1]);
                assert(rec.unit_name.skip(n - 6)[5] == rec.unit_name[n - 1]);
                assert(rec.unit_name[rec.unit_name.len() - 1] == 'e');
                assert(rec.unit_name[rec.unit_name.len() - 1] == 'r');
            }
        },
    }
    assert(record_check(unit_root, rec) is Ok);
    lemma_find_dependent_some(prev, rec.unit_name);
    lemma_find_dependent_none(prev.push(rec), rec.unit_name);
    assert(prev.push(rec)[prev.len() as int] == rec);
    lemma_without_absent(prev, rec.id);
    assert(without_id(prev.push(rec), rec.id) == without_id(prev, rec.id)) by {
        assert(prev.push(rec).drop_last() =~= prev);
    }
}


/// No two records share an id.
pub open spec fn ids_distinct(s: Seq<RecordView>) -> bool {
    forall|i: int, j: int| 0 <= i < j < s.len() ==> (#[trigger] s[i]).id != (#[trigger] s[j]).id
}

proof fn lemma_without_id_keeps_distinct(s: Seq<RecordView>, id: Seq<char>)
    ensures
        ids_distinct(s) ==> ids_distinct(without_id(s, id)),
        forall|k: int| 0 <= k < without_id(s, id).len() ==> (#[trigger] without_id(s, id)[k]).id != id,
        forall|k: int|
            0 <= k < without_id(s, id).len() ==> exists|m: int|
                0 <= m < s.len() && s[m] == #[trigger] without_id(s, id)[k],
    decreases s.len(),
{
    if s.len() > 0 {
        let t = s.drop_last();
        lemma_without_id_keeps_distinct(t, id);
        let w = without_id(t, id);
        assert forall|k: int| 0 <= k < w.len() implies exists|m: int|
            0 <= m < s.len() && s[m] == #[trigger] w[k] by {
            let m = choose|m: int| 0 <= m < t.len() && t[m] == w[k];
            assert(s[m] == t[m]);
        }
        if s.last().id != id {
            let u = w.push(s.last());
            assert(without_id(s, id) == u);
            if ids_distinct(s) {
                assert forall|i: int, j: int| 0 <= i < j < t.len() implies (#[trigger] t[i]).id
                    != (#[trigger] t[j]).id by {
                    assert(t[i] == s[i] && t[j] == s[j]);
                }
                assert forall|i: int, j: int| 0 <= i < j < u.len() implies (#[trigger] u[i]).id
                    != (#[trigger] u[j]).id by {
                    if j < w.len() {
                        assert(u[i] == w[i] && u[j] == w[j]);
                    } else {
                        assert(u[i] == w[i]);
                        let m = choose|m: int| 0 <= m < t.len() && t[m] == w[i];
                        assert(s[m] == t[m]);
                        assert(s[s.len() - 1] == s.last());
                    }
                }
            }
            assert forall|k: int| 0 <= k < u.len() implies exists|m: int|
                0 <= m < s.len() && s[m] == #[trigger] u[k] by {
                if k < w.len() {
                    assert(u[k] == w[k]);
                    let m = choose|m: int| 0 <= m < s.len() && s[m] == w[k];
                    assert(s[m] == u[k]);
                } else {
                    assert(s[s.len() - 1] == u[k]);
                }
            }
        } else {
            if ids_distinct(s) {
                assert forall|i: int, j: int| 0 <= i < j < t.len() implies (#[trigger] t[i]).id
                    != (#[trigger] t[j]).id by {
                    assert(t[i] == s[i] && t[j] == s[j]);
                }
            }
        }
    }
}

proof fn lemma_with_record_keeps_distinct(s: Seq<RecordView>, r: RecordView)
    requires
        ids_distinct(s),
    ensures
        ids_distinct(with_record(s, r)),
{
    lemma_without_id_keeps_distinct(s, r.id);
    let w = without_id(s, r.id);
    let u = w.push(r);
    assert forall|i: int, j: int| 0 <= i < j < u.len() implies (#[trigger] u[i]).id
        != (#[trigger] u[j]).id by {
        if j < w.len() {
            assert(u[i] == w[i] && u[j] == w[j]);
        } else {
            assert(u[i] == w[i]);
        }
    }
}

proof fn lemma_batch_fold_keeps_distinct(
    prev: Seq<RecordView>,
    unit_root: Seq<char>,
    registry_path: Seq<char>,
    ds: Seq<UnitDescriptor>,
    present: Seq<bool>,
)
    requires
        ids_distinct(prev),
    ensures
        batch_fold(prev, unit_root, registry_path, ds, present) matches Ok(acc) ==> ids_distinct(
            acc.registry,
        ),
    decreases ds.len(),
{
    if ds.len() > 0 {
        lemma_batch_fold_keeps_distinct(
            prev,
            unit_root,
            registry_path,
            ds.drop_last(),
            present.take(ds.len() - 1),
        );
        match batch_fold(prev, unit_root, registry_path, ds.drop_last(), present.take(ds.len() - 1)) {
            Ok(acc) => {
                match plan_spec(unit_root, registry_path, ds.last()) {
                    Ok(plan) => {
                        lemma_with_record_keeps_distinct(acc.registry, record_spec(ds.last(), plan));
                    },
                    Err(_) => {},
                }
            },
            Err(_) => {},
        }
    }
}

/// The registry never records two units under one id: a batch accepted
/// against a registry without repeated ids, and a removal from one, leave
/// none.
pub proof fn law_registry_ids_stay_distinct(
    prev: Seq<RecordView>,
    unit_root: Seq<char>,
    registry_path: Seq<char>,
    ds: Seq<UnitDescriptor>,
    present: Seq<bool>,
    systemctl_available: bool,
    id: Seq<char>,
)
    requires
        ids_distinct(prev),
    ensures
        batch_spec(prev, unit_root, registry_path, ds, present, systemctl_available) matches Ok(acc)
            ==> ids_distinct(acc.registry),
        removal_spec(prev, unit_root, registry_path, id) matches Ok(Some((_, rest))) ==> ids_distinct(
            rest,
        ),
{
    lemma_batch_fold_keeps_distinct(prev, unit_root, registry_path, ds, present);
    lemma_without_id_keeps_distinct(prev, id);
}


/// Every scheduled unit in the registry names a service the registry holds.
pub open spec fn timers_target_services(s: Seq<RecordView>) -> bool {
    forall|k: int|
        0 <= k < s.len() && (#[trigger] s[k]).target_unit is Some ==> has_service_named(
            s,
            s[k].target_unit->Some_0,
        )
}

proof fn lemma_without_id_keeps_others(s: Seq<RecordView>, id: Seq<char>)
    ensures
        forall|m: int|
            0 <= m < s.len() && (#[trigger] s[m]).id != id ==> exists|k: int|
                0 <= k < without_id(s, id).len() && without_id(s, id)[k] == s[m],
    decreases s.len(),
{
    if s.len() > 0 {
        let t = s.drop_last();
        lemma_without_id_keeps_others(t, id);
        let w = without_id(t, id);
        assert forall|m: int| 0 <= m < s.len() && (#[trigger] s[m]).id != id implies exists|k: int|
            0 <= k < without_id(s, id).len() && without_id(s, id)[k] == s[m] by {
            if m < s.len() - 1 {
                assert(t[m] == s[m]);
                let k = choose|k: int| 0 <= k < w.len() && w[k] == t[m];
                if s.last().id == id {
                    assert(without_id(s, id) == w);
                    assert(without_id(s, id)[k] == s[m]);
                } else {
                    assert(without_id(s, id) == w.push(s.last()));
                    assert(w.push(s.last())[k] == w[k]);
                    assert(without_id(s, id)[k] == s[m]);
                }
            } else {
                assert(s[m] == s.last());
                assert(without_id(s, id) == w.push(s.last()));
                assert(w.push(s.last())[w.len() as int] == s.last());
                assert(without_id(s, id)[w.len() as int] == s[m]);
            }
        }
    }
}

/// A removal never strands a timer: from a registry without repeated ids in
/// which every timer's unit is a registered service, the registry a removal
/// leaves has the same property.
pub proof fn law_removal_keeps_timer_targets(
    prev: Seq<RecordView>,
    unit_root: Seq<char>,
    registry_path: Seq<char>,
    id: Seq<char>,
)
    requires
        ids_distinct(prev),
        timers_target_services(prev),
    ensures
        removal_spec(prev, unit_root, registry_path, id) matches Ok(Some((_, rest)))
            ==> timers_target_services(rest),
{
    if let Ok(Some((_, rest))) = removal_spec(prev, unit_root, registry_path, id) {
        lemma_find_first(prev, id);
        let k = find_first(prev, id)->Some_0;
        lemma_find_dependent_some(prev, prev[k].unit_name);
        lemma_without_id_keeps_distinct(prev, id);
        lemma_without_id_keeps_others(prev, id);
        assert(rest == without_id(prev, id));
        assert forall|i: int|
            0 <= i < rest.len() && (#[trigger] rest[i]).target_unit is Some implies has_service_named(
            rest,
            rest[i].target_unit->Some_0,
        ) by {
            let m = choose|m: int| 0 <= m < prev.len() && prev[m] == rest[i];
            let t = rest[i].target_unit->Some_0;
            assert(prev[m].target_unit is Some);
            assert(has_service_named(prev, t));
            let j = choose|j: int|
                0 <= j < prev.len() && (#[trigger] prev[j]).unit_name == t && prev[j].unit_type
                    == "service"@;
            if prev[j].id == id {
                if j != k {
                    if j < k {
                        assert(prev[j].id != prev[k].id);
                    } else {
                        assert(prev[k].id != prev[j].id);
                    }
                }
                assert(prev[m].target_unit == Some(prev[k].unit_name));
                assert(false);
            }
            let kk = choose|kk: int| 0 <= kk < rest.len() && rest[kk] == prev[j];
            assert(rest[kk].unit_name == t && rest[kk].unit_type == "service"@);
        }
    }
}

/// `x` placed after every record whose id does not sort after its own.
pub open spec fn insert_by_id(s: Seq<RecordView>, x: RecordView) -> Seq<RecordView>
    decreases s.len(),
{
    if s.len() == 0 || !text_lt(x.id, s.last().id) {
        s.push(x)
    } else {
        insert_by_id(s.drop_last(), x).push(s.last())
    }
}

/// The records in the order of their ids.
pub open spec fn sort_by_id(s: Seq<RecordView>) -> Seq<RecordView>
    decreases s.len(),
{
    if s.len() == 0 {
        s
    } else {
        insert_by_id(sort_by_id(s.drop_last()), s.last())
    }
}

proof fn lemma_insert_by_id_at(s: Seq<RecordView>, x: RecordView, j: int)
    requires
        0 <= j <= s.len(),
        forall|k: int| j <= k < s.len() ==> text_lt(x.id, #[trigger] s[k].id),
        j == 0 || !text_lt(x.id, s[j - 1].id),
    ensures
        insert_by_id(s, x) == s.insert(j, x),
    decreases s.len(),
{
    if j == s.len() {
        assert(s.insert(j, x) =~= s.push(x));
    } else {
        let t = s.drop_last();
        assert(text_lt(x.id, s[s.len() - 1].id));
        assert forall|k: int| j <= k < t.len() implies text_lt(x.id, #[trigger] t[k].id) by {
            assert(t[k] == s[k]);
        }
        if j > 0 {
            assert(t[j - 1] == s[j - 1]);
        }
        lemma_insert_by_id_at(t, x, j);
        assert(t.insert(j, x).push(s.last()) =~= s.insert(j, x));
    }
}

/// No record sorts before one ahead of it.
pub open spec fn by_id(s: Seq<RecordView>) -> bool {
    forall|i: int, j: int| 0 <= i < j < s.len() ==> !text_lt((#[trigger] s[j]).id, (#[trigger] s[i]).id)
}

proof fn lemma_insert_by_id_bounded(s: Seq<RecordView>, x: RecordView, b: RecordView)
    requires
        forall|i: int| 0 <= i < s.len() ==> !text_lt(b.id, (#[trigger] s[i]).id),
        !text_lt(b.id, x.id),
    ensures
        forall|i: int|
            0 <= i < insert_by_id(s, x).len() ==> !text_lt(b.id, (#[trigger] insert_by_id(s, x)[i]).id),
    decreases s.len(),
{
    if s.len() > 0 && text_lt(x.id, s.last().id) {
        let t = s.drop_last();
        assert forall|i: int| 0 <= i < t.len() implies !text_lt(b.id, (#[trigger] t[i]).id) by {
            assert(t[i] == s[i]);
        }
        lemma_insert_by_id_bounded(t, x, b);
        let u = insert_by_id(t, x);
        assert forall|i: int| 0 <= i < u.push(s.last()).len() implies !text_lt(
            b.id,
            (#[trigger] u.push(s.last())[i]).id,
        ) by {
            if i < u.len() {
                assert(u.push(s.last())[i] == u[i]);
            } else {
                assert(s[s.len() - 1] == s.last());
            }
        }
    }
}

proof fn lemma_insert_by_id_sorted(s: Seq<RecordView>, x: RecordView)
    requires
        by_id(s),
    ensures
        by_id(insert_by_id(s, x)),
    decreases s.len(),
{
    if s.len() == 0 || !text_lt(x.id, s.last().id) {
        let u = s.push(x);
        assert forall|i: int, j: int| 0 <= i < j < u.len() implies !text_lt(
            (#[trigger] u[j]).id,
            (#[trigger] u[i]).id,
        ) by {
            if j < s.len() {
                assert(u[i] == s[i] && u[j] == s[j]);
            } else {
                assert(u[j] == x && u[i] == s[i]);
                if i < s.len() - 1 {
                    assert(!text_lt(s[s.len() - 1].id, s[i].id));
                }
                lemma_text_le_transitive(s[i].id, s[s.len() - 1].id, x.id);
            }
        }
    } else {
        let t = s.drop_last();
        let l = s.last();
        assert forall|i: int, j: int| 0 <= i < j < t.len() implies !text_lt(
            (#[trigger] t[j]).id,
            (#[trigger] t[i]).id,
        ) by {
            assert(t[i] == s[i] && t[j] == s[j]);
        }
        lemma_insert_by_id_sorted(t, x);
        assert forall|i: int| 0 <= i < t.len() implies !text_lt(l.id, (#[trigger] t[i]).id) by {
            assert(t[i] == s[i]);
            assert(l == s[s.len() - 1]);
        }
        lemma_text_lt_asymmetric(x.id, l.id);
        lemma_insert_by_id_bounded(t, x, l);
        let u = insert_by_id(t, x);
        let v = u.push(l);
        assert forall|i: int, j: int| 0 <= i < j < v.len() implies !text_lt(
            (#[trigger] v[j]).id,
            (#[trigger] v[i]).id,
        ) by {
            if j < u.len() {
                assert(v[i] == u[i] && v[j] == u[j]);
            } else {
                assert(v[j] == l && v[i] == u[i]);
            }
        }
    }
}

/// Registered units are listed in the order of their ids.
pub proof fn law_list_is_in_id_order(records: Seq<RecordView>)
    ensures
        by_id(sort_by_id(records)),
    decreases records.len(),
{
    if records.len() > 0 {
        law_list_is_in_id_order(records.drop_last());
        lemma_insert_by_id_sorted(sort_by_id(records.drop_last()), records.last());
    }
}

} // verus!
