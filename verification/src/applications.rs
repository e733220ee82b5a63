//! The XDG application catalog, and the matching of windows and processes to it.
use vstd::prelude::*;

use crate::model::{
    ApplicationWindow, InstalledApplication, InstalledView, RunningApplication, RunningView,
    WindowView,
};
use crate::text::{
    lemma_text_lt_asymmetric, lemma_text_lt_total, lemma_text_lt_transitive,
    char_is_ws, chars_of, clone_opt, is_ws, lower_seq, opt_view, replace_char, replace_chars,
    slices_eq, str_eq, string_from_chars, text_lt, text_lt_str, to_ascii_lowercase, trim,
    trim_chars, trim_end_matches, trim_seq, trim_suffix_all,
};

verus! {

// ---------------------------------------------------------------------------
// Names of what `std::path` computes
// ---------------------------------------------------------------------------
/// What `Path::strip_prefix` leaves of `path` below `root`, by path components.
pub uninterp spec fn path_strip_prefix(path: Seq<char>, root: Seq<char>) -> Option<Seq<char>>;

/// The final component that `Path::file_name` reports for `path`.
pub uninterp spec fn path_file_name(path: Seq<char>) -> Option<Seq<char>>;

/// `Path::new(path).strip_prefix(root)`, as text.
///
/// The result is the name above applied to the arguments; the component rules of
/// `std::path` are not restated.
#[verifier::external_body]
fn relative_path(path: &str, root: &str) -> (r: Option<String>)
    ensures
        opt_view(r) == path_strip_prefix(path@, root@),
{
    std::path::Path::new(path).strip_prefix(root).ok().map(|p| p.to_string_lossy().into_owned())
}

/// `Path::new(path).file_name()`, as text.
///
/// The result is the name above applied to the argument; the component rules of
/// `std::path` are not restated.
#[verifier::external_body]
fn file_name(path: &str) -> (r: Option<String>)
    ensures
        opt_view(r) == path_file_name(path@),
{
    std::path::Path::new(path).file_name().and_then(|n| n.to_str()).map(|n| n.to_string())
}

// ---------------------------------------------------------------------------
// Identifiers
// ---------------------------------------------------------------------------
/// How application identifiers are compared: trimmed, without `.desktop`, lowercase.
pub open spec fn normalized(v: Seq<char>) -> Seq<char> {
    lower_seq(trim_suffix_all(trim_seq(v), ".desktop"@))
}

/// Launchers that many applications share, so a process named after one says nothing.
pub open spec fn is_generic_launcher(v: Seq<char>) -> bool {
    let n = normalized(v);
    ||| n == "env"@
    ||| n == "flatpak"@
    ||| n == "steam"@
    ||| n == "sh"@
    ||| n == "bash"@
    ||| n == "python"@
    ||| n == "python3"@
    ||| n == "java"@
    ||| n == "xdg-open"@
    ||| n == "gio"@
}

/// A desktop-entry boolean: `1`, `true` or `yes` in any ASCII case.
pub open spec fn desktop_true(v: Option<Seq<char>>) -> bool {
    match v {
        Some(s) => {
            let l = lower_seq(s);
            l == "1"@ || l == "true"@ || l == "yes"@
        },
        None => false,
    }
}

pub fn normalized_id(value: &str) -> (r: String)
    ensures
        r@ == normalized(value@),
{
    let t = trim_chars(chars_of(value).as_slice());
    let suffix = chars_of(".desktop");
    proof {
        reveal_strlit(".desktop");
    }
    let stem = trim_end_matches(t.as_slice(), suffix.as_slice());
    let stem_text = string_from_chars(stem.as_slice());
    to_ascii_lowercase(stem_text.as_str())
}

pub fn generic_launcher(value: &str) -> (r: bool)
    ensures
        r == is_generic_launcher(value@),
{
    let n = normalized_id(value);
    let s = n.as_str();
    str_eq(s, "env") || str_eq(s, "flatpak") || str_eq(s, "steam") || str_eq(s, "sh")
        || str_eq(s, "bash") || str_eq(s, "python") || str_eq(s, "python3") || str_eq(s, "java")
        || str_eq(s, "xdg-open") || str_eq(s, "gio")
}

fn bool_value(value: Option<&[char]>) -> (r: bool)
    ensures
        r == desktop_true(
            match value {
                Some(v) => Some(v@),
                None => None,
            },
        ),
{
    match value {
        Some(v) => {
            let text = string_from_chars(v);
            let l = to_ascii_lowercase(text.as_str());
            let s = l.as_str();
            str_eq(s, "1") || str_eq(s, "true") || str_eq(s, "yes")
        },
        None => false,
    }
}

// ---------------------------------------------------------------------------
// The command of an `Exec` line
// ---------------------------------------------------------------------------
pub open spec fn is_quote(c: char) -> bool {
    c == '"' || c == '\''
}

pub open spec fn strip_quotes_front(s: Seq<char>) -> Seq<char>
    decreases s.len(),
{
    if s.len() > 0 && is_quote(s[0]) {
        strip_quotes_front(s.skip(1))
    } else {
        s
    }
}

pub open spec fn strip_quotes_back(s: Seq<char>) -> Seq<char>
    decreases s.len(),
{
    if s.len() > 0 && is_quote(s.last()) {
        strip_quotes_back(s.drop_last())
    } else {
        s
    }
}

/// `trim_matches(['"', '\''])`.
pub open spec fn strip_quotes(s: Seq<char>) -> Seq<char> {
    strip_quotes_back(strip_quotes_front(s))
}

/// The maximal runs of non-whitespace characters (`split_whitespace`).
pub open spec fn words(s: Seq<char>) -> Seq<Seq<char>>
    decreases s.len(),
{
    if s.len() == 0 {
        Seq::empty()
    } else {
        let w = words(s.drop_last());
        let c = s.last();
        if is_ws(c) {
            w
        } else if s.len() >= 2 && !is_ws(s[s.len() - 2]) {
            w.update(w.len() - 1, w.last().push(c))
        } else {
            w.push(seq![c])
        }
    }
}

/// A word that can name the program: not an assignment, a field code or `env`.
pub open spec fn command_word(t: Seq<char>) -> bool {
    t.len() > 0 && !t.contains('=') && t[0] != '%' && t != "env"@
}

/// The first word, unquoted, that names the program.
pub open spec fn first_command(ws: Seq<Seq<char>>) -> Option<Seq<char>>
    decreases ws.len(),
{
    if ws.len() == 0 {
        None
    } else if command_word(strip_quotes(ws[0])) {
        Some(strip_quotes(ws[0]))
    } else {
        first_command(ws.skip(1))
    }
}

/// The program of an `Exec` value, by its file name.
pub open spec fn exec_program(exec: Seq<char>) -> Option<Seq<char>> {
    match first_command(words(exec)) {
        Some(t) => path_file_name(t),
        None => None,
    }
}

pub open spec fn char_views(v: Seq<Vec<char>>) -> Seq<Seq<char>> {
    v.map_values(|w: Vec<char>| w@)
}

fn strip_quotes_chars(t: &[char]) -> (r: Vec<char>)
    ensures
        r@ == strip_quotes(t@),
{
    let n = t.len();
    let mut a: usize = 0;
    assert(t@.skip(0) =~= t@);
    while a < n && (t[a] == '"' || t[a] == '\'')
        invariant
            a <= n,
            n == t.len(),
            strip_quotes_front(t@) == strip_quotes_front(t@.skip(a as int)),
        decreases n - a,
    {
        assert(t@.skip(a as int).skip(1) =~= t@.skip(a + 1));
        a += 1;
    }
    let mut b: usize = n;
    assert(t@.subrange(a as int, n as int) =~= t@.skip(a as int));
    while b > a && (t[b - 1] == '"' || t[b - 1] == '\'')
        invariant
            a <= b <= n,
            n == t.len(),
            strip_quotes(t@) == strip_quotes_back(t@.subrange(a as int, b as int)),
        decreases b - a,
    {
        assert(t@.subrange(a as int, b as int).drop_last() =~= t@.subrange(a as int, b - 1));
        b -= 1;
    }
    vstd::slice::slice_to_vec(&t[a..b])
}

fn words_of(s: &[char]) -> (r: Vec<Vec<char>>)
    ensures
        char_views(r@) == words(s@),
{
    let mut done: Vec<Vec<char>> = Vec::new();
    let mut cur: Vec<char> = Vec::new();
    let mut in_word = false;
    let mut i: usize = 0;
    assert(s@.take(0) =~= Seq::<char>::empty());
    while i < s.len()
        invariant
            i <= s.len(),
            in_word == (i > 0 && !is_ws(s@[i - 1])),
            in_word ==> words(s@.take(i as int)) == char_views(done@).push(cur@),
            !in_word ==> words(s@.take(i as int)) == char_views(done@),
        decreases s.len() - i,
    {
        let c = s[i];
        assert(s@.take(i + 1).drop_last() =~= s@.take(i as int));
        assert(s@.take(i + 1).last() == c);
        if char_is_ws(c) {
            if in_word {
                let ghost before = done@;
                let ghost cv = cur@;
                done.push(cur);
                cur = Vec::new();
                assert(char_views(done@) =~= char_views(before).push(cv));
            }
            in_word = false;
        } else {
            if in_word {
                assert(s@.take(i + 1)[i - 1] == s@[i - 1]);
                cur.push(c);
            } else {
                cur = Vec::new();
                cur.push(c);
                assert(cur@ =~= seq![c]);
            }
            in_word = true;
        }
        i += 1;
    }
    assert(s@.take(s@.len() as int) =~= s@);
    if in_word {
        let ghost before = done@;
        let ghost cv = cur@;
        done.push(cur);
        assert(char_views(done@) =~= char_views(before).push(cv));
    }
    done
}

fn chars_contain(s: &[char], c: char) -> (r: bool)
    ensures
        r == s@.contains(c),
{
    let mut i: usize = 0;
    while i < s.len()
        invariant
            i <= s.len(),
            forall|j: int| 0 <= j < i ==> s@[j] != c,
        decreases s.len() - i,
    {
        if s[i] == c {
            assert(s@[i as int] == c);
            return true;
        }
        i += 1;
    }
    false
}

/// The word of an `Exec` value that names the program, unquoted.
pub fn command_token(exec: &str) -> (r: Option<String>)
    ensures
        opt_view(r) == first_command(words(exec@)),
{
    let xs = chars_of(exec);
    let ws = words_of(xs.as_slice());
    let env = chars_of("env");
    let ghost w = char_views(ws@);
    assert(w == words(exec@));
    assert(w.skip(0) =~= w);
    let mut i: usize = 0;
    while i < ws.len()
        invariant
            i <= ws.len(),
            w == char_views(ws@),
            w == words(exec@),
            env@ == "env"@,
            first_command(w) == first_command(w.skip(i as int)),
        decreases ws.len() - i,
    {
        let t = strip_quotes_chars(ws[i].as_slice());
        assert(w.skip(i as int)[0] == ws@[i as int]@);
        if t.len() > 0 && !chars_contain(t.as_slice(), '=') && t[0] != '%' && !slices_eq(
            t.as_slice(),
            env.as_slice(),
        ) {
            assert(t@[0] != '%');
            assert(command_word(t@));
            assert(first_command(w.skip(i as int)) == Some(t@));
            return Some(string_from_chars(t.as_slice()));
        }
        assert(w.skip(i as int).skip(1) =~= w.skip(i + 1));
        i += 1;
    }
    None
}

/// The program an `Exec` value runs, by file name.
pub fn executable(exec: &str) -> (r: Option<String>)
    ensures
        opt_view(r) == exec_program(exec@),
{
    match command_token(exec) {
        Some(t) => file_name(t.as_str()),
        None => None,
    }
}

// ---------------------------------------------------------------------------
// Desktop entries
// ---------------------------------------------------------------------------
/// The pieces of `s` between line feeds.
///
/// A carriage return before a line feed is whitespace, which every line loses
/// when it is trimmed, and a final empty piece is skipped like any empty line;
/// so for desktop entries these pieces read as `str::lines` does.
pub open spec fn split_lines(s: Seq<char>) -> Seq<Seq<char>>
    decreases s.len(),
{
    if s.len() == 0 {
        seq![Seq::<char>::empty()]
    } else {
        let p = split_lines(s.drop_last());
        if s.last() == '\n' {
            p.push(Seq::<char>::empty())
        } else {
            p.update(p.len() - 1, p.last().push(s.last()))
        }
    }
}

/// The pieces of `s` between line feeds, as [`split_lines`] has them.
pub fn lines_of(s: &[char]) -> (r: Vec<Vec<char>>)
    ensures
        char_views(r@) == split_lines(s@),
{
    let mut done: Vec<Vec<char>> = Vec::new();
    let mut cur: Vec<char> = Vec::new();
    let mut i: usize = 0;
    assert(s@.take(0) =~= Seq::<char>::empty());
    assert(char_views(done@) =~= Seq::<Seq<char>>::empty());
    while i < s.len()
        invariant
            i <= s.len(),
            split_lines(s@.take(i as int)) == char_views(done@).push(cur@),
        decreases s.len() - i,
    {
        let c = s[i];
        assert(s@.take(i + 1).drop_last() =~= s@.take(i as int));
        proof {
            lemma_split_lines_nonempty(s@.take(i as int));
        }
        if c == '\n' {
            let ghost before = char_views(done@);
            let ghost cv = cur@;
            done.push(cur);
            cur = Vec::new();
            assert(char_views(done@) =~= before.push(cv));
            assert(split_lines(s@.take(i + 1)) =~= char_views(done@).push(cur@));
        } else {
            cur.push(c);
            assert(split_lines(s@.take(i + 1)) =~= char_views(done@).push(cur@));
        }
        i += 1;
    }
    assert(s@.take(s@.len() as int) =~= s@);
    let ghost before = char_views(done@);
    let ghost cv = cur@;
    done.push(cur);
    assert(char_views(done@) =~= before.push(cv));
    done
}

pub open spec fn first_at(s: Seq<char>, c: char, k: int) -> bool {
    &&& 0 <= k < s.len()
    &&& s[k] == c
    &&& forall|j: int| 0 <= j < k ==> s[j] != c
}

/// The index of the first `c` in `s`, or -1.
pub open spec fn first_pos(s: Seq<char>, c: char) -> int {
    if exists|k: int| first_at(s, c, k) {
        choose|k: int| first_at(s, c, k)
    } else {
        -1
    }
}

pub type EntryScan = (bool, Seq<(Seq<char>, Seq<char>)>);

/// One line of a desktop file: a group header switches whether the
/// `[Desktop Entry]` group is being read; inside it, a `key=value` line adds
/// its trimmed key and value.
pub open spec fn scan_line(st: EntryScan, piece: Seq<char>) -> EntryScan {
    let line = trim_seq(piece);
    if line.len() > 0 && line[0] == '[' {
        (line == "[Desktop Entry]"@, st.1)
    } else if !st.0 || line.len() == 0 || line[0] == '#' {
        st
    } else {
        let k = first_pos(line, '=');
        if k < 0 {
            st
        } else {
            (st.0, st.1.push((trim_seq(line.take(k)), trim_seq(line.skip(k + 1)))))
        }
    }
}

pub open spec fn scan_lines(lines: Seq<Seq<char>>) -> EntryScan
    decreases lines.len(),
{
    if lines.len() == 0 {
        (false, Seq::empty())
    } else {
        scan_line(scan_lines(lines.drop_last()), lines.last())
    }
}

/// The key/value pairs of the `[Desktop Entry]` group, in file order.
pub open spec fn desktop_values(raw: Seq<char>) -> Seq<(Seq<char>, Seq<char>)> {
    scan_lines(split_lines(raw)).1
}

/// The value of the first pair with `key`.
pub open spec fn lookup(values: Seq<(Seq<char>, Seq<char>)>, key: Seq<char>) -> Option<Seq<char>>
    decreases values.len(),
{
    if values.len() == 0 {
        None
    } else if values[0].0 == key {
        Some(values[0].1)
    } else {
        lookup(values.skip(1), key)
    }
}

/// An entry that is not an application, or is hidden from menus.
pub open spec fn hidden_entry(values: Seq<(Seq<char>, Seq<char>)>) -> bool {
    ||| (lookup(values, "Type"@) matches Some(t) && t != "Application"@)
    ||| desktop_true(lookup(values, "Hidden"@))
    ||| desktop_true(lookup(values, "NoDisplay"@))
}

/// The desktop-file id of a path relative to its data directory.
pub open spec fn desktop_id(relative: Seq<char>) -> Seq<char> {
    trim_suffix_all(replace_char(relative, '/', '-'), ".desktop"@)
}

pub open spec fn nonempty(v: Option<Seq<char>>) -> Option<Seq<char>> {
    match v {
        Some(s) => if s.len() > 0 {
            Some(s)
        } else {
            None
        },
        None => None,
    }
}

/// The application a desktop file describes, if it is a visible one.
pub open spec fn desktop_application(relative: Seq<char>, path: Seq<char>, raw: Seq<char>) -> Option<
    InstalledView,
> {
    let values = desktop_values(raw);
    let id = desktop_id(relative);
    if hidden_entry(values) {
        None
    } else {
        match lookup(values, "Name"@) {
            None => None,
            Some(n) => if id.len() == 0 || trim_seq(n).len() == 0 {
                None
            } else {
                Some(
                    InstalledView {
                        id,
                        name: trim_seq(n),
                        executable: match lookup(values, "Exec"@) {
                            Some(e) => exec_program(e),
                            None => None,
                        },
                        icon: nonempty(lookup(values, "Icon"@)),
                        desktop_file: path,
                    },
                )
            },
        }
    }
}

pub open spec fn opt_installed(o: Option<InstalledApplication>) -> Option<InstalledView> {
    match o {
        Some(a) => Some(a@),
        None => None,
    }
}

pub open spec fn pair_char_views(v: Seq<(Vec<char>, Vec<char>)>) -> Seq<(Seq<char>, Seq<char>)> {
    v.map_values(|p: (Vec<char>, Vec<char>)| (p.0@, p.1@))
}

fn find_char(s: &[char], c: char) -> (r: Option<usize>)
    ensures
        match r {
            Some(k) => k < s.len() && first_pos(s@, c) == k,
            None => first_pos(s@, c) == -1,
        },
{
    let mut i: usize = 0;
    while i < s.len()
        invariant
            i <= s.len(),
            forall|j: int| 0 <= j < i ==> s@[j] != c,
        decreases s.len() - i,
    {
        if s[i] == c {
            proof {
                assert(first_at(s@, c, i as int));
                let k = choose|k: int| first_at(s@, c, k);
                assert(first_at(s@, c, k));
                if k < i {
                    assert(s@[k] != c);
                }
                if k > i {
                    assert(s@[i as int] != c);
                }
            }
            return Some(i);
        }
        i += 1;
    }
    proof {
        assert forall|k: int| !first_at(s@, c, k) by {
            if 0 <= k < s@.len() {
                assert(s@[k] != c);
            }
        }
    }
    None
}

fn scan_piece(in_entry: &mut bool, values: &mut Vec<(Vec<char>, Vec<char>)>, piece: &[char])
    ensures
        (*final(in_entry), pair_char_views(final(values)@)) == scan_line(
            (*old(in_entry), pair_char_views(old(values)@)),
            piece@,
        ),
{
    let line = trim_chars(piece);
    if line.len() > 0 && line[0] == '[' {
        let header = chars_of("[Desktop Entry]");
        *in_entry = slices_eq(line.as_slice(), header.as_slice());
        return ;
    }
    if !*in_entry || line.len() == 0 || line[0] == '#' {
        return ;
    }
    match find_char(line.as_slice(), '=') {
        None => {},
        Some(k) => {
            let key = trim_chars(&line.as_slice()[0..k]);
            let value = trim_chars(&line.as_slice()[k + 1..line.len()]);
            assert(line@.subrange(0, k as int) =~= line@.take(k as int));
            assert(line@.subrange(k + 1, line@.len() as int) =~= line@.skip(k + 1));
            let ghost before = values@;
            values.push((key, value));
            assert(pair_char_views(values@) =~= pair_char_views(before).push(
                (trim_seq(line@.take(k as int)), trim_seq(line@.skip(k + 1))),
            ));
        },
    }
}

proof fn lemma_split_lines_nonempty(s: Seq<char>)
    ensures
        split_lines(s).len() >= 1,
    decreases s.len(),
{
    if s.len() > 0 {
        lemma_split_lines_nonempty(s.drop_last());
    }
}

fn desktop_pairs(raw: &[char]) -> (r: Vec<(Vec<char>, Vec<char>)>)
    ensures
        pair_char_views(r@) == desktop_values(raw@),
{
    let mut in_entry = false;
    let mut values: Vec<(Vec<char>, Vec<char>)> = Vec::new();
    let mut cur: Vec<char> = Vec::new();
    let ghost mut done: Seq<Seq<char>> = Seq::empty();
    let mut i: usize = 0;
    assert(raw@.take(0) =~= Seq::<char>::empty());
    assert(pair_char_views(values@) =~= Seq::<(Seq<char>, Seq<char>)>::empty());
    while i < raw.len()
        invariant
            i <= raw.len(),
            split_lines(raw@.take(i as int)) == done.push(cur@),
            scan_lines(done) == (in_entry, pair_char_views(values@)),
        decreases raw.len() - i,
    {
        let c = raw[i];
        assert(raw@.take(i + 1).drop_last() =~= raw@.take(i as int));
        assert(raw@.take(i + 1).last() == c);
        proof {
            lemma_split_lines_nonempty(raw@.take(i as int));
        }
        if c == '\n' {
            scan_piece(&mut in_entry, &mut values, cur.as_slice());
            proof {
                assert(done.push(cur@).drop_last() =~= done);
                done = done.push(cur@);
            }
            cur = Vec::new();
            assert(split_lines(raw@.take(i + 1)) =~= done.push(cur@));
        } else {
            let ghost before = cur@;
            cur.push(c);
            assert(split_lines(raw@.take(i + 1)) =~= done.push(cur@));
        }
        i += 1;
    }
    scan_piece(&mut in_entry, &mut values, cur.as_slice());
    proof {
        assert(raw@.take(raw@.len() as int) =~= raw@);
        assert(done.push(cur@).drop_last() =~= done);
    }
    values
}

fn lookup_index(values: &Vec<(Vec<char>, Vec<char>)>, key: &str) -> (r: Option<usize>)
    ensures
        match r {
            Some(i) => i < values.len() && lookup(pair_char_views(values@), key@) == Some(
                values@[i as int].1@,
            ),
            None => lookup(pair_char_views(values@), key@) is None,
        },
{
    let k = chars_of(key);
    let ghost v = pair_char_views(values@);
    assert(v.skip(0) =~= v);
    let mut i: usize = 0;
    while i < values.len()
        invariant
            i <= values.len(),
            v == pair_char_views(values@),
            k@ == key@,
            lookup(v, key@) == lookup(v.skip(i as int), key@),
        decreases values.len() - i,
    {
        assert(v.skip(i as int)[0] == v[i as int]);
        if slices_eq(values[i].0.as_slice(), k.as_slice()) {
            return Some(i);
        }
        assert(v.skip(i as int).skip(1) =~= v.skip(i + 1));
        i += 1;
    }
    None
}

fn value_of<'a>(values: &'a Vec<(Vec<char>, Vec<char>)>, key: &str) -> (r: Option<&'a [char]>)
    ensures
        match r {
            Some(s) => lookup(pair_char_views(values@), key@) == Some(s@),
            None => lookup(pair_char_views(values@), key@) is None,
        },
{
    match lookup_index(values, key) {
        Some(i) => Some(values[i].1.as_slice()),
        None => None,
    }
}

/// The visible application that a desktop file describes, given its path
/// relative to the data directory it was found in.
pub fn desktop_entry(relative: &str, path: &str, raw: &str) -> (r: Option<InstalledApplication>)
    ensures
        opt_installed(r) == desktop_application(relative@, path@, raw@),
{
    let values = desktop_pairs(chars_of(raw).as_slice());
    let ghost v = pair_char_views(values@);
    let hidden = match value_of(&values, "Type") {
        Some(t) => !slices_eq(t, chars_of("Application").as_slice()),
        None => false,
    } || bool_value(value_of(&values, "Hidden")) || bool_value(value_of(&values, "NoDisplay"));
    if hidden {
        return None;
    }
    let name = match value_of(&values, "Name") {
        Some(n) => trim_chars(n),
        None => {
            return None;
        },
    };
    let suffix = chars_of(".desktop");
    proof {
        reveal_strlit(".desktop");
    }
    let dashed = replace_chars(chars_of(relative).as_slice(), '/', '-');
    let id = trim_end_matches(dashed.as_slice(), suffix.as_slice());
    if id.len() == 0 || name.len() == 0 {
        return None;
    }
    let executable = match value_of(&values, "Exec") {
        Some(e) => executable(string_from_chars(e).as_str()),
        None => None,
    };
    let icon = match value_of(&values, "Icon") {
        Some(i) => if i.len() > 0 {
            Some(string_from_chars(i))
        } else {
            None
        },
        None => None,
    };
    Some(
        InstalledApplication {
            id: string_from_chars(id.as_slice()),
            name: string_from_chars(name.as_slice()),
            executable,
            icon,
            desktop_file: crate::text::owned(path),
        },
    )
}

/// Reads one desktop file found at `path` below the data directory `root`.
pub fn parse_desktop(root: &str, path: &str, raw: &str) -> (r: Option<InstalledApplication>)
    ensures
        opt_installed(r) == desktop_application(
            match path_strip_prefix(path@, root@) {
                Some(rel) => rel,
                None => path@,
            },
            path@,
            raw@,
        ),
{
    let relative = match relative_path(path, root) {
        Some(rel) => rel,
        None => crate::text::owned(path),
    };
    desktop_entry(relative.as_str(), path, raw)
}

// ---------------------------------------------------------------------------
// The catalog
// ---------------------------------------------------------------------------
pub open spec fn installed_views(s: Seq<InstalledApplication>) -> Seq<InstalledView> {
    s.map_values(|a: InstalledApplication| a@)
}

pub open spec fn has_id(s: Seq<InstalledView>, id: Seq<char>) -> bool {
    exists|k: int| 0 <= k < s.len() && s[k].id == id
}

/// `x` placed after every entry whose id does not sort after its own.
pub open spec fn insert_by_id(s: Seq<InstalledView>, x: InstalledView) -> Seq<InstalledView>
    decreases s.len(),
{
    if s.len() == 0 || !text_lt(x.id, s.last().id) {
        s.push(x)
    } else {
        insert_by_id(s.drop_last(), x).push(s.last())
    }
}

/// The applications found, the first of each id kept, in the order of their ids.
pub open spec fn catalog(found: Seq<InstalledView>) -> Seq<InstalledView>
    decreases found.len(),
{
    if found.len() == 0 {
        Seq::empty()
    } else {
        let c = catalog(found.drop_last());
        if has_id(c, found.last().id) {
            c
        } else {
            insert_by_id(c, found.last())
        }
    }
}

proof fn lemma_insert_by_id_at(s: Seq<InstalledView>, x: InstalledView, j: int)
    requires
        0 <= j <= s.len(),
        forall|k: int| j <= k < s.len() ==> text_lt(x.id, #[trigger] s[k].id),
        j == 0 || !text_lt(x.id, s[j - 1].id),
    ensures
        insert_by_id(s, x) == s.insert(j, x),
    decreases s.len(),
{
    if j == s.len() {
        assert(s.insert(j, x) =~= s.push(x));
    } else {
        let t = s.drop_last();
        assert(text_lt(x.id, s[s.len() - 1].id));
        assert forall|k: int| j <= k < t.len() implies text_lt(x.id, #[trigger] t[k].id) by {
            assert(t[k] == s[k]);
        }
        if j > 0 {
            assert(t[j - 1] == s[j - 1]);
        }
        lemma_insert_by_id_at(t, x, j);
        assert(t.insert(j, x).push(s.last()) =~= s.insert(j, x));
    }
}

pub struct ApplicationCatalog;

impl ApplicationCatalog {
    /// The catalog of visible applications from the entries found, in search
    /// order: the first entry of each desktop-file id wins, and the catalog is
    /// ordered by id.
    pub fn installed(found: &[InstalledApplication]) -> (r: Vec<InstalledApplication>)
        ensures
            installed_views(r@) == catalog(installed_views(found@)),
    {
        let mut out: Vec<InstalledApplication> = Vec::new();
        let ghost f = installed_views(found@);
        let mut i: usize = 0;
        assert(f.take(0) =~= Seq::<InstalledView>::empty());
        while i < found.len()
            invariant
                i <= found.len(),
                f == installed_views(found@),
                installed_views(out@) == catalog(f.take(i as int)),
            decreases found.len() - i,
        {
            let x = &found[i];
            let ghost o = installed_views(out@);
            assert(f.take(i + 1).drop_last() =~= f.take(i as int));
            assert(f.take(i + 1).last() == x@);
            let mut seen = false;
            let mut k: usize = 0;
            while k < out.len()
                invariant
                    k <= out.len(),
                    o == installed_views(out@),
                    seen ==> has_id(o, x@.id),
                    !seen ==> forall|m: int| 0 <= m < k ==> o[m].id != x@.id,
                decreases out.len() - k,
            {
                if str_eq(out[k].id.as_str(), x.id.as_str()) {
                    seen = true;
                    assert(o[k as int].id == x@.id);
                }
                k += 1;
            }
            if !seen {
                assert(!has_id(o, x@.id)) by {
                    assert(forall|m: int| 0 <= m < o.len() ==> o[m].id != x@.id);
                }
                let mut j: usize = out.len();
                while j > 0 && text_lt_str(x.id.as_str(), out[j - 1].id.as_str())
                    invariant
                        j <= out.len(),
                        o == installed_views(out@),
                        forall|m: int| j <= m < o.len() ==> text_lt(x@.id, #[trigger] o[m].id),
                    decreases j,
                {
                    j -= 1;
                }
                proof {
                    lemma_insert_by_id_at(o, x@, j as int);
                }
                out.insert(j, x.duplicate());
                assert(installed_views(out@) =~= o.insert(j as int, x@));
            } else {
                assert(has_id(o, x@.id));
            }
            i += 1;
        }
        assert(f.take(found.len() as int) =~= f);
        out
    }
}

// ---------------------------------------------------------------------------
// Running applications
// ---------------------------------------------------------------------------
/// A process, by id and the file name of its executable (or its `comm`).
#[derive(Debug, Clone, PartialEq, Eq)]
pub struct ProcessIdentity {
    pub pid: u32,
    pub command: String,
}

pub struct ProcessView {
    pub pid: u32,
    pub command: Seq<char>,
}

impl View for ProcessIdentity {
    type V = ProcessView;

    open spec fn view(&self) -> ProcessView {
        ProcessView { pid: self.pid, command: self.command@ }
    }
}

pub open spec fn process_views(s: Seq<ProcessIdentity>) -> Seq<ProcessView> {
    s.map_values(|p: ProcessIdentity| p@)
}

pub open spec fn window_views(s: Seq<ApplicationWindow>) -> Seq<WindowView> {
    s.map_values(|w: ApplicationWindow| w@)
}

pub open spec fn running_views(s: Seq<RunningApplication>) -> Seq<RunningView> {
    s.map_values(|a: RunningApplication| a@)
}

/// Whether a window's app id names this application, by id or by executable.
pub open spec fn identity_matches(app: InstalledView, candidate: Seq<char>) -> bool {
    ||| normalized(candidate) == normalized(app.id)
    ||| (app.executable matches Some(e) && normalized(candidate) == normalized(e))
}

pub open spec fn first_identity(installed: Seq<InstalledView>, candidate: Seq<char>) -> Option<
    InstalledView,
>
    decreases installed.len(),
{
    if installed.len() == 0 {
        None
    } else if identity_matches(installed[0], candidate) {
        Some(installed[0])
    } else {
        first_identity(installed.skip(1), candidate)
    }
}

/// A window, named after the first application it matches, else after its app id.
pub open spec fn window_entry(installed: Seq<InstalledView>, w: WindowView) -> RunningView {
    let m = first_identity(installed, w.app_id);
    RunningView {
        id: match m {
            Some(a) => a.id,
            None => w.app_id,
        },
        name: match m {
            Some(a) => a.name,
            None => w.app_id,
        },
        app_id: w.app_id,
        pid: w.pid,
        title: w.title,
        focused: w.focused,
        fullscreen: w.fullscreen,
        backend: w.backend,
    }
}

pub open spec fn window_entries(installed: Seq<InstalledView>, ws: Seq<WindowView>) -> Seq<
    RunningView,
> {
    ws.map_values(|w: WindowView| window_entry(installed, w))
}

/// Whether a process runs this application's own (non-shared) executable.
pub open spec fn launched_by(app: InstalledView, command: Seq<char>) -> bool {
    app.executable matches Some(e) && !is_generic_launcher(e) && normalized(e) == normalized(
        command,
    )
}

pub open spec fn first_launched(installed: Seq<InstalledView>, command: Seq<char>) -> Option<
    InstalledView,
>
    decreases installed.len(),
{
    if installed.len() == 0 {
        None
    } else if launched_by(installed[0], command) {
        Some(installed[0])
    } else {
        first_launched(installed.skip(1), command)
    }
}

/// Whether the listing already holds this process or this application.
pub open spec fn listed(result: Seq<RunningView>, pid: u32, app: InstalledView) -> bool {
    exists|k: int|
        0 <= k < result.len() && (result[k].pid == Some(pid) || normalized(result[k].id)
            == normalized(app.id))
}

pub open spec fn process_entry(app: InstalledView, pid: u32) -> RunningView {
    RunningView {
        id: app.id,
        name: app.name,
        app_id: app.id,
        pid: Some(pid),
        title: None,
        focused: false,
        fullscreen: false,
        backend: "procfs"@,
    }
}

pub open spec fn add_process(
    result: Seq<RunningView>,
    installed: Seq<InstalledView>,
    p: ProcessView,
) -> Seq<RunningView> {
    match first_launched(installed, p.command) {
        None => result,
        Some(app) => if listed(result, p.pid, app) {
            result
        } else {
            result.push(process_entry(app, p.pid))
        },
    }
}

pub open spec fn add_processes(
    result: Seq<RunningView>,
    installed: Seq<InstalledView>,
    ps: Seq<ProcessView>,
) -> Seq<RunningView>
    decreases ps.len(),
{
    if ps.len() == 0 {
        result
    } else {
        add_process(add_processes(result, installed, ps.drop_last()), installed, ps.last())
    }
}

pub open spec fn pid_lt(a: Option<u32>, b: Option<u32>) -> bool {
    match (a, b) {
        (None, Some(_)) => true,
        (Some(x), Some(y)) => x < y,
        _ => false,
    }
}

/// The listing order: by name, then by pid (no pid first).
pub open spec fn running_lt(x: RunningView, y: RunningView) -> bool {
    text_lt(x.name, y.name) || (x.name == y.name && pid_lt(x.pid, y.pid))
}

/// `x` placed after every entry that does not sort after it.
pub open spec fn insert_running(s: Seq<RunningView>, x: RunningView) -> Seq<RunningView>
    decreases s.len(),
{
    if s.len() == 0 || !running_lt(x, s.last()) {
        s.push(x)
    } else {
        insert_running(s.drop_last(), x).push(s.last())
    }
}

/// The stable sort of a listing into listing order.
pub open spec fn sort_running(s: Seq<RunningView>) -> Seq<RunningView>
    decreases s.len(),
{
    if s.len() == 0 {
        s
    } else {
        insert_running(sort_running(s.drop_last()), s.last())
    }
}

/// Windows first, then processes of applications that no window already shows,
/// in listing order.
pub open spec fn running_listing(
    installed: Seq<InstalledView>,
    windows: Seq<WindowView>,
    ps: Seq<ProcessView>,
) -> Seq<RunningView> {
    sort_running(add_processes(window_entries(installed, windows), installed, ps))
}

proof fn lemma_insert_running_at(s: Seq<RunningView>, x: RunningView, j: int)
    requires
        0 <= j <= s.len(),
        forall|k: int| j <= k < s.len() ==> running_lt(x, #[trigger] s[k]),
        j == 0 || !running_lt(x, s[j - 1]),
    ensures
        insert_running(s, x) == s.insert(j, x),
    decreases s.len(),
{
    if j == s.len() {
        assert(s.insert(j, x) =~= s.push(x));
    } else {
        let t = s.drop_last();
        assert(running_lt(x, s[s.len() - 1]));
        assert forall|k: int| j <= k < t.len() implies running_lt(x, #[trigger] t[k]) by {
            assert(t[k] == s[k]);
        }
        if j > 0 {
            assert(t[j - 1] == s[j - 1]);
        }
        lemma_insert_running_at(t, x, j);
        assert(t.insert(j, x).push(s.last()) =~= s.insert(j, x));
    }
}

fn identity_index(installed: &[InstalledApplication], candidate: &str) -> (r: Option<usize>)
    ensures
        match r {
            Some(i) => i < installed.len() && first_identity(installed_views(installed@), candidate@)
                == Some(installed@[i as int]@),
            None => first_identity(installed_views(installed@), candidate@) is None,
        },
{
    let c = normalized_id(candidate);
    let ghost iv = installed_views(installed@);
    assert(iv.skip(0) =~= iv);
    let mut i: usize = 0;
    while i < installed.len()
        invariant
            i <= installed.len(),
            iv == installed_views(installed@),
            c@ == normalized(candidate@),
            first_identity(iv, candidate@) == first_identity(iv.skip(i as int), candidate@),
        decreases installed.len() - i,
    {
        let app = &installed[i];
        assert(iv.skip(i as int)[0] == app@);
        let by_id = str_eq(c.as_str(), normalized_id(app.id.as_str()).as_str());
        let by_exec = match &app.executable {
            Some(e) => str_eq(c.as_str(), normalized_id(e.as_str()).as_str()),
            None => false,
        };
        if by_id || by_exec {
            return Some(i);
        }
        assert(iv.skip(i as int).skip(1) =~= iv.skip(i + 1));
        i += 1;
    }
    None
}

fn launcher_index(installed: &[InstalledApplication], command: &str) -> (r: Option<usize>)
    ensures
        match r {
            Some(i) => i < installed.len() && first_launched(installed_views(installed@), command@)
                == Some(installed@[i as int]@),
            None => first_launched(installed_views(installed@), command@) is None,
        },
{
    let c = normalized_id(command);
    let ghost iv = installed_views(installed@);
    assert(iv.skip(0) =~= iv);
    let mut i: usize = 0;
    while i < installed.len()
        invariant
            i <= installed.len(),
            iv == installed_views(installed@),
            c@ == normalized(command@),
            first_launched(iv, command@) == first_launched(iv.skip(i as int), command@),
        decreases installed.len() - i,
    {
        let app = &installed[i];
        assert(iv.skip(i as int)[0] == app@);
        let hit = match &app.executable {
            Some(e) => !generic_launcher(e.as_str()) && str_eq(
                normalized_id(e.as_str()).as_str(),
                c.as_str(),
            ),
            None => false,
        };
        if hit {
            return Some(i);
        }
        assert(iv.skip(i as int).skip(1) =~= iv.skip(i + 1));
        i += 1;
    }
    None
}

fn already_listed(result: &Vec<RunningApplication>, pid: u32, app: &InstalledApplication) -> (r:
    bool)
    ensures
        r == listed(running_views(result@), pid, app@),
{
    let ghost rv = running_views(result@);
    let id = normalized_id(app.id.as_str());
    let mut k: usize = 0;
    while k < result.len()
        invariant
            k <= result.len(),
            rv == running_views(result@),
            id@ == normalized(app@.id),
            forall|m: int|
                0 <= m < k ==> !(rv[m].pid == Some(pid) || normalized(rv[m].id) == normalized(
                    app@.id,
                )),
        decreases result.len() - k,
    {
        let item = &result[k];
        let same_pid = match item.pid {
            Some(p) => p == pid,
            None => false,
        };
        if same_pid || str_eq(normalized_id(item.id.as_str()).as_str(), id.as_str()) {
            assert(rv[k as int] == item@);
            return true;
        }
        k += 1;
    }
    false
}

fn running_before(x: &RunningApplication, y: &RunningApplication) -> (r: bool)
    ensures
        r == running_lt(x@, y@),
{
    if text_lt_str(x.name.as_str(), y.name.as_str()) {
        return true;
    }
    if !str_eq(x.name.as_str(), y.name.as_str()) {
        return false;
    }
    match (x.pid, y.pid) {
        (None, Some(_)) => true,
        (Some(a), Some(b)) => a < b,
        _ => false,
    }
}

fn sort_listing(v: &Vec<RunningApplication>) -> (r: Vec<RunningApplication>)
    ensures
        running_views(r@) == sort_running(running_views(v@)),
{
    let ghost s = running_views(v@);
    let mut out: Vec<RunningApplication> = Vec::new();
    let mut i: usize = 0;
    assert(s.take(0) =~= Seq::<RunningView>::empty());
    while i < v.len()
        invariant
            i <= v.len(),
            s == running_views(v@),
            running_views(out@) == sort_running(s.take(i as int)),
        decreases v.len() - i,
    {
        let x = v[i].duplicate();
        let ghost o = running_views(out@);
        assert(s.take(i + 1).drop_last() =~= s.take(i as int));
        assert(s.take(i + 1).last() == x@);
        let mut j: usize = out.len();
        while j > 0 && running_before(&x, &out[j - 1])
            invariant
                j <= out.len(),
                o == running_views(out@),
                forall|m: int| j <= m < o.len() ==> running_lt(x@, #[trigger] o[m]),
            decreases j,
        {
            j -= 1;
        }
        proof {
            lemma_insert_running_at(o, x@, j as int);
        }
        let ghost xv = x@;
        out.insert(j, x);
        assert(running_views(out@) =~= o.insert(j as int, xv));
        i += 1;
    }
    assert(s.take(v@.len() as int) =~= s);
    out
}

/// The running applications: one per window, then one per process of a catalog
/// application that no window shows, sorted by name and pid.
pub fn running_from(
    installed: &[InstalledApplication],
    windows: Vec<ApplicationWindow>,
    processes: &[ProcessIdentity],
) -> (r: Vec<RunningApplication>)
    ensures
        running_views(r@) == running_listing(
            installed_views(installed@),
            window_views(windows@),
            process_views(processes@),
        ),
{
    let ghost iv = installed_views(installed@);
    let ghost wv = window_views(windows@);
    let mut result: Vec<RunningApplication> = Vec::new();
    let mut i: usize = 0;
    while i < windows.len()
        invariant
            i <= windows.len(),
            iv == installed_views(installed@),
            wv == window_views(windows@),
            running_views(result@) == window_entries(iv, wv.take(i as int)),
        decreases windows.len() - i,
    {
        let window = &windows[i];
        let matched = identity_index(installed, window.app_id.as_str());
        let (id, name) = match matched {
            Some(k) => (installed[k].id.clone(), installed[k].name.clone()),
            None => (window.app_id.clone(), window.app_id.clone()),
        };
        let entry = RunningApplication {
            id,
            name,
            app_id: window.app_id.clone(),
            pid: window.pid,
            title: clone_opt(&window.title),
            focused: window.focused,
            fullscreen: window.fullscreen,
            backend: window.backend.clone(),
        };
        assert(entry@ == window_entry(iv, wv[i as int]));
        let ghost before = running_views(result@);
        result.push(entry);
        assert(running_views(result@) =~= before.push(entry@));
        assert(window_entries(iv, wv.take(i + 1)) =~= window_entries(iv, wv.take(i as int)).push(
            window_entry(iv, wv[i as int]),
        ));
        i += 1;
    }
    assert(wv.take(windows@.len() as int) =~= wv);
    let ghost base = running_views(result@);
    let ghost pv = process_views(processes@);
    let mut p: usize = 0;
    assert(pv.take(0) =~= Seq::<ProcessView>::empty());
    while p < processes.len()
        invariant
            p <= processes.len(),
            iv == installed_views(installed@),
            pv == process_views(processes@),
            running_views(result@) == add_processes(base, iv, pv.take(p as int)),
        decreases processes.len() - p,
    {
        let process = &processes[p];
        assert(pv.take(p + 1).drop_last() =~= pv.take(p as int));
        assert(pv.take(p + 1).last() == process@);
        match launcher_index(installed, process.command.as_str()) {
            None => {},
            Some(k) => {
                let app = &installed[k];
                if !already_listed(&result, process.pid, app) {
                    let entry = RunningApplication {
                        id: app.id.clone(),
                        name: app.name.clone(),
                        app_id: app.id.clone(),
                        pid: Some(process.pid),
                        title: None,
                        focused: false,
                        fullscreen: false,
                        backend: crate::text::owned("procfs"),
                    };
                    let ghost before = running_views(result@);
                    result.push(entry);
                    assert(running_views(result@) =~= before.push(entry@));
                }
            },
        }
        p += 1;
    }
    assert(pv.take(processes@.len() as int) =~= pv);
    sort_listing(&result)
}

impl ApplicationCatalog {
    /// The running applications, given the catalog, the compositor's windows and
    /// the processes found.
    pub fn running(
        installed: &[InstalledApplication],
        windows: Vec<ApplicationWindow>,
        processes: &[ProcessIdentity],
    ) -> (r: Vec<RunningApplication>)
        ensures
            running_views(r@) == running_listing(
                installed_views(installed@),
                window_views(windows@),
                process_views(processes@),
            ),
    {
        running_from(installed, windows, processes)
    }
}

/// Whether some requested id names `v`; blank ids name nothing.
pub open spec fn wanted(ids: Seq<Seq<char>>, v: Seq<char>) -> bool {
    normalized(v).len() > 0 && exists|k: int|
        0 <= k < ids.len() && normalized(#[trigger] ids[k]) == normalized(v)
}

pub open spec fn selected(ids: Seq<Seq<char>>, a: RunningView) -> bool {
    wanted(ids, a.id) || wanted(ids, a.app_id)
}

/// The running applications that a requested id names, in their order.
pub open spec fn matching(running: Seq<RunningView>, ids: Seq<Seq<char>>) -> Seq<RunningView>
    decreases running.len(),
{
    if running.len() == 0 {
        Seq::empty()
    } else {
        let m = matching(running.drop_last(), ids);
        if selected(ids, running.last()) {
            m.push(running.last())
        } else {
            m
        }
    }
}

fn wanted_exec(ids: &[String], v: &str) -> (r: bool)
    ensures
        r == wanted(crate::text::views(ids@), v@),
{
    let ghost s = crate::text::views(ids@);
    let n = normalized_id(v);
    if n.as_str().is_empty() {
        return false;
    }
    let mut k: usize = 0;
    while k < ids.len()
        invariant
            k <= ids.len(),
            s == crate::text::views(ids@),
            n@ == normalized(v@),
            n@.len() > 0,
            forall|m: int| 0 <= m < k ==> normalized(#[trigger] s[m]) != normalized(v@),
        decreases ids.len() - k,
    {
        if str_eq(normalized_id(ids[k].as_str()).as_str(), n.as_str()) {
            assert(normalized(s[k as int]) == normalized(v@));
            return true;
        }
        k += 1;
    }
    false
}

/// The running applications whose id or app id matches one of `ids`.
pub fn application_matches(running: &[RunningApplication], ids: &[String]) -> (r: Vec<
    RunningApplication,
>)
    ensures
        running_views(r@) == matching(running_views(running@), crate::text::views(ids@)),
{
    let ghost rv = running_views(running@);
    let ghost s = crate::text::views(ids@);
    let mut out: Vec<RunningApplication> = Vec::new();
    let mut i: usize = 0;
    assert(rv.take(0) =~= Seq::<RunningView>::empty());
    while i < running.len()
        invariant
            i <= running.len(),
            rv == running_views(running@),
            s == crate::text::views(ids@),
            running_views(out@) == matching(rv.take(i as int), s),
        decreases running.len() - i,
    {
        let a = &running[i];
        assert(rv.take(i + 1).drop_last() =~= rv.take(i as int));
        assert(rv.take(i + 1).last() == a@);
        if wanted_exec(ids, a.id.as_str()) || wanted_exec(ids, a.app_id.as_str()) {
            let ghost before = running_views(out@);
            let c = a.duplicate();
            out.push(c);
            assert(running_views(out@) =~= before.push(a@));
        }
        i += 1;
    }
    assert(rv.take(running@.len() as int) =~= rv);
    out
}


// ---------------------------------------------------------------------------
// Laws
// ---------------------------------------------------------------------------
/// No entry sorts before an entry ahead of it.
pub open spec fn running_sorted(s: Seq<RunningView>) -> bool {
    forall|i: int, j: int| 0 <= i < j < s.len() ==> !running_lt(#[trigger] s[j], #[trigger] s[i])
}

proof fn lemma_running_lt_asymmetric(a: RunningView, b: RunningView)
    ensures
        running_lt(a, b) ==> !running_lt(b, a),
{
    lemma_text_lt_asymmetric(a.name, b.name);
}

proof fn lemma_running_le_transitive(a: RunningView, b: RunningView, c: RunningView)
    ensures
        !running_lt(b, a) && !running_lt(c, b) ==> !running_lt(c, a),
{
    lemma_text_lt_total(a.name, b.name);
    lemma_text_lt_total(b.name, c.name);
    lemma_text_lt_total(a.name, c.name);
    lemma_text_lt_transitive(c.name, b.name, a.name);
    lemma_text_lt_transitive(c.name, a.name, b.name);
    lemma_text_lt_transitive(b.name, c.name, a.name);
    lemma_text_lt_transitive(a.name, c.name, b.name);
    lemma_text_lt_asymmetric(a.name, b.name);
    lemma_text_lt_asymmetric(b.name, c.name);
    lemma_text_lt_asymmetric(a.name, c.name);
}

proof fn lemma_insert_running_bounded(s: Seq<RunningView>, x: RunningView, b: RunningView)
    requires
        forall|i: int| 0 <= i < s.len() ==> !running_lt(b, #[trigger] s[i]),
        !running_lt(b, x),
    ensures
        forall|i: int|
            0 <= i < insert_running(s, x).len() ==> !running_lt(b, #[trigger] insert_running(s, x)[i]),
    decreases s.len(),
{
    if s.len() > 0 && running_lt(x, s.last()) {
        let t = s.drop_last();
        assert forall|i: int| 0 <= i < t.len() implies !running_lt(b, #[trigger] t[i]) by {
            assert(t[i] == s[i]);
        }
        lemma_insert_running_bounded(t, x, b);
        let u = insert_running(t, x);
        assert(insert_running(s, x) == u.push(s.last()));
        assert forall|i: int| 0 <= i < u.push(s.last()).len() implies !running_lt(
            b,
            #[trigger] u.push(s.last())[i],
        ) by {
            if i < u.len() {
                assert(u.push(s.last())[i] == u[i]);
            } else {
                assert(s[s.len() - 1] == s.last());
            }
        }
    }
}

proof fn lemma_insert_running_sorted(s: Seq<RunningView>, x: RunningView)
    requires
        running_sorted(s),
    ensures
        running_sorted(insert_running(s, x)),
    decreases s.len(),
{
    if s.len() == 0 || !running_lt(x, s.last()) {
        let u = s.push(x);
        assert forall|i: int, j: int| 0 <= i < j < u.len() implies !running_lt(
            #[trigger] u[j],
            #[trigger] u[i],
        ) by {
            if j < s.len() {
                assert(u[i] == s[i] && u[j] == s[j]);
            } else {
                assert(u[j] == x && u[i] == s[i]);
                if i < s.len() - 1 {
                    assert(!running_lt(s[s.len() - 1], s[i]));
                }
                lemma_running_le_transitive(s[i], s[s.len() - 1], x);
            }
        }
    } else {
        let t = s.drop_last();
        let l = s.last();
        assert forall|i: int, j: int| 0 <= i < j < t.len() implies !running_lt(
            #[trigger] t[j],
            #[trigger] t[i],
        ) by {
            assert(t[i] == s[i] && t[j] == s[j]);
        }
        lemma_insert_running_sorted(t, x);
        assert forall|i: int| 0 <= i < t.len() implies !running_lt(l, #[trigger] t[i]) by {
            assert(t[i] == s[i]);
            assert(l == s[s.len() - 1]);
        }
        lemma_running_lt_asymmetric(x, l);
        lemma_insert_running_bounded(t, x, l);
        let u = insert_running(t, x);
        let v = u.push(l);
        assert forall|i: int, j: int| 0 <= i < j < v.len() implies !running_lt(
            #[trigger] v[j],
            #[trigger] v[i],
        ) by {
            if j < u.len() {
                assert(v[i] == u[i] && v[j] == u[j]);
            } else {
                assert(v[j] == l && v[i] == u[i]);
            }
        }
    }
}

proof fn lemma_sort_running_sorted(s: Seq<RunningView>)
    ensures
        running_sorted(sort_running(s)),
    decreases s.len(),
{
    if s.len() > 0 {
        lemma_sort_running_sorted(s.drop_last());
        lemma_insert_running_sorted(sort_running(s.drop_last()), s.last());
    }
}

/// The running listing is in listing order: by name, then by pid.
pub proof fn law_running_listing_is_ordered(
    installed: Seq<InstalledView>,
    windows: Seq<WindowView>,
    processes: Seq<ProcessView>,
)
    ensures
        running_sorted(running_listing(installed, windows, processes)),
{
    lemma_sort_running_sorted(add_processes(window_entries(installed, windows), installed, processes));
}

proof fn lemma_first_identity_at(installed: Seq<InstalledView>, c: Seq<char>, i: int)
    requires
        0 <= i < installed.len(),
        identity_matches(installed[i], c),
        forall|j: int| 0 <= j < i ==> !identity_matches(#[trigger] installed[j], c),
    ensures
        first_identity(installed, c) == Some(installed[i]),
    decreases i,
{
    if i > 0 {
        let t = installed.skip(1);
        assert(!identity_matches(installed[0], c));
        assert(t[i - 1] == installed[i]);
        assert forall|j: int| 0 <= j < i - 1 implies !identity_matches(#[trigger] t[j], c) by {
            assert(t[j] == installed[j + 1]);
        }
        lemma_first_identity_at(t, c, i - 1);
    }
}

proof fn lemma_insert_running_keeps(s: Seq<RunningView>, x: RunningView)
    ensures
        insert_running(s, x).contains(x),
        forall|k: int| 0 <= k < s.len() ==> insert_running(s, x).contains(#[trigger] s[k]),
    decreases s.len(),
{
    let r = insert_running(s, x);
    if s.len() == 0 || !running_lt(x, s.last()) {
        assert(r == s.push(x));
        assert(r[s.len() as int] == x);
        assert forall|k: int| 0 <= k < s.len() implies r.contains(#[trigger] s[k]) by {
            assert(r[k] == s[k]);
        }
    } else {
        let t = s.drop_last();
        lemma_insert_running_keeps(t, x);
        let u = insert_running(t, x);
        assert(r == u.push(s.last()));
        let w = choose|w: int| 0 <= w < u.len() && u[w] == x;
        assert(r[w] == x);
        assert forall|k: int| 0 <= k < s.len() implies r.contains(#[trigger] s[k]) by {
            if k == s.len() - 1 {
                assert(r[u.len() as int] == s[k]);
            } else {
                assert(t[k] == s[k]);
                assert(u.contains(t[k]));
                let w2 = choose|w2: int| 0 <= w2 < u.len() && u[w2] == t[k];
                assert(r[w2] == s[k]);
            }
        }
    }
}

proof fn lemma_sort_running_keeps(s: Seq<RunningView>)
    ensures
        forall|k: int| 0 <= k < s.len() ==> sort_running(s).contains(#[trigger] s[k]),
    decreases s.len(),
{
    if s.len() > 0 {
        let t = s.drop_last();
        lemma_sort_running_keeps(t);
        let u = sort_running(t);
        lemma_insert_running_keeps(u, s.last());
        assert forall|k: int| 0 <= k < s.len() implies sort_running(s).contains(#[trigger] s[k]) by {
            if k < s.len() - 1 {
                assert(t[k] == s[k]);
                assert(u.contains(t[k]));
                let w = choose|w: int| 0 <= w < u.len() && u[w] == t[k];
                assert(insert_running(u, s.last()).contains(u[w]));
            }
        }
    }
}

proof fn lemma_add_processes_prefix(
    result: Seq<RunningView>,
    installed: Seq<InstalledView>,
    ps: Seq<ProcessView>,
)
    ensures
        add_processes(result, installed, ps).len() >= result.len(),
        forall|k: int| 0 <= k < result.len() ==> #[trigger] add_processes(result, installed, ps)[k]
            == result[k],
    decreases ps.len(),
{
    if ps.len() > 0 {
        lemma_add_processes_prefix(result, installed, ps.drop_last());
        let a = add_processes(result, installed, ps.drop_last());
        assert forall|k: int| 0 <= k < result.len() implies #[trigger] add_process(
            a,
            installed,
            ps.last(),
        )[k] == result[k] by {
            assert(a[k] == result[k]);
        }
    }
}

/// A window whose app id names the executable of an installed application,
/// when no earlier application matches it by id or by executable, is listed
/// under that application's id and name, with its own app id and pid.
pub proof fn law_window_named_by_its_executable(
    installed: Seq<InstalledView>,
    windows: Seq<WindowView>,
    processes: Seq<ProcessView>,
    m: int,
    i: int,
)
    requires
        0 <= m < windows.len(),
        0 <= i < installed.len(),
        installed[i].executable is Some,
        normalized(windows[m].app_id) == normalized(installed[i].executable->Some_0),
        forall|j: int|
            0 <= j < i ==> normalized(windows[m].app_id) != normalized(#[trigger] installed[j].id) && (
            installed[j].executable is Some ==> normalized(windows[m].app_id) != normalized(
                installed[j].executable->Some_0,
            )),
    ensures
        exists|k: int|
            0 <= k < running_listing(installed, windows, processes).len() && {
                let e = #[trigger] running_listing(installed, windows, processes)[k];
                &&& e.id == installed[i].id
                &&& e.name == installed[i].name
                &&& e.app_id == windows[m].app_id
                &&& e.pid == windows[m].pid
            },
{
    let c = windows[m].app_id;
    assert forall|j: int| 0 <= j < i implies !identity_matches(#[trigger] installed[j], c) by {
        assert(normalized(c) != normalized(installed[j].id));
    }
    lemma_first_identity_at(installed, c, i);
    let entry = window_entry(installed, windows[m]);
    let ws = window_entries(installed, windows);
    assert(ws[m] == entry);
    lemma_add_processes_prefix(ws, installed, processes);
    let all = add_processes(ws, installed, processes);
    assert(all[m] == entry);
    lemma_sort_running_keeps(all);
    assert(sort_running(all).contains(all[m]));
    let k = choose|k: int| 0 <= k < sort_running(all).len() && sort_running(all)[k] == all[m];
    assert(running_listing(installed, windows, processes)[k] == entry);
}

/// Ids strictly increase along the catalog.
pub open spec fn strictly_by_id(s: Seq<InstalledView>) -> bool {
    forall|i: int, j: int| 0 <= i < j < s.len() ==> text_lt(#[trigger] s[i].id, #[trigger] s[j].id)
}

proof fn lemma_insert_by_id_bounded(s: Seq<InstalledView>, x: InstalledView, b: Seq<char>)
    requires
        forall|i: int| 0 <= i < s.len() ==> text_lt(#[trigger] s[i].id, b),
        text_lt(x.id, b),
    ensures
        forall|i: int|
            0 <= i < insert_by_id(s, x).len() ==> text_lt(#[trigger] insert_by_id(s, x)[i].id, b),
    decreases s.len(),
{
    if s.len() > 0 && text_lt(x.id, s.last().id) {
        let t = s.drop_last();
        assert forall|i: int| 0 <= i < t.len() implies text_lt(#[trigger] t[i].id, b) by {
            assert(t[i] == s[i]);
        }
        lemma_insert_by_id_bounded(t, x, b);
        let u = insert_by_id(t, x);
        assert forall|i: int| 0 <= i < u.push(s.last()).len() implies text_lt(
            #[trigger] u.push(s.last())[i].id,
            b,
        ) by {
            if i < u.len() {
                assert(u.push(s.last())[i] == u[i]);
            } else {
                assert(s[s.len() - 1] == s.last());
            }
        }
    }
}

proof fn lemma_insert_by_id_sorted(s: Seq<InstalledView>, x: InstalledView)
    requires
        strictly_by_id(s),
        !has_id(s, x.id),
    ensures
        strictly_by_id(insert_by_id(s, x)),
    decreases s.len(),
{
    if s.len() == 0 || !text_lt(x.id, s.last().id) {
        let u = s.push(x);
        if s.len() > 0 {
            let l = s[s.len() - 1];
            assert(l.id != x.id);
            lemma_text_lt_total(l.id, x.id);
        }
        assert forall|i: int, j: int| 0 <= i < j < u.len() implies text_lt(
            #[trigger] u[i].id,
            #[trigger] u[j].id,
        ) by {
            if j < s.len() {
                assert(u[i] == s[i] && u[j] == s[j]);
            } else {
                assert(u[j] == x && u[i] == s[i]);
                if i < s.len() - 1 {
                    assert(text_lt(s[i].id, s[s.len() - 1].id));
                    lemma_text_lt_transitive(s[i].id, s[s.len() - 1].id, x.id);
                }
            }
        }
    } else {
        let t = s.drop_last();
        let l = s.last();
        assert forall|i: int, j: int| 0 <= i < j < t.len() implies text_lt(
            #[trigger] t[i].id,
            #[trigger] t[j].id,
        ) by {
            assert(t[i] == s[i] && t[j] == s[j]);
        }
        assert(!has_id(t, x.id)) by {
            if has_id(t, x.id) {
                let k = choose|k: int| 0 <= k < t.len() && t[k].id == x.id;
                assert(s[k] == t[k]);
            }
        }
        lemma_insert_by_id_sorted(t, x);
        assert forall|i: int| 0 <= i < t.len() implies text_lt(#[trigger] t[i].id, l.id) by {
            assert(t[i] == s[i]);
            assert(l == s[s.len() - 1]);
        }
        lemma_insert_by_id_bounded(t, x, l.id);
        let u = insert_by_id(t, x);
        let v = u.push(l);
        assert forall|i: int, j: int| 0 <= i < j < v.len() implies text_lt(
            #[trigger] v[i].id,
            #[trigger] v[j].id,
        ) by {
            if j < u.len() {
                assert(v[i] == u[i] && v[j] == u[j]);
            } else {
                assert(v[j] == l && v[i] == u[i]);
            }
        }
    }
}

/// The catalog holds one application per desktop-file id, in increasing id order.
pub proof fn law_catalog_is_strictly_ordered_by_id(found: Seq<InstalledView>)
    ensures
        strictly_by_id(catalog(found)),
    decreases found.len(),
{
    if found.len() > 0 {
        law_catalog_is_strictly_ordered_by_id(found.drop_last());
        let c = catalog(found.drop_last());
        if !has_id(c, found.last().id) {
            lemma_insert_by_id_sorted(c, found.last());
        }
    }
}

} // verus!
