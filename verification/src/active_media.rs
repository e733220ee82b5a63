//! Which media each output shows, who published it, and whose publication it suspended.
use vstd::prelude::*;

use crate::text::{
    char_is_alnum, chars_of, decimal, is_alnum, lemma_text_le_transitive, lemma_text_lt_asymmetric,
    owned, push_str, str_eq, text_lt, text_lt_str, u64_to_string,
};

verus! {

pub const SCHEMA_VERSION: u8 = 1;

#[derive(Debug, Clone, Copy, PartialEq, Eq, Structural)]
pub enum ActiveMediaKind {
    Static,
    Live,
}

pub open spec fn kind_spec(value: Seq<char>) -> Result<ActiveMediaKind, Seq<char>> {
    if value == "static"@ {
        Ok(ActiveMediaKind::Static)
    } else if value == "live"@ {
        Ok(ActiveMediaKind::Live)
    } else {
        Err("active media kind must be static or live"@)
    }
}

impl ActiveMediaKind {
    pub fn parse(value: &str) -> (r: Result<Self, String>)
        ensures
            match r {
                Ok(k) => kind_spec(value@) == Ok::<ActiveMediaKind, Seq<char>>(k),
                Err(e) => kind_spec(value@) == Err::<ActiveMediaKind, Seq<char>>(e@),
            },
    {
        if str_eq(value, "static") {
            Ok(ActiveMediaKind::Static)
        } else if str_eq(value, "live") {
            Ok(ActiveMediaKind::Live)
        } else {
            Err(owned("active media kind must be static or live"))
        }
    }
}

/// The media published for one output; paths are canonical.
#[derive(Debug, Clone, PartialEq, Eq)]
pub struct ActiveMediaRecord {
    pub schema_version: u8,
    pub output: String,
    pub owner: String,
    pub media_type: ActiveMediaKind,
    pub source: String,
    pub representative_image: String,
    pub updated_at_unix_ms: u128,
}

pub struct MediaView {
    pub schema_version: u8,
    pub output: Seq<char>,
    pub owner: Seq<char>,
    pub media_type: ActiveMediaKind,
    pub source: Seq<char>,
    pub representative_image: Seq<char>,
    pub updated_at_unix_ms: u128,
}

impl View for ActiveMediaRecord {
    type V = MediaView;

    open spec fn view(&self) -> MediaView {
        MediaView {
            schema_version: self.schema_version,
            output: self.output@,
            owner: self.owner@,
            media_type: self.media_type,
            source: self.source@,
            representative_image: self.representative_image@,
            updated_at_unix_ms: self.updated_at_unix_ms,
        }
    }
}

impl ActiveMediaRecord {
    /// A copy with the same view.
    pub fn duplicate(&self) -> (r: ActiveMediaRecord)
        ensures
            r@ == self@,
    {
        ActiveMediaRecord {
            schema_version: self.schema_version,
            output: self.output.clone(),
            owner: self.owner.clone(),
            media_type: self.media_type,
            source: self.source.clone(),
            representative_image: self.representative_image.clone(),
            updated_at_unix_ms: self.updated_at_unix_ms,
        }
    }
}

/// The active record of each output and, per output, the publications it suspended.
#[derive(Debug, Clone)]
pub struct ActiveMediaIndex {
    pub schema_version: u8,
    pub records: Vec<ActiveMediaRecord>,
    pub suspended: Vec<(String, Vec<ActiveMediaRecord>)>,
}

pub open spec fn media_views(s: Seq<ActiveMediaRecord>) -> Seq<MediaView> {
    s.map_values(|r: ActiveMediaRecord| r@)
}

pub open spec fn suspended_views(s: Seq<(String, Vec<ActiveMediaRecord>)>) -> Seq<
    (Seq<char>, Seq<MediaView>),
> {
    s.map_values(|e: (String, Vec<ActiveMediaRecord>)| (e.0@, media_views(e.1@)))
}

pub struct IndexView {
    pub records: Seq<MediaView>,
    pub suspended: Seq<(Seq<char>, Seq<MediaView>)>,
}

impl View for ActiveMediaIndex {
    type V = IndexView;

    open spec fn view(&self) -> IndexView {
        IndexView { records: media_views(self.records@), suspended: suspended_views(self.suspended@) }
    }
}

/// Each output has at most one active record and at most one suspension list.
pub open spec fn index_wf(v: IndexView) -> bool {
    &&& forall|i: int, j: int|
        0 <= i < j < v.records.len() ==> (#[trigger] v.records[i]).output
            != (#[trigger] v.records[j]).output
    &&& forall|i: int, j: int|
        0 <= i < j < v.suspended.len() ==> (#[trigger] v.suspended[i]).0
            != (#[trigger] v.suspended[j]).0
}

impl ActiveMediaIndex {
    pub fn new() -> (r: ActiveMediaIndex)
        ensures
            r.schema_version == SCHEMA_VERSION,
            r@.records.len() == 0,
            r@.suspended.len() == 0,
            index_wf(r@),
    {
        ActiveMediaIndex { schema_version: SCHEMA_VERSION, records: Vec::new(), suspended: Vec::new() }
    }
}

// ---------------------------------------------------------------------------
// Index model
// ---------------------------------------------------------------------------
pub open spec fn find_output(s: Seq<MediaView>, output: Seq<char>) -> Option<int>
    decreases s.len(),
{
    if s.len() == 0 {
        None
    } else {
        match find_output(s.drop_last(), output) {
            Some(k) => Some(k),
            None => if s.last().output == output {
                Some(s.len() - 1)
            } else {
                None
            },
        }
    }
}

pub open spec fn find_key(s: Seq<(Seq<char>, Seq<MediaView>)>, output: Seq<char>) -> Option<int>
    decreases s.len(),
{
    if s.len() == 0 {
        None
    } else {
        match find_key(s.drop_last(), output) {
            Some(k) => Some(k),
            None => if s.last().0 == output {
                Some(s.len() - 1)
            } else {
                None
            },
        }
    }
}

pub open spec fn set_record(s: Seq<MediaView>, r: MediaView) -> Seq<MediaView> {
    match find_output(s, r.output) {
        Some(i) => s.update(i, r),
        None => s.push(r),
    }
}

pub open spec fn without_owner(s: Seq<MediaView>, owner: Seq<char>) -> Seq<MediaView>
    decreases s.len(),
{
    if s.len() == 0 {
        s
    } else if s.last().owner == owner {
        without_owner(s.drop_last(), owner)
    } else {
        without_owner(s.drop_last(), owner).push(s.last())
    }
}

pub open spec fn suspension_of(
    sus: Seq<(Seq<char>, Seq<MediaView>)>,
    output: Seq<char>,
) -> Seq<MediaView> {
    match find_key(sus, output) {
        Some(i) => sus[i].1,
        None => Seq::empty(),
    }
}

pub open spec fn set_suspension(
    sus: Seq<(Seq<char>, Seq<MediaView>)>,
    output: Seq<char>,
    list: Seq<MediaView>,
) -> Seq<(Seq<char>, Seq<MediaView>)> {
    match find_key(sus, output) {
        Some(i) => sus.update(i, (output, list)),
        None => sus.push((output, list)),
    }
}

pub open spec fn drop_suspension(
    sus: Seq<(Seq<char>, Seq<MediaView>)>,
    output: Seq<char>,
) -> Seq<(Seq<char>, Seq<MediaView>)> {
    match find_key(sus, output) {
        Some(i) => sus.remove(i),
        None => sus,
    }
}

/// Publishing replaces the output's record; another owner's record is suspended.
pub open spec fn publish_spec(v: IndexView, r: MediaView) -> IndexView {
    let suspended = match find_output(v.records, r.output) {
        Some(i) => if v.records[i].owner != r.owner {
            set_suspension(
                v.suspended,
                r.output,
                without_owner(suspension_of(v.suspended, r.output), v.records[i].owner).push(
                    v.records[i],
                ),
            )
        } else {
            v.suspended
        },
        None => v.suspended,
    };
    IndexView { records: set_record(v.records, r), suspended }
}

/// Removing the owner's record resumes the latest suspended publication of the output.
pub open spec fn remove_spec(v: IndexView, output: Seq<char>, owner: Seq<char>) -> Result<
    (bool, IndexView),
    Seq<char>,
> {
    match find_output(v.records, output) {
        None => Ok((false, v)),
        Some(i) => if v.records[i].owner != owner {
            Err(
                "active media ownership conflict: "@ + output + " belongs to "@
                    + v.records[i].owner,
            )
        } else {
            let rest = v.records.remove(i);
            let list = suspension_of(v.suspended, output);
            if list.len() == 0 {
                Ok((true, IndexView { records: rest, suspended: drop_suspension(v.suspended, output) }))
            } else {
                let remaining = list.drop_last();
                Ok(
                    (
                        true,
                        IndexView {
                            records: set_record(rest, list.last()),
                            suspended: if remaining.len() == 0 {
                                drop_suspension(v.suspended, output)
                            } else {
                                set_suspension(v.suspended, output, remaining)
                            },
                        },
                    ),
                )
            }
        },
    }
}

pub open spec fn ident_char(c: char) -> bool {
    is_alnum(c) || c == '.' || c == '_' || c == ':' || c == '-'
}

pub open spec fn media_identifier_check(value: Seq<char>, label: Seq<char>) -> Result<
    (),
    Seq<char>,
> {
    if value.len() > 0 && value.len() <= 128 && forall|i: int|
        0 <= i < value.len() ==> ident_char(#[trigger] value[i]) {
        Ok(())
    } else {
        Err("invalid active media "@ + label + ": "@ + value)
    }
}

/// Output and owner names: 1 to 128 characters of `[A-Za-z0-9._:-]`.
pub fn validate_identifier(value: &str, label: &str) -> (r: Result<(), String>)
    ensures
        match r {
            Ok(()) => media_identifier_check(value@, label@) is Ok,
            Err(e) => media_identifier_check(value@, label@) == Err::<(), Seq<char>>(e@),
        },
{
    let x = chars_of(value);
    let mut ok = x.len() > 0 && x.len() <= 128;
    let mut i: usize = 0;
    while i < x.len()
        invariant
            x@ == value@,
            i <= x.len(),
            ok == (x.len() > 0 && x.len() <= 128 && forall|k: int|
                0 <= k < i ==> ident_char(#[trigger] x@[k])),
        decreases x.len() - i,
    {
        let c = x[i];
        let good = char_is_alnum(c) || c == '.' || c == '_' || c == ':' || c == '-';
        assert(good == ident_char(x@[i as int]));
        ok = ok && good;
        i += 1;
    }
    if ok {
        Ok(())
    } else {
        let mut e = owned("invalid active media ");
        push_str(&mut e, label);
        push_str(&mut e, ": ");
        push_str(&mut e, value);
        Err(e)
    }
}

} // verus!

verus! {

pub proof fn lemma_find_output(s: Seq<MediaView>, output: Seq<char>)
    ensures
        match find_output(s, output) {
            Some(k) => 0 <= k < s.len() && s[k].output == output && forall|j: int|
                0 <= j < k ==> (#[trigger] s[j]).output != output,
            None => forall|j: int| 0 <= j < s.len() ==> (#[trigger] s[j]).output != output,
        },
    decreases s.len(),
{
    if s.len() > 0 {
        let t = s.drop_last();
        lemma_find_output(t, output);
        assert forall|j: int| 0 <= j < t.len() implies t[j] == s[j] by {}
    }
}

pub proof fn lemma_find_key(s: Seq<(Seq<char>, Seq<MediaView>)>, output: Seq<char>)
    ensures
        match find_key(s, output) {
            Some(k) => 0 <= k < s.len() && s[k].0 == output && forall|j: int|
                0 <= j < k ==> (#[trigger] s[j]).0 != output,
            None => forall|j: int| 0 <= j < s.len() ==> (#[trigger] s[j]).0 != output,
        },
    decreases s.len(),
{
    if s.len() > 0 {
        let t = s.drop_last();
        lemma_find_key(t, output);
        assert forall|j: int| 0 <= j < t.len() implies t[j] == s[j] by {}
    }
}

/// The first index with all earlier entries different and this one matching is the answer.
pub proof fn lemma_find_output_at(s: Seq<MediaView>, output: Seq<char>, k: int)
    requires
        0 <= k < s.len(),
        s[k].output == output,
        forall|j: int| 0 <= j < k ==> (#[trigger] s[j]).output != output,
    ensures
        find_output(s, output) == Some(k),
{
    lemma_find_output(s, output);
    match find_output(s, output) {
        Some(m) => {
            if m < k {
                assert(s[m].output != output);
            } else if m > k {
                assert(s[k].output != output);
            }
        },
        None => {
            assert(s[k].output != output);
        },
    }
}

pub proof fn lemma_find_key_at(s: Seq<(Seq<char>, Seq<MediaView>)>, output: Seq<char>, k: int)
    requires
        0 <= k < s.len(),
        s[k].0 == output,
        forall|j: int| 0 <= j < k ==> (#[trigger] s[j]).0 != output,
    ensures
        find_key(s, output) == Some(k),
{
    lemma_find_key(s, output);
    match find_key(s, output) {
        Some(m) => {
            if m < k {
                assert(s[m].0 != output);
            } else if m > k {
                assert(s[k].0 != output);
            }
        },
        None => {
            assert(s[k].0 != output);
        },
    }
}

fn find_output_exec(records: &Vec<ActiveMediaRecord>, output: &str) -> (r: Option<usize>)
    ensures
        match r {
            Some(k) => k < records.len() && find_output(media_views(records@), output@) == Some(
                k as int,
            ),
            None => find_output(media_views(records@), output@) is None,
        },
{
    let ghost s = media_views(records@);
    let mut i: usize = 0;
    while i < records.len()
        invariant
            s == media_views(records@),
            i <= records.len(),
            forall|j: int| 0 <= j < i ==> (#[trigger] s[j]).output != output@,
        decreases records.len() - i,
    {
        assert(s[i as int] == records@[i as int]@);
        if str_eq(records[i].output.as_str(), output) {
            proof {
                lemma_find_output_at(s, output@, i as int);
            }
            return Some(i);
        }
        i += 1;
    }
    proof {
        lemma_find_output(s, output@);
        if find_output(s, output@) is Some {
            let k = find_output(s, output@)->0;
            assert(s[k].output != output@);
        }
    }
    None
}

fn find_key_exec(suspended: &Vec<(String, Vec<ActiveMediaRecord>)>, output: &str) -> (r: Option<
    usize,
>)
    ensures
        match r {
            Some(k) => k < suspended.len() && find_key(suspended_views(suspended@), output@)
                == Some(k as int),
            None => find_key(suspended_views(suspended@), output@) is None,
        },
{
    let ghost s = suspended_views(suspended@);
    let mut i: usize = 0;
    while i < suspended.len()
        invariant
            s == suspended_views(suspended@),
            i <= suspended.len(),
            forall|j: int| 0 <= j < i ==> (#[trigger] s[j]).0 != output@,
        decreases suspended.len() - i,
    {
        assert(s[i as int].0 == suspended@[i as int].0@);
        if str_eq(suspended[i].0.as_str(), output) {
            proof {
                lemma_find_key_at(s, output@, i as int);
            }
            return Some(i);
        }
        i += 1;
    }
    proof {
        lemma_find_key(s, output@);
        if find_key(s, output@) is Some {
            let k = find_key(s, output@)->0;
            assert(s[k].0 != output@);
        }
    }
    None
}

fn copy_records(v: &Vec<ActiveMediaRecord>) -> (r: Vec<ActiveMediaRecord>)
    ensures
        media_views(r@) == media_views(v@),
{
    let mut r: Vec<ActiveMediaRecord> = Vec::new();
    let mut i: usize = 0;
    while i < v.len()
        invariant
            i <= v.len(),
            media_views(r@) == media_views(v@).take(i as int),
        decreases v.len() - i,
    {
        let ghost before = media_views(r@);
        r.push(v[i].duplicate());
        assert(media_views(r@) =~= before.push(v@[i as int]@));
        assert(media_views(r@) =~= media_views(v@).take(i + 1));
        i += 1;
    }
    assert(media_views(v@).take(v.len() as int) =~= media_views(v@));
    r
}

fn without_owner_exec(list: &Vec<ActiveMediaRecord>, owner: &str) -> (r: Vec<ActiveMediaRecord>)
    ensures
        media_views(r@) == without_owner(media_views(list@), owner@),
{
    let ghost s = media_views(list@);
    let mut r: Vec<ActiveMediaRecord> = Vec::new();
    let mut i: usize = 0;
    while i < list.len()
        invariant
            s == media_views(list@),
            i <= list.len(),
            media_views(r@) == without_owner(s.take(i as int), owner@),
        decreases list.len() - i,
    {
        assert(s.take(i + 1).drop_last() =~= s.take(i as int));
        assert(s[i as int] == list@[i as int]@);
        if !str_eq(list[i].owner.as_str(), owner) {
            let ghost before = media_views(r@);
            r.push(list[i].duplicate());
            assert(media_views(r@) =~= before.push(s[i as int]));
        }
        i += 1;
    }
    assert(s.take(list.len() as int) =~= s);
    r
}

fn set_record_exec(records: &mut Vec<ActiveMediaRecord>, record: ActiveMediaRecord)
    ensures
        media_views(final(records)@) == set_record(media_views(old(records)@), record@),
{
    let ghost s = media_views(records@);
    let ghost rv = record@;
    match find_output_exec(records, record.output.as_str()) {
        Some(i) => {
            records.set(i, record);
            assert(media_views(records@) =~= s.update(i as int, rv));
        },
        None => {
            records.push(record);
            assert(media_views(records@) =~= s.push(rv));
        },
    }
}

fn set_suspension_exec(
    suspended: &mut Vec<(String, Vec<ActiveMediaRecord>)>,
    output: &str,
    list: Vec<ActiveMediaRecord>,
)
    ensures
        suspended_views(final(suspended)@) == set_suspension(
            suspended_views(old(suspended)@),
            output@,
            media_views(list@),
        ),
{
    let ghost s = suspended_views(suspended@);
    let ghost lv = media_views(list@);
    match find_key_exec(suspended, output) {
        Some(i) => {
            suspended.set(i, (owned(output), list));
            assert(suspended_views(suspended@) =~= s.update(i as int, (output@, lv)));
        },
        None => {
            suspended.push((owned(output), list));
            assert(suspended_views(suspended@) =~= s.push((output@, lv)));
        },
    }
}

fn drop_suspension_exec(suspended: &mut Vec<(String, Vec<ActiveMediaRecord>)>, output: &str)
    ensures
        suspended_views(final(suspended)@) == drop_suspension(
            suspended_views(old(suspended)@),
            output@,
        ),
{
    let ghost s = suspended_views(suspended@);
    match find_key_exec(suspended, output) {
        Some(i) => {
            suspended.remove(i);
            assert(suspended_views(suspended@) =~= s.remove(i as int));
        },
        None => {},
    }
}

fn suspension_of_exec(suspended: &Vec<(String, Vec<ActiveMediaRecord>)>, output: &str) -> (r: Vec<
    ActiveMediaRecord,
>)
    ensures
        media_views(r@) == suspension_of(suspended_views(suspended@), output@),
{
    match find_key_exec(suspended, output) {
        Some(i) => {
            let r = copy_records(&suspended[i].1);
            assert(suspended_views(suspended@)[i as int].1 == media_views(suspended@[i as int].1@));
            r
        },
        None => {
            let r: Vec<ActiveMediaRecord> = Vec::new();
            assert(media_views(r@) =~= Seq::<MediaView>::empty());
            r
        },
    }
}

/// `x` placed after every record whose output does not sort after its own.
pub open spec fn insert_by_output(s: Seq<MediaView>, x: MediaView) -> Seq<MediaView>
    decreases s.len(),
{
    if s.len() == 0 || !text_lt(x.output, s.last().output) {
        s.push(x)
    } else {
        insert_by_output(s.drop_last(), x).push(s.last())
    }
}

/// Records in the order of their output names.
pub open spec fn sort_by_output(s: Seq<MediaView>) -> Seq<MediaView>
    decreases s.len(),
{
    if s.len() == 0 {
        s
    } else {
        insert_by_output(sort_by_output(s.drop_last()), s.last())
    }
}

proof fn lemma_insert_by_output_at(s: Seq<MediaView>, x: MediaView, j: int)
    requires
        0 <= j <= s.len(),
        forall|k: int| j <= k < s.len() ==> text_lt(x.output, #[trigger] s[k].output),
        j == 0 || !text_lt(x.output, s[j - 1].output),
    ensures
        insert_by_output(s, x) == s.insert(j, x),
    decreases s.len(),
{
    if j == s.len() {
        assert(s.insert(j, x) =~= s.push(x));
    } else {
        let t = s.drop_last();
        assert(text_lt(x.output, s[s.len() - 1].output));
        assert forall|k: int| j <= k < t.len() implies text_lt(x.output, #[trigger] t[k].output) by {
            assert(t[k] == s[k]);
        }
        if j > 0 {
            assert(t[j - 1] == s[j - 1]);
        }
        lemma_insert_by_output_at(t, x, j);
        assert(t.insert(j, x).push(s.last()) =~= s.insert(j, x));
    }
}

impl ActiveMediaIndex {
    /// Makes `record` the output's active media, suspending another owner's record.
    pub fn publish(&mut self, record: ActiveMediaRecord)
        ensures
            final(self)@ == publish_spec(old(self)@, record@),
            final(self).schema_version == old(self).schema_version,
    {
        let ghost v = self@;
        match find_output_exec(&self.records, record.output.as_str()) {
            Some(i) => {
                if !str_eq(self.records[i].owner.as_str(), record.owner.as_str()) {
                    let previous = self.records[i].duplicate();
                    assert(previous@ == v.records[i as int]);
                    let current = suspension_of_exec(&self.suspended, record.output.as_str());
                    let mut list = without_owner_exec(&current, previous.owner.as_str());
                    let ghost before = media_views(list@);
                    list.push(previous);
                    assert(media_views(list@) =~= before.push(v.records[i as int]));
                    set_suspension_exec(&mut self.suspended, record.output.as_str(), list);
                }
            },
            None => {},
        }
        let ghost sus = self@.suspended;
        set_record_exec(&mut self.records, record);
        assert(self@ == publish_spec(v, record@));
    }

    /// The active record of an output.
    pub fn get(&self, output: &str) -> (r: Option<ActiveMediaRecord>)
        ensures
            match r {
                Some(rec) => find_output(self@.records, output@) is Some && rec@ == self@.records[find_output(
                    self@.records,
                    output@,
                )->0],
                None => find_output(self@.records, output@) is None,
            },
    {
        match find_output_exec(&self.records, output) {
            Some(i) => {
                let r = self.records[i].duplicate();
                Some(r)
            },
            None => None,
        }
    }

    /// Every active record, in the order of output names.
    pub fn list(&self) -> (r: Vec<ActiveMediaRecord>)
        ensures
            media_views(r@) == sort_by_output(self@.records),
    {
        let ghost s = self@.records;
        let mut out: Vec<ActiveMediaRecord> = Vec::new();
        let mut i: usize = 0;
        assert(s.take(0) =~= Seq::<MediaView>::empty());
        while i < self.records.len()
            invariant
                i <= self.records.len(),
                s == media_views(self.records@),
                media_views(out@) == sort_by_output(s.take(i as int)),
            decreases self.records.len() - i,
        {
            let x = self.records[i].duplicate();
            let ghost o = media_views(out@);
            assert(s.take(i + 1).drop_last() =~= s.take(i as int));
            assert(s.take(i + 1).last() == x@);
            let mut j: usize = out.len();
            while j > 0 && text_lt_str(x.output.as_str(), out[j - 1].output.as_str())
                invariant
                    j <= out.len(),
                    o == media_views(out@),
                    forall|m: int| j <= m < o.len() ==> text_lt(x@.output, #[trigger] o[m].output),
                decreases j,
            {
                j -= 1;
            }
            proof {
                lemma_insert_by_output_at(o, x@, j as int);
            }
            let ghost xv = x@;
            out.insert(j, x);
            assert(media_views(out@) =~= o.insert(j as int, xv));
            i += 1;
        }
        assert(s.take(self.records@.len() as int) =~= s);
        out
    }

    /// Withdraws the owner's record of an output; the latest suspended record takes its place.
    pub fn remove(&mut self, output: &str, owner: &str) -> (r: Result<bool, String>)
        ensures
            match remove_spec(old(self)@, output@, owner@) {
                Err(e) => r matches Err(x) && x@ == e && final(self)@ == old(self)@,
                Ok((b, v)) => r == Ok::<bool, String>(b) && final(self)@ == v,
            },
            final(self).schema_version == old(self).schema_version,
    {
        let ghost v = self@;
        let i = match find_output_exec(&self.records, output) {
            Some(i) => i,
            None => {
                return Ok(false);
            },
        };
        if !str_eq(self.records[i].owner.as_str(), owner) {
            let mut e = owned("active media ownership conflict: ");
            push_str(&mut e, output);
            push_str(&mut e, " belongs to ");
            push_str(&mut e, self.records[i].owner.as_str());
            return Err(e);
        }
        self.records.remove(i);
        assert(media_views(self.records@) =~= v.records.remove(i as int));
        let mut list = suspension_of_exec(&self.suspended, output);
        let ghost lv = media_views(list@);
        if list.len() == 0 {
            drop_suspension_exec(&mut self.suspended, output);
            return Ok(true);
        }
        let last = list.pop().unwrap();
        assert(last@ == lv.last());
        assert(media_views(list@) =~= lv.drop_last());
        set_record_exec(&mut self.records, last);
        if list.len() == 0 {
            drop_suspension_exec(&mut self.suspended, output);
        } else {
            set_suspension_exec(&mut self.suspended, output, list);
        }
        Ok(true)
    }
}

} // verus!

verus! {

pub proof fn lemma_suspension_after_set(
    sus: Seq<(Seq<char>, Seq<MediaView>)>,
    output: Seq<char>,
    list: Seq<MediaView>,
)
    ensures
        suspension_of(set_suspension(sus, output, list), output) == list,
{
    lemma_find_key(sus, output);
    let t = set_suspension(sus, output, list);
    match find_key(sus, output) {
        Some(k) => {
            assert forall|j: int| 0 <= j < k implies (#[trigger] t[j]).0 != output by {
                assert(t[j] == sus[j]);
            }
            lemma_find_key_at(t, output, k);
        },
        None => {
            assert forall|j: int| 0 <= j < sus.len() implies (#[trigger] t[j]).0 != output by {
                assert(t[j] == sus[j]);
            }
            lemma_find_key_at(t, output, sus.len() as int);
        },
    }
}

/// An owner that republishes on an output it already holds changes only the
/// output's record: the publications suspended under it stay as they were,
/// and withdrawing afterwards behaves as withdrawing before would have.
pub proof fn law_republishing_keeps_the_suspended(v: IndexView, r: MediaView)
    requires
        find_output(v.records, r.output) is Some,
        v.records[find_output(v.records, r.output)->0].owner == r.owner,
    ensures
        publish_spec(v, r).suspended == v.suspended,
        find_output(publish_spec(v, r).records, r.output) == find_output(v.records, r.output),
        publish_spec(v, r).records[find_output(v.records, r.output)->0] == r,
        remove_spec(publish_spec(v, r), r.output, r.owner) == remove_spec(v, r.output, r.owner),
{
    let o = r.output;
    let i = find_output(v.records, o)->0;
    lemma_find_output(v.records, o);
    let records1 = v.records.update(i, r);
    assert(publish_spec(v, r).records == records1);
    assert forall|j: int| 0 <= j < i implies (#[trigger] records1[j]).output != o by {
        assert(records1[j] == v.records[j]);
    }
    lemma_find_output_at(records1, o, i);
    assert(records1.remove(i) =~= v.records.remove(i));
}

/// When an owner's media on an output is replaced by another owner, and that
/// owner republishes there and then withdraws, the output shows the first
/// owner's media again.
pub proof fn law_withdrawal_after_republishing_resumes_the_suspended_owner(
    v: IndexView,
    r1: MediaView,
    r2: MediaView,
)
    requires
        index_wf(v),
        find_output(v.records, r1.output) is Some,
        v.records[find_output(v.records, r1.output)->0].owner != r1.owner,
        r2.output == r1.output,
        r2.owner == r1.owner,
    ensures
        ({
            let before = v.records[find_output(v.records, r1.output)->0];
            let after = remove_spec(publish_spec(publish_spec(v, r1), r2), r1.output, r1.owner);
            &&& after is Ok
            &&& after->Ok_0.0
            &&& find_output(after->Ok_0.1.records, r1.output) is Some
            &&& after->Ok_0.1.records[find_output(after->Ok_0.1.records, r1.output)->0] == before
        }),
{
    law_withdrawal_resumes_the_suspended_owner(v, r1);
    let p1 = publish_spec(v, r1);
    let o = r1.output;
    let i = find_output(v.records, o)->0;
    lemma_find_output(v.records, o);
    let records1 = v.records.update(i, r1);
    assert(p1.records == records1);
    assert forall|j: int| 0 <= j < i implies (#[trigger] records1[j]).output != o by {
        assert(records1[j] == v.records[j]);
    }
    lemma_find_output_at(records1, o, i);
    law_republishing_keeps_the_suspended(p1, r2);
}

/// When an owner replaces another owner's media on an output, the other owner
/// cannot withdraw it; when the new owner later withdraws it, the output shows
/// the other owner's media again.
pub proof fn law_withdrawal_resumes_the_suspended_owner(v: IndexView, r: MediaView)
    requires
        index_wf(v),
        find_output(v.records, r.output) is Some,
        v.records[find_output(v.records, r.output)->0].owner != r.owner,
    ensures
        ({
            let before = v.records[find_output(v.records, r.output)->0];
            let after = remove_spec(publish_spec(v, r), r.output, r.owner);
            &&& after is Ok
            &&& after->Ok_0.0
            &&& find_output(after->Ok_0.1.records, r.output) is Some
            &&& after->Ok_0.1.records[find_output(after->Ok_0.1.records, r.output)->0] == before
            &&& remove_spec(publish_spec(v, r), r.output, before.owner) == Err::<
                (bool, IndexView),
                Seq<char>,
            >("active media ownership conflict: "@ + r.output + " belongs to "@ + r.owner)
        }),
{
    let o = r.output;
    let i = find_output(v.records, o)->0;
    lemma_find_output(v.records, o);
    let prev = v.records[i];
    let p = publish_spec(v, r);
    let records1 = v.records.update(i, r);
    assert(p.records == records1);
    assert forall|j: int| 0 <= j < i implies (#[trigger] records1[j]).output != o by {
        assert(records1[j] == v.records[j]);
    }
    lemma_find_output_at(records1, o, i);
    let list1 = without_owner(suspension_of(v.suspended, o), prev.owner).push(prev);
    lemma_suspension_after_set(v.suspended, o, list1);
    assert(suspension_of(p.suspended, o) == list1);
    let rest = records1.remove(i);
    assert forall|j: int| 0 <= j < rest.len() implies (#[trigger] rest[j]).output != o by {
        if j < i {
            assert(rest[j] == v.records[j]);
        } else {
            assert(rest[j] == v.records[j + 1]);
        }
    }
    lemma_find_output(rest, o);
    assert(list1.last() == prev);
    let records2 = set_record(rest, prev);
    assert(records2 == rest.push(prev));
    assert forall|j: int| 0 <= j < rest.len() implies (#[trigger] records2[j]).output != o by {
        assert(records2[j] == rest[j]);
    }
    lemma_find_output_at(records2, o, rest.len() as int);
}


/// An index of an unknown schema is not read.
pub open spec fn index_schema_check(schema_version: u8) -> Result<(), Seq<char>> {
    if schema_version == SCHEMA_VERSION {
        Ok(())
    } else {
        Err("unsupported active media state schema: "@ + decimal(schema_version as nat))
    }
}

pub open spec fn text_err<T>(r: Result<T, String>) -> Seq<char> {
    match r {
        Err(e) => e@,
        Ok(_) => Seq::empty(),
    }
}

/// The record a publication creates.
pub open spec fn published_record(
    output: Seq<char>,
    owner: Seq<char>,
    media_type: ActiveMediaKind,
    source: Seq<char>,
    representative_image: Seq<char>,
    now: u128,
) -> MediaView {
    MediaView {
        schema_version: SCHEMA_VERSION,
        output,
        owner,
        media_type,
        source,
        representative_image,
        updated_at_unix_ms: now,
    }
}

/// The shared registry of what each output shows, kept in one JSON file.
///
/// The file is read, locked and written by the caller; the store decides.
pub struct ActiveMediaStore {
    pub path: String,
}

impl ActiveMediaStore {
    pub fn new(path: String) -> (r: Self)
        ensures
            r.path@ == path@,
    {
        ActiveMediaStore { path }
    }

    /// The index to work on, given the one read from disk if the file exists.
    pub fn accept(&self, loaded: Option<ActiveMediaIndex>) -> (r: Result<ActiveMediaIndex, String>)
        ensures
            loaded is None ==> r is Ok && r->Ok_0@.records.len() == 0 && r->Ok_0@.suspended.len()
                == 0 && r->Ok_0.schema_version == SCHEMA_VERSION,
            loaded is Some ==> match index_schema_check(loaded->Some_0.schema_version) {
                Ok(()) => r is Ok && r->Ok_0@ == loaded->Some_0@ && r->Ok_0.schema_version
                    == loaded->Some_0.schema_version,
                Err(e) => r is Err && r->Err_0@ == e,
            },
    {
        match loaded {
            None => Ok(ActiveMediaIndex::new()),
            Some(index) => if index.schema_version == SCHEMA_VERSION {
                Ok(index)
            } else {
                let mut e = owned("unsupported active media state schema: ");
                let n = u64_to_string(index.schema_version as u64);
                push_str(&mut e, n.as_str());
                Err(e)
            },
        }
    }

    /// Publishes media for an output, given the canonical forms of both paths
    /// (or why a path is not an existing absolute file).
    pub fn publish(
        &self,
        index: &mut ActiveMediaIndex,
        output: &str,
        owner: &str,
        media_type: ActiveMediaKind,
        source: Result<String, String>,
        representative_image: Result<String, String>,
        now: u128,
    ) -> (r: Result<ActiveMediaRecord, String>)
        ensures
            media_identifier_check(output@, "output"@) is Err ==> r is Err && r->Err_0@ == media_identifier_check(output@, "output"@)->Err_0 && final(index)@ == old(index)@,
            media_identifier_check(output@, "output"@) is Ok && media_identifier_check(
                owner@,
                "owner"@,
            ) is Err ==> r is Err && r->Err_0@ == media_identifier_check(owner@, "owner"@)->Err_0
                && final(index)@ == old(index)@,
            media_identifier_check(output@, "output"@) is Ok && media_identifier_check(
                owner@,
                "owner"@,
            ) is Ok && source is Err ==> r is Err && r->Err_0@ == text_err(source)
                && final(index)@ == old(index)@,
            media_identifier_check(output@, "output"@) is Ok && media_identifier_check(
                owner@,
                "owner"@,
            ) is Ok && source is Ok && representative_image is Err ==> r is Err && r->Err_0@ == text_err(representative_image) && final(index)@ == old(index)@,
            media_identifier_check(output@, "output"@) is Ok && media_identifier_check(
                owner@,
                "owner"@,
            ) is Ok && source is Ok && representative_image is Ok ==> r is Ok,
            r is Ok ==> source is Ok && representative_image is Ok && r->Ok_0@ == published_record(
                output@,
                owner@,
                media_type,
                source->Ok_0@,
                representative_image->Ok_0@,
                now,
            ) && final(index)@ == publish_spec(old(index)@, r->Ok_0@),
            final(index).schema_version == old(index).schema_version,
    {
        validate_identifier(output, "output")?;
        validate_identifier(owner, "owner")?;
        let source = source?;
        let representative_image = representative_image?;
        let record = ActiveMediaRecord {
            schema_version: SCHEMA_VERSION,
            output: owned(output),
            owner: owned(owner),
            media_type,
            source,
            representative_image,
            updated_at_unix_ms: now,
        };
        index.publish(record.duplicate());
        Ok(record)
    }

    /// The active record of a valid output name.
    pub fn get(&self, index: &ActiveMediaIndex, output: &str) -> (r: Result<
        Option<ActiveMediaRecord>,
        String,
    >)
        ensures
            media_identifier_check(output@, "output"@) is Err ==> r is Err && r->Err_0@ == media_identifier_check(output@, "output"@)->Err_0,
            media_identifier_check(output@, "output"@) is Ok ==> r is Ok && match r->Ok_0 {
                Some(rec) => find_output(index@.records, output@) is Some && rec@
                    == index@.records[find_output(index@.records, output@)->0],
                None => find_output(index@.records, output@) is None,
            },
    {
        validate_identifier(output, "output")?;
        Ok(index.get(output))
    }

    /// Every active record, in the order of output names.
    pub fn list(&self, index: &ActiveMediaIndex) -> (r: Vec<ActiveMediaRecord>)
        ensures
            media_views(r@) == sort_by_output(index@.records),
    {
        index.list()
    }

    /// Withdraws the owner's publication for an output.
    pub fn remove(&self, index: &mut ActiveMediaIndex, output: &str, owner: &str) -> (r: Result<
        bool,
        String,
    >)
        ensures
            media_identifier_check(output@, "output"@) is Err ==> r is Err && r->Err_0@ == media_identifier_check(output@, "output"@)->Err_0 && final(index)@ == old(index)@,
            media_identifier_check(output@, "output"@) is Ok && media_identifier_check(
                owner@,
                "owner"@,
            ) is Err ==> r is Err && r->Err_0@ == media_identifier_check(owner@, "owner"@)->Err_0
                && final(index)@ == old(index)@,
            media_identifier_check(output@, "output"@) is Ok && media_identifier_check(
                owner@,
                "owner"@,
            ) is Ok ==> match remove_spec(old(index)@, output@, owner@) {
                Err(e) => r is Err && r->Err_0@ == e && final(index)@ == old(index)@,
                Ok((b, v)) => r == Ok::<bool, String>(b) && final(index)@ == v,
            },
            final(index).schema_version == old(index).schema_version,
    {
        validate_identifier(output, "output")?;
        validate_identifier(owner, "owner")?;
        index.remove(output, owner)
    }
}


/// After a publication, the output's active media is the published record.
pub proof fn law_get_after_publish(v: IndexView, r: MediaView)
    ensures
        ({
            let p = publish_spec(v, r);
            &&& find_output(p.records, r.output) is Some
            &&& p.records[find_output(p.records, r.output)->0] == r
        }),
{
    lemma_find_output(v.records, r.output);
    let p = publish_spec(v, r);
    match find_output(v.records, r.output) {
        Some(i) => {
            let s = v.records.update(i, r);
            assert(p.records == s);
            assert forall|j: int| 0 <= j < i implies (#[trigger] s[j]).output != r.output by {
                assert(s[j] == v.records[j]);
            }
            lemma_find_output_at(s, r.output, i);
        },
        None => {
            let s = v.records.push(r);
            assert(p.records == s);
            assert forall|j: int| 0 <= j < v.records.len() implies (#[trigger] s[j]).output
                != r.output by {
                assert(s[j] == v.records[j]);
            }
            lemma_find_output_at(s, r.output, v.records.len() as int);
        },
    }
}


/// No record sorts before one ahead of it.
pub open spec fn by_output(s: Seq<MediaView>) -> bool {
    forall|i: int, j: int|
        0 <= i < j < s.len() ==> !text_lt((#[trigger] s[j]).output, (#[trigger] s[i]).output)
}

proof fn lemma_insert_by_output_bounded(s: Seq<MediaView>, x: MediaView, b: MediaView)
    requires
        forall|i: int| 0 <= i < s.len() ==> !text_lt(b.output, (#[trigger] s[i]).output),
        !text_lt(b.output, x.output),
    ensures
        forall|i: int|
            0 <= i < insert_by_output(s, x).len() ==> !text_lt(
                b.output,
                (#[trigger] insert_by_output(s, x)[i]).output,
            ),
    decreases s.len(),
{
    if s.len() > 0 && text_lt(x.output, s.last().output) {
        let t = s.drop_last();
        assert forall|i: int| 0 <= i < t.len() implies !text_lt(b.output, (#[trigger] t[i]).output) by {
            assert(t[i] == s[i]);
        }
        lemma_insert_by_output_bounded(t, x, b);
        let u = insert_by_output(t, x);
        assert forall|i: int| 0 <= i < u.push(s.last()).len() implies !text_lt(
            b.output,
            (#[trigger] u.push(s.last())[i]).output,
        ) by {
            if i < u.len() {
                assert(u.push(s.last())[i] == u[i]);
            } else {
                assert(s[s.len() - 1] == s.last());
            }
        }
    }
}

proof fn lemma_insert_by_output_sorted(s: Seq<MediaView>, x: MediaView)
    requires
        by_output(s),
    ensures
        by_output(insert_by_output(s, x)),
    decreases s.len(),
{
    if s.len() == 0 || !text_lt(x.output, s.last().output) {
        let u = s.push(x);
        assert forall|i: int, j: int| 0 <= i < j < u.len() implies !text_lt(
            (#[trigger] u[j]).output,
            (#[trigger] u[i]).output,
        ) by {
            if j < s.len() {
                assert(u[i] == s[i] && u[j] == s[j]);
            } else {
                assert(u[j] == x && u[i] == s[i]);
                if i < s.len() - 1 {
                    assert(!text_lt(s[s.len() - 1].output, s[i].output));
                }
                lemma_text_le_transitive(s[i].output, s[s.len() - 1].output, x.output);
            }
        }
    } else {
        let t = s.drop_last();
        let l = s.last();
        assert forall|i: int, j: int| 0 <= i < j < t.len() implies !text_lt(
            (#[trigger] t[j]).output,
            (#[trigger] t[i]).output,
        ) by {
            assert(t[i] == s[i] && t[j] == s[j]);
        }
        lemma_insert_by_output_sorted(t, x);
        assert forall|i: int| 0 <= i < t.len() implies !text_lt(l.output, (#[trigger] t[i]).output) by {
            assert(t[i] == s[i]);
            assert(l == s[s.len() - 1]);
        }
        lemma_text_lt_asymmetric(x.output, l.output);
        lemma_insert_by_output_bounded(t, x, l);
        let u = insert_by_output(t, x);
        let v = u.push(l);
        assert forall|i: int, j: int| 0 <= i < j < v.len() implies !text_lt(
            (#[trigger] v[j]).output,
            (#[trigger] v[i]).output,
        ) by {
            if j < u.len() {
                assert(v[i] == u[i] && v[j] == u[j]);
            } else {
                assert(v[j] == l && v[i] == u[i]);
            }
        }
    }
}

/// Active media are listed in the order of their output names.
pub proof fn law_list_is_ordered_by_output(records: Seq<MediaView>)
    ensures
        by_output(sort_by_output(records)),
    decreases records.len(),
{
    if records.len() > 0 {
        law_list_is_ordered_by_output(records.drop_last());
        lemma_insert_by_output_sorted(sort_by_output(records.drop_last()), records.last());
    }
}

} // verus!
