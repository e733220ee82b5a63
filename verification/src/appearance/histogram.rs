//! The colour histogram that palettes are built from: pixels grouped by the
//! top five bits of each channel, most frequent colour first.
use vstd::prelude::*;

verus! {

/// How many colours the histogram distinguishes: five bits per channel.
pub const HISTOGRAM_KEYS: usize = 32768;

/// The pixels that share a colour key: how many, and their channel sums.
#[derive(Debug, Clone, Copy, PartialEq, Eq, Structural)]
pub struct Bucket {
    pub key: u16,
    pub count: u64,
    pub red: u64,
    pub green: u64,
    pub blue: u64,
}

/// The key of a pixel: its red, green and blue channels, each cut to its top
/// five bits, in that order from the most significant.
pub open spec fn bucket_key(p: (u8, u8, u8)) -> int {
    (p.0 / 8) as int * 1024 + (p.1 / 8) as int * 32 + (p.2 / 8) as int
}

pub open spec fn channel(p: (u8, u8, u8), c: int) -> nat {
    if c == 0 {
        p.0 as nat
    } else if c == 1 {
        p.1 as nat
    } else {
        p.2 as nat
    }
}

/// How many pixels have key `k`.
pub open spec fn pixel_count(px: Seq<(u8, u8, u8)>, k: int) -> nat
    decreases px.len(),
{
    if px.len() == 0 {
        0
    } else {
        pixel_count(px.drop_last(), k) + if bucket_key(px.last()) == k {
            1nat
        } else {
            0nat
        }
    }
}

/// The sum of channel `c` over the pixels with key `k`.
pub open spec fn channel_sum(px: Seq<(u8, u8, u8)>, k: int, c: int) -> nat
    decreases px.len(),
{
    if px.len() == 0 {
        0
    } else {
        channel_sum(px.drop_last(), k, c) + if bucket_key(px.last()) == k {
            channel(px.last(), c)
        } else {
            0nat
        }
    }
}

pub open spec fn bucket_of(px: Seq<(u8, u8, u8)>, k: int) -> Bucket {
    Bucket {
        key: k as u16,
        count: pixel_count(px, k) as u64,
        red: channel_sum(px, k, 0) as u64,
        green: channel_sum(px, k, 1) as u64,
        blue: channel_sum(px, k, 2) as u64,
    }
}

/// The buckets of the keys below `n` that some pixel has, by key.
pub open spec fn occupied(px: Seq<(u8, u8, u8)>, n: nat) -> Seq<Bucket>
    decreases n,
{
    if n == 0 {
        Seq::empty()
    } else if pixel_count(px, n - 1) > 0 {
        occupied(px, (n - 1) as nat).push(bucket_of(px, n - 1))
    } else {
        occupied(px, (n - 1) as nat)
    }
}

/// `x` placed after every bucket at least as frequent.
pub open spec fn insert_by_count(s: Seq<Bucket>, x: Bucket) -> Seq<Bucket>
    decreases s.len(),
{
    if s.len() == 0 || x.count <= s.last().count {
        s.push(x)
    } else {
        insert_by_count(s.drop_last(), x).push(s.last())
    }
}

/// The stable sort by descending count.
pub open spec fn sort_by_count(s: Seq<Bucket>) -> Seq<Bucket>
    decreases s.len(),
{
    if s.len() == 0 {
        s
    } else {
        insert_by_count(sort_by_count(s.drop_last()), s.last())
    }
}

/// The histogram of the pixels: occupied buckets, most frequent first, ties
/// in key order.
pub open spec fn histogram_spec(px: Seq<(u8, u8, u8)>) -> Seq<Bucket> {
    sort_by_count(occupied(px, HISTOGRAM_KEYS as nat))
}

proof fn lemma_counts_bounded(px: Seq<(u8, u8, u8)>, k: int)
    ensures
        pixel_count(px, k) <= px.len(),
        channel_sum(px, k, 0) <= 255 * px.len(),
        channel_sum(px, k, 1) <= 255 * px.len(),
        channel_sum(px, k, 2) <= 255 * px.len(),
    decreases px.len(),
{
    if px.len() > 0 {
        lemma_counts_bounded(px.drop_last(), k);
    }
}

proof fn lemma_insert_by_count_at(s: Seq<Bucket>, x: Bucket, j: int)
    requires
        0 <= j <= s.len(),
        forall|k: int| j <= k < s.len() ==> x.count > #[trigger] s[k].count,
        j == 0 || x.count <= s[j - 1].count,
    ensures
        insert_by_count(s, x) == s.insert(j, x),
    decreases s.len(),
{
    if j == s.len() {
        assert(s.insert(j, x) =~= s.push(x));
    } else {
        let t = s.drop_last();
        assert(x.count > s[s.len() - 1].count);
        assert forall|k: int| j <= k < t.len() implies x.count > #[trigger] t[k].count by {
            assert(t[k] == s[k]);
        }
        if j > 0 {
            assert(t[j - 1] == s[j - 1]);
        }
        lemma_insert_by_count_at(t, x, j);
        assert(t.insert(j, x).push(s.last()) =~= s.insert(j, x));
    }
}

fn key_of(p: (u8, u8, u8)) -> (r: usize)
    ensures
        r == bucket_key(p),
        r < HISTOGRAM_KEYS,
{
    (p.0 / 8) as usize * 1024 + (p.1 / 8) as usize * 32 + (p.2 / 8) as usize
}

fn zeros(n: usize) -> (r: Vec<u64>)
    ensures
        r.len() == n,
        forall|k: int| 0 <= k < n ==> r@[k] == 0,
{
    let mut r: Vec<u64> = Vec::new();
    while r.len() < n
        invariant
            r.len() <= n,
            forall|k: int| 0 <= k < r.len() ==> r@[k] == 0,
        decreases n - r.len(),
    {
        r.push(0);
    }
    r
}

/// Groups the pixels into buckets and sorts them, most frequent first.
pub fn histogram(pixels: &[(u8, u8, u8)]) -> (r: Vec<Bucket>)
    requires
        pixels.len() <= u32::MAX,
    ensures
        r@ == histogram_spec(pixels@),
{
    let ghost px = pixels@;
    let mut counts = zeros(HISTOGRAM_KEYS);
    let mut red = zeros(HISTOGRAM_KEYS);
    let mut green = zeros(HISTOGRAM_KEYS);
    let mut blue = zeros(HISTOGRAM_KEYS);
    let mut i: usize = 0;
    assert(px.take(0) =~= Seq::<(u8, u8, u8)>::empty());
    while i < pixels.len()
        invariant
            px == pixels@,
            pixels.len() <= u32::MAX,
            i <= pixels.len(),
            counts.len() == HISTOGRAM_KEYS,
            red.len() == HISTOGRAM_KEYS,
            green.len() == HISTOGRAM_KEYS,
            blue.len() == HISTOGRAM_KEYS,
            forall|k: int|
                0 <= k < HISTOGRAM_KEYS ==> {
                    &&& #[trigger] counts@[k] == pixel_count(px.take(i as int), k)
                    &&& red@[k] == channel_sum(px.take(i as int), k, 0)
                    &&& green@[k] == channel_sum(px.take(i as int), k, 1)
                    &&& blue@[k] == channel_sum(px.take(i as int), k, 2)
                },
        decreases pixels.len() - i,
    {
        let p = pixels[i];
        let k = key_of(p);
        let ghost before = px.take(i as int);
        let ghost after = px.take(i + 1);
        assert(after.drop_last() =~= before);
        assert(after.last() == p);
        proof {
            lemma_counts_bounded(before, k as int);
        }
        let ghost c0 = counts@;
        let ghost r0 = red@;
        let ghost g0 = green@;
        let ghost b0 = blue@;
        counts.set(k, counts[k] + 1);
        red.set(k, red[k] + p.0 as u64);
        green.set(k, green[k] + p.1 as u64);
        blue.set(k, blue[k] + p.2 as u64);
        assert forall|j: int| 0 <= j < HISTOGRAM_KEYS implies {
            &&& #[trigger] counts@[j] == pixel_count(after, j)
            &&& red@[j] == channel_sum(after, j, 0)
            &&& green@[j] == channel_sum(after, j, 1)
            &&& blue@[j] == channel_sum(after, j, 2)
        } by {
            assert(c0[j] == pixel_count(before, j));
            assert(r0[j] == channel_sum(before, j, 0));
            assert(g0[j] == channel_sum(before, j, 1));
            assert(b0[j] == channel_sum(before, j, 2));
            assert(pixel_count(after, j) == pixel_count(before, j) + if bucket_key(p) == j {
                1nat
            } else {
                0nat
            });
            assert(channel_sum(after, j, 0) == channel_sum(before, j, 0) + if bucket_key(p) == j {
                channel(p, 0)
            } else {
                0nat
            });
            assert(channel_sum(after, j, 1) == channel_sum(before, j, 1) + if bucket_key(p) == j {
                channel(p, 1)
            } else {
                0nat
            });
            assert(channel_sum(after, j, 2) == channel_sum(before, j, 2) + if bucket_key(p) == j {
                channel(p, 2)
            } else {
                0nat
            });
        }
        i += 1;
    }
    assert(px.take(pixels.len() as int) =~= px);
    let mut found: Vec<Bucket> = Vec::new();
    let mut k: usize = 0;
    while k < HISTOGRAM_KEYS
        invariant
            px == pixels@,
            pixels.len() <= u32::MAX,
            k <= HISTOGRAM_KEYS,
            counts.len() == HISTOGRAM_KEYS,
            red.len() == HISTOGRAM_KEYS,
            green.len() == HISTOGRAM_KEYS,
            blue.len() == HISTOGRAM_KEYS,
            forall|j: int|
                0 <= j < HISTOGRAM_KEYS ==> {
                    &&& #[trigger] counts@[j] == pixel_count(px, j)
                    &&& red@[j] == channel_sum(px, j, 0)
                    &&& green@[j] == channel_sum(px, j, 1)
                    &&& blue@[j] == channel_sum(px, j, 2)
                },
            found@ == occupied(px, k as nat),
        decreases HISTOGRAM_KEYS - k,
    {
        assert(counts@[k as int] == pixel_count(px, k as int));
        proof {
            lemma_counts_bounded(px, k as int);
        }
        if counts[k] > 0 {
            let b = Bucket { key: k as u16, count: counts[k], red: red[k], green: green[k], blue: blue[k] };
            assert(b == bucket_of(px, k as int));
            found.push(b);
        }
        k += 1;
    }
    sort_buckets(&found)
}

fn sort_buckets(v: &Vec<Bucket>) -> (r: Vec<Bucket>)
    ensures
        r@ == sort_by_count(v@),
{
    let ghost s = v@;
    let mut out: Vec<Bucket> = Vec::new();
    let mut i: usize = 0;
    assert(s.take(0) =~= Seq::<Bucket>::empty());
    while i < v.len()
        invariant
            i <= v.len(),
            s == v@,
            out@ == sort_by_count(s.take(i as int)),
        decreases v.len() - i,
    {
        let x = v[i];
        let ghost o = out@;
        assert(s.take(i + 1).drop_last() =~= s.take(i as int));
        assert(s.take(i + 1).last() == x);
        let mut j: usize = out.len();
        while j > 0 && x.count > out[j - 1].count
            invariant
                j <= out.len(),
                o == out@,
                forall|m: int| j <= m < o.len() ==> x.count > #[trigger] o[m].count,
            decreases j,
        {
            j -= 1;
        }
        proof {
            lemma_insert_by_count_at(o, x, j as int);
        }
        out.insert(j, x);
        assert(out@ =~= o.insert(j as int, x));
        i += 1;
    }
    assert(s.take(v@.len() as int) =~= s);
    out
}

// ---------------------------------------------------------------------------
// Laws
// ---------------------------------------------------------------------------
/// No bucket is more frequent than one ahead of it.
pub open spec fn by_descending_count(s: Seq<Bucket>) -> bool {
    forall|i: int, j: int| 0 <= i < j < s.len() ==> #[trigger] s[j].count <= #[trigger] s[i].count
}

proof fn lemma_insert_by_count_sorted(s: Seq<Bucket>, x: Bucket)
    requires
        by_descending_count(s),
    ensures
        by_descending_count(insert_by_count(s, x)),
        insert_by_count(s, x).len() == s.len() + 1,
        forall|i: int|
            0 <= i < insert_by_count(s, x).len() ==> (#[trigger] insert_by_count(s, x)[i] == x
                || s.contains(insert_by_count(s, x)[i])),
    decreases s.len(),
{
    if s.len() == 0 || x.count <= s.last().count {
        let u = s.push(x);
        assert forall|i: int, j: int| 0 <= i < j < u.len() implies #[trigger] u[j].count
            <= #[trigger] u[i].count by {
            if j < s.len() {
                assert(u[i] == s[i] && u[j] == s[j]);
            } else {
                assert(u[i] == s[i]);
                if i < s.len() - 1 {
                    assert(s[s.len() - 1].count <= s[i].count);
                }
            }
        }
        assert forall|i: int| 0 <= i < u.len() implies (#[trigger] u[i] == x || s.contains(u[i])) by {
            if i < s.len() {
                assert(u[i] == s[i]);
            }
        }
    } else {
        let t = s.drop_last();
        let l = s.last();
        assert forall|i: int, j: int| 0 <= i < j < t.len() implies #[trigger] t[j].count
            <= #[trigger] t[i].count by {
            assert(t[i] == s[i] && t[j] == s[j]);
        }
        lemma_insert_by_count_sorted(t, x);
        let u = insert_by_count(t, x);
        let v = u.push(l);
        assert forall|i: int| 0 <= i < u.len() implies l.count <= (#[trigger] u[i]).count by {
            if u[i] != x {
                let k = choose|k: int| 0 <= k < t.len() && t[k] == u[i];
                assert(t[k] == s[k]);
                assert(s[k].count >= s[s.len() - 1].count);
            }
        }
        assert forall|i: int, j: int| 0 <= i < j < v.len() implies #[trigger] v[j].count
            <= #[trigger] v[i].count by {
            if j < u.len() {
                assert(v[i] == u[i] && v[j] == u[j]);
            } else {
                assert(v[j] == l && v[i] == u[i]);
            }
        }
        assert forall|i: int| 0 <= i < v.len() implies (#[trigger] v[i] == x || s.contains(v[i])) by {
            if i < u.len() {
                assert(v[i] == u[i]);
                if u[i] != x {
                    let k = choose|k: int| 0 <= k < t.len() && t[k] == u[i];
                    assert(s[k] == t[k]);
                }
            } else {
                assert(s[s.len() - 1] == l);
            }
        }
    }
}

proof fn lemma_sort_by_count_sorted(s: Seq<Bucket>)
    ensures
        by_descending_count(sort_by_count(s)),
    decreases s.len(),
{
    if s.len() > 0 {
        lemma_sort_by_count_sorted(s.drop_last());
        lemma_insert_by_count_sorted(sort_by_count(s.drop_last()), s.last());
    }
}

/// The histogram lists the most frequent colour first, and no colour after a
/// less frequent one.
pub proof fn law_histogram_is_most_frequent_first(px: Seq<(u8, u8, u8)>)
    ensures
        by_descending_count(histogram_spec(px)),
{
    lemma_sort_by_count_sorted(occupied(px, HISTOGRAM_KEYS as nat));
}

} // verus!
