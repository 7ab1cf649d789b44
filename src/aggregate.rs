use vstd::prelude::*;
use crate::hit::Hit;
use crate::order::{is_sorted_perm, is_stable_velocity_sort, sort_hits, sorted_by, stable_sort_by_velocity};

verus! {

/// How many solutions each displayed list holds at most.
pub const SHOW_MAX_HITS: usize = 5;

/// The length of a displayed list drawn from `n` solutions.
pub open spec fn shown_len(n: int) -> int {
    if n < SHOW_MAX_HITS {
        n
    } else {
        SHOW_MAX_HITS as int
    }
}

/// The 10-degree bucket of an angle: the angle divided by ten, rounded down,
/// times ten.
pub open spec fn bucket(angle: int) -> int {
    (angle / 10) * 10
}

pub open spec fn bucket_pred(key: int) -> spec_fn(Hit) -> bool {
    |h: Hit| bucket(h.angle as int) == key
}

/// The solutions of `s` whose angle falls into the bucket `key`, in order.
pub open spec fn in_bucket(s: Seq<Hit>, key: int) -> Seq<Hit> {
    s.filter(bucket_pred(key))
}

/// The bucket of an angle.
pub fn bucket_of(angle: i32) -> (r: i64)
    ensures
        r == bucket(angle as int),
{
    if angle >= 0 {
        let q: u64 = (angle as u64) / 10;
        (q * 10) as i64
    } else {
        let m: u64 = (-(angle as i64)) as u64;
        let q: u64 = (m + 9) / 10;
        proof {
            let a = angle as int;
            assert(-(q as int) == a / 10) by (nonlinear_arith)
                requires
                    a < 0,
                    m == -a,
                    q == (m + 9) / 10,
            ;
        }
        -((q * 10) as i64)
    }
}

proof fn lemma_bucket_monotone(a: int, b: int)
    requires
        a <= b,
    ensures
        bucket(a) <= bucket(b),
{
    vstd::arithmetic::div_mod::lemma_div_is_ordered(a, b, 10);
}

/// The first solutions in display order by angle, then velocity: at most
/// five, a prefix of the whole set so ordered.
pub fn best_hits(hits: &Vec<Hit>) -> (r: Vec<Hit>)
    ensures
        r@.len() == shown_len(hits@.len() as int),
        sorted_by(r@, true),
        exists|s: Seq<Hit>| #[trigger]
            is_sorted_perm(s, hits@, true) && r@ == s.take(shown_len(s.len() as int)),
{
    let mut s = sort_hits(hits, true);
    let ghost whole = s@;
    if s.len() > SHOW_MAX_HITS {
        s.truncate(SHOW_MAX_HITS);
    }
    assert(s@ == whole.take(shown_len(whole.len() as int)));
    s
}

/// The solutions of one bucket as displayed.
#[derive(Debug)]
pub struct Category {
    pub key: i64,
    pub hits: Vec<Hit>,
}

/// The displayed list of a bucket: its solutions by ascending velocity,
/// those of equal velocity in the order of `hits`, at most five of them.
pub open spec fn shows_bucket(c: Category, hits: Seq<Hit>) -> bool {
    exists|s: Seq<Hit>| #[trigger]
        is_stable_velocity_sort(s, in_bucket(hits, c.key as int)) && c.hits@ == s.take(
            shown_len(s.len() as int),
        )
}

/// A displayed bucket list holds at most five solutions, in ascending
/// order of velocity.
pub proof fn lemma_bucket_list_bounded(c: Category, hits: Seq<Hit>)
    requires
        shows_bucket(c, hits),
    ensures
        c.hits@.len() <= SHOW_MAX_HITS,
        forall|a: int, b: int|
            0 <= a < b < c.hits@.len() ==> (#[trigger] c.hits@[a]).velocity <= (#[trigger] c.hits@[b]).velocity,
{
    let s = choose|s: Seq<Hit>| #[trigger]
        is_stable_velocity_sort(s, in_bucket(hits, c.key as int)) && c.hits@ == s.take(
            shown_len(s.len() as int),
        );
    assert forall|a: int, b: int| 0 <= a < b < c.hits@.len() implies (#[trigger] c.hits@[a]).velocity
        <= (#[trigger] c.hits@[b]).velocity by {
        assert(c.hits@[a] == s[a] && c.hits@[b] == s[b]);
    }
}

/// The solutions of `hits` whose angle falls into the bucket `key`, in order.
fn select_bucket(hits: &Vec<Hit>, key: i64) -> (r: Vec<Hit>)
    ensures
        r@ == in_bucket(hits@, key as int),
{
    let mut out: Vec<Hit> = Vec::new();
    for i in 0..hits.len()
        invariant
            out@ == in_bucket(hits@.take(i as int), key as int),
    {
        proof {
            assert(hits@.take(i as int + 1) == hits@.take(i as int).push(hits@[i as int]));
            hits@.take(i as int).lemma_filter_push(hits@[i as int], bucket_pred(key as int));
        }
        if bucket_of(hits[i].angle) == key {
            out.push(hits[i]);
        }
    }
    assert(hits@.take(hits.len() as int) == hits@);
    out
}

/// Some of the first `n` solutions of `s` falls into the bucket `key`.
pub open spec fn bucket_of_some(s: Seq<Hit>, n: int, key: int) -> bool {
    exists|t: int| 0 <= t < n && key == bucket(#[trigger] s[t].angle as int)
}

/// Some solution of `hits` falls into the bucket `key`.
pub open spec fn bucket_occupied(hits: Seq<Hit>, key: int) -> bool {
    exists|h: Hit| #[trigger] hits.contains(h) && bucket(h.angle as int) == key
}

/// The distinct buckets of the solutions of `sorted`, in ascending order.
fn distinct_buckets(sorted: &Vec<Hit>) -> (r: Vec<i64>)
    requires
        sorted_by(sorted@, true),
    ensures
        forall|a: int, b: int| 0 <= a < b < r.len() ==> r@[a] < r@[b],
        forall|t: int| 0 <= t < sorted.len() ==> r@.contains(bucket(#[trigger] sorted@[t].angle as int) as i64),
        forall|j: int| 0 <= j < r.len() ==> bucket_of_some(sorted@, sorted.len() as int, #[trigger] r@[j] as int),
{
    let mut keys: Vec<i64> = Vec::new();
    for i in 0..sorted.len()
        invariant
            sorted_by(sorted@, true),
            forall|a: int, b: int| 0 <= a < b < keys.len() ==> keys@[a] < keys@[b],
            i > 0 ==> keys.len() > 0 && keys@.last() == bucket(sorted@[i - 1].angle as int),
            forall|t: int| 0 <= t < i ==> keys@.contains(bucket(#[trigger] sorted@[t].angle as int) as i64),
            forall|j: int| 0 <= j < keys.len() ==> bucket_of_some(sorted@, i as int, #[trigger] keys@[j] as int),
    {
        let b = bucket_of(sorted[i].angle);
        proof {
            if i > 0 {
                assert(sorted@[i - 1].angle <= sorted@[i as int].angle);
                lemma_bucket_monotone(sorted@[i - 1].angle as int, sorted@[i as int].angle as int);
            }
        }
        let ghost before = keys@;
        if keys.len() == 0 || keys[keys.len() - 1] != b {
            keys.push(b);
            proof {
                let ii = i as int;
                assert forall|t: int| 0 <= t < i + 1 implies keys@.contains(
                    bucket(#[trigger] sorted@[t].angle as int) as i64,
                ) by {
                    if t == i {
                        assert(keys@[keys.len() - 1] == b);
                    } else {
                        let w = choose|w: int|
                            0 <= w < before.len() && before[w] == bucket(sorted@[t].angle as int) as i64;
                        assert(keys@[w] == before[w]);
                    }
                }
                assert forall|j: int| 0 <= j < keys.len() implies bucket_of_some(
                    sorted@,
                    ii + 1,
                    #[trigger] keys@[j] as int,
                ) by {
                    if j == keys.len() - 1 {
                        assert(keys@[j] == bucket(sorted@[ii].angle as int));
                    } else {
                        assert(keys@[j] == before[j]);
                        assert(bucket_of_some(sorted@, ii, before[j] as int));
                        let t = choose|t: int| 0 <= t < ii && before[j] == bucket(#[trigger] sorted@[t].angle as int);
                        assert(keys@[j] == bucket(sorted@[t].angle as int));
                    }
                }
            }
        }
    }
    keys
}

/// The solutions grouped by 10-degree bucket of their angle, buckets in
/// ascending order, each shown by ascending velocity with ties in input
/// order, at most five.
pub fn into_angle_categories(hits: &Vec<Hit>) -> (r: Vec<Category>)
    ensures
        forall|a: int, b: int| 0 <= a < b < r.len() ==> r@[a].key < r@[b].key,
        forall|h: Hit| hits@.contains(h) ==> exists|j: int| 0 <= j < r.len() && #[trigger] r@[j].key == bucket(h.angle as int),
        forall|j: int| 0 <= j < r.len() ==> bucket_occupied(hits@, (#[trigger] r@[j]).key as int),
        forall|j: int| 0 <= j < r.len() ==> shows_bucket(#[trigger] r@[j], hits@),
{
    let sorted = sort_hits(hits, true);
    let keys = distinct_buckets(&sorted);
    let mut out: Vec<Category> = Vec::new();
    for j in 0..keys.len()
        invariant
            out.len() == j,
            forall|t: int| 0 <= t < j ==> (#[trigger] out@[t]).key == keys@[t],
            forall|t: int| 0 <= t < j ==> shows_bucket(#[trigger] out@[t], hits@),
    {
        let key = keys[j];
        let members = select_bucket(hits, key);
        let mut shown = stable_sort_by_velocity(&members);
        let ghost whole = shown@;
        if shown.len() > SHOW_MAX_HITS {
            shown.truncate(SHOW_MAX_HITS);
        }
        let c = Category { key, hits: shown };
        assert(c.hits@ == whole.take(shown_len(whole.len() as int)));
        assert(is_stable_velocity_sort(whole, in_bucket(hits@, c.key as int)));
        out.push(c);
    }
    proof {
        broadcast use vstd::seq_lib::group_to_multiset_ensures;

        assert forall|h: Hit| hits@.contains(h) implies exists|j: int| 0 <= j < out.len() && #[trigger] out@[j].key == bucket(h.angle as int) by {
            assert(hits@.to_multiset().count(h) > 0);
            assert(sorted@.contains(h));
            let t = choose|t: int| 0 <= t < sorted.len() && sorted@[t] == h;
            assert(keys@.contains(bucket(sorted@[t].angle as int) as i64));
            let j = choose|j: int| 0 <= j < keys.len() && keys@[j] == bucket(sorted@[t].angle as int) as i64;
            assert(out@[j].key == keys@[j]);
        }
        assert forall|j: int| 0 <= j < out.len() implies bucket_occupied(hits@, (#[trigger] out@[j]).key as int) by {
            assert(out@[j].key == keys@[j]);
            assert(bucket_of_some(sorted@, sorted.len() as int, keys@[j] as int));
            let t = choose|t: int| 0 <= t < sorted.len() && keys@[j] == bucket(#[trigger] sorted@[t].angle as int);
            let h = sorted@[t];
            assert(sorted@.contains(h));
            assert(sorted@.to_multiset().count(h) > 0);
            assert(hits@.contains(h));
            assert(out@[j].key == bucket(h.angle as int));
        }
        assert forall|a: int, b: int| 0 <= a < b < out.len() implies out@[a].key < out@[b].key by {
            assert(out@[a].key == keys@[a]);
            assert(out@[b].key == keys@[b]);
        }
    }
    out
}

} // verus!
