use vstd::prelude::*;
use crate::hit::Hit;

verus! {

/// The order of solutions used for display. With `by_angle`, solutions go
/// by angle and then by velocity; otherwise by velocity and then by angle.
pub open spec fn hit_le(a: Hit, b: Hit, by_angle: bool) -> bool {
    if by_angle {
        a.angle < b.angle || (a.angle == b.angle && a.velocity <= b.velocity)
    } else {
        a.velocity < b.velocity || (a.velocity == b.velocity && a.angle <= b.angle)
    }
}

pub open spec fn sorted_by(s: Seq<Hit>, by_angle: bool) -> bool {
    forall|i: int, j: int| 0 <= i < j < s.len() ==> hit_le(#[trigger] s[i], #[trigger] s[j], by_angle)
}

/// `s` holds the solutions of `t`, each as often, in display order.
pub open spec fn is_sorted_perm(s: Seq<Hit>, t: Seq<Hit>, by_angle: bool) -> bool {
    sorted_by(s, by_angle) && s.to_multiset() == t.to_multiset()
}

fn hit_le_exec(a: &Hit, b: &Hit, by_angle: bool) -> (r: bool)
    ensures
        r == hit_le(*a, *b, by_angle),
{
    if by_angle {
        a.angle < b.angle || (a.angle == b.angle && a.velocity <= b.velocity)
    } else {
        a.velocity < b.velocity || (a.velocity == b.velocity && a.angle <= b.angle)
    }
}

/// The solutions of `hits` rearranged into display order.
pub fn sort_hits(hits: &Vec<Hit>, by_angle: bool) -> (r: Vec<Hit>)
    ensures
        is_sorted_perm(r@, hits@, by_angle),
        r@.len() == hits@.len(),
{
    broadcast use vstd::seq_lib::group_to_multiset_ensures;

    let mut out: Vec<Hit> = Vec::new();
    let n = hits.len();
    for i in 0..n
        invariant
            n == hits.len(),
            sorted_by(out@, by_angle),
            out@.to_multiset() == hits@.take(i as int).to_multiset(),
    {
        let h = hits[i];
        let mut p: usize = 0;
        while p < out.len() && hit_le_exec(&out[p], &h, by_angle)
            invariant
                p <= out.len(),
                forall|j: int| 0 <= j < p ==> hit_le(#[trigger] out@[j], h, by_angle),
            decreases out.len() - p,
        {
            p = p + 1;
        }
        proof {
            let s = out@;
            assert(p < s.len() ==> !hit_le(s[p as int], h, by_angle));
            let t = s.insert(p as int, h);
            assert forall|a: int, b: int| 0 <= a < b < t.len() implies hit_le(
                #[trigger] t[a],
                #[trigger] t[b],
                by_angle,
            ) by {
                if b < p {
                    assert(t[a] == s[a] && t[b] == s[b]);
                } else if b == p {
                    assert(t[a] == s[a]);
                } else if a == p {
                    assert(t[b] == s[b - 1]);
                    if b - 1 > p {
                        assert(hit_le(s[p as int], s[b - 1], by_angle));
                    }
                } else if a < p {
                    assert(t[a] == s[a] && t[b] == s[b - 1]);
                } else {
                    assert(t[a] == s[a - 1] && t[b] == s[b - 1]);
                }
            }
            assert(hits@.take(i as int + 1) == hits@.take(i as int).push(h));
            vstd::seq_lib::to_multiset_insert(s, p as int, h);
            vstd::seq_lib::to_multiset_build(hits@.take(i as int), h);
        }
        out.insert(p, h);
    }
    assert(hits@.take(n as int) == hits@);
    proof {
        vstd::seq_lib::to_multiset_len(out@);
        vstd::seq_lib::to_multiset_len(hits@);
    }
    out
}

/// Selects the solutions of velocity `v`.
pub open spec fn velocity_pred(v: u32) -> spec_fn(Hit) -> bool {
    |h: Hit| h.velocity == v
}

pub open spec fn sorted_by_velocity(s: Seq<Hit>) -> bool {
    forall|i: int, j: int| 0 <= i < j < s.len() ==> (#[trigger] s[i]).velocity <= (#[trigger] s[j]).velocity
}

/// `s` holds the solutions of `t` by ascending velocity, solutions of equal
/// velocity in the order they have in `t`.
pub open spec fn is_stable_velocity_sort(s: Seq<Hit>, t: Seq<Hit>) -> bool {
    &&& sorted_by_velocity(s)
    &&& s.to_multiset() == t.to_multiset()
    &&& forall|v: u32| #[trigger] s.filter(velocity_pred(v)) == t.filter(velocity_pred(v))
}

proof fn lemma_filter_velocity_absent(s: Seq<Hit>, v: u32)
    requires
        forall|k: int| 0 <= k < s.len() ==> (#[trigger] s[k]).velocity != v,
    ensures
        s.filter(velocity_pred(v)) == Seq::<Hit>::empty(),
    decreases s.len(),
{
    reveal_with_fuel(Seq::filter, 1);
    if s.len() > 0 {
        let d = s.drop_last();
        assert forall|k: int| 0 <= k < d.len() implies (#[trigger] d[k]).velocity != v by {
            assert(d[k] == s[k]);
        }
        lemma_filter_velocity_absent(d, v);
        assert(s.last() == s[s.len() - 1]);
    } else {
        assert(s =~= Seq::<Hit>::empty());
    }
}

/// The solutions of `hits` by ascending velocity; solutions of equal
/// velocity keep their order.
pub fn stable_sort_by_velocity(hits: &Vec<Hit>) -> (r: Vec<Hit>)
    ensures
        is_stable_velocity_sort(r@, hits@),
        r@.len() == hits@.len(),
{
    broadcast use vstd::seq_lib::group_to_multiset_ensures;

    let mut out: Vec<Hit> = Vec::new();
    let n = hits.len();
    for i in 0..n
        invariant
            n == hits.len(),
            sorted_by_velocity(out@),
            out@.to_multiset() == hits@.take(i as int).to_multiset(),
            forall|v: u32| #[trigger] out@.filter(velocity_pred(v)) == hits@.take(i as int).filter(velocity_pred(v)),
    {
        let h = hits[i];
        let mut p: usize = 0;
        while p < out.len() && out[p].velocity <= h.velocity
            invariant
                p <= out.len(),
                forall|j: int| 0 <= j < p ==> (#[trigger] out@[j]).velocity <= h.velocity,
            decreases out.len() - p,
        {
            p = p + 1;
        }
        proof {
            let s = out@;
            let pp = p as int;
            let t = s.insert(pp, h);
            assert(pp < s.len() ==> s[pp].velocity > h.velocity);
            assert forall|a: int, b: int| 0 <= a < b < t.len() implies (#[trigger] t[a]).velocity <= (#[trigger] t[b]).velocity by {
                if b < pp {
                    assert(t[a] == s[a] && t[b] == s[b]);
                } else if b == pp {
                    assert(t[a] == s[a]);
                } else if a == pp {
                    assert(t[b] == s[b - 1]);
                } else if a < pp {
                    assert(t[a] == s[a] && t[b] == s[b - 1]);
                } else {
                    assert(t[a] == s[a - 1] && t[b] == s[b - 1]);
                }
            }
            let front = s.take(pp);
            let back = s.skip(pp);
            assert(s == front + back);
            assert(t == front.push(h) + back);
            assert forall|k: int| 0 <= k < back.len() implies (#[trigger] back[k]).velocity > h.velocity by {
                assert(back[k] == s[pp + k]);
                if k > 0 {
                    assert(s[pp].velocity <= s[pp + k].velocity);
                }
            }
            let ti = hits@.take(i as int);
            assert(hits@.take(i as int + 1) == ti.push(h));
            assert forall|v: u32| #[trigger] t.filter(velocity_pred(v)) == hits@.take(i as int + 1).filter(velocity_pred(v)) by {
                Seq::<Hit>::filter_distributes_over_add(front, back, velocity_pred(v));
                Seq::<Hit>::filter_distributes_over_add(front.push(h), back, velocity_pred(v));
                front.lemma_filter_push(h, velocity_pred(v));
                ti.lemma_filter_push(h, velocity_pred(v));
                assert(s.filter(velocity_pred(v)) == ti.filter(velocity_pred(v)));
                if v == h.velocity {
                    lemma_filter_velocity_absent(back, v);
                    assert(front.filter(velocity_pred(v)) + back.filter(velocity_pred(v)) == front.filter(velocity_pred(v)));
                    assert(front.filter(velocity_pred(v)).push(h) + back.filter(velocity_pred(v)) == front.filter(velocity_pred(v)).push(h));
                }
            }
            vstd::seq_lib::to_multiset_insert(s, pp, h);
            vstd::seq_lib::to_multiset_build(ti, h);
        }
        out.insert(p, h);
    }
    assert(hits@.take(n as int) == hits@);
    proof {
        vstd::seq_lib::to_multiset_len(out@);
        vstd::seq_lib::to_multiset_len(hits@);
    }
    out
}

} // verus!
