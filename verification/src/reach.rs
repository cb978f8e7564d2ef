use vstd::prelude::*;
use crate::order::views;
use crate::text::{owned, str_eq};

verus! {

/// A directed step between two ids.
pub type Arcs = Seq<(Seq<char>, Seq<char>)>;

/// The views of a list of steps.
pub open spec fn arcs_view(arcs: Seq<(String, String)>) -> Arcs {
    arcs.map_values(|p: (String, String)| (p.0@, p.1@))
}

/// There is a step from `a` to `b`.
pub open spec fn has_arc(arcs: Arcs, a: Seq<char>, b: Seq<char>) -> bool {
    arcs.contains((a, b))
}

/// `p` is a walk: a non-empty sequence of nodes, each a step from the one before.
pub open spec fn is_walk(arcs: Arcs, p: Seq<Seq<char>>) -> bool {
    p.len() >= 1 && forall|i: int| 0 <= i < p.len() - 1 ==> has_arc(arcs, #[trigger] p[i], p[i + 1])
}

/// `v` can be reached from `s` in at most `k` steps.
pub open spec fn within(arcs: Arcs, s: Seq<char>, v: Seq<char>, k: nat) -> bool {
    exists|p: Seq<Seq<char>>|
        #[trigger] is_walk(arcs, p) && p[0] == s && p.last() == v && p.len() <= k + 1
}

/// `v` is one step away from a node reached within `k` steps.
pub open spec fn one_step(arcs: Arcs, s: Seq<char>, v: Seq<char>, k: nat) -> bool {
    exists|u: Seq<char>| #[trigger] within(arcs, s, u, k) && has_arc(arcs, u, v)
}

pub proof fn lemma_within_zero(arcs: Arcs, s: Seq<char>, v: Seq<char>)
    ensures
        within(arcs, s, v, 0) == (v == s),
{
    if v == s {
        let p = seq![s];
        assert(is_walk(arcs, p));
    }
}

pub proof fn lemma_unfold(arcs: Arcs, s: Seq<char>, v: Seq<char>, k: nat)
    ensures
        within(arcs, s, v, k + 1) == (within(arcs, s, v, k) || one_step(arcs, s, v, k)),
{
    if within(arcs, s, v, k + 1) && !within(arcs, s, v, k) {
        let p = choose|p: Seq<Seq<char>>|
            #[trigger] is_walk(arcs, p) && p[0] == s && p.last() == v && p.len() <= k + 2;
        assert(p.len() == k + 2);
        let q = p.drop_last();
        assert(is_walk(arcs, q)) by {
            assert forall|i: int| 0 <= i < q.len() - 1 implies has_arc(arcs, #[trigger] q[i], q[i + 1]) by {
                assert(q[i] == p[i] && q[i + 1] == p[i + 1]);
            }
        }
        assert(has_arc(arcs, p[p.len() - 2], p[p.len() - 1]));
        assert(within(arcs, s, q.last(), k));
    }
    if within(arcs, s, v, k) {
        let p = choose|p: Seq<Seq<char>>|
            #[trigger] is_walk(arcs, p) && p[0] == s && p.last() == v && p.len() <= k + 1;
        assert(is_walk(arcs, p) && p[0] == s && p.last() == v && p.len() <= k + 2);
    }
    if one_step(arcs, s, v, k) {
        let u = choose|u: Seq<char>| #[trigger] within(arcs, s, u, k) && has_arc(arcs, u, v);
        let p = choose|p: Seq<Seq<char>>|
            #[trigger] is_walk(arcs, p) && p[0] == s && p.last() == u && p.len() <= k + 1;
        let q = p.push(v);
        assert(is_walk(arcs, q)) by {
            assert forall|i: int| 0 <= i < q.len() - 1 implies has_arc(arcs, #[trigger] q[i], q[i + 1]) by {
                if i < p.len() - 1 {
                    assert(q[i] == p[i] && q[i + 1] == p[i + 1]);
                } else {
                    assert(q[i] == u && q[i + 1] == v);
                }
            }
        }
        assert(q[0] == s && q.last() == v && q.len() <= k + 2);
    }
}

/// The fewest steps from `s` to `v` are exactly `d`.
pub open spec fn exact(arcs: Arcs, s: Seq<char>, v: Seq<char>, d: nat) -> bool {
    within(arcs, s, v, d) && (d == 0 || !within(arcs, s, v, (d - 1) as nat))
}

/// `v` can be reached from `s` in any number of steps.
pub open spec fn reachable(arcs: Arcs, s: Seq<char>, v: Seq<char>) -> bool {
    exists|k: nat| #[trigger] within(arcs, s, v, k)
}

pub proof fn lemma_within_mono(arcs: Arcs, s: Seq<char>, v: Seq<char>, k: nat, m: nat)
    requires
        k <= m,
        within(arcs, s, v, k),
    ensures
        within(arcs, s, v, m),
    decreases m,
{
    let p = choose|p: Seq<Seq<char>>|
        #[trigger] is_walk(arcs, p) && p[0] == s && p.last() == v && p.len() <= k + 1;
    assert(is_walk(arcs, p) && p[0] == s && p.last() == v && p.len() <= m + 1);
}

pub proof fn lemma_exact_unique(arcs: Arcs, s: Seq<char>, v: Seq<char>, d1: nat, d2: nat)
    requires
        exact(arcs, s, v, d1),
        exact(arcs, s, v, d2),
    ensures
        d1 == d2,
{
    if d1 < d2 {
        lemma_within_mono(arcs, s, v, d1, (d2 - 1) as nat);
    } else if d2 < d1 {
        lemma_within_mono(arcs, s, v, d2, (d1 - 1) as nat);
    }
}

/// A shortest route of `d + 1` steps ends with a step from a node at
/// distance `d`.
pub proof fn lemma_exact_step(arcs: Arcs, s: Seq<char>, v: Seq<char>, d: nat) -> (u: Seq<char>)
    requires
        exact(arcs, s, v, d + 1),
    ensures
        exact(arcs, s, u, d),
        has_arc(arcs, u, v),
{
    lemma_unfold(arcs, s, v, d);
    assert(((d + 1) - 1) as nat == d);
    assert(one_step(arcs, s, v, d));
    let u = choose|u: Seq<char>| #[trigger] within(arcs, s, u, d) && has_arc(arcs, u, v);
    if d > 0 && within(arcs, s, u, (d - 1) as nat) {
        assert(one_step(arcs, s, v, (d - 1) as nat));
        lemma_unfold(arcs, s, v, (d - 1) as nat);
        assert(((d - 1) as nat + 1) as nat == d);
        assert(within(arcs, s, v, d));
    }
    u
}

pub proof fn lemma_exact_extend(arcs: Arcs, s: Seq<char>, u: Seq<char>, v: Seq<char>, d: nat)
    requires
        exact(arcs, s, u, d),
        has_arc(arcs, u, v),
        !within(arcs, s, v, d),
    ensures
        exact(arcs, s, v, d + 1),
{
    assert(within(arcs, s, u, d) && has_arc(arcs, u, v));
    assert(one_step(arcs, s, v, d));
    lemma_unfold(arcs, s, v, d);
    assert(((d + 1) - 1) as nat == d);
}

/// When no node lies at distance exactly `l`, nothing lies further away.
pub proof fn lemma_stall(arcs: Arcs, s: Seq<char>, l: nat, v: Seq<char>, d: nat)
    requires
        forall|w: Seq<char>| !exact(arcs, s, w, l),
        l <= d,
        within(arcs, s, v, d),
    ensures
        within(arcs, s, v, l),
    decreases d,
{
    if d > l {
        let d1 = (d - 1) as nat;
        lemma_unfold(arcs, s, v, d1);
        if within(arcs, s, v, d1) {
            lemma_stall(arcs, s, l, v, d1);
        } else {
            assert((d1 + 1) as nat == d);
            assert(one_step(arcs, s, v, d1));
            let u = choose|u: Seq<char>| #[trigger] within(arcs, s, u, d1) && has_arc(arcs, u, v);
            lemma_stall(arcs, s, l, u, d1);
            assert(!exact(arcs, s, u, l));
            assert(l > 0);
            let l1 = (l - 1) as nat;
            assert(within(arcs, s, u, l1));
            assert(one_step(arcs, s, v, l1));
            lemma_unfold(arcs, s, v, l1);
            assert((l1 + 1) as nat == l);
            assert(within(arcs, s, v, l));
        }
    }
}

/// The distance from the source at which `s` cannot be reached: none.
pub proof fn lemma_exact_source(arcs: Arcs, s: Seq<char>)
    ensures
        exact(arcs, s, s, 0),
{
    lemma_within_zero(arcs, s, s);
}

/// A node found by a breadth-first search: how far it is from the source,
/// and the node from which it was first reached.
pub struct Reached {
    pub id: String,
    pub distance: usize,
    pub parent: String,
}

pub open spec fn reached_ids(f: Seq<Reached>) -> Seq<Seq<char>> {
    f.map_values(|r: Reached| r.id@)
}

/// What every found node satisfies: it lies at its recorded distance, and it
/// is reached by a step from its parent, which lies one step closer.
pub open spec fn sound_entry(arcs: Arcs, s: Seq<char>, r: Reached) -> bool {
    &&& r.distance >= 1
    &&& exact(arcs, s, r.id@, r.distance as nat)
    &&& has_arc(arcs, r.parent@, r.id@)
    &&& exact(arcs, s, r.parent@, (r.distance - 1) as nat)
}

/// A found node by its view: its id, its distance and its parent.
pub type FoundView = Seq<(Seq<char>, nat, Seq<char>)>;

pub open spec fn found_view(f: Seq<Reached>) -> FoundView {
    f.map_values(|r: Reached| (r.id@, r.distance as nat, r.parent@))
}

pub open spec fn found_ids(f: FoundView) -> Seq<Seq<char>> {
    f.map_values(|e: (Seq<char>, nat, Seq<char>)| e.0)
}

/// The search looks at the steps out of `u` (a node at distance `d`) in
/// their order, from the `k`-th on: each step to a node other than `s` that
/// is not found yet finds it, at distance `d + 1`, with parent `u`.
pub open spec fn scan_arcs(a: Arcs, s: Seq<char>, u: Seq<char>, d: nat, f: FoundView, k: int) -> FoundView
    decreases a.len() - k,
{
    if k < 0 || k >= a.len() {
        f
    } else if a[k].0 == u && a[k].1 != s && !found_ids(f).contains(a[k].1) {
        scan_arcs(a, s, u, d, f.push((a[k].1, d + 1, u)), k + 1)
    } else {
        scan_arcs(a, s, u, d, f, k + 1)
    }
}

/// The search goes through the nodes of one level in the order they were
/// found, from the `j`-th on.
pub open spec fn scan_level(a: Arcs, s: Seq<char>, level: Seq<Seq<char>>, d: nat, f: FoundView, j: int) -> FoundView
    decreases level.len() - j,
{
    if j < 0 || j >= level.len() {
        f
    } else {
        scan_level(a, s, level, d, scan_arcs(a, s, level[j], d, f, 0), j + 1)
    }
}

/// The search, level by level, from the nodes `level` at distance `d`,
/// with `f` found so far, until `max_depth` or until a level is empty.
pub open spec fn bfs_from(a: Arcs, s: Seq<char>, max_depth: nat, f: FoundView, level: Seq<Seq<char>>, d: nat) -> FoundView
    decreases max_depth - d,
{
    if d >= max_depth || level.len() == 0 {
        f
    } else {
        let f2 = scan_level(a, s, level, d, f, 0);
        bfs_from(a, s, max_depth, f2, found_ids(f2.skip(f.len() as int)), d + 1)
    }
}

/// The nodes that a breadth-first search from `s` finds within
/// `max_depth` steps, in the order it finds them, each with the node it was
/// first reached from: the levels in turn; within a level, the nodes of the
/// level before in their order, and the steps out of each in their order.
pub open spec fn bfs(a: Arcs, s: Seq<char>, max_depth: nat) -> FoundView {
    bfs_from(a, s, max_depth, seq![], seq![s], 0)
}

/// The first found entry for `v`.
pub open spec fn first_found(f: FoundView, v: Seq<char>) -> Option<(Seq<char>, nat, Seq<char>)>
    decreases f.len(),
{
    if f.len() == 0 {
        None
    } else if f[0].0 == v {
        Some(f[0])
    } else {
        first_found(f.drop_first(), v)
    }
}

/// The route from `s` to `v` that follows the recorded parents back from
/// `v`, at most `n` of them.
pub open spec fn route(f: FoundView, s: Seq<char>, v: Seq<char>, n: nat) -> Seq<Seq<char>>
    decreases n,
{
    if v == s {
        seq![s]
    } else if n == 0 {
        seq![]
    } else {
        match first_found(f, v) {
            Some(e) => route(f, s, e.2, (n - 1) as nat).push(v),
            None => seq![],
        }
    }
}

pub proof fn lemma_first_found(f: FoundView, v: Seq<char>, i: int)
    requires
        0 <= i < f.len(),
        f[i].0 == v,
        forall|k: int| 0 <= k < i ==> (#[trigger] f[k]).0 != v,
    ensures
        first_found(f, v) == Some(f[i]),
    decreases i,
{
    if i > 0 {
        assert forall|k: int| 0 <= k < i - 1 implies (#[trigger] f.drop_first()[k]).0 != v by {
            assert(f.drop_first()[k] == f[k + 1]);
        }
        lemma_first_found(f.drop_first(), v, i - 1);
    }
}

/// The ids of the found entries are the found ids.
pub proof fn lemma_found_ids(f: Seq<Reached>)
    ensures
        found_ids(found_view(f)) == reached_ids(f),
        found_view(f).len() == f.len(),
{
    assert(found_ids(found_view(f)) =~= reached_ids(f));
}

pub open spec fn no_repeats(s: Seq<Seq<char>>) -> bool {
    forall|i: int, j: int| 0 <= i < j < s.len() ==> #[trigger] s[i] != #[trigger] s[j]
}

/// The result of a breadth-first search from `s` to depth `max_depth`: every
/// node other than `s` within that many steps, once, with its distance and a
/// parent on a shortest route.
pub open spec fn search_result(arcs: Arcs, s: Seq<char>, max_depth: nat, found: Seq<Reached>) -> bool {
    &&& forall|i: int|
        0 <= i < found.len() ==> sound_entry(arcs, s, #[trigger] found[i]) && found[i].distance
            <= max_depth
    &&& no_repeats(reached_ids(found))
    &&& forall|i: int| 0 <= i < found.len() ==> (#[trigger] found[i]).id@ != s
    &&& forall|v: Seq<char>, d: nat|
        d <= max_depth && #[trigger] within(arcs, s, v, d) && v != s ==> reached_ids(found).contains(v)
}

pub fn contains_id(found: &Vec<Reached>, id: &str) -> (r: bool)
    ensures
        r == reached_ids(found@).contains(id@),
{
    let mut i: usize = 0;
    while i < found.len()
        invariant
            i <= found.len(),
            forall|k: int| 0 <= k < i ==> found@[k].id@ != id@,
        decreases found.len() - i,
    {
        if str_eq(found[i].id.as_str(), id) {
            assert(reached_ids(found@)[i as int] == id@);
            return true;
        }
        i += 1;
    }
    assert(!reached_ids(found@).contains(id@)) by {
        if reached_ids(found@).contains(id@) {
            let k = choose|k: int| 0 <= k < found.len() && reached_ids(found@)[k] == id@;
            assert(found@[k].id@ == id@);
        }
    }
    false
}

/// Breadth-first search from `source` along `arcs`, at most `max_depth`
/// steps deep. Nodes are found level by level; within a level, in the order
/// of the nodes of the previous level and then of the steps.
pub fn explore(arcs: &Vec<(String, String)>, source: &str, max_depth: usize) -> (found: Vec<Reached>)
    ensures
        search_result(arcs_view(arcs@), source@, max_depth as nat, found@),
        found_view(found@) == bfs(arcs_view(arcs@), source@, max_depth as nat),
{
    let ghost a = arcs_view(arcs@);
    let ghost s = source@;
    let mut found: Vec<Reached> = Vec::new();
    let mut frontier: Vec<String> = Vec::new();
    frontier.push(owned(source));
    let mut level: usize = 0;
    proof {
        assert forall|v: Seq<char>| exact(a, s, v, 0) implies views(frontier@).contains(v) by {
            lemma_within_zero(a, s, v);
            assert(views(frontier@)[0] == s);
        }
        assert forall|v: Seq<char>| #[trigger] within(a, s, v, 0) && v != s implies reached_ids(found@).contains(v) by {
            lemma_within_zero(a, s, v);
        }
        lemma_exact_source(a, s);
        assert(found_view(found@) =~= seq![]);
        assert(views(frontier@) =~= seq![s]);
    }
    while level < max_depth && frontier.len() > 0
        invariant
            a == arcs_view(arcs@),
            s == source@,
            level <= max_depth,
            bfs(a, s, max_depth as nat) == bfs_from(a, s, max_depth as nat, found_view(found@), views(frontier@), level as nat),
            forall|i: int|
                0 <= i < found.len() ==> sound_entry(a, s, #[trigger] found@[i])
                    && found@[i].distance <= level,
            no_repeats(reached_ids(found@)),
            forall|i: int| 0 <= i < found.len() ==> (#[trigger] found@[i]).id@ != s,
            forall|v: Seq<char>|
                #[trigger] within(a, s, v, level as nat) && v != s ==> reached_ids(found@).contains(v),
            forall|j: int| 0 <= j < frontier.len() ==> exact(a, s, (#[trigger] frontier@[j])@, level as nat),
            forall|v: Seq<char>| #[trigger] exact(a, s, v, level as nat) ==> views(frontier@).contains(v),
        decreases max_depth - level,
    {
        let mut next: Vec<String> = Vec::new();
        let mut j: usize = 0;
        let ghost f0 = found_view(found@);
        let ghost fr = views(frontier@);
        proof {
            assert(found_view(found@).take(f0.len() as int) =~= f0);
            assert(found_ids(found_view(found@).skip(f0.len() as int)) =~= views(next@));
        }
        while j < frontier.len()
            invariant
                a == arcs_view(arcs@),
                s == source@,
                level < max_depth,
                fr == views(frontier@),
                found_view(found@).len() >= f0.len(),
                found_view(found@).take(f0.len() as int) == f0,
                views(next@) == found_ids(found_view(found@).skip(f0.len() as int)),
                scan_level(a, s, fr, level as nat, f0, 0) == scan_level(a, s, fr, level as nat, found_view(found@), j as int),
                forall|i: int|
                    0 <= i < found.len() ==> sound_entry(a, s, #[trigger] found@[i])
                        && found@[i].distance <= level + 1,
                no_repeats(reached_ids(found@)),
                forall|i: int| 0 <= i < found.len() ==> (#[trigger] found@[i]).id@ != s,
                forall|v: Seq<char>|
                    #[trigger] within(a, s, v, level as nat) && v != s ==> reached_ids(found@).contains(v),
                forall|i: int| 0 <= i < frontier.len() ==> exact(a, s, (#[trigger] frontier@[i])@, level as nat),
                j <= frontier.len(),
                forall|j2: int, k2: int|
                    0 <= j2 < j && 0 <= k2 < a.len() && (#[trigger] a[k2]).0 == (#[trigger] frontier@[j2])@
                        ==> a[k2].1 == s || reached_ids(found@).contains(a[k2].1),
                forall|m: int| 0 <= m < next.len() ==> exact(a, s, (#[trigger] next@[m])@, (level + 1) as nat),
                forall|i: int|
                    0 <= i < found.len() && (#[trigger] found@[i]).distance == level + 1 ==> views(next@).contains(found@[i].id@),
            decreases frontier.len() - j,
        {
            let u = &frontier[j];
            let mut k: usize = 0;
            let ghost fj = found_view(found@);
            while k < arcs.len()
                invariant
                    a == arcs_view(arcs@),
                    s == source@,
                    level < max_depth,
                    j < frontier.len(),
                    fr == views(frontier@),
                    found_view(found@).len() >= f0.len(),
                    found_view(found@).take(f0.len() as int) == f0,
                    views(next@) == found_ids(found_view(found@).skip(f0.len() as int)),
                    scan_level(a, s, fr, level as nat, f0, 0) == scan_level(a, s, fr, level as nat, fj, j as int),
                    scan_arcs(a, s, u@, level as nat, fj, 0) == scan_arcs(a, s, u@, level as nat, found_view(found@), k as int),
                    *u == frontier@[j as int],
                    exact(a, s, u@, level as nat),
                    forall|i: int|
                        0 <= i < found.len() ==> sound_entry(a, s, #[trigger] found@[i])
                            && found@[i].distance <= level + 1,
                    no_repeats(reached_ids(found@)),
                    forall|i: int| 0 <= i < found.len() ==> (#[trigger] found@[i]).id@ != s,
                    forall|v: Seq<char>|
                        #[trigger] within(a, s, v, level as nat) && v != s ==> reached_ids(found@).contains(v),
                    forall|j2: int, k2: int|
                        0 <= j2 < j && 0 <= k2 < a.len() && (#[trigger] a[k2]).0 == (#[trigger] frontier@[j2])@
                            ==> a[k2].1 == s || reached_ids(found@).contains(a[k2].1),
                    k <= arcs.len(),
                    forall|k2: int|
                        0 <= k2 < k && (#[trigger] a[k2]).0 == u@ ==> a[k2].1 == s || reached_ids(found@).contains(a[k2].1),
                    forall|m: int| 0 <= m < next.len() ==> exact(a, s, (#[trigger] next@[m])@, (level + 1) as nat),
                    forall|i: int|
                        0 <= i < found.len() && (#[trigger] found@[i]).distance == level + 1 ==> views(next@).contains(found@[i].id@),
                decreases arcs.len() - k,
            {
                assert(a[k as int] == (arcs@[k as int].0@, arcs@[k as int].1@));
                proof {
                    lemma_found_ids(found@);
                }
                let ghost fk = found_view(found@);
                if str_eq(arcs[k].0.as_str(), u.as_str()) {
                    let b = &arcs[k].1;
                    if !str_eq(b.as_str(), source) && !contains_id(&found, b.as_str()) {
                        let ghost old_found = found@;
                        let ghost old_next = next@;
                        proof {
                            assert(has_arc(a, u@, b@)) by {
                                assert(a[k as int] == (u@, b@));
                            }
                            assert(!within(a, s, b@, level as nat));
                            lemma_exact_extend(a, s, u@, b@, level as nat);
                        }
                        found.push(Reached { id: b.clone(), distance: level + 1, parent: u.clone() });
                        next.push(b.clone());
                        proof {
                            assert(found_view(found@) =~= fk.push((b@, (level + 1) as nat, u@)));
                            assert(found_view(found@).take(f0.len() as int) =~= f0);
                            assert(found_ids(found_view(found@).skip(f0.len() as int)) =~= found_ids(
                                fk.skip(f0.len() as int),
                            ).push(b@));
                            assert(reached_ids(found@) =~= reached_ids(old_found).push(b@));
                            assert(views(next@) =~= views(old_next).push(b@));
                            assert(reached_ids(found@).contains(b@)) by {
                                assert(reached_ids(found@)[old_found.len() as int] == b@);
                            }
                            assert forall|x: Seq<char>| reached_ids(old_found).contains(x) implies reached_ids(found@).contains(x) by {
                                let w = choose|w: int| 0 <= w < old_found.len() && reached_ids(old_found)[w] == x;
                                assert(reached_ids(found@)[w] == x);
                            }
                            assert forall|x: Seq<char>| views(old_next).contains(x) implies views(next@).contains(x) by {
                                let w = choose|w: int| 0 <= w < old_next.len() && views(old_next)[w] == x;
                                assert(views(next@)[w] == x);
                            }
                            assert(views(next@)[old_next.len() as int] == b@);
                            assert forall|i: int| 0 <= i < found.len() && (#[trigger] found@[i]).distance == level + 1
                                implies views(next@).contains(found@[i].id@) by {
                                if i < old_found.len() {
                                    assert(found@[i] == old_found[i]);
                                }
                            }
                            assert forall|i: int| 0 <= i < found.len() implies (#[trigger] found@[i]).id@ != s by {
                                if i < old_found.len() {
                                    assert(found@[i] == old_found[i]);
                                }
                            }
                            assert forall|i: int| 0 <= i < found.len() implies sound_entry(a, s, #[trigger] found@[i])
                                && found@[i].distance <= level + 1 by {
                                if i < old_found.len() {
                                    assert(found@[i] == old_found[i]);
                                }
                            }
                            assert(no_repeats(reached_ids(found@))) by {
                                let ids = reached_ids(found@);
                                assert forall|x: int, y: int| 0 <= x < y < ids.len() implies #[trigger] ids[x] != #[trigger] ids[y] by {
                                    if y == old_found.len() {
                                        assert(reached_ids(old_found)[x] == ids[x]);
                                        assert(reached_ids(old_found).contains(ids[x]));
                                    } else {
                                        assert(reached_ids(old_found)[x] == ids[x]);
                                        assert(reached_ids(old_found)[y] == ids[y]);
                                    }
                                }
                            }
                        }
                    }
                }
                proof {
                    assert(scan_arcs(a, s, u@, level as nat, fk, k as int) == scan_arcs(
                        a,
                        s,
                        u@,
                        level as nat,
                        found_view(found@),
                        k + 1,
                    ));
                }
                k += 1;
            }
            proof {
                assert(fr[j as int] == u@);
                assert(found_view(found@) == scan_arcs(a, s, u@, level as nat, fj, 0));
                assert(scan_level(a, s, fr, level as nat, fj, j as int) == scan_level(
                    a,
                    s,
                    fr,
                    level as nat,
                    found_view(found@),
                    j + 1,
                ));
            }
            j += 1;
        }
        proof {
            assert(found_view(found@) == scan_level(a, s, fr, level as nat, f0, 0));
            assert(bfs_from(a, s, max_depth as nat, f0, fr, level as nat) == bfs_from(
                a,
                s,
                max_depth as nat,
                found_view(found@),
                views(next@),
                (level + 1) as nat,
            ));
        }
        proof {
            let l1 = (level + 1) as nat;
            assert forall|v: Seq<char>| #[trigger] exact(a, s, v, l1) implies views(next@).contains(v) by {
                let u = lemma_exact_step(a, s, v, level as nat);
                assert(views(frontier@).contains(u));
                let j2 = choose|j2: int| 0 <= j2 < frontier.len() && views(frontier@)[j2] == u;
                assert(frontier@[j2]@ == u);
                let k2 = choose|k2: int| 0 <= k2 < a.len() && a[k2] == (u, v);
                assert(a[k2].0 == frontier@[j2]@);
                lemma_exact_source(a, s);
                if v == s {
                    lemma_exact_unique(a, s, s, 0, l1);
                }
                assert(reached_ids(found@).contains(v));
                let i = choose|i: int| 0 <= i < found.len() && reached_ids(found@)[i] == v;
                assert(found@[i].id@ == v);
                assert(sound_entry(a, s, found@[i]));
                lemma_exact_unique(a, s, v, found@[i].distance as nat, l1);
            }
            assert forall|v: Seq<char>| #[trigger] within(a, s, v, l1) && v != s implies reached_ids(found@).contains(v) by {
                if within(a, s, v, level as nat) {
                } else {
                    assert(exact(a, s, v, l1));
                    assert(views(next@).contains(v));
                    let m = choose|m: int| 0 <= m < next.len() && views(next@)[m] == v;
                    assert(exact(a, s, next@[m]@, l1));
                    let u = lemma_exact_step(a, s, v, level as nat);
                    assert(views(frontier@).contains(u));
                    let j2 = choose|j2: int| 0 <= j2 < frontier.len() && views(frontier@)[j2] == u;
                    assert(frontier@[j2]@ == u);
                    let k2 = choose|k2: int| 0 <= k2 < a.len() && a[k2] == (u, v);
                    assert(a[k2].0 == frontier@[j2]@);
                }
            }
        }
        frontier = next;
        level += 1;
    }
    proof {
        assert forall|v: Seq<char>, d: nat|
            d <= max_depth && #[trigger] within(a, s, v, d) && v != s implies reached_ids(found@).contains(v) by {
            if d <= level {
                lemma_within_mono(a, s, v, d, level as nat);
            } else {
                assert(frontier.len() == 0);
                assert forall|w: Seq<char>| !exact(a, s, w, level as nat) by {
                    if exact(a, s, w, level as nat) {
                        assert(views(frontier@).contains(w));
                    }
                }
                lemma_stall(a, s, level as nat, v, d);
            }
        }
    }
    found
}

} // verus!

verus! {

/// Some number of steps reaches `v` from `s` with the fewest steps.
proof fn lemma_least_distance(arcs: Arcs, s: Seq<char>, v: Seq<char>, k: nat) -> (d: nat)
    requires
        within(arcs, s, v, k),
    ensures
        d <= k,
        exact(arcs, s, v, d),
    decreases k,
{
    if k > 0 && within(arcs, s, v, (k - 1) as nat) {
        lemma_least_distance(arcs, s, v, (k - 1) as nat)
    } else {
        k
    }
}

/// A walk with the fewest steps repeats no node.
proof fn lemma_shortest_walk_simple(arcs: Arcs, s: Seq<char>, v: Seq<char>, p: Seq<Seq<char>>, i: int, j: int)
    requires
        is_walk(arcs, p),
        p[0] == s,
        p.last() == v,
        p.len() >= 2,
        !within(arcs, s, v, (p.len() - 2) as nat),
        0 <= i < j < p.len(),
    ensures
        p[i] != p[j],
{
    if p[i] == p[j] {
        let q = p.take(i + 1) + p.skip(j + 1);
        assert(q.len() == p.len() - (j - i));
        assert forall|m: int| 0 <= m < q.len() - 1 implies has_arc(arcs, #[trigger] q[m], q[m + 1]) by {
            if m < i {
                assert(q[m] == p[m] && q[m + 1] == p[m + 1]);
            } else if m == i {
                assert(q[m] == p[j]);
                assert(q[m + 1] == p[j + 1]);
            } else {
                assert(q[m] == p[m + (j - i)] && q[m + 1] == p[m + 1 + (j - i)]);
            }
        }
        assert(is_walk(arcs, q));
        assert(q[0] == s);
        if j == p.len() - 1 {
            assert(q.last() == p[i]);
        } else {
            assert(q.last() == p.last());
        }
        assert(within(arcs, s, v, (p.len() - 2) as nat));
    }
}

/// Whatever can be reached at all can be reached in at most as many steps
/// as there are arcs.
pub proof fn lemma_reach_bound(arcs: Arcs, s: Seq<char>, v: Seq<char>, k: nat)
    requires
        within(arcs, s, v, k),
    ensures
        within(arcs, s, v, arcs.len()),
{
    let d = lemma_least_distance(arcs, s, v, k);
    if d == 0 {
        lemma_within_mono(arcs, s, v, 0, arcs.len());
        return;
    }
    let p = choose|p: Seq<Seq<char>>|
        #[trigger] is_walk(arcs, p) && p[0] == s && p.last() == v && p.len() <= d + 1;
    if p.len() < d + 1 {
        assert(within(arcs, s, v, (d - 1) as nat));
    }
    assert(p.len() == d + 1);
    let steps = Seq::new(d, |m: int| (p[m], p[m + 1]));
    assert forall|x: int, y: int| 0 <= x < steps.len() && 0 <= y < steps.len() && x != y implies steps[x]
        != steps[y] by {
        if x < y {
            lemma_shortest_walk_simple(arcs, s, v, p, x, y);
        } else {
            lemma_shortest_walk_simple(arcs, s, v, p, y, x);
        }
    }
    assert(steps.no_duplicates());
    steps.unique_seq_to_set();
    assert(steps.to_set().subset_of(arcs.to_set())) by {
        assert forall|x: (Seq<char>, Seq<char>)| steps.to_set().contains(x) implies arcs.to_set().contains(x) by {
            let m = choose|m: int| 0 <= m < steps.len() && steps[m] == x;
            assert(has_arc(arcs, p[m], p[m + 1]));
        }
    }
    vstd::seq_lib::seq_to_set_is_finite(arcs);
    vstd::set_lib::lemma_len_subset(steps.to_set(), arcs.to_set());
    arcs.lemma_cardinality_of_set();
    lemma_within_mono(arcs, s, v, d, arcs.len());
}

} // verus!
