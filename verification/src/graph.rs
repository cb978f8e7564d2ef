use vstd::prelude::*;
use crate::json::Json;
use crate::model::{edges_view, EdgeView, GraphEdge, IndexEntry};
use crate::text::{eq_ignore_ascii_case, eq_ignore_case, str_eq};

verus! {

/// The links of one record, from its `links` array: each element with a
/// text `relation` and a text `target` gives a link, in order.
pub open spec fn link_edges(from: Seq<char>, links: Seq<Json>) -> Seq<EdgeView>
    decreases links.len(),
{
    if links.len() == 0 {
        seq![]
    } else {
        link_edges(from, links.drop_last()) + match (
            links.last().text_at("relation"@),
            links.last().text_at("target"@),
        ) {
            (Some(r), Some(t)) => seq![EdgeView { from, to: t, relation: r }],
            _ => seq![],
        }
    }
}

/// All links of all records, record by record.
pub open spec fn record_edges(records: Seq<(IndexEntry, Json)>) -> Seq<EdgeView>
    decreases records.len(),
{
    if records.len() == 0 {
        seq![]
    } else {
        record_edges(records.drop_last()) + match records.last().1.spec_get("links"@) {
            Some(Json::Array(a)) => link_edges(records.last().0.id@, a@),
            _ => seq![],
        }
    }
}

fn push_link_edges(from: &String, links: &Vec<Json>, edges: &mut Vec<GraphEdge>)
    ensures
        edges_view(final(edges)@) == edges_view(old(edges)@) + link_edges(from@, links@),
{
    let ghost start = edges_view(edges@);
    let mut i: usize = 0;
    while i < links.len()
        invariant
            i <= links.len(),
            edges_view(edges@) == start + link_edges(from@, links@.take(i as int)),
        decreases links.len() - i,
    {
        assert(links@.take(i + 1).drop_last() =~= links@.take(i as int));
        let ghost before = edges_view(edges@);
        let link = &links[i];
        match (link.get_str("relation"), link.get_str("target")) {
            (Some(r), Some(t)) => {
                edges.push(GraphEdge { from: from.clone(), to: t.clone(), relation: r.clone() });
                assert(edges_view(edges@) =~= before.push(
                    EdgeView { from: from@, to: t@, relation: r@ },
                ));
            },
            _ => {
                assert(edges_view(edges@) =~= before);
            },
        }
        i += 1;
    }
    assert(links@.take(links.len() as int) =~= links@);
}

/// The links between records: for each record in order, the well-formed
/// elements of its `links` array, from the record's id to the target.
pub fn collect_graph_edges(records: &Vec<(IndexEntry, Json)>) -> (edges: Vec<GraphEdge>)
    ensures
        edges_view(edges@) == record_edges(records@),
{
    let mut edges: Vec<GraphEdge> = Vec::new();
    let mut i: usize = 0;
    while i < records.len()
        invariant
            i <= records.len(),
            edges_view(edges@) == record_edges(records@.take(i as int)),
        decreases records.len() - i,
    {
        assert(records@.take(i + 1).drop_last() =~= records@.take(i as int));
        let ghost before = edges_view(edges@);
        match records[i].1.get_array("links") {
            Some(links) => push_link_edges(&records[i].0.id, links, &mut edges),
            None => {
                assert(edges_view(edges@) =~= before);
            },
        }
        i += 1;
    }
    assert(records@.take(records.len() as int) =~= records@);
    edges
}

/// The link passes the optional filters: same source, same target, and a
/// relation equal up to ASCII case.
pub open spec fn edge_selected(
    e: EdgeView,
    from: Option<Seq<char>>,
    to: Option<Seq<char>>,
    relation: Option<Seq<char>>,
) -> bool {
    &&& (from matches Some(f) ==> e.from == f)
    &&& (to matches Some(t) ==> e.to == t)
    &&& (relation matches Some(r) ==> eq_ignore_case(e.relation, r))
}

/// The links that pass the filters, in order.
pub open spec fn select_edges(
    edges: Seq<EdgeView>,
    from: Option<Seq<char>>,
    to: Option<Seq<char>>,
    relation: Option<Seq<char>>,
) -> Seq<EdgeView>
    decreases edges.len(),
{
    if edges.len() == 0 {
        seq![]
    } else {
        select_edges(edges.drop_last(), from, to, relation) + if edge_selected(
            edges.last(),
            from,
            to,
            relation,
        ) {
            seq![edges.last()]
        } else {
            seq![]
        }
    }
}

/// The view of an optional borrowed text.
pub open spec fn opt_str(o: Option<&str>) -> Option<Seq<char>> {
    match o {
        Some(s) => Some(s@),
        None => None,
    }
}

/// The links that pass the optional filters on source, target and relation.
pub fn filter_edges(
    edges: &Vec<GraphEdge>,
    from: Option<&str>,
    to: Option<&str>,
    relation: Option<&str>,
) -> (r: Vec<GraphEdge>)
    ensures
        edges_view(r@) == select_edges(edges_view(edges@), opt_str(from), opt_str(to), opt_str(relation)),
{
    let ghost ev = edges_view(edges@);
    let mut r: Vec<GraphEdge> = Vec::new();
    let mut i: usize = 0;
    while i < edges.len()
        invariant
            i <= edges.len(),
            ev == edges_view(edges@),
            edges_view(r@) == select_edges(ev.take(i as int), opt_str(from), opt_str(to), opt_str(relation)),
        decreases edges.len() - i,
    {
        assert(ev.take(i + 1).drop_last() =~= ev.take(i as int));
        assert(ev.take(i + 1).last() == edges@[i as int]@);
        let e = &edges[i];
        let keep_from = match from {
            Some(f) => str_eq(e.from.as_str(), f),
            None => true,
        };
        let keep_to = match to {
            Some(t) => str_eq(e.to.as_str(), t),
            None => true,
        };
        let keep_relation = match relation {
            Some(rel) => eq_ignore_ascii_case(e.relation.as_str(), rel),
            None => true,
        };
        let ghost before = edges_view(r@);
        if keep_from && keep_to && keep_relation {
            r.push(e.duplicate());
            assert(edges_view(r@) =~= before.push(e@));
        } else {
            assert(edges_view(r@) =~= before);
        }
        i += 1;
    }
    assert(ev.take(edges.len() as int) =~= ev);
    r
}

/// A links query needs at least one end.
pub fn check_endpoints(from: Option<&str>, to: Option<&str>) -> (r: Result<(), crate::search::QueryError>)
    ensures
        r is Err <==> (from is None && to is None),
        r matches Err(e) ==> e is MissingEndpoint,
{
    if from.is_none() && to.is_none() {
        Err(crate::search::QueryError::MissingEndpoint)
    } else {
        Ok(())
    }
}

/// A links query: the links from `from` and/or to `to`, optionally of one
/// relation (compared up to ASCII case), in order. At least one end must be
/// given.
pub fn query_links(
    edges: &Vec<GraphEdge>,
    from: Option<&str>,
    to: Option<&str>,
    relation: Option<&str>,
) -> (r: Result<Vec<GraphEdge>, crate::search::QueryError>)
    ensures
        r is Err <==> (from is None && to is None),
        r matches Err(e) ==> e is MissingEndpoint,
        r matches Ok(found) ==> edges_view(found@) == select_edges(
            edges_view(edges@),
            opt_str(from),
            opt_str(to),
            opt_str(relation),
        ),
{
    if let Err(e) = check_endpoints(from, to) {
        return Err(e);
    }
    Ok(filter_edges(edges, from, to, relation))
}

} // verus!

verus! {

use crate::model::{NeighborNode, NeighborsOutput, PathResult};
use crate::order::{lemma_lex_asymmetric, lemma_lex_irreflexive, lemma_lex_total, lemma_lex_transitive, lex_lt, chars_lt};
use crate::reach::{
    arcs_view, bfs, exact, explore, first_found, found_view, lemma_first_found, reached_ids, route, search_result,
    within, Arcs, Reached,
};
use crate::search::QueryError;
use crate::text::chars_of;

/// Each link as a step in both directions, in order.
pub open spec fn both_ways(edges: Seq<EdgeView>) -> Arcs
    decreases edges.len(),
{
    if edges.len() == 0 {
        seq![]
    } else {
        let e = edges.last();
        both_ways(edges.drop_last()) + seq![(e.from, e.to), (e.to, e.from)]
    }
}

/// Each link as a step from its source to its target, in order.
pub open spec fn one_way(edges: Seq<EdgeView>) -> Arcs {
    edges.map_values(|e: EdgeView| (e.from, e.to))
}

fn undirected_arcs(edges: &Vec<GraphEdge>) -> (arcs: Vec<(String, String)>)
    ensures
        arcs_view(arcs@) == both_ways(edges_view(edges@)),
{
    let ghost ev = edges_view(edges@);
    let mut arcs: Vec<(String, String)> = Vec::new();
    let mut i: usize = 0;
    while i < edges.len()
        invariant
            i <= edges.len(),
            ev == edges_view(edges@),
            arcs_view(arcs@) == both_ways(ev.take(i as int)),
        decreases edges.len() - i,
    {
        assert(ev.take(i + 1).drop_last() =~= ev.take(i as int));
        assert(ev.take(i + 1).last() == edges@[i as int]@);
        let ghost before = arcs_view(arcs@);
        let e = &edges[i];
        arcs.push((e.from.clone(), e.to.clone()));
        arcs.push((e.to.clone(), e.from.clone()));
        assert(arcs_view(arcs@) =~= before + seq![(e.from@, e.to@), (e.to@, e.from@)]);
        i += 1;
    }
    assert(ev.take(edges.len() as int) =~= ev);
    arcs
}

fn directed_arcs(edges: &Vec<GraphEdge>) -> (arcs: Vec<(String, String)>)
    ensures
        arcs_view(arcs@) == one_way(edges_view(edges@)),
{
    let mut arcs: Vec<(String, String)> = Vec::new();
    let mut i: usize = 0;
    while i < edges.len()
        invariant
            i <= edges.len(),
            arcs_view(arcs@) == one_way(edges_view(edges@)).take(i as int),
        decreases edges.len() - i,
    {
        let ghost before = arcs_view(arcs@);
        arcs.push((edges[i].from.clone(), edges[i].to.clone()));
        assert(edges_view(edges@)[i as int] == edges@[i as int]@);
        assert(one_way(edges_view(edges@))[i as int] == (edges@[i as int].from@, edges@[i as int].to@));
        assert(arcs_view(arcs@) =~= before.push((edges@[i as int].from@, edges@[i as int].to@)));
        assert(arcs_view(arcs@) =~= one_way(edges_view(edges@)).take(i + 1));
        i += 1;
    }
    assert(one_way(edges_view(edges@)).take(edges.len() as int) =~= one_way(edges_view(edges@)));
    arcs
}

/// The order of a neighbourhood answer: by distance, then by id.
pub open spec fn node_lt(a: (Seq<char>, usize), b: (Seq<char>, usize)) -> bool {
    a.1 < b.1 || (a.1 == b.1 && lex_lt(a.0, b.0))
}

pub open spec fn node_views(v: Seq<NeighborNode>) -> Seq<(Seq<char>, usize)> {
    v.map_values(|n: NeighborNode| (n.id@, n.distance))
}

proof fn lemma_node_transitive(a: (Seq<char>, usize), b: (Seq<char>, usize), c: (Seq<char>, usize))
    requires
        node_lt(a, b),
        node_lt(b, c),
    ensures
        node_lt(a, c),
{
    if a.1 == b.1 && b.1 == c.1 {
        lemma_lex_transitive(a.0, b.0, c.0);
    }
}

proof fn lemma_node_total(a: (Seq<char>, usize), b: (Seq<char>, usize))
    requires
        a.0 != b.0,
    ensures
        node_lt(a, b) || node_lt(b, a),
{
    lemma_lex_total(a.0, b.0);
}

fn node_lt_exec(a: &NeighborNode, b_id: &Vec<char>, b_distance: usize) -> (r: bool)
    ensures
        r == node_lt((a.id@, a.distance), (b_id@, b_distance)),
{
    if a.distance < b_distance {
        true
    } else if a.distance == b_distance {
        chars_lt(&chars_of(a.id.as_str()), b_id)
    } else {
        false
    }
}

/// Sorts nodes with distinct ids by distance, then id.
fn sort_nodes(v: Vec<NeighborNode>) -> (r: Vec<NeighborNode>)
    requires
        forall|i: int, j: int| 0 <= i < j < v.len() ==> (#[trigger] v@[i]).id@ != (#[trigger] v@[j]).id@,
    ensures
        forall|i: int, j: int| 0 <= i < j < r.len() ==> node_lt(
            #[trigger] node_views(r@)[i],
            #[trigger] node_views(r@)[j],
        ),
        node_views(r@).to_set() == node_views(v@).to_set(),
{
    let mut r: Vec<NeighborNode> = Vec::new();
    let mut i: usize = 0;
    while i < v.len()
        invariant
            i <= v.len(),
            forall|a: int, b: int| 0 <= a < b < v.len() ==> (#[trigger] v@[a]).id@ != (#[trigger] v@[b]).id@,
            forall|a: int, b: int| 0 <= a < b < r.len() ==> node_lt(
                #[trigger] node_views(r@)[a],
                #[trigger] node_views(r@)[b],
            ),
            node_views(r@).to_set() == node_views(v@.take(i as int)).to_set(),
        decreases v.len() - i,
    {
        let ghost x = (v@[i as int].id@, v@[i as int].distance);
        let xv = chars_of(v[i].id.as_str());
        let xd = v[i].distance;
        let mut p: usize = 0;
        while p < r.len() && node_lt_exec(&r[p], &xv, xd)
            invariant
                p <= r.len(),
                xv@ == x.0,
                xd == x.1,
                forall|k: int| 0 <= k < p ==> node_lt(#[trigger] node_views(r@)[k], x),
            decreases r.len() - p,
        {
            p += 1;
        }
        let ghost old_r = node_views(r@);
        proof {
            assert forall|k: int| 0 <= k < old_r.len() implies (#[trigger] old_r[k]).0 != x.0 by {
                assert(old_r.to_set().contains(old_r[k]));
                assert(node_views(v@.take(i as int)).contains(old_r[k]));
                let w = choose|w: int| 0 <= w < i && node_views(v@.take(i as int))[w] == old_r[k];
                assert(v@[w].id@ == old_r[k].0);
            }
            if p < r.len() {
                lemma_node_total(old_r[p as int], x);
            }
            assert forall|k: int| p <= k < old_r.len() implies node_lt(x, #[trigger] old_r[k]) by {
                if k > p {
                    lemma_node_transitive(x, old_r[p as int], old_r[k]);
                }
            }
        }
        r.insert(p, NeighborNode { id: v[i].id.clone(), distance: v[i].distance });
        proof {
            let nr = node_views(r@);
            assert(nr =~= old_r.insert(p as int, x));
            assert forall|a: int, b: int| 0 <= a < b < nr.len() implies node_lt(
                #[trigger] nr[a],
                #[trigger] nr[b],
            ) by {
                if a < p && b == p {
                } else if a == p {
                } else if a < p && b > p {
                    assert(nr[b] == old_r[b - 1]);
                } else if a > p {
                    assert(nr[a] == old_r[a - 1] && nr[b] == old_r[b - 1]);
                } else {
                    assert(nr[a] == old_r[a] && nr[b] == old_r[b]);
                }
            }
            let s = node_views(v@.take(i as int));
            assert(node_views(v@.take(i + 1)) =~= s.push(x));
            assert(nr.to_set() =~= s.push(x).to_set()) by {
                assert forall|y: (Seq<char>, usize)| nr.to_set().contains(y) <==> s.push(x).to_set().contains(y) by {
                    if nr.contains(y) {
                        let k = choose|k: int| 0 <= k < nr.len() && nr[k] == y;
                        if k < p {
                            assert(old_r[k] == y);
                            assert(old_r.to_set().contains(y));
                            let w = choose|w: int| 0 <= w < s.len() && s[w] == y;
                            assert(s.push(x)[w] == y);
                        } else if k > p {
                            assert(old_r[k - 1] == y);
                            assert(old_r.to_set().contains(y));
                            let w = choose|w: int| 0 <= w < s.len() && s[w] == y;
                            assert(s.push(x)[w] == y);
                        } else {
                            assert(s.push(x)[s.len() as int] == y);
                        }
                    }
                    if s.push(x).contains(y) {
                        let k = choose|k: int| 0 <= k < s.len() + 1 && s.push(x)[k] == y;
                        if k < s.len() {
                            assert(s[k] == y);
                            assert(s.to_set().contains(y));
                            let w = choose|w: int| 0 <= w < old_r.len() && old_r[w] == y;
                            if w < p {
                                assert(nr[w] == y);
                            } else {
                                assert(nr[w + 1] == y);
                            }
                        } else {
                            assert(nr[p as int] == y);
                        }
                    }
                }
            }
        }
        i += 1;
    }
    assert(v@.take(v.len() as int) =~= v@);
    r
}

/// What a neighbourhood answer is: every node other than the center within
/// `depth` steps of it, each once with its distance, ordered by distance and
/// then by id.
pub open spec fn neighborhood(arcs: Arcs, center: Seq<char>, depth: usize, ns: Seq<NeighborNode>) -> bool {
    &&& forall|i: int|
        0 <= i < ns.len() ==> 1 <= (#[trigger] ns[i]).distance <= depth && exact(
            arcs,
            center,
            ns[i].id@,
            ns[i].distance as nat,
        ) && ns[i].id@ != center
    &&& forall|v: Seq<char>, d: nat|
        d <= depth && #[trigger] within(arcs, center, v, d) && v != center ==> exists|i: int|
            0 <= i < ns.len() && (#[trigger] ns[i]).id@ == v
    &&& forall|i: int, j: int|
        0 <= i < j < ns.len() ==> node_lt(#[trigger] node_views(ns)[i], #[trigger] node_views(ns)[j])
}

/// The links that a neighbourhood or path query walks: all of them, or those
/// of one relation (compared up to ASCII case).
pub open spec fn walked_edges(edges: Seq<EdgeView>, relation: Option<&str>) -> Seq<EdgeView> {
    select_edges(edges, None, None, opt_str(relation))
}

/// A neighbourhood depth must lie in `1..=5`.
pub fn check_neighbors_depth(depth: usize) -> (r: Result<(), QueryError>)
    ensures
        r is Err <==> (depth == 0 || depth > 5),
        r matches Err(e) ==> e is DepthOutOfRange,
{
    if depth == 0 || depth > 5 {
        Err(QueryError::DepthOutOfRange)
    } else {
        Ok(())
    }
}

/// A path's maximum depth must lie in `1..=20`.
pub fn check_path_depth(max_depth: usize) -> (r: Result<(), QueryError>)
    ensures
        r is Err <==> (max_depth == 0 || max_depth > 20),
        r matches Err(e) ==> e is MaxDepthOutOfRange,
{
    if max_depth == 0 || max_depth > 20 {
        Err(QueryError::MaxDepthOutOfRange)
    } else {
        Ok(())
    }
}

/// The records around `id`: every record within `depth` links of it, links
/// followed in either direction, with its distance, sorted by distance then
/// id. `depth` must lie in `1..=5`.
pub fn neighbors(edges: &Vec<GraphEdge>, id: &str, depth: usize, relation: Option<&str>) -> (r: Result<
    NeighborsOutput,
    QueryError,
>)
    ensures
        r is Err <==> (depth == 0 || depth > 5),
        r matches Err(e) ==> e is DepthOutOfRange,
        r matches Ok(out) ==> out.center@ == id@ && out.depth == depth && neighborhood(
            both_ways(walked_edges(edges_view(edges@), relation)),
            id@,
            depth,
            out.neighbors@,
        ),
{
    if let Err(e) = check_neighbors_depth(depth) {
        return Err(e);
    }
    let walked = filter_edges(edges, None, None, relation);
    let arcs = undirected_arcs(&walked);
    let ghost a = arcs_view(arcs@);
    let found = explore(&arcs, id, depth);
    let mut nodes: Vec<NeighborNode> = Vec::new();
    let mut i: usize = 0;
    while i < found.len()
        invariant
            i <= found.len(),
            nodes.len() == i,
            forall|k: int| 0 <= k < i ==> (#[trigger] nodes@[k]).id@ == found@[k].id@ && nodes@[k].distance
                == found@[k].distance,
        decreases found.len() - i,
    {
        nodes.push(NeighborNode { id: found[i].id.clone(), distance: found[i].distance });
        i += 1;
    }
    proof {
        assert forall|x: int, y: int| 0 <= x < y < nodes.len() implies (#[trigger] nodes@[x]).id@
            != (#[trigger] nodes@[y]).id@ by {
            assert(reached_ids(found@)[x] == nodes@[x].id@);
            assert(reached_ids(found@)[y] == nodes@[y].id@);
        }
    }
    let ghost pre = node_views(nodes@);
    let sorted = sort_nodes(nodes);
    proof {
        let ns = sorted@;
        assert forall|k: int| 0 <= k < ns.len() implies 1 <= (#[trigger] ns[k]).distance <= depth && exact(
            a,
            id@,
            ns[k].id@,
            ns[k].distance as nat,
        ) && ns[k].id@ != id@ by {
            assert(node_views(ns).to_set().contains(node_views(ns)[k]));
            assert(pre.contains(node_views(ns)[k]));
            let w = choose|w: int| 0 <= w < pre.len() && pre[w] == node_views(ns)[k];
            assert(crate::reach::sound_entry(a, id@, found@[w]));
        }
        assert forall|v: Seq<char>, d: nat|
            d <= depth && #[trigger] within(a, id@, v, d) && v != id@ implies exists|k: int|
                0 <= k < ns.len() && (#[trigger] ns[k]).id@ == v by {
            assert(reached_ids(found@).contains(v));
            let w = choose|w: int| 0 <= w < found.len() && reached_ids(found@)[w] == v;
            assert(pre[w].0 == v);
            assert(pre.to_set().contains(pre[w]));
            assert(node_views(ns).contains(pre[w]));
            let k = choose|k: int| 0 <= k < ns.len() && node_views(ns)[k] == pre[w];
            assert(ns[k].id@ == v);
        }
    }
    Ok(NeighborsOutput { center: crate::text::owned(id), depth, neighbors: sorted })
}

} // verus!

verus! {

use crate::order::views;
use crate::reach::{is_walk, has_arc, lemma_exact_unique, lemma_exact_source, lemma_within_mono, sound_entry};

fn index_of(found: &Vec<Reached>, id: &str) -> (r: Option<usize>)
    ensures
        r matches Some(k) ==> k < found.len() && found@[k as int].id@ == id@ && forall|k2: int|
            0 <= k2 < k ==> (#[trigger] found@[k2]).id@ != id@,
        r is None ==> !reached_ids(found@).contains(id@),
{
    let mut i: usize = 0;
    while i < found.len()
        invariant
            i <= found.len(),
            forall|k: int| 0 <= k < i ==> found@[k].id@ != id@,
        decreases found.len() - i,
    {
        if str_eq(found[i].id.as_str(), id) {
            return Some(i);
        }
        i += 1;
    }
    assert(!reached_ids(found@).contains(id@)) by {
        if reached_ids(found@).contains(id@) {
            let k = choose|k: int| 0 <= k < found.len() && reached_ids(found@)[k] == id@;
            assert(found@[k].id@ == id@);
        }
    }
    None
}

/// `id` is one of `ids`.
pub fn contains_text_item(ids: &Vec<String>, id: &str) -> (r: bool)
    ensures
        r == views(ids@).contains(id@),
{
    let mut i: usize = 0;
    while i < ids.len()
        invariant
            i <= ids.len(),
            forall|k: int| 0 <= k < i ==> ids@[k]@ != id@,
        decreases ids.len() - i,
    {
        if str_eq(ids[i].as_str(), id) {
            assert(views(ids@)[i as int] == id@);
            return true;
        }
        i += 1;
    }
    assert(!views(ids@).contains(id@)) by {
        if views(ids@).contains(id@) {
            let k = choose|k: int| 0 <= k < ids.len() && views(ids@)[k] == id@;
            assert(ids@[k]@ == id@);
        }
    }
    false
}

/// What a path answer is: found exactly when `t` can be reached from `f`
/// in at most `max_depth` steps; then `path` is a walk from `f` to `t` with
/// the fewest steps, and `hops` is that number; otherwise both are empty.
/// The walk is the one that a breadth-first search from `f` finds: it
/// follows back from `t` the node from which the search first reached each
/// node.
pub open spec fn path_answer(arcs: Arcs, f: Seq<char>, t: Seq<char>, max_depth: usize, p: PathResult) -> bool {
    &&& p.found == exists|d: nat| d <= max_depth && #[trigger] within(arcs, f, t, d)
    &&& p.found ==> {
        &&& views(p.path@) == route(bfs(arcs, f, max_depth as nat), f, t, max_depth as nat)
        &&& is_walk(arcs, views(p.path@))
        &&& views(p.path@)[0] == f
        &&& views(p.path@).last() == t
        &&& p.hops == p.path.len() - 1
        &&& exact(arcs, f, t, p.hops as nat)
    }
    &&& !p.found ==> p.path.len() == 0 && p.hops == 0
}

/// Following one more recorded parent back keeps the route.
proof fn lemma_route_step(
    bf: crate::reach::FoundView,
    f: Seq<char>,
    cursor: Seq<char>,
    parent: Seq<char>,
    n: nat,
    old_rev: Seq<Seq<char>>,
    new_rev: Seq<Seq<char>>,
)
    requires
        n >= 1,
        cursor != f,
        first_found(bf, cursor) matches Some(e) && e.2 == parent,
        old_rev.len() >= 1,
        old_rev.last() == cursor,
        new_rev == old_rev.push(parent),
    ensures
        route(bf, f, cursor, n) + old_rev.drop_last().reverse() == route(bf, f, parent, (n - 1) as nat)
            + new_rev.drop_last().reverse(),
{
    assert(route(bf, f, cursor, n) == route(bf, f, parent, (n - 1) as nat).push(cursor));
    assert(new_rev.drop_last() =~= old_rev);
    assert(old_rev.reverse() =~= seq![cursor] + old_rev.drop_last().reverse());
    assert(route(bf, f, cursor, n) + old_rev.drop_last().reverse() =~= route(bf, f, parent, (n - 1) as nat)
        + old_rev.reverse());
}

/// A directed path query between two records, along the links (optionally
/// of one relation). `max_depth` must lie in `1..=20`, and both ends must be
/// ids of records.
#[verifier::rlimit(80)]
#[verifier::spinoff_prover]
pub fn find_path(
    ids: &Vec<String>,
    edges: &Vec<GraphEdge>,
    from: &str,
    to: &str,
    relation: Option<&str>,
    max_depth: usize,
) -> (r: Result<PathResult, QueryError>)
    ensures
        r is Err <==> (max_depth == 0 || max_depth > 20 || !views(ids@).contains(from@)
            || !views(ids@).contains(to@)),
        r matches Err(e) ==> if max_depth == 0 || max_depth > 20 {
            e is MaxDepthOutOfRange
        } else if !views(ids@).contains(from@) {
            e matches QueryError::UnknownFrom(x) && x@ == from@
        } else {
            e matches QueryError::UnknownTo(x) && x@ == to@
        },
        r matches Ok(p) ==> p.from@ == from@ && p.to@ == to@ && path_answer(
            one_way(walked_edges(edges_view(edges@), relation)),
            from@,
            to@,
            max_depth,
            p,
        ),
{
    if let Err(e) = check_path_depth(max_depth) {
        return Err(e);
    }
    if !contains_text_item(ids, from) {
        return Err(QueryError::UnknownFrom(crate::text::owned(from)));
    }
    if !contains_text_item(ids, to) {
        return Err(QueryError::UnknownTo(crate::text::owned(to)));
    }
    let walked = filter_edges(edges, None, None, relation);
    let arcs = directed_arcs(&walked);
    let ghost a = arcs_view(arcs@);
    if str_eq(from, to) {
        let mut path: Vec<String> = Vec::new();
        path.push(crate::text::owned(from));
        proof {
            lemma_exact_source(a, from@);
            assert(views(path@) =~= seq![from@]);
            assert(is_walk(a, views(path@)));
            assert(within(a, from@, to@, 0));
        }
        return Ok(PathResult {
            found: true,
            from: crate::text::owned(from),
            to: crate::text::owned(to),
            path,
            hops: 0,
        });
    }
    let found = explore(&arcs, from, max_depth);
    let k0 = match index_of(&found, to) {
        Some(k) => k,
        None => {
            proof {
                assert forall|d: nat| d <= max_depth implies !#[trigger] within(a, from@, to@, d) by {
                }
            }
            return Ok(PathResult {
                found: false,
                from: crate::text::owned(from),
                to: crate::text::owned(to),
                path: Vec::new(),
                hops: 0,
            });
        },
    };
    let ghost total = found@[k0 as int].distance as nat;
    let ghost bf = found_view(found@);
    let ghost m = max_depth as nat;
    proof {
        assert(sound_entry(a, from@, found@[k0 as int]));
    }
    let mut rev: Vec<String> = Vec::new();
    rev.push(found[k0].id.clone());
    let mut cursor: String = found[k0].id.clone();
    let ghost mut dc: nat = total;
    while !str_eq(cursor.as_str(), from)
        invariant
            a == arcs_view(arcs@),
            search_result(a, from@, max_depth as nat, found@),
            exact(a, from@, to@, total),
            total <= max_depth,
            dc <= total,
            exact(a, from@, cursor@, dc),
            bf == found_view(found@),
            bf == bfs(a, from@, m),
            m == max_depth,
            route(bf, from@, to@, m) == route(bf, from@, cursor@, (m - (total - dc)) as nat) + views(
                rev@,
            ).drop_last().reverse(),
            rev.len() == total - dc + 1,
            views(rev@)[0] == to@,
            views(rev@).last() == cursor@,
            forall|j: int| 0 <= j < rev.len() - 1 ==> has_arc(a, #[trigger] views(rev@)[j + 1], views(rev@)[j]),
        decreases dc,
    {
        proof {
            lemma_exact_source(a, from@);
            if dc == 0 {
                assert(within(a, from@, cursor@, 0));
                crate::reach::lemma_within_zero(a, from@, cursor@);
            }
            lemma_within_mono(a, from@, cursor@, dc, max_depth as nat);
        }
        let kk = match index_of(&found, cursor.as_str()) {
            Some(kk) => kk,
            None => {
                proof {
                    assert(false);
                }
                return Err(QueryError::UnknownTo(crate::text::owned(to)));
            },
        };
        proof {
            assert(sound_entry(a, from@, found@[kk as int]));
            lemma_exact_unique(a, from@, cursor@, dc, found@[kk as int].distance as nat);
            assert forall|k2: int| 0 <= k2 < kk implies (#[trigger] bf[k2]).0 != cursor@ by {
                assert(bf[k2].0 == found@[k2].id@);
            }
            lemma_first_found(bf, cursor@, kk as int);
        }
        let ghost old_rev = views(rev@);
        let parent = found[kk].parent.clone();
        rev.push(parent.clone());
        proof {
            assert(views(rev@) =~= old_rev.push(parent@));
            lemma_route_step(bf, from@, cursor@, parent@, (m - (total - dc)) as nat, old_rev, views(rev@));
            assert forall|j: int| 0 <= j < rev.len() - 1 implies has_arc(a, #[trigger] views(rev@)[j + 1], views(rev@)[j]) by {
                if j < old_rev.len() - 1 {
                    assert(views(rev@)[j + 1] == old_rev[j + 1] && views(rev@)[j] == old_rev[j]);
                } else {
                    assert(views(rev@)[j] == cursor@);
                }
            }
            dc = (dc - 1) as nat;
        }
        cursor = parent;
    }
    proof {
        lemma_exact_source(a, from@);
        lemma_exact_unique(a, from@, from@, dc, 0);
        let rv = views(rev@);
        assert(route(bf, from@, from@, (m - (total - dc)) as nat) == seq![from@]);
        assert(rv.reverse() =~= seq![from@] + rv.drop_last().reverse());
        assert(route(bf, from@, to@, m) == rv.reverse());
    }
    let mut path: Vec<String> = Vec::new();
    let mut i: usize = rev.len();
    while i > 0
        invariant
            i <= rev.len(),
            path.len() == rev.len() - i,
            forall|j: int| 0 <= j < path.len() ==> (#[trigger] path@[j])@ == rev@[rev.len() - 1 - j]@,
        decreases i,
    {
        i -= 1;
        path.push(rev[i].clone());
    }
    proof {
        let pv = views(path@);
        let rv = views(rev@);
        assert(pv.len() == rv.len());
        assert forall|j: int| 0 <= j < pv.len() - 1 implies has_arc(a, #[trigger] pv[j], pv[j + 1]) by {
            let m = rv.len() - 2 - j;
            assert(pv[j] == rv[m + 1] && pv[j + 1] == rv[m]);
        }
        assert(is_walk(a, pv));
        assert(pv =~= rv.reverse());
        assert(pv[0] == rv.last());
        assert(pv.last() == rv[0]);
        assert(within(a, from@, to@, total));
    }
    let hops = path.len() - 1;
    Ok(PathResult {
        found: true,
        from: crate::text::owned(from),
        to: crate::text::owned(to),
        path,
        hops,
    })
}

} // verus!

verus! {

use crate::model::GraphValidationReport;
use crate::order::{distinct, sort_distinct_texts, strictly_sorted};
use crate::reach::{lemma_reach_bound, reachable};

/// The links whose target is (`inside == true`) or is not one of `ids`, in order.
pub open spec fn by_target(edges: Seq<EdgeView>, ids: Seq<Seq<char>>, inside: bool) -> Seq<EdgeView>
    decreases edges.len(),
{
    if edges.len() == 0 {
        seq![]
    } else {
        by_target(edges.drop_last(), ids, inside) + if ids.contains(edges.last().to) == inside {
            seq![edges.last()]
        } else {
            seq![]
        }
    }
}

/// Some link starts or ends at `x`.
pub open spec fn touches(edges: Seq<EdgeView>, x: Seq<char>) -> bool {
    exists|i: int| 0 <= i < edges.len() && ((#[trigger] edges[i]).from == x || edges[i].to == x)
}

/// The arcs walk in a directed cycle: some arc `u -> v` closes a route from
/// `v` back to `u`.
pub open spec fn has_directed_cycle(arcs: Arcs) -> bool {
    exists|i: int| 0 <= i < arcs.len() && reachable(arcs, (#[trigger] arcs[i]).1, arcs[i].0)
}

/// The ids with no link in or out.
pub open spec fn orphan_set(ids: Seq<Seq<char>>, edges: Seq<EdgeView>) -> Set<Seq<char>> {
    Set::new(|x: Seq<char>| ids.contains(x) && !touches(edges, x))
}

/// Each id once, in the order of first occurrence.
pub fn distinct_texts(v: &Vec<String>) -> (r: Vec<String>)
    ensures
        distinct(views(r@)),
        views(r@).to_set() == views(v@).to_set(),
{
    let mut r: Vec<String> = Vec::new();
    let mut i: usize = 0;
    while i < v.len()
        invariant
            i <= v.len(),
            distinct(views(r@)),
            views(r@).to_set() == views(v@.take(i as int)).to_set(),
        decreases v.len() - i,
    {
        let ghost old_r = views(r@);
        let ghost s = views(v@.take(i as int));
        let x = &v[i];
        assert(views(v@.take(i + 1)) =~= s.push(x@));
        if !contains_text_item(&r, x.as_str()) {
            r.push(x.clone());
            proof {
                assert(views(r@) =~= old_r.push(x@));
                assert forall|a: int, b: int| 0 <= a < b < views(r@).len() implies #[trigger] views(r@)[a]
                    != #[trigger] views(r@)[b] by {
                    if b == old_r.len() {
                        assert(old_r.contains(old_r[a]));
                    } else {
                        assert(views(r@)[a] == old_r[a] && views(r@)[b] == old_r[b]);
                    }
                }
                assert(views(r@).to_set() =~= s.push(x@).to_set()) by {
                    assert forall|y: Seq<char>| views(r@).contains(y) <==> s.push(x@).contains(y) by {
                        if views(r@).contains(y) {
                            let k = choose|k: int| 0 <= k < views(r@).len() && views(r@)[k] == y;
                            if k < old_r.len() {
                                assert(old_r.to_set().contains(y));
                                let w = choose|w: int| 0 <= w < s.len() && s[w] == y;
                                assert(s.push(x@)[w] == y);
                            } else {
                                assert(s.push(x@)[s.len() as int] == y);
                            }
                        }
                        if s.push(x@).contains(y) {
                            let k = choose|k: int| 0 <= k < s.len() + 1 && s.push(x@)[k] == y;
                            if k < s.len() {
                                assert(s.to_set().contains(y));
                                let w = choose|w: int| 0 <= w < old_r.len() && old_r[w] == y;
                                assert(views(r@)[w] == y);
                            } else {
                                assert(views(r@)[old_r.len() as int] == y);
                            }
                        }
                    }
                }
            }
        } else {
            proof {
                assert(views(r@).to_set() =~= s.push(x@).to_set()) by {
                    assert forall|y: Seq<char>| views(r@).contains(y) <==> s.push(x@).contains(y) by {
                        if views(r@).contains(y) {
                            assert(old_r.to_set().contains(y));
                            let w = choose|w: int| 0 <= w < s.len() && s[w] == y;
                            assert(s.push(x@)[w] == y);
                        }
                        if s.push(x@).contains(y) {
                            let k = choose|k: int| 0 <= k < s.len() + 1 && s.push(x@)[k] == y;
                            if k < s.len() {
                                assert(s.to_set().contains(y));
                            }
                        }
                    }
                }
            }
        }
        i += 1;
    }
    assert(v@.take(v.len() as int) =~= v@);
    r
}

/// The links whose target is (`inside`) or is not one of `ids`, in order.
fn edges_by_target(edges: &Vec<GraphEdge>, ids: &Vec<String>, inside: bool) -> (r: Vec<GraphEdge>)
    ensures
        edges_view(r@) == by_target(edges_view(edges@), views(ids@), inside),
{
    let ghost ev = edges_view(edges@);
    let mut r: Vec<GraphEdge> = Vec::new();
    let mut i: usize = 0;
    while i < edges.len()
        invariant
            i <= edges.len(),
            ev == edges_view(edges@),
            edges_view(r@) == by_target(ev.take(i as int), views(ids@), inside),
        decreases edges.len() - i,
    {
        assert(ev.take(i + 1).drop_last() =~= ev.take(i as int));
        assert(ev.take(i + 1).last() == edges@[i as int]@);
        let ghost before = edges_view(r@);
        if contains_text_item(ids, edges[i].to.as_str()) == inside {
            r.push(edges[i].duplicate());
            assert(edges_view(r@) =~= before.push(edges@[i as int]@));
        } else {
            assert(edges_view(r@) =~= before);
        }
        i += 1;
    }
    assert(ev.take(edges.len() as int) =~= ev);
    r
}

fn touches_exec(edges: &Vec<GraphEdge>, x: &str) -> (r: bool)
    ensures
        r == touches(edges_view(edges@), x@),
{
    let ghost ev = edges_view(edges@);
    let mut i: usize = 0;
    while i < edges.len()
        invariant
            i <= edges.len(),
            ev == edges_view(edges@),
            forall|k: int| 0 <= k < i ==> !((#[trigger] ev[k]).from == x@ || ev[k].to == x@),
        decreases edges.len() - i,
    {
        assert(ev[i as int] == edges@[i as int]@);
        if str_eq(edges[i].from.as_str(), x) || str_eq(edges[i].to.as_str(), x) {
            return true;
        }
        i += 1;
    }
    false
}

/// Some arc closes a directed cycle.
fn cycle_exists(arcs: &Vec<(String, String)>) -> (r: bool)
    ensures
        r == has_directed_cycle(arcs_view(arcs@)),
{
    let ghost a = arcs_view(arcs@);
    let mut i: usize = 0;
    while i < arcs.len()
        invariant
            i <= arcs.len(),
            a == arcs_view(arcs@),
            forall|k: int| 0 <= k < i ==> !reachable(a, (#[trigger] a[k]).1, a[k].0),
        decreases arcs.len() - i,
    {
        let u = &arcs[i].0;
        let v = &arcs[i].1;
        assert(a[i as int] == (u@, v@));
        let found = explore(arcs, v.as_str(), arcs.len());
        if str_eq(u.as_str(), v.as_str()) {
            proof {
                crate::reach::lemma_within_zero(a, v@, u@);
                assert(within(a, v@, u@, 0));
            }
            return true;
        }
        if crate::reach::contains_id(&found, u.as_str()) {
            proof {
                let w = choose|w: int| 0 <= w < found.len() && reached_ids(found@)[w] == u@;
                assert(sound_entry(a, v@, found@[w]));
                assert(within(a, v@, u@, found@[w].distance as nat));
            }
            return true;
        }
        proof {
            if reachable(a, v@, u@) {
                let kk = choose|kk: nat| #[trigger] within(a, v@, u@, kk);
                lemma_reach_bound(a, v@, u@, kk);
            }
        }
        i += 1;
    }
    false
}

/// Whether the links between the records with ids `ids` (those whose
/// target is one of them) form a directed cycle.
fn graph_has_cycle(ids: &Vec<String>, edges: &Vec<GraphEdge>) -> (r: bool)
    ensures
        r == has_directed_cycle(one_way(by_target(edges_view(edges@), views(ids@), true))),
{
    let resolved = edges_by_target(edges, ids, true);
    let arcs = directed_arcs(&resolved);
    cycle_exists(&arcs)
}

/// The health of the link graph over the records with ids `ids`: how many
/// distinct records and links there are, the links whose target is no
/// record (in order), the records with no link in or out (sorted), and
/// whether the links between records form a directed cycle.
pub fn validate_graph(ids: &Vec<String>, edges: &Vec<GraphEdge>) -> (r: GraphValidationReport)
    ensures
        r.total_nodes == views(ids@).to_set().len(),
        r.total_edges == edges.len(),
        edges_view(r.broken_references@) == by_target(edges_view(edges@), views(ids@), false),
        strictly_sorted(views(r.orphan_nodes@)),
        views(r.orphan_nodes@).to_set() == orphan_set(views(ids@), edges_view(edges@)),
        r.has_cycle == has_directed_cycle(one_way(by_target(edges_view(edges@), views(ids@), true))),
{
    let nodes = distinct_texts(ids);
    proof {
        views(nodes@).unique_seq_to_set();
        assert(views(nodes@).no_duplicates()) by {
            assert forall|x: int, y: int| 0 <= x < views(nodes@).len() && 0 <= y < views(nodes@).len() && x != y
                implies views(nodes@)[x] != views(nodes@)[y] by {
                if x < y {
                } else {
                }
            }
        }
        views(nodes@).unique_seq_to_set();
    }
    let broken = edges_by_target(edges, ids, false);
    let mut orphans: Vec<String> = Vec::new();
    let mut i: usize = 0;
    while i < nodes.len()
        invariant
            i <= nodes.len(),
            distinct(views(nodes@)),
            views(nodes@).to_set() == views(ids@).to_set(),
            forall|k: int| 0 <= k < orphans.len() ==> views(nodes@.take(i as int)).contains(#[trigger] views(orphans@)[k]),
            distinct(views(orphans@)),
            views(orphans@).to_set() == Set::new(|x: Seq<char>| views(nodes@.take(i as int)).contains(x) && !touches(edges_view(edges@), x)),
        decreases nodes.len() - i,
    {
        let ghost old_o = views(orphans@);
        let ghost s = views(nodes@.take(i as int));
        let ghost t = views(nodes@.take(i + 1));
        let ghost x = nodes@[i as int]@;
        assert(t =~= s.push(x));
        proof {
            assert forall|y: Seq<char>| t.contains(y) <==> (s.contains(y) || y == x) by {
                if t.contains(y) {
                    let w = choose|w: int| 0 <= w < t.len() && t[w] == y;
                    if w < s.len() {
                        assert(s[w] == y);
                    }
                }
                if s.contains(y) {
                    let w = choose|w: int| 0 <= w < s.len() && s[w] == y;
                    assert(t[w] == y);
                }
                if y == x {
                    assert(t[i as int] == y);
                }
            }
            assert(!s.contains(x)) by {
                if s.contains(x) {
                    let w = choose|w: int| 0 <= w < s.len() && s[w] == x;
                    assert(views(nodes@)[w] == views(nodes@)[i as int]);
                }
            }
        }
        if !touches_exec(edges, nodes[i].as_str()) {
            orphans.push(nodes[i].clone());
            proof {
                let no = views(orphans@);
                assert(no =~= old_o.push(x));
                assert forall|y: Seq<char>| no.contains(y) <==> (old_o.contains(y) || y == x) by {
                    if no.contains(y) {
                        let w = choose|w: int| 0 <= w < no.len() && no[w] == y;
                        if w < old_o.len() {
                            assert(old_o[w] == y);
                        }
                    }
                    if old_o.contains(y) {
                        let w = choose|w: int| 0 <= w < old_o.len() && old_o[w] == y;
                        assert(no[w] == y);
                    }
                    if y == x {
                        assert(no[old_o.len() as int] == y);
                    }
                }
                assert(no.to_set() =~= Set::new(|y: Seq<char>| t.contains(y) && !touches(edges_view(edges@), y))) by {
                    assert forall|y: Seq<char>| no.to_set().contains(y) <==> (t.contains(y) && !touches(edges_view(edges@), y)) by {
                        assert(old_o.to_set().contains(y) == (s.contains(y) && !touches(edges_view(edges@), y)));
                    }
                }
                assert forall|k: int| 0 <= k < no.len() implies t.contains(#[trigger] no[k]) by {
                    if k < old_o.len() {
                        assert(no[k] == old_o[k]);
                        assert(s.contains(old_o[k]));
                    }
                }
                assert forall|a: int, b: int| 0 <= a < b < no.len() implies #[trigger] no[a] != #[trigger] no[b] by {
                    if b == old_o.len() {
                        assert(no[a] == old_o[a]);
                        assert(s.contains(old_o[a]));
                    } else {
                        assert(no[a] == old_o[a] && no[b] == old_o[b]);
                    }
                }
            }
        } else {
            proof {
                assert(old_o.to_set() =~= Set::new(|y: Seq<char>| t.contains(y) && !touches(edges_view(edges@), y))) by {
                    assert forall|y: Seq<char>| old_o.to_set().contains(y) <==> (t.contains(y) && !touches(edges_view(edges@), y)) by {
                        assert(old_o.to_set().contains(y) == (s.contains(y) && !touches(edges_view(edges@), y)));
                    }
                }
                assert forall|k: int| 0 <= k < old_o.len() implies t.contains(#[trigger] old_o[k]) by {
                    assert(s.contains(old_o[k]));
                }
            }
        }
        i += 1;
    }
    proof {
        assert(nodes@.take(nodes.len() as int) =~= nodes@);
        assert(orphan_set(views(ids@), edges_view(edges@)) =~= Set::new(|x: Seq<char>| views(nodes@).contains(x) && !touches(edges_view(edges@), x))) by {
            assert forall|x: Seq<char>| views(ids@).contains(x) <==> views(nodes@).contains(x) by {
                assert(views(ids@).to_set().contains(x) == views(nodes@).to_set().contains(x));
            }
        }
    }
    let orphan_nodes = sort_distinct_texts(orphans);
    let has_cycle = graph_has_cycle(ids, edges);
    GraphValidationReport {
        total_nodes: nodes.len(),
        total_edges: edges.len(),
        broken_references: broken,
        orphan_nodes,
        has_cycle,
    }
}

/// What `validate-graph` answers: `Err` with the number of broken links
/// when there is any.
pub fn report_outcome(report: &GraphValidationReport) -> (r: Result<(), usize>)
    ensures
        r is Ok <==> report.broken_references.len() == 0,
        r matches Err(n) ==> n == report.broken_references.len(),
{
    if report.broken_references.len() == 0 {
        Ok(())
    } else {
        Err(report.broken_references.len())
    }
}

} // verus!
