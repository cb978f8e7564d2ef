use vstd::prelude::*;
use crate::commands::{first_key, with_link};
use crate::datetime::{rfc3339_instant, ymd_midnight, LAST_SECOND_OF_DAY};
use crate::form::FIELD_COUNT;
use crate::graph::{both_ways, link_edges, neighborhood, one_way, path_answer, record_edges};
use crate::json::{jget, jtext, jview, lemma_val_entry_push, text_of_json, val_entry, Json};
use crate::index::{bound_of, entry_of, filename_char, ids_unique, listed, texts_in, upserted, ListArgs};
use crate::inference::{gather, keywords_of};
use crate::json::JVal;
use crate::model::{EdgeView, EntryView, NeighborNode, PathResult};
use crate::reach::{exact, has_arc, is_walk, within, Arcs};
use crate::records::{
    with_opt_float, with_opt_text, with_opt_val, with_text, with_texts, with_val,
    action_doc, action_made, assumption_doc, assumption_made, decision_doc, decision_made, fact_doc,
    fact_made, is_urn_of, meeting_doc, meeting_made, ontology_of, person_doc, person_made, stamped,
    CreateActionArgs, CreateAssumptionArgs, CreateDecisionArgs, CreateFactArgs, CreateMeetingArgs,
    CreatePersonArgs, Entries,
};
use crate::search::{
    item_texts, list_field_keys, list_texts, field_texts, join, normalized_query, search_chunks, search_hits, search_text, string_field_keys,
    type_selected,
};
use crate::model::IndexEntry;
use crate::text::{
    ascii_lower, ascii_lower_seq, contains_text, occurs_at, eq_ignore_case, is_blank, is_white_space, lead_ws, trail_ws};
use crate::validation::{common_check, link_check, link_items_check, record_check, Problem};
use crate::vocabulary::{vocabulary, Vocabulary};
use crate::json::num_in_unit_interval;

verus! {

proof fn lemma_lower_keeps_space(c: char)
    ensures
        is_white_space(ascii_lower(c)) == is_white_space(c),
{
}

proof fn lemma_ws_bounds(s: Seq<char>)
    ensures
        lead_ws(s) <= s.len(),
        trail_ws(s) <= s.len(),
    decreases s.len(),
{
    if s.len() > 0 {
        lemma_ws_bounds(s.drop_first());
        lemma_ws_bounds(s.drop_last());
    }
}

proof fn lemma_lead_ws_same(a: Seq<char>, b: Seq<char>)
    requires
        a.len() == b.len(),
        forall|i: int| 0 <= i < a.len() ==> is_white_space(#[trigger] a[i]) == is_white_space(b[i]),
    ensures
        lead_ws(a) == lead_ws(b),
    decreases a.len(),
{
    if a.len() > 0 {
        assert forall|i: int| 0 <= i < a.drop_first().len() implies is_white_space(
            #[trigger] a.drop_first()[i],
        ) == is_white_space(b.drop_first()[i]) by {
            assert(a.drop_first()[i] == a[i + 1]);
            assert(b.drop_first()[i] == b[i + 1]);
        }
        assert(is_white_space(a[0]) == is_white_space(b[0]));
        lemma_lead_ws_same(a.drop_first(), b.drop_first());
    }
}

proof fn lemma_trail_ws_same(a: Seq<char>, b: Seq<char>)
    requires
        a.len() == b.len(),
        forall|i: int| 0 <= i < a.len() ==> is_white_space(#[trigger] a[i]) == is_white_space(b[i]),
    ensures
        trail_ws(a) == trail_ws(b),
    decreases a.len(),
{
    if a.len() > 0 {
        assert forall|i: int| 0 <= i < a.drop_last().len() implies is_white_space(
            #[trigger] a.drop_last()[i],
        ) == is_white_space(b.drop_last()[i]) by {
            assert(a.drop_last()[i] == a[i]);
            assert(b.drop_last()[i] == b[i]);
        }
        assert(is_white_space(a.last()) == is_white_space(b.last()));
        lemma_trail_ws_same(a.drop_last(), b.drop_last());
    }
}

/// Search does not depend on the ASCII case of the query: two queries that
/// are equal up to ASCII case are matched as the same text.
pub proof fn law_search_ignores_case(q1: Seq<char>, q2: Seq<char>)
    requires
        eq_ignore_case(q1, q2),
    ensures
        normalized_query(q1) == normalized_query(q2),
{
    let l1 = ascii_lower_seq(q1);
    let l2 = ascii_lower_seq(q2);
    assert(l1.len() == q1.len() && l2.len() == q2.len());
    assert forall|i: int| 0 <= i < q1.len() implies is_white_space(#[trigger] q1[i]) == is_white_space(q2[i]) by {
        assert(l1[i] == l2[i]);
        lemma_lower_keeps_space(q1[i]);
        lemma_lower_keeps_space(q2[i]);
    }
    lemma_lead_ws_same(q1, q2);
    lemma_ws_bounds(q1);
    lemma_ws_bounds(q2);
    let t1 = q1.skip(lead_ws(q1) as int);
    let t2 = q2.skip(lead_ws(q2) as int);
    assert forall|i: int| 0 <= i < t1.len() implies is_white_space(#[trigger] t1[i]) == is_white_space(t2[i]) by {
        assert(t1[i] == q1[i + lead_ws(q1)]);
        assert(t2[i] == q2[i + lead_ws(q2)]);
    }
    lemma_trail_ws_same(t1, t2);
    lemma_ws_bounds(t1);
    lemma_ws_bounds(t2);
    let n1 = ascii_lower_seq(crate::text::trim_seq(q1));
    let n2 = ascii_lower_seq(crate::text::trim_seq(q2));
    assert(n1.len() == n2.len());
    assert forall|i: int| 0 <= i < n1.len() implies n1[i] == n2[i] by {
        assert(crate::text::trim_seq(q1)[i] == t1[i]);
        assert(crate::text::trim_seq(q2)[i] == t2[i]);
        assert(n1[i] == ascii_lower(q1[i + lead_ws(q1)]));
        assert(n2[i] == ascii_lower(q2[i + lead_ws(q2)]));
        assert(l1[i + lead_ws(q1)] == l2[i + lead_ws(q2)]);
    }
    assert(n1 =~= n2);
}

/// After an upsert into an index whose ids are unique, the index holds
/// exactly one entry with the new entry's id, that entry itself, and every
/// entry of another id that it held before.
pub proof fn law_upsert_single_entry(entries: Seq<EntryView>, entry: EntryView)
    requires
        ids_unique(entries),
    ensures
        ids_unique(upserted(entries, entry)),
        upserted(entries, entry).contains(entry),
        forall|i: int|
            0 <= i < upserted(entries, entry).len() && (#[trigger] upserted(entries, entry)[i]).id
                == entry.id ==> upserted(entries, entry)[i] == entry,
        forall|x: EntryView| #[trigger] entries.contains(x) && x.id != entry.id ==> upserted(entries, entry).contains(x),
{
    let u = upserted(entries, entry);
    if exists|i: int| 0 <= i < entries.len() && (#[trigger] entries[i]).id == entry.id {
        let k = choose|i: int|
            0 <= i < entries.len() && (#[trigger] entries[i]).id == entry.id && forall|j: int|
                0 <= j < i ==> (#[trigger] entries[j]).id != entry.id;
        assert(u == entries.update(k, entry));
        assert(u[k] == entry);
        assert forall|a: int, b: int| 0 <= a < b < u.len() implies (#[trigger] u[a]).id != (#[trigger] u[b]).id by {
            if a != k && b != k {
                assert(entries[a].id != entries[b].id);
            } else if a == k {
                assert(entries[k].id != entries[b].id);
            } else {
                assert(entries[a].id != entries[k].id);
            }
        }
        assert forall|i: int| 0 <= i < u.len() && (#[trigger] u[i]).id == entry.id implies u[i] == entry by {
            if i != k {
                if i < k {
                    assert(entries[i].id != entries[k].id);
                } else {
                    assert(entries[k].id != entries[i].id);
                }
            }
        }
        assert forall|x: EntryView| #[trigger] entries.contains(x) && x.id != entry.id implies u.contains(x) by {
            let j = choose|j: int| 0 <= j < entries.len() && entries[j] == x;
            assert(j != k);
            assert(u[j] == x);
        }
    } else {
        assert(u == entries.push(entry));
        assert(u[entries.len() as int] == entry);
        assert forall|a: int, b: int| 0 <= a < b < u.len() implies (#[trigger] u[a]).id != (#[trigger] u[b]).id by {
            if b == entries.len() {
                assert(entries[a].id != entry.id);
            } else {
                assert(entries[a].id != entries[b].id);
            }
        }
        assert forall|i: int| 0 <= i < u.len() && (#[trigger] u[i]).id == entry.id implies u[i] == entry by {
            if i < entries.len() {
                assert(entries[i].id != entry.id);
            }
        }
        assert forall|x: EntryView| #[trigger] entries.contains(x) && x.id != entry.id implies u.contains(x) by {
            let j = choose|j: int| 0 <= j < entries.len() && entries[j] == x;
            assert(u[j] == x);
        }
    }
}

/// Linking appends: the links member of the linked record holds the links
/// it held before followed by the new one (the new one alone when there
/// were none), at the same place, and every other member is untouched.
pub proof fn law_link_appends(es: Entries, l: JVal)
    requires
        with_link(es, l) is Some,
    ensures
        ({
            let es2 = with_link(es, l)->0;
            let k = first_key(es, "links"@);
            &&& first_key(es2, "links"@) == k
            &&& k < es2.len()
            &&& es2[k].0 == "links"@
            &&& es2[k].1 matches JVal::Arr(items) && items.len() >= 1 && items.last() == l && items.drop_last()
                == (if k < es.len() {
                es[k].1->Arr_0
            } else {
                seq![]
            })
            &&& forall|j: int| 0 <= j < es.len() && j != k ==> #[trigger] es2[j] == es[j]
        }),
{
    let es2 = with_link(es, l)->0;
    let k = first_key(es, "links"@);
    lemma_first_key_bounds(es, "links"@);
    if k < es.len() {
        assert(forall|j: int| 0 <= j < k ==> es2[j] == es[j]);
    } else {
        assert(forall|j: int| 0 <= j < k ==> es2[j] == es[j]);
    }
    lemma_first_key_stable(es, es2, "links"@);
    if k < es.len() {
        let items = es[k].1->Arr_0;
        assert(items.push(l).drop_last() =~= items);
    } else {
        assert(seq![l].drop_last() =~= Seq::<JVal>::empty());
    }
}

proof fn lemma_first_key_bounds(es: Entries, key: Seq<char>)
    ensures
        0 <= first_key(es, key) <= es.len(),
        first_key(es, key) < es.len() ==> es[first_key(es, key)].0 == key,
        forall|j: int| 0 <= j < first_key(es, key) ==> (#[trigger] es[j]).0 != key,
    decreases es.len(),
{
    if es.len() > 0 && es[0].0 != key {
        lemma_first_key_bounds(es.drop_first(), key);
        assert forall|j: int| 0 <= j < first_key(es, key) implies (#[trigger] es[j]).0 != key by {
            if j > 0 {
                assert(es[j] == es.drop_first()[j - 1]);
            }
        }
    }
}

proof fn lemma_first_key_at(es: Entries, key: Seq<char>, i: int)
    requires
        0 <= i <= es.len(),
        forall|j: int| 0 <= j < i ==> (#[trigger] es[j]).0 != key,
        i < es.len() ==> es[i].0 == key,
    ensures
        first_key(es, key) == i,
    decreases i,
{
    if i > 0 {
        assert forall|j: int| 0 <= j < i - 1 implies (#[trigger] es.drop_first()[j]).0 != key by {
            assert(es.drop_first()[j] == es[j + 1]);
        }
        if i < es.len() {
            assert(es.drop_first()[i - 1] == es[i]);
        }
        lemma_first_key_at(es.drop_first(), key, i - 1);
    }
}

proof fn lemma_first_key_stable(es: Entries, es2: Entries, key: Seq<char>)
    requires
        0 <= first_key(es, key),
        es2.len() >= es.len(),
        first_key(es, key) <= es.len(),
        first_key(es, key) < es2.len(),
        forall|j: int| 0 <= j < first_key(es, key) ==> es2[j] == es[j],
        es2[first_key(es, key)].0 == key,
        forall|j: int| 0 <= j < first_key(es, key) ==> (#[trigger] es[j]).0 != key,
    ensures
        first_key(es2, key) == first_key(es, key),
{
    let k = first_key(es, key);
    assert forall|j: int| 0 <= j < k implies (#[trigger] es2[j]).0 != key by {
        assert(es2[j] == es[j]);
    }
    lemma_first_key_at(es2, key, k);
}

/// Moving to the next field and back, or back and then on, returns to the
/// same field.
pub proof fn law_next_previous_inverse(i: int)
    requires
        0 <= i < FIELD_COUNT,
    ensures
        ((i + 1) % (FIELD_COUNT as int) + FIELD_COUNT - 1) % (FIELD_COUNT as int) == i,
        ((i + FIELD_COUNT - 1) % (FIELD_COUNT as int) + 1) % (FIELD_COUNT as int) == i,
{
}

/// A sanitized id is made only of file-name characters, so sanitizing it
/// again changes nothing.
pub proof fn law_sanitize_idempotent(id: Seq<char>)
    ensures
        id.map_values(|c: char| filename_char(c)).map_values(|c: char| filename_char(c)) == id.map_values(
            |c: char| filename_char(c),
        ),
{
    assert(id.map_values(|c: char| filename_char(c)).map_values(|c: char| filename_char(c)) =~= id.map_values(
        |c: char| filename_char(c),
    ));
}

proof fn lemma_gather_bounded(parts: Seq<Seq<char>>, kws: Seq<Seq<char>>)
    requires
        kws.len() < 8,
        kws.no_duplicates(),
    ensures
        gather(parts, kws).len() <= 8,
        gather(parts, kws).no_duplicates(),
    decreases parts.len(),
{
    if parts.len() > 0 {
        let p = parts[0];
        if utf8_ok(p) && !kws.contains(p) {
            let next = kws.push(p);
            assert forall|a: int, b: int| 0 <= a < b < next.len() implies next[a] != next[b] by {
                if b == kws.len() {
                    assert(kws.contains(kws[a]));
                } else {
                    assert(next[a] == kws[a] && next[b] == kws[b]);
                }
            }
            if next.len() < 8 {
                lemma_gather_bounded(parts.drop_first(), next);
            }
        } else {
            lemma_gather_bounded(parts.drop_first(), kws);
        }
    }
}

spec fn utf8_ok(p: Seq<char>) -> bool {
    crate::inference::utf8_len(p) >= 3
}

/// A rationale search looks for at most eight keywords, none twice.
pub proof fn law_keywords_bounded(f: crate::form::Form)
    ensures
        keywords_of(f).len() <= 8,
        keywords_of(f).no_duplicates(),
{
    let start = if crate::text::is_blank(f.domain@) {
        Seq::<Seq<char>>::empty()
    } else {
        seq![crate::guide::unicode_lower(f.domain@)]
    };
    lemma_gather_bounded(
        (crate::inference::words(f.title@) + crate::inference::words(f.description@)).map_values(
            |w: Seq<char>| crate::inference::candidate(w),
        ),
        start,
    );
}

/// A `YYYY-MM-DD` bound covers its whole day: the end-of-day bound lies
/// 23:59:59 after the start-of-day bound.
pub proof fn law_day_bounds(value: Seq<char>)
    requires
        rfc3339_instant(value) is None,
        ymd_midnight(value) is Some,
        -10_000_000_000_000 <= ymd_midnight(value)->0 <= 10_000_000_000_000,
    ensures
        (bound_of(value, true)->0).0 == (bound_of(value, false)->0).0 + LAST_SECOND_OF_DAY,
        (bound_of(value, false)->0).1 == 0 && (bound_of(value, true)->0).1 == 0,
{
}

proof fn lemma_one_way_in_both(edges: Seq<EdgeView>, a: Seq<char>, b: Seq<char>)
    requires
        has_arc(one_way(edges), a, b),
    ensures
        has_arc(both_ways(edges), a, b),
    decreases edges.len(),
{
    let i = choose|i: int| 0 <= i < one_way(edges).len() && one_way(edges)[i] == (a, b);
    let n = edges.len() - 1;
    if i == n {
        let w = both_ways(edges);
        assert(w[w.len() - 2] == (a, b));
    } else {
        assert(one_way(edges.drop_last())[i] == (a, b));
        lemma_one_way_in_both(edges.drop_last(), a, b);
        let j = choose|j: int| 0 <= j < both_ways(edges.drop_last()).len() && both_ways(edges.drop_last())[j] == (a, b);
        assert(both_ways(edges)[j] == (a, b));
    }
}

/// A directed path is also a walk when links may be followed either way:
/// every record that `path` reaches from `f` in `d` links or fewer lies
/// within `d` links of `f` for `neighbors`.
pub proof fn law_directed_within_undirected(edges: Seq<EdgeView>, f: Seq<char>, t: Seq<char>, d: nat)
    requires
        within(one_way(edges), f, t, d),
    ensures
        within(both_ways(edges), f, t, d),
{
    let p = choose|p: Seq<Seq<char>>| #[trigger] is_walk(one_way(edges), p) && p[0] == f && p.last() == t && p.len() <= d + 1;
    assert forall|i: int| 0 <= i < p.len() - 1 implies has_arc(both_ways(edges), #[trigger] p[i], p[i + 1]) by {
        lemma_one_way_in_both(edges, p[i], p[i + 1]);
    }
    assert(is_walk(both_ways(edges), p));
}

/// A record that `path` finds from `f` in no more hops than a
/// neighbourhood's depth is among the neighbours of `f` at that depth.
pub proof fn law_path_target_is_neighbor(
    edges: Seq<EdgeView>,
    f: Seq<char>,
    t: Seq<char>,
    max_depth: usize,
    p: PathResult,
    depth: usize,
    ns: Seq<NeighborNode>,
)
    requires
        path_answer(one_way(edges), f, t, max_depth, p),
        p.found,
        p.hops <= depth,
        t != f,
        neighborhood(both_ways(edges), f, depth, ns),
    ensures
        exists|i: int| 0 <= i < ns.len() && (#[trigger] ns[i]).id@ == t,
{
    assert(exact(one_way(edges), f, t, p.hops as nat));
    law_directed_within_undirected(edges, f, t, p.hops as nat);
    assert(within(both_ways(edges), f, t, p.hops as nat));
}

} // verus!

verus! {

/// A link element of a record's `links` array with a text `relation` and a
/// text `target`.
pub open spec fn is_text_link(l: Json) -> bool {
    l.text_at("relation"@) is Some && l.text_at("target"@) is Some
}

/// The edge that such a link element stands for, from the record `from`.
pub open spec fn edge_from_link(from: Seq<char>, l: Json) -> EdgeView {
    EdgeView { from, to: l.text_at("target"@)->0, relation: l.text_at("relation"@)->0 }
}

proof fn lemma_link_edges_map(from: Seq<char>, links: Seq<Json>) -> (m: Seq<int>)
    ensures
        m.len() == link_edges(from, links).len(),
        forall|j: int|
            0 <= j < m.len() ==> 0 <= #[trigger] m[j] < links.len() && is_text_link(links[m[j]])
                && link_edges(from, links)[j] == edge_from_link(from, links[m[j]]),
        forall|j1: int, j2: int| 0 <= j1 < j2 < m.len() ==> #[trigger] m[j1] < #[trigger] m[j2],
        forall|i: int| 0 <= i < links.len() && is_text_link(#[trigger] links[i]) ==> m.contains(i),
    decreases links.len(),
{
    if links.len() == 0 {
        seq![]
    } else {
        let rest = links.drop_last();
        let m0 = lemma_link_edges_map(from, rest);
        let n = links.len() - 1;
        let e0 = link_edges(from, rest);
        assert forall|j: int| 0 <= j < m0.len() implies 0 <= #[trigger] m0[j] < links.len() && is_text_link(
            links[m0[j]],
        ) by {
            assert(links[m0[j]] == rest[m0[j]]);
        }
        if is_text_link(links.last()) {
            let m = m0.push(n);
            let e = link_edges(from, links);
            assert(e == e0 + seq![edge_from_link(from, links.last())]);
            assert forall|j: int| 0 <= j < m.len() implies 0 <= #[trigger] m[j] < links.len()
                && is_text_link(links[m[j]]) && e[j] == edge_from_link(from, links[m[j]]) by {
                if j < m0.len() {
                    assert(m[j] == m0[j]);
                    assert(links[m0[j]] == rest[m0[j]]);
                    assert(e[j] == e0[j]);
                }
            }
            assert forall|j1: int, j2: int| 0 <= j1 < j2 < m.len() implies #[trigger] m[j1] < #[trigger] m[j2] by {
                if j2 < m0.len() {
                    assert(m[j1] == m0[j1] && m[j2] == m0[j2]);
                } else {
                    assert(m[j1] == m0[j1]);
                }
            }
            assert forall|i: int| 0 <= i < links.len() && is_text_link(#[trigger] links[i]) implies m.contains(i) by {
                if i < n {
                    assert(rest[i] == links[i]);
                    assert(m0.contains(i));
                    let j = choose|j: int| 0 <= j < m0.len() && m0[j] == i;
                    assert(m[j] == i);
                } else {
                    assert(m[m0.len() as int] == i);
                }
            }
            m
        } else {
            assert(link_edges(from, links) == e0 + seq![]);
            assert(link_edges(from, links) =~= e0);
            assert forall|i: int| 0 <= i < links.len() && is_text_link(#[trigger] links[i]) implies m0.contains(i) by {
                if i < n {
                    assert(rest[i] == links[i]);
                }
            }
            m0
        }
    }
}

/// `m` picks, in increasing order, the positions of `links` whose elements
/// are text links, all of them, and `edges` holds their edges in that order.
pub open spec fn edges_follow_links(from: Seq<char>, links: Seq<Json>, edges: Seq<EdgeView>, m: Seq<int>) -> bool {
    &&& m.len() == edges.len()
    &&& forall|j: int|
        0 <= j < m.len() ==> 0 <= #[trigger] m[j] < links.len() && is_text_link(links[m[j]])
            && edges[j] == edge_from_link(from, links[m[j]])
    &&& forall|j1: int, j2: int| 0 <= j1 < j2 < m.len() ==> #[trigger] m[j1] < #[trigger] m[j2]
    &&& forall|i: int| 0 <= i < links.len() && is_text_link(#[trigger] links[i]) ==> m.contains(i)
}

/// Every link element of a record with a text relation and a text target
/// gives one edge from the record to that target with that relation, and
/// nothing else does: the edges are those elements, each once, in the order
/// of the array.
pub proof fn law_every_link_is_an_edge(from: Seq<char>, links: Seq<Json>)
    ensures
        exists|m: Seq<int>| #[trigger] edges_follow_links(from, links, link_edges(from, links), m),
{
    let m = lemma_link_edges_map(from, links);
    assert(edges_follow_links(from, links, link_edges(from, links), m));
}

} // verus!

verus! {

/// The text under `key` is there and is not blank.
pub open spec fn has_nonblank(r: JVal, key: Seq<char>) -> bool {
    jtext(r, key) matches Some(x) && !is_blank(x)
}

/// Every record that validation accepts carries a non-blank `id` and a
/// known `type`; a Decision, Fact, Assumption, Meeting or Action also an RFC
/// 3339 `recorded_at`; and each kind its own required texts: a Decision its
/// title and rationale, a Fact its observation, an Assumption its
/// statement, a Meeting its title and a date, an Action its title, a Person
/// its name.
pub proof fn law_accepted_records_carry_required_fields(r: JVal)
    requires
        record_check(r) is Ok,
    ensures
        has_nonblank(r, "id"@),
        jtext(r, "type"@) matches Some(t) && (t == "Decision"@ || t == "Fact"@ || t == "Assumption"@
            || t == "Meeting"@ || t == "Action"@ || t == "Person"@),
        jtext(r, "type"@) matches Some(t) && t != "Person"@ ==> (jtext(r, "recorded_at"@) matches Some(ts)
            && rfc3339_instant(ts) is Some),
        jtext(r, "type"@) == Some("Decision"@) ==> has_nonblank(r, "title"@) && has_nonblank(r, "rationale"@),
        jtext(r, "type"@) == Some("Fact"@) ==> has_nonblank(r, "observation"@),
        jtext(r, "type"@) == Some("Assumption"@) ==> has_nonblank(r, "assumption_statement"@),
        jtext(r, "type"@) == Some("Meeting"@) ==> has_nonblank(r, "title"@) && (jtext(r, "date"@) matches Some(
            d,
        ) && !is_blank(d) && (rfc3339_instant(d) is Some || ymd_midnight(d) is Some)),
        jtext(r, "type"@) == Some("Action"@) ==> has_nonblank(r, "title"@),
        jtext(r, "type"@) == Some("Person"@) ==> has_nonblank(r, "name"@),
{
    lemma_kind_names();
}

proof fn lemma_kind_names()
    ensures
        "Decision"@ != "Fact"@,
        "Decision"@ != "Assumption"@,
        "Decision"@ != "Meeting"@,
        "Decision"@ != "Action"@,
        "Decision"@ != "Person"@,
        "Fact"@ != "Assumption"@,
        "Fact"@ != "Meeting"@,
        "Fact"@ != "Action"@,
        "Fact"@ != "Person"@,
        "Assumption"@ != "Meeting"@,
        "Assumption"@ != "Action"@,
        "Assumption"@ != "Person"@,
        "Meeting"@ != "Action"@,
        "Meeting"@ != "Person"@,
        "Action"@ != "Person"@,
{
    reveal_strlit("Decision");
    reveal_strlit("Fact");
    reveal_strlit("Assumption");
    reveal_strlit("Meeting");
    reveal_strlit("Action");
    reveal_strlit("Person");
    assert("Decision"@.len() == 8);
    assert("Fact"@.len() == 4);
    assert("Assumption"@.len() == 10);
    assert("Meeting"@.len() == 7);
    assert("Action"@.len() == 6);
    assert("Person"@.len() == 6);
    assert("Action"@[0] != "Person"@[0]);
}

/// A Decision without a rationale (missing, not a text, or blank) is
/// refused; when nothing before it is wrong, the refusal names the missing
/// rationale.
pub proof fn law_decision_needs_rationale(r: JVal)
    requires
        jtext(r, "type"@) == Some("Decision"@),
        !has_nonblank(r, "rationale"@),
    ensures
        record_check(r) is Err,
        common_check(r, "Decision"@) is Ok && has_nonblank(r, "title"@) ==> record_check(r) == Err::<
            (),
            Problem,
        >(Problem::MissingField { key: "rationale"@ }),
{
    reveal_strlit("Decision");
    assert(!is_blank("Decision"@)) by {
        assert("Decision"@[0] == 'D');
    }
    if record_check(r) is Ok {
        law_accepted_records_carry_required_fields(r);
    }
}

} // verus!

verus! {

/// The top-level text fields that search reads, as the original lists them.
pub open spec fn searched_text_field(k: Seq<char>) -> bool {
    ||| k == "id"@
    ||| k == "type"@
    ||| k == "title"@
    ||| k == "name"@
    ||| k == "domain"@
    ||| k == "project"@
    ||| k == "description"@
    ||| k == "body"@
    ||| k == "rationale"@
    ||| k == "observation"@
    ||| k == "assumption_statement"@
    ||| k == "minutes"@
    ||| k == "consequences"@
    ||| k == "status"@
    ||| k == "author"@
    ||| k == "classification"@
    ||| k == "location"@
    ||| k == "assigned_to"@
}

proof fn lemma_occurs_within(t: Seq<char>, s: Seq<char>, q: Seq<char>)
    requires
        contains_text(t, s),
        contains_text(s, q),
    ensures
        contains_text(t, q),
{
    let i = choose|i: int| occurs_at(t, s, i);
    let j = choose|j: int| occurs_at(s, q, j);
    assert(t.subrange(i + j, i + j + q.len()) =~= s.subrange(j, j + q.len()));
    assert(occurs_at(t, q, i + j));
}

proof fn lemma_join_has(chunks: Seq<Seq<char>>, sep: Seq<char>, i: int)
    requires
        0 <= i < chunks.len(),
    ensures
        contains_text(join(chunks, sep), chunks[i]),
    decreases chunks.len(),
{
    if chunks.len() == 1 {
        assert(join(chunks, sep).subrange(0, chunks[0].len() as int) =~= chunks[0]);
        assert(occurs_at(join(chunks, sep), chunks[i], 0));
    } else {
        let rest = chunks.drop_last();
        let j0 = join(rest, sep);
        let whole = join(chunks, sep);
        assert(whole == j0 + sep + chunks.last());
        if i < chunks.len() - 1 {
            lemma_join_has(rest, sep, i);
            let p = choose|p: int| occurs_at(j0, rest[i], p);
            assert(whole.subrange(p, p + rest[i].len()) =~= j0.subrange(p, p + rest[i].len()));
            assert(occurs_at(whole, chunks[i], p));
        } else {
            let p: int = (j0.len() + sep.len()) as int;
            assert(whole.subrange(p, p + chunks.last().len()) =~= chunks.last());
            assert(occurs_at(whole, chunks[i], p));
        }
    }
}

proof fn lemma_field_texts_has(r: Json, keys: Seq<Seq<char>>, i: int, v: Seq<char>)
    requires
        0 <= i < keys.len(),
        r.text_at(keys[i]) == Some(v),
    ensures
        field_texts(r, keys).contains(ascii_lower_seq(v)),
    decreases keys.len(),
{
    let rest = keys.drop_last();
    let f = field_texts(r, keys);
    if i < keys.len() - 1 {
        assert(rest[i] == keys[i]);
        lemma_field_texts_has(r, rest, i, v);
        let w = choose|w: int| 0 <= w < field_texts(r, rest).len() && field_texts(r, rest)[w] == ascii_lower_seq(v);
        assert(f[w] == ascii_lower_seq(v));
    } else {
        assert(f[f.len() - 1] == ascii_lower_seq(v));
    }
}

/// Search reads every top-level text field that the original lists (id,
/// type, title, name, domain, project, description, body, rationale,
/// observation, assumption statement, minutes, consequences, status,
/// author, classification, location, assigned to): the lower-cased text of
/// each lies within the text that a query is looked for in.
pub proof fn law_search_reads_text_fields(r: Json, k: Seq<char>, v: Seq<char>)
    requires
        searched_text_field(k),
        r.text_at(k) == Some(v),
    ensures
        contains_text(search_text(r), ascii_lower_seq(v)),
{
    let keys = string_field_keys();
    assert(keys.contains(k)) by {
        if k == "id"@ { assert(keys[0] == k); }
        else if k == "type"@ { assert(keys[1] == k); }
        else if k == "title"@ { assert(keys[2] == k); }
        else if k == "name"@ { assert(keys[3] == k); }
        else if k == "domain"@ { assert(keys[4] == k); }
        else if k == "project"@ { assert(keys[5] == k); }
        else if k == "description"@ { assert(keys[6] == k); }
        else if k == "body"@ { assert(keys[7] == k); }
        else if k == "rationale"@ { assert(keys[8] == k); }
        else if k == "observation"@ { assert(keys[9] == k); }
        else if k == "assumption_statement"@ { assert(keys[10] == k); }
        else if k == "minutes"@ { assert(keys[11] == k); }
        else if k == "consequences"@ { assert(keys[12] == k); }
        else if k == "status"@ { assert(keys[13] == k); }
        else if k == "author"@ { assert(keys[14] == k); }
        else if k == "classification"@ { assert(keys[15] == k); }
        else if k == "location"@ { assert(keys[16] == k); }
        else { assert(keys[17] == k); }
    }
    let i = choose|i: int| 0 <= i < keys.len() && keys[i] == k;
    lemma_field_texts_has(r, keys, i, v);
    let chunks = search_chunks(r);
    let ft = field_texts(r, keys);
    let w = choose|w: int| 0 <= w < ft.len() && ft[w] == ascii_lower_seq(v);
    assert(chunks[w] == ft[w]);
    lemma_join_has(chunks, " "@, w);
}

/// A record whose type passes the `--in` filter, and one of whose searched
/// text fields holds the (normalized) query in its lower-cased text, is
/// among the search hits.
pub proof fn law_search_finds_field_text(
    records: Seq<(IndexEntry, Json)>,
    query: Seq<char>,
    types: Seq<Seq<char>>,
    i: int,
    k: Seq<char>,
    v: Seq<char>,
)
    requires
        0 <= i < records.len(),
        type_selected(records[i].0.record_type@, types),
        searched_text_field(k),
        records[i].1.text_at(k) == Some(v),
        contains_text(ascii_lower_seq(v), query),
    ensures
        search_hits(records, query, types).contains(records[i].0@),
    decreases records.len(),
{
    let rest = records.drop_last();
    let h = search_hits(records, query, types);
    if i < records.len() - 1 {
        assert(rest[i] == records[i]);
        law_search_finds_field_text(rest, query, types, i, k, v);
        let hr = search_hits(rest, query, types);
        let w = choose|w: int| 0 <= w < hr.len() && hr[w] == records[i].0@;
        assert(h[w] == hr[w]);
    } else {
        law_search_reads_text_fields(records[i].1, k, v);
        lemma_occurs_within(search_text(records[i].1), ascii_lower_seq(v), query);
        assert(h[h.len() - 1] == records[i].0@);
    }
}

} // verus!

verus! {

proof fn lemma_contains_self(s: Seq<char>)
    ensures
        contains_text(s, s),
{
    assert(s.subrange(0, s.len() as int) =~= s);
    assert(occurs_at(s, s, 0));
}

/// The index entry of a record keeps the record's own texts: its id and
/// type, and its title, name, classification, recorded_at, status and
/// author as the record holds them (absent when the record has no text
/// there), its domain (or project), and where it is stored.
pub proof fn law_index_entry_keeps_record_texts(value: Json, path: Seq<char>)
    requires
        value.text_at("id"@) is Some,
        value.text_at("type"@) is Some,
    ensures
        ({
            let e = entry_of(value, value.text_at("id"@)->0, value.text_at("type"@)->0, path);
            &&& Some(e.id) == value.text_at("id"@)
            &&& Some(e.record_type) == value.text_at("type"@)
            &&& e.title == value.text_at("title"@)
            &&& e.name == value.text_at("name"@)
            &&& e.classification == value.text_at("classification"@)
            &&& e.recorded_at == value.text_at("recorded_at"@)
            &&& e.status == value.text_at("status"@)
            &&& e.author == value.text_at("author"@)
            &&& (value.spec_get("domain"@) is None ==> e.domain == value.text_at("project"@))
            &&& (value.spec_get("domain"@) is Some ==> e.domain == value.text_at("domain"@))
            &&& e.path == path
        }),
{
}

/// `list --author w` finds the entry of a record whose author is `w`
/// (with no other filter given).
pub proof fn law_author_filter_finds_author(value: Json, path: Seq<char>, args: ListArgs)
    requires
        value.text_at("id"@) is Some,
        value.text_at("type"@) is Some,
        args.author matches Some(w) && value.text_at("author"@) == Some(w@),
        args.record_type is None,
        args.domain is None,
        args.status is None,
        args.classification is None,
        args.tags@.len() == 0,
    ensures
        listed(entry_of(value, value.text_at("id"@)->0, value.text_at("type"@)->0, path), args, None, None),
{
    let w = args.author->0;
    lemma_contains_self(ascii_lower_seq(w@));
}

} // verus!

verus! {

proof fn lemma_member_names()
    ensures
        "@context"@.len() == 8 && "@context"@[0] == '@',
        "id"@.len() == 2,
        "type"@.len() == 4 && "type"@[0] == 't' && "type"@[1] == 'y',
        "recorded_at"@.len() == 11 && "recorded_at"@[0] == 'r',
        "title"@.len() == 5 && "title"@[0] == 't',
        "date"@.len() == 4 && "date"@[0] == 'd',
        "domain"@.len() == 6 && "domain"@[0] == 'd',
        "description"@.len() == 11 && "description"@[0] == 'd',
        "tags"@.len() == 4 && "tags"@[0] == 't' && "tags"@[1] == 'a',
        "author"@.len() == 6 && "author"@[0] == 'a',
        "classification"@.len() == 14 && "classification"@[0] == 'c',
        "related_files"@.len() == 13 && "related_files"@[0] == 'r',
        "evidence"@.len() == 8 && "evidence"@[0] == 'e',
        "outcomes"@.len() == 8 && "outcomes"@[0] == 'o',
        "provenance"@.len() == 10 && "provenance"@[0] == 'p',
        "location"@.len() == 8 && "location"@[0] == 'l',
        "participants"@.len() == 12 && "participants"@[0] == 'p',
        "minutes"@.len() == 7 && "minutes"@[0] == 'm',
        "decisions_made"@.len() == 14 && "decisions_made"@[0] == 'd',
        "actions"@.len() == 7 && "actions"@[0] == 'a',
        "links"@.len() == 5 && "links"@[0] == 'l',
        "rationale"@.len() == 9 && "rationale"@[0] == 'r',
        "status"@.len() == 6 && "status"@[0] == 's',
        "confidence"@.len() == 10 && "confidence"@[0] == 'c',
        "impact"@.len() == 6 && "impact"@[0] == 'i',
        "options_considered"@.len() == 18 && "options_considered"@[0] == 'o',
        "chosen_option"@.len() == 13 && "chosen_option"@[0] == 'c',
        "effective_from"@.len() == 14 && "effective_from"@[0] == 'e',
        "consequences"@.len() == 12 && "consequences"@[0] == 'c',
        "impacted_components"@.len() == 19 && "impacted_components"@[0] == 'i',
        "observation"@.len() == 11 && "observation"@[0] == 'o',
        "related_components"@.len() == 18 && "related_components"@[0] == 'r',
        "assumption_statement"@.len() == 20 && "assumption_statement"@[0] == 'a',
        "tests_needed"@.len() == 12 && "tests_needed"@[0] == 't',
        "expire_at"@.len() == 9 && "expire_at"@[0] == 'e',
        "assigned_to"@.len() == 11 && "assigned_to"@[0] == 'a',
        "due_date"@.len() == 8 && "due_date"@[0] == 'd',
        "parent_decision"@.len() == 15 && "parent_decision"@[0] == 'p',
        "outcome"@.len() == 7 && "outcome"@[0] == 'o',
        "name"@.len() == 4 && "name"@[0] == 'n',
        "role"@.len() == 4 && "role"@[0] == 'r',
        "contact"@.len() == 7 && "contact"@[0] == 'c',
{
    reveal_strlit("@context");
    reveal_strlit("id");
    reveal_strlit("type");
    reveal_strlit("recorded_at");
    reveal_strlit("title");
    reveal_strlit("date");
    reveal_strlit("domain");
    reveal_strlit("description");
    reveal_strlit("tags");
    reveal_strlit("author");
    reveal_strlit("classification");
    reveal_strlit("related_files");
    reveal_strlit("evidence");
    reveal_strlit("outcomes");
    reveal_strlit("provenance");
    reveal_strlit("location");
    reveal_strlit("participants");
    reveal_strlit("minutes");
    reveal_strlit("decisions_made");
    reveal_strlit("actions");
    reveal_strlit("links");
    reveal_strlit("rationale");
    reveal_strlit("status");
    reveal_strlit("confidence");
    reveal_strlit("impact");
    reveal_strlit("options_considered");
    reveal_strlit("chosen_option");
    reveal_strlit("effective_from");
    reveal_strlit("consequences");
    reveal_strlit("impacted_components");
    reveal_strlit("observation");
    reveal_strlit("related_components");
    reveal_strlit("assumption_statement");
    reveal_strlit("tests_needed");
    reveal_strlit("expire_at");
    reveal_strlit("assigned_to");
    reveal_strlit("due_date");
    reveal_strlit("parent_decision");
    reveal_strlit("outcome");
    reveal_strlit("name");
    reveal_strlit("role");
    reveal_strlit("contact");
}

/// A meeting made by `create meeting` is a Meeting that holds the given
/// title and date, the given location and minutes (none when none was
/// given), and its domain.
pub proof fn law_meeting_keeps_its_options(a: CreateMeetingArgs, v: Json, d: Seq<char>)
    requires
        meeting_made(a, v, d),
    ensures
        jtext(jview(v), "type"@) == Some("Meeting"@),
        jtext(jview(v), "title"@) == Some(a.title@),
        jtext(jview(v), "date"@) == Some(a.date@),
        jtext(jview(v), "domain"@) == Some(d),
        match a.location {
            Some(l) => jtext(jview(v), "location"@) == Some(l@),
            None => jget(jview(v), "location"@) is None,
        },
        match a.minutes {
            Some(m) => jtext(jview(v), "minutes"@) == Some(m@),
            None => jget(jview(v), "minutes"@) is None,
        },
{
    let o = ontology_of(a.common);
    let (id, ts) = choose|id: Seq<char>, ts: Seq<char>|
        stamped(a.common, id, ts) && jview(v) == #[trigger] meeting_doc(a, o, id, ts);
    lemma_member_names();
    lemma_lookup_through_push();
}

} // verus!

verus! {

/// The record holds the given option's text under `key`, or nothing there
/// when the option was not given.
pub open spec fn holds_option(r: JVal, key: Seq<char>, o: Option<String>) -> bool {
    match o {
        Some(s) => jtext(r, key) == Some(s@),
        None => jget(r, key) is None,
    }
}

proof fn lemma_lookup_through_push()
    ensures
        forall|k: Seq<char>| #[trigger] val_entry(Seq::<(Seq<char>, JVal)>::empty(), k) is None,
        forall|es: Seq<(Seq<char>, JVal)>, x: (Seq<char>, JVal), k: Seq<char>|
            #[trigger] val_entry(es.push(x), k) == match val_entry(es, k) {
                Some(w) => Some(w),
                None => if x.0 == k {
                    Some(x.1)
                } else {
                    None
                },
            },
{
    reveal(val_entry);
    assert forall|es: Seq<(Seq<char>, JVal)>, x: (Seq<char>, JVal), k: Seq<char>|
        #[trigger] val_entry(es.push(x), k) == match val_entry(es, k) {
            Some(w) => Some(w),
            None => if x.0 == k {
                Some(x.1)
            } else {
                None
            },
        } by {
        lemma_val_entry_push(es, x, k);
    }
}

proof fn lemma_builders_skip()
    ensures
        forall|es: Entries, key: Seq<char>, t: Seq<char>, k: Seq<char>|
            #[trigger] val_entry(with_text(es, key, t), k) == if key != k {
                val_entry(es, k)
            } else {
                match val_entry(es, k) {
                    Some(w) => Some(w),
                    None => Some(JVal::Str(t)),
                }
            },
        forall|es: Entries, key: Seq<char>, o: Option<Seq<char>>, k: Seq<char>|
            #[trigger] val_entry(with_opt_text(es, key, o), k) == if key != k {
                val_entry(es, k)
            } else {
                match val_entry(es, k) {
                    Some(w) => Some(w),
                    None => match o {
                        Some(t) => Some(JVal::Str(t)),
                        None => None,
                    },
                }
            },
        forall|es: Entries, key: Seq<char>, ts: Seq<Seq<char>>, k: Seq<char>|
            key != k ==> #[trigger] val_entry(with_texts(es, key, ts), k) == val_entry(es, k),
        forall|es: Entries, key: Seq<char>, b: Option<u64>, k: Seq<char>|
            key != k ==> #[trigger] val_entry(with_opt_float(es, key, b), k) == val_entry(es, k),
        forall|es: Entries, key: Seq<char>, x: JVal, k: Seq<char>|
            key != k ==> #[trigger] val_entry(with_val(es, key, x), k) == val_entry(es, k),
        forall|es: Entries, key: Seq<char>, x: Option<JVal>, k: Seq<char>|
            key != k ==> #[trigger] val_entry(with_opt_val(es, key, x), k) == val_entry(es, k),
{
    lemma_lookup_through_push();
}

/// A decision made by `create decision` is a Decision that holds the given
/// title and rationale, its domain, and the given identifier and time when
/// they were given.
#[verifier::rlimit(100)]
#[verifier::spinoff_prover]
pub proof fn law_decision_keeps_its_texts(a: CreateDecisionArgs, v: Json, d: Seq<char>)
    requires
        decision_made(a, v, d),
    ensures
        jtext(jview(v), "type"@) == Some("Decision"@),
        jtext(jview(v), "title"@) == Some(a.title@),
        jtext(jview(v), "rationale"@) == Some(a.rationale@),
        jtext(jview(v), "domain"@) == Some(d),
        a.common.id matches Some(x) ==> jtext(jview(v), "id"@) == Some(x@),
        a.common.recorded_at matches Some(t) ==> jtext(jview(v), "recorded_at"@) == Some(t@),
{
    let o = ontology_of(a.common);
    let (id, ts) = choose|id: Seq<char>, ts: Seq<char>|
        stamped(a.common, id, ts) && jview(v) == #[trigger] decision_doc(a, o, id, ts);
    lemma_member_names();
    lemma_builders_skip();
    lemma_lookup_through_push();
}

/// A decision made by `create decision` holds the given description,
/// author, status and impact (nothing when not given).
#[verifier::rlimit(100)]
#[verifier::spinoff_prover]
pub proof fn law_decision_keeps_its_metadata(a: CreateDecisionArgs, v: Json, d: Seq<char>)
    requires
        decision_made(a, v, d),
    ensures
        holds_option(jview(v), "description"@, a.common.description),
        holds_option(jview(v), "author"@, a.common.author),
        holds_option(jview(v), "status"@, a.common.status),
        holds_option(jview(v), "impact"@, a.common.impact),
{
    let o = ontology_of(a.common);
    let (id, ts) = choose|id: Seq<char>, ts: Seq<char>|
        stamped(a.common, id, ts) && jview(v) == #[trigger] decision_doc(a, o, id, ts);
    lemma_member_names();
    lemma_builders_skip();
    lemma_lookup_through_push();
}

/// A decision made by `create decision` holds the given chosen option,
/// effective date and consequences (nothing when not given).
#[verifier::rlimit(100)]
#[verifier::spinoff_prover]
pub proof fn law_decision_keeps_its_choice(a: CreateDecisionArgs, v: Json, d: Seq<char>)
    requires
        decision_made(a, v, d),
    ensures
        holds_option(jview(v), "chosen_option"@, a.chosen_option),
        holds_option(jview(v), "effective_from"@, a.effective_from),
        holds_option(jview(v), "consequences"@, a.consequences),
{
    let o = ontology_of(a.common);
    let (id, ts) = choose|id: Seq<char>, ts: Seq<char>|
        stamped(a.common, id, ts) && jview(v) == #[trigger] decision_doc(a, o, id, ts);
    lemma_member_names();
    lemma_builders_skip();
    lemma_lookup_through_push();
}

/// A fact made by `create fact` is a Fact that holds the given observation,
/// its domain, and the given description and author.
pub proof fn law_fact_keeps_its_options(a: CreateFactArgs, v: Json, d: Seq<char>)
    requires
        fact_made(a, v, d),
    ensures
        jtext(jview(v), "type"@) == Some("Fact"@),
        jtext(jview(v), "observation"@) == Some(a.observation@),
        jtext(jview(v), "domain"@) == Some(d),
        a.common.recorded_at matches Some(t) ==> jtext(jview(v), "recorded_at"@) == Some(t@),
        holds_option(jview(v), "description"@, a.common.description),
        holds_option(jview(v), "author"@, a.common.author),
{
    let o = ontology_of(a.common);
    let (id, ts) = choose|id: Seq<char>, ts: Seq<char>|
        stamped(a.common, id, ts) && jview(v) == #[trigger] fact_doc(a, o, id, ts);
    lemma_member_names();
    lemma_lookup_through_push();
}

/// An assumption made by `create assumption` is an Assumption that holds
/// the given statement, its domain, and the given expiry date.
pub proof fn law_assumption_keeps_its_options(a: CreateAssumptionArgs, v: Json, d: Seq<char>)
    requires
        assumption_made(a, v, d),
    ensures
        jtext(jview(v), "type"@) == Some("Assumption"@),
        jtext(jview(v), "assumption_statement"@) == Some(a.assumption_statement@),
        jtext(jview(v), "domain"@) == Some(d),
        holds_option(jview(v), "expire_at"@, a.expire_at),
        holds_option(jview(v), "author"@, a.common.author),
{
    let o = ontology_of(a.common);
    let (id, ts) = choose|id: Seq<char>, ts: Seq<char>|
        stamped(a.common, id, ts) && jview(v) == #[trigger] assumption_doc(a, o, id, ts);
    lemma_member_names();
    lemma_lookup_through_push();
}

/// An action made by `create action` is an Action that holds the given
/// title, its domain, and the given status (nothing when not given).
#[verifier::rlimit(100)]
#[verifier::spinoff_prover]
pub proof fn law_action_keeps_its_texts(a: CreateActionArgs, v: Json, d: Seq<char>)
    requires
        action_made(a, v, d),
    ensures
        jtext(jview(v), "type"@) == Some("Action"@),
        jtext(jview(v), "title"@) == Some(a.title@),
        jtext(jview(v), "domain"@) == Some(d),
        holds_option(jview(v), "status"@, a.common.status),
{
    let o = ontology_of(a.common);
    let (id, ts) = choose|id: Seq<char>, ts: Seq<char>|
        stamped(a.common, id, ts) && jview(v) == #[trigger] action_doc(a, o, id, ts);
    lemma_member_names();
    lemma_builders_skip();
    lemma_lookup_through_push();
}

/// An action made by `create action` holds the given assignee, due date
/// and parent decision (nothing when not given).
#[verifier::rlimit(100)]
#[verifier::spinoff_prover]
pub proof fn law_action_keeps_its_plan(a: CreateActionArgs, v: Json, d: Seq<char>)
    requires
        action_made(a, v, d),
    ensures
        holds_option(jview(v), "assigned_to"@, a.assigned_to),
        holds_option(jview(v), "due_date"@, a.due_date),
        holds_option(jview(v), "parent_decision"@, a.parent_decision),
{
    let o = ontology_of(a.common);
    let (id, ts) = choose|id: Seq<char>, ts: Seq<char>|
        stamped(a.common, id, ts) && jview(v) == #[trigger] action_doc(a, o, id, ts);
    lemma_member_names();
    lemma_builders_skip();
    lemma_lookup_through_push();
}

/// A person made by `create person` is a Person that holds the given name,
/// identifier (when given), role and contact.
pub proof fn law_person_keeps_its_options(a: CreatePersonArgs, v: Json, d: Seq<char>)
    requires
        person_made(a, v, d),
    ensures
        jtext(jview(v), "type"@) == Some("Person"@),
        jtext(jview(v), "name"@) == Some(a.name@),
        d == "people"@,
        a.id matches Some(x) ==> jtext(jview(v), "id"@) == Some(x@),
        holds_option(jview(v), "role"@, a.role),
        holds_option(jview(v), "contact"@, a.contact),
{
    let id = choose|id: Seq<char>|
        (match a.id {
            Some(x) => id == x@,
            None => is_urn_of(id, "people"@),
        }) && jview(v) == #[trigger] person_doc(a, id);
    lemma_member_names();
    lemma_lookup_through_push();
}

} // verus!

verus! {

/// The links array of a stored record, when it has one.
pub open spec fn links_of(record: Json) -> Seq<Json> {
    match record.spec_get("links"@) {
        Some(Json::Array(a)) => a@,
        _ => seq![],
    }
}

/// The links between records are exactly the links of each record: every
/// text link of every record's `links` array is an edge from that record's
/// id, and every edge is such a link of some record.
pub proof fn law_graph_edges_are_record_links(records: Seq<(IndexEntry, Json)>, e: EdgeView)
    ensures
        record_edges(records).contains(e) <==> exists|i: int|
            0 <= i < records.len() && #[trigger] link_edges(records[i].0.id@, links_of(records[i].1)).contains(e),
    decreases records.len(),
{
    if records.len() > 0 {
        let rest = records.drop_last();
        let n = records.len() - 1;
        law_graph_edges_are_record_links(rest, e);
        let tail = link_edges(records[n].0.id@, links_of(records[n].1));
        assert(record_edges(records) == record_edges(rest) + tail) by {
            assert(records.last() == records[n]);
            match records[n].1.spec_get("links"@) {
                Some(Json::Array(a)) => {},
                _ => {
                    assert(link_edges(records[n].0.id@, seq![]) =~= seq![]);
                },
            }
        }
        let all = record_edges(records);
        let front = record_edges(rest);
        if all.contains(e) {
            let w = choose|w: int| 0 <= w < all.len() && all[w] == e;
            if w < front.len() {
                assert(front[w] == e);
                let i = choose|i: int|
                    0 <= i < rest.len() && #[trigger] link_edges(rest[i].0.id@, links_of(rest[i].1)).contains(e);
                assert(rest[i] == records[i]);
            } else {
                assert(tail[w - front.len()] == e);
                assert(link_edges(records[n].0.id@, links_of(records[n].1)).contains(e));
            }
        }
        if exists|i: int|
            0 <= i < records.len() && #[trigger] link_edges(records[i].0.id@, links_of(records[i].1)).contains(e) {
            let i = choose|i: int|
                0 <= i < records.len() && #[trigger] link_edges(records[i].0.id@, links_of(records[i].1)).contains(e);
            if i < n {
                assert(rest[i] == records[i]);
                assert(front.contains(e));
                let w = choose|w: int| 0 <= w < front.len() && front[w] == e;
                assert(all[w] == e);
            } else {
                let w = choose|w: int| 0 <= w < tail.len() && tail[w] == e;
                assert(all[front.len() + w] == e);
            }
        }
    } else {
        assert(record_edges(records) =~= seq![]);
    }
}

} // verus!

verus! {

/// The array fields whose texts search reads, as the original lists them.
pub open spec fn searched_list_field(k: Seq<char>) -> bool {
    ||| k == "tags"@
    ||| k == "options_considered"@
    ||| k == "impacted_components"@
    ||| k == "tests_needed"@
    ||| k == "participants"@
    ||| k == "decisions_made"@
    ||| k == "actions"@
    ||| k == "related_files"@
    ||| k == "related_components"@
}

proof fn lemma_item_texts_has(items: Seq<Json>, j: int, v: Seq<char>)
    requires
        0 <= j < items.len(),
        text_of_json(Some(items[j])) == Some(v),
    ensures
        item_texts(items).contains(ascii_lower_seq(v)),
    decreases items.len(),
{
    let rest = items.drop_last();
    let f = item_texts(items);
    if j < items.len() - 1 {
        assert(rest[j] == items[j]);
        lemma_item_texts_has(rest, j, v);
        let w = choose|w: int| 0 <= w < item_texts(rest).len() && item_texts(rest)[w] == ascii_lower_seq(v);
        assert(f[w] == ascii_lower_seq(v));
    } else {
        assert(f[f.len() - 1] == ascii_lower_seq(v));
    }
}

proof fn lemma_list_texts_has(r: Json, keys: Seq<Seq<char>>, i: int, a: Vec<Json>, j: int, v: Seq<char>)
    requires
        0 <= i < keys.len(),
        r.spec_get(keys[i]) == Some(Json::Array(a)),
        0 <= j < a@.len(),
        text_of_json(Some(a@[j])) == Some(v),
    ensures
        list_texts(r, keys).contains(ascii_lower_seq(v)),
    decreases keys.len(),
{
    let rest = keys.drop_last();
    let f = list_texts(r, keys);
    if i < keys.len() - 1 {
        assert(rest[i] == keys[i]);
        lemma_list_texts_has(r, rest, i, a, j, v);
        let w = choose|w: int| 0 <= w < list_texts(r, rest).len() && list_texts(r, rest)[w] == ascii_lower_seq(v);
        assert(f[w] == ascii_lower_seq(v));
    } else {
        lemma_item_texts_has(a@, j, v);
        let it = item_texts(a@);
        let w = choose|w: int| 0 <= w < it.len() && it[w] == ascii_lower_seq(v);
        assert(f[list_texts(r, rest).len() + w] == ascii_lower_seq(v));
    }
}

/// Search reads the texts in every array field that the original lists
/// (tags, options considered, impacted components, tests needed,
/// participants, decisions made, actions, related files, related
/// components): the lower-cased text of each lies within the text that a
/// query is looked for in.
pub proof fn law_search_reads_list_fields(r: Json, k: Seq<char>, a: Vec<Json>, j: int, v: Seq<char>)
    requires
        searched_list_field(k),
        r.spec_get(k) == Some(Json::Array(a)),
        0 <= j < a@.len(),
        text_of_json(Some(a@[j])) == Some(v),
    ensures
        contains_text(search_text(r), ascii_lower_seq(v)),
{
    let keys = list_field_keys();
    assert(keys.contains(k)) by {
        if k == "tags"@ { assert(keys[0] == k); }
        else if k == "options_considered"@ { assert(keys[1] == k); }
        else if k == "impacted_components"@ { assert(keys[2] == k); }
        else if k == "tests_needed"@ { assert(keys[3] == k); }
        else if k == "participants"@ { assert(keys[4] == k); }
        else if k == "decisions_made"@ { assert(keys[5] == k); }
        else if k == "actions"@ { assert(keys[6] == k); }
        else if k == "related_files"@ { assert(keys[7] == k); }
        else { assert(keys[8] == k); }
    }
    let i = choose|i: int| 0 <= i < keys.len() && keys[i] == k;
    lemma_list_texts_has(r, keys, i, a, j, v);
    let chunks = search_chunks(r);
    let ft = field_texts(r, string_field_keys());
    let lt = list_texts(r, keys);
    let w = choose|w: int| 0 <= w < lt.len() && lt[w] == ascii_lower_seq(v);
    assert(chunks[ft.len() + w] == lt[w]);
    lemma_join_has(chunks, " "@, ft.len() + w);
}

} // verus!

verus! {

/// The text under `key` when it is there and not blank.
pub open spec fn given_text(r: JVal, key: Seq<char>) -> Option<Seq<char>> {
    match jtext(r, key) {
        Some(x) => if is_blank(x) {
            None
        } else {
            Some(x)
        },
        None => None,
    }
}

proof fn lemma_link_items_ok(items: Seq<JVal>, from: int, i: int)
    requires
        0 <= from <= i < items.len(),
        link_items_check(items, from) is Ok,
    ensures
        link_check(items[i], i as usize) is Ok,
    decreases i - from,
{
    if from < i {
        lemma_link_items_ok(items, from + 1, i);
    }
}

/// Every record that validation accepts uses known words and sound values:
/// its impact and classification, when given, are among their words; its
/// confidence, when present, is a number in 0..=1; a Decision's status is a
/// record status and an Action's an action status; and every element of
/// its `links` is an object with a known relation, a text target, and an
/// RFC 3339 time when it has one.
pub proof fn law_accepted_records_use_known_words(r: JVal)
    requires
        record_check(r) is Ok,
    ensures
        given_text(r, "impact"@) matches Some(w) ==> vocabulary(Vocabulary::Impact).contains(w),
        given_text(r, "classification"@) matches Some(w) ==> vocabulary(Vocabulary::Classification).contains(w),
        jget(r, "confidence"@) matches Some(c) ==> (c matches JVal::Num(n) && num_in_unit_interval(n)),
        jtext(r, "type"@) == Some("Decision"@) && given_text(r, "status"@) is Some ==> vocabulary(
            Vocabulary::RecordStatus,
        ).contains(given_text(r, "status"@)->0),
        jtext(r, "type"@) == Some("Action"@) && given_text(r, "status"@) is Some ==> vocabulary(
            Vocabulary::ActionStatus,
        ).contains(given_text(r, "status"@)->0),
        jget(r, "links"@) is Some ==> jget(r, "links"@) matches Some(JVal::Arr(ls)),
        jget(r, "links"@) matches Some(JVal::Arr(ls)) ==> forall|i: int|
            0 <= i < ls.len() ==> {
                &&& #[trigger] ls[i] is Obj
                &&& jtext(ls[i], "relation"@) matches Some(rel) && vocabulary(Vocabulary::Relation).contains(rel)
                &&& jtext(ls[i], "target"@) is Some
                &&& jtext(ls[i], "recorded_at"@) matches Some(t) ==> rfc3339_instant(t) is Some
            },
{
    lemma_kind_names();
    if let Some(JVal::Arr(ls)) = jget(r, "links"@) {
        assert forall|i: int| 0 <= i < ls.len() implies {
            &&& #[trigger] ls[i] is Obj
            &&& jtext(ls[i], "relation"@) matches Some(rel) && vocabulary(Vocabulary::Relation).contains(rel)
            &&& jtext(ls[i], "target"@) is Some
            &&& jtext(ls[i], "recorded_at"@) matches Some(t) ==> rfc3339_instant(t) is Some
        } by {
            lemma_link_items_ok(ls, 0, i);
        }
    }
}

} // verus!

verus! {

proof fn lemma_texts_in_has(items: Seq<Json>, j: int, v: Seq<char>)
    requires
        0 <= j < items.len(),
        text_of_json(Some(items[j])) == Some(v),
    ensures
        texts_in(items).contains(v),
    decreases items.len(),
{
    let rest = items.drop_last();
    let f = texts_in(items);
    if j < items.len() - 1 {
        assert(rest[j] == items[j]);
        lemma_texts_in_has(rest, j, v);
        let w = choose|w: int| 0 <= w < texts_in(rest).len() && texts_in(rest)[w] == v;
        assert(f[w] == v);
    } else {
        assert(f[f.len() - 1] == v);
    }
}

/// The index entry of a record keeps every text tag of the record's `tags`
/// array.
pub proof fn law_index_entry_keeps_tags(value: Json, path: Seq<char>, a: Vec<Json>, j: int, t: Seq<char>)
    requires
        value.text_at("id"@) is Some,
        value.text_at("type"@) is Some,
        value.spec_get("tags"@) == Some(Json::Array(a)),
        0 <= j < a@.len(),
        text_of_json(Some(a@[j])) == Some(t),
    ensures
        entry_of(value, value.text_at("id"@)->0, value.text_at("type"@)->0, path).tags.contains(t),
{
    lemma_texts_in_has(a@, j, t);
}

/// `list` with the record's own type, domain, status, classification and
/// author as filters (each one given or not) finds the record's entry.
pub proof fn law_record_passes_its_own_filters(value: Json, path: Seq<char>, args: ListArgs)
    requires
        value.text_at("id"@) is Some,
        value.text_at("type"@) is Some,
        args.record_type matches Some(w) ==> value.text_at("type"@) == Some(w@),
        args.domain matches Some(w) ==> value.spec_get("domain"@) is Some && value.text_at("domain"@) == Some(w@),
        args.status matches Some(w) ==> value.text_at("status"@) == Some(w@),
        args.classification matches Some(w) ==> value.text_at("classification"@) == Some(w@),
        args.author matches Some(w) ==> value.text_at("author"@) == Some(w@),
        args.tags@.len() == 0,
    ensures
        listed(entry_of(value, value.text_at("id"@)->0, value.text_at("type"@)->0, path), args, None, None),
{
    if let Some(w) = args.author {
        lemma_contains_self(ascii_lower_seq(w@));
    }
}

} // verus!
