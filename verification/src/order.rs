use vstd::prelude::*;
use crate::text::chars_of;

verus! {

/// `a < b` in the order of `String`'s `Ord`: lexicographic by character
/// (UTF-8 byte order is code-point order), a proper prefix first.
pub open spec fn lex_lt(a: Seq<char>, b: Seq<char>) -> bool
    decreases a.len(),
{
    if a.len() == 0 {
        b.len() > 0
    } else if b.len() == 0 {
        false
    } else if a[0] < b[0] {
        true
    } else if a[0] == b[0] {
        lex_lt(a.drop_first(), b.drop_first())
    } else {
        false
    }
}

pub proof fn lemma_lex_irreflexive(a: Seq<char>)
    ensures
        !lex_lt(a, a),
    decreases a.len(),
{
    if a.len() > 0 {
        lemma_lex_irreflexive(a.drop_first());
    }
}

pub proof fn lemma_lex_transitive(a: Seq<char>, b: Seq<char>, c: Seq<char>)
    requires
        lex_lt(a, b),
        lex_lt(b, c),
    ensures
        lex_lt(a, c),
    decreases a.len(),
{
    if a.len() > 0 && b.len() > 0 && c.len() > 0 {
        if a[0] == b[0] && b[0] == c[0] {
            lemma_lex_transitive(a.drop_first(), b.drop_first(), c.drop_first());
        }
    }
}

pub proof fn lemma_lex_total(a: Seq<char>, b: Seq<char>)
    ensures
        a == b || lex_lt(a, b) || lex_lt(b, a),
    decreases a.len(),
{
    if a.len() > 0 && b.len() > 0 && a[0] == b[0] {
        lemma_lex_total(a.drop_first(), b.drop_first());
        if a.drop_first() == b.drop_first() {
            assert(a =~= seq![a[0]] + a.drop_first());
            assert(b =~= seq![b[0]] + b.drop_first());
        }
    } else if a.len() == 0 && b.len() == 0 {
        assert(a =~= b);
    }
}

pub proof fn lemma_lex_asymmetric(a: Seq<char>, b: Seq<char>)
    requires
        lex_lt(a, b),
    ensures
        !lex_lt(b, a),
{
    if lex_lt(b, a) {
        lemma_lex_transitive(a, b, a);
        lemma_lex_irreflexive(a);
    }
}

/// `a < b` on character vectors.
pub fn chars_lt(a: &Vec<char>, b: &Vec<char>) -> (r: bool)
    ensures
        r == lex_lt(a@, b@),
{
    let mut i: usize = 0;
    assert(a@.skip(0) =~= a@ && b@.skip(0) =~= b@);
    while i < a.len() && i < b.len() && a[i] == b[i]
        invariant
            i <= a.len(),
            i <= b.len(),
            lex_lt(a@, b@) == lex_lt(a@.skip(i as int), b@.skip(i as int)),
        decreases a.len() - i,
    {
        assert(a@.skip(i as int).drop_first() =~= a@.skip(i + 1));
        assert(b@.skip(i as int).drop_first() =~= b@.skip(i + 1));
        i += 1;
    }
    let ghost sa = a@.skip(i as int);
    let ghost sb = b@.skip(i as int);
    if i == a.len() {
        assert(sa.len() == 0);
        i < b.len()
    } else if i == b.len() {
        assert(sb.len() == 0);
        false
    } else {
        assert(sa[0] == a@[i as int] && sb[0] == b@[i as int]);
        a[i] < b[i]
    }
}

/// The views of a list of texts.
pub open spec fn views(v: Seq<String>) -> Seq<Seq<char>> {
    v.map_values(|s: String| s@)
}

/// Strictly increasing.
pub open spec fn strictly_sorted(s: Seq<Seq<char>>) -> bool {
    forall|i: int, j: int| 0 <= i < j < s.len() ==> lex_lt(#[trigger] s[i], #[trigger] s[j])
}

/// No text occurs twice.
pub open spec fn distinct(s: Seq<Seq<char>>) -> bool {
    forall|i: int, j: int| 0 <= i < j < s.len() ==> #[trigger] s[i] != #[trigger] s[j]
}

/// Sorts distinct texts into increasing order.
pub fn sort_distinct_texts(v: Vec<String>) -> (r: Vec<String>)
    requires
        distinct(views(v@)),
    ensures
        strictly_sorted(views(r@)),
        views(r@).len() == views(v@).len(),
        views(r@).to_set() == views(v@).to_set(),
{
    let mut r: Vec<String> = Vec::new();
    let mut i: usize = 0;
    while i < v.len()
        invariant
            i <= v.len(),
            distinct(views(v@)),
            strictly_sorted(views(r@)),
            r.len() == i,
            views(r@).to_set() == views(v@.take(i as int)).to_set(),
        decreases v.len() - i,
    {
        let x = v[i].as_str();
        let xv = chars_of(x);
        let mut p: usize = 0;
        while p < r.len() && chars_lt(&chars_of(r[p].as_str()), &xv)
            invariant
                p <= r.len(),
                xv@ == x@,
                forall|k: int| 0 <= k < p ==> lex_lt(#[trigger] views(r@)[k], x@),
            decreases r.len() - p,
        {
            p += 1;
        }
        let ghost old_r = views(r@);
        proof {
            assert(!views(v@.take(i as int)).contains(x@)) by {
                if views(v@.take(i as int)).contains(x@) {
                    let k = choose|k: int| 0 <= k < i && views(v@.take(i as int))[k] == x@;
                    assert(views(v@)[k] == views(v@)[i as int]);
                }
            }
            assert(!old_r.to_set().contains(x@));
            if p < r.len() {
                assert(old_r[p as int] != x@) by {
                    assert(old_r.contains(old_r[p as int]));
                }
                lemma_lex_total(old_r[p as int], x@);
            }
            assert forall|k: int| p <= k < old_r.len() implies lex_lt(x@, #[trigger] old_r[k]) by {
                if k > p {
                    lemma_lex_transitive(x@, old_r[p as int], old_r[k]);
                }
            }
        }
        r.insert(p, v[i].clone());
        proof {
            let nr = views(r@);
            assert(nr =~= old_r.insert(p as int, x@));
            assert forall|a: int, b: int| 0 <= a < b < nr.len() implies lex_lt(
                #[trigger] nr[a],
                #[trigger] nr[b],
            ) by {
                if a < p && b == p {
                } else if a == p {
                } else if a < p && b > p {
                    assert(nr[b] == old_r[b - 1]);
                } else if a > p {
                    assert(nr[a] == old_r[a - 1] && nr[b] == old_r[b - 1]);
                } else {
                    assert(nr[a] == old_r[a] && nr[b] == old_r[b]);
                }
            }
            assert(views(v@.take(i + 1)) =~= views(v@.take(i as int)).push(x@));
            assert(nr.to_set() =~= old_r.to_set().insert(x@)) by {
                assert forall|y: Seq<char>| nr.to_set().contains(y) <==> old_r.to_set().insert(x@).contains(y) by {
                    if nr.contains(y) {
                        let k = choose|k: int| 0 <= k < nr.len() && nr[k] == y;
                        if k < p {
                            assert(old_r[k] == y);
                        } else if k > p {
                            assert(old_r[k - 1] == y);
                        }
                    }
                    if old_r.contains(y) {
                        let k = choose|k: int| 0 <= k < old_r.len() && old_r[k] == y;
                        if k < p {
                            assert(nr[k] == y);
                        } else {
                            assert(nr[k + 1] == y);
                        }
                    }
                    if y == x@ {
                        assert(nr[p as int] == y);
                    }
                }
            }
            assert(views(v@.take(i + 1)).to_set() =~= views(v@.take(i as int)).to_set().insert(x@)) by {
                let s = views(v@.take(i as int));
                assert forall|y: Seq<char>| s.push(x@).to_set().contains(y) <==> s.to_set().insert(x@).contains(y) by {
                    if s.push(x@).contains(y) {
                        let k = choose|k: int| 0 <= k < s.len() + 1 && s.push(x@)[k] == y;
                        if k < s.len() {
                            assert(s[k] == y);
                        }
                    }
                    if s.contains(y) {
                        let k = choose|k: int| 0 <= k < s.len() && s[k] == y;
                        assert(s.push(x@)[k] == y);
                    }
                    if y == x@ {
                        assert(s.push(x@)[s.len() as int] == y);
                    }
                }
            }
        }
        i += 1;
    }
    assert(v@.take(v.len() as int) =~= v@);
    r
}

} // verus!
