use vstd::prelude::*;

verus! {

/// The ASCII lower-case form of one character; every other character is kept.
pub open spec fn ascii_lower(c: char) -> char {
    if 'A' <= c && c <= 'Z' {
        ((c as u32) + 32) as char
    } else {
        c
    }
}

/// `to_ascii_lowercase` on a whole text.
pub open spec fn ascii_lower_seq(s: Seq<char>) -> Seq<char> {
    s.map_values(|c: char| ascii_lower(c))
}

/// `eq_ignore_ascii_case`: equal after ASCII lower-casing.
pub open spec fn eq_ignore_case(a: Seq<char>, b: Seq<char>) -> bool {
    ascii_lower_seq(a) == ascii_lower_seq(b)
}

/// The characters with the Unicode `White_Space` property, which `char::is_whitespace`
/// and `str::trim` test for.
pub open spec fn is_white_space(c: char) -> bool {
    ||| '\u{9}' <= c && c <= '\u{d}'
    ||| c == ' '
    ||| c == '\u{85}'
    ||| c == '\u{a0}'
    ||| c == '\u{1680}'
    ||| '\u{2000}' <= c && c <= '\u{200a}'
    ||| c == '\u{2028}'
    ||| c == '\u{2029}'
    ||| c == '\u{202f}'
    ||| c == '\u{205f}'
    ||| c == '\u{3000}'
}

/// A text that `str::trim` turns into the empty text.
pub open spec fn is_blank(s: Seq<char>) -> bool {
    forall|i: int| 0 <= i < s.len() ==> is_white_space(#[trigger] s[i])
}

/// `s` occurs in `t` at position `i`.
pub open spec fn occurs_at(t: Seq<char>, s: Seq<char>, i: int) -> bool {
    0 <= i && i + s.len() <= t.len() && t.subrange(i, i + s.len()) == s
}

/// `str::contains` for a text pattern.
pub open spec fn contains_text(t: Seq<char>, s: Seq<char>) -> bool {
    exists|i: int| occurs_at(t, s, i)
}

/// Number of leading white-space characters.
pub open spec fn lead_ws(s: Seq<char>) -> nat
    decreases s.len(),
{
    if s.len() > 0 && is_white_space(s[0]) {
        1 + lead_ws(s.drop_first())
    } else {
        0
    }
}

/// Number of trailing white-space characters.
pub open spec fn trail_ws(s: Seq<char>) -> nat
    decreases s.len(),
{
    if s.len() > 0 && is_white_space(s.last()) {
        1 + trail_ws(s.drop_last())
    } else {
        0
    }
}

/// `str::trim`: the text without its leading and trailing white space.
pub open spec fn trim_seq(s: Seq<char>) -> Seq<char> {
    let t = s.skip(lead_ws(s) as int);
    t.take(t.len() - trail_ws(t))
}

pub fn white_space(c: char) -> (r: bool)
    ensures
        r == is_white_space(c),
{
    ('\u{9}' <= c && c <= '\u{d}') || c == ' ' || c == '\u{85}' || c == '\u{a0}' || c == '\u{1680}'
        || ('\u{2000}' <= c && c <= '\u{200a}') || c == '\u{2028}' || c == '\u{2029}'
        || c == '\u{202f}' || c == '\u{205f}' || c == '\u{3000}'
}

pub fn lower_char(c: char) -> (r: char)
    ensures
        r == ascii_lower(c),
{
    if 'A' <= c && c <= 'Z' {
        let b: u8 = c as u8;
        (b + 32) as char
    } else {
        c
    }
}

/// Appends one character with `String::push`.
///
/// Trusted: the text afterwards is the text before with `c` added at the end,
/// as std documents.
#[verifier::external_body]
pub(crate) fn push_char(s: &mut String, c: char)
    ensures
        final(s)@ == old(s)@.push(c),
{
    s.push(c);
}

/// The characters of `s`, in order.
pub fn chars_of(s: &str) -> (v: Vec<char>)
    ensures
        v@ == s@,
{
    let mut v: Vec<char> = Vec::new();
    for c in it: s.chars()
        invariant
            v@ == it.seq().take(it.index() as int),
    {
        v.push(c);
    }
    v
}

/// A text made of the characters `v[from..to]`.
pub fn text_of(v: &Vec<char>, from: usize, to: usize) -> (s: String)
    requires
        from <= to <= v.len(),
    ensures
        s@ == v@.subrange(from as int, to as int),
{
    let mut s = String::new();
    let mut i = from;
    while i < to
        invariant
            from <= i <= to <= v.len(),
            s@ == v@.subrange(from as int, i as int),
        decreases to - i,
    {
        push_char(&mut s, v[i]);
        assert(v@.subrange(from as int, i + 1) == v@.subrange(from as int, i as int).push(v@[i as int]));
        i += 1;
    }
    s
}

/// Appends the text `t`.
pub fn push_text(s: &mut String, t: &str)
    ensures
        final(s)@ == old(s)@ + t@,
{
    let tv = chars_of(t);
    let mut i: usize = 0;
    while i < tv.len()
        invariant
            i <= tv.len(),
            tv@ == t@,
            s@ == old(s)@ + tv@.take(i as int),
        decreases tv.len() - i,
    {
        push_char(s, tv[i]);
        assert(tv@.take(i + 1) =~= tv@.take(i as int).push(tv@[i as int]));
        i += 1;
    }
    assert(tv@.take(tv.len() as int) =~= tv@);
}

/// An owned copy of `s`.
pub fn owned(s: &str) -> (r: String)
    ensures
        r@ == s@,
{
    s.to_owned()
}

pub fn same_chars(a: &Vec<char>, b: &Vec<char>) -> (r: bool)
    ensures
        r == (a@ == b@),
{
    if a.len() != b.len() {
        return false;
    }
    let mut i: usize = 0;
    while i < a.len()
        invariant
            a.len() == b.len(),
            i <= a.len(),
            forall|j: int| 0 <= j < i ==> a@[j] == b@[j],
        decreases a.len() - i,
    {
        if a[i] != b[i] {
            return false;
        }
        i += 1;
    }
    assert(a@ =~= b@);
    true
}

/// `a == b` on texts.
pub fn str_eq(a: &str, b: &str) -> (r: bool)
    ensures
        r == (a@ == b@),
{
    let av = chars_of(a);
    let bv = chars_of(b);
    same_chars(&av, &bv)
}

/// `a.eq_ignore_ascii_case(b)`.
pub fn eq_ignore_ascii_case(a: &str, b: &str) -> (r: bool)
    ensures
        r == eq_ignore_case(a@, b@),
{
    let av = chars_of(a);
    let bv = chars_of(b);
    if av.len() != bv.len() {
        proof {
            assert(ascii_lower_seq(a@).len() != ascii_lower_seq(b@).len());
        }
        return false;
    }
    let mut i: usize = 0;
    while i < av.len()
        invariant
            av@ == a@,
            bv@ == b@,
            av.len() == bv.len(),
            i <= av.len(),
            forall|j: int| 0 <= j < i ==> ascii_lower(a@[j]) == ascii_lower(b@[j]),
        decreases av.len() - i,
    {
        if lower_char(av[i]) != lower_char(bv[i]) {
            proof {
                assert(ascii_lower_seq(a@)[i as int] != ascii_lower_seq(b@)[i as int]);
            }
            return false;
        }
        i += 1;
    }
    assert(ascii_lower_seq(a@) =~= ascii_lower_seq(b@));
    true
}

/// `s.to_ascii_lowercase()`.
pub fn to_ascii_lower(s: &str) -> (r: String)
    ensures
        r@ == ascii_lower_seq(s@),
{
    let v = chars_of(s);
    let mut r = String::new();
    let mut i: usize = 0;
    while i < v.len()
        invariant
            v@ == s@,
            i <= v.len(),
            r@ == ascii_lower_seq(s@.take(i as int)),
        decreases v.len() - i,
    {
        let c = lower_char(v[i]);
        push_char(&mut r, c);
        assert(ascii_lower_seq(s@.take(i + 1)) =~= ascii_lower_seq(s@.take(i as int)).push(c));
        i += 1;
    }
    assert(s@.take(v.len() as int) =~= s@);
    r
}

/// `s.trim().is_empty()`.
pub fn is_blank_text(s: &str) -> (r: bool)
    ensures
        r == is_blank(s@),
{
    let v = chars_of(s);
    let mut i: usize = 0;
    while i < v.len()
        invariant
            v@ == s@,
            i <= v.len(),
            forall|j: int| 0 <= j < i ==> is_white_space(s@[j]),
        decreases v.len() - i,
    {
        if !white_space(v[i]) {
            return false;
        }
        i += 1;
    }
    true
}

proof fn lemma_lead_ws(s: Seq<char>, i: int)
    requires
        0 <= i <= s.len(),
        forall|j: int| 0 <= j < i ==> is_white_space(#[trigger] s[j]),
        i == s.len() || !is_white_space(s[i]),
    ensures
        lead_ws(s) == i,
    decreases s.len(),
{
    if i > 0 {
        assert forall|j: int| 0 <= j < i - 1 implies is_white_space(#[trigger] s.drop_first()[j]) by {
            assert(s.drop_first()[j] == s[j + 1]);
        }
        lemma_lead_ws(s.drop_first(), i - 1);
    }
}

proof fn lemma_trail_ws(s: Seq<char>, k: int)
    requires
        0 <= k <= s.len(),
        forall|j: int| s.len() - k <= j < s.len() ==> is_white_space(#[trigger] s[j]),
        k == s.len() || !is_white_space(s[s.len() - k - 1]),
    ensures
        trail_ws(s) == k,
    decreases s.len(),
{
    if k > 0 {
        let t = s.drop_last();
        assert forall|j: int| t.len() - (k - 1) <= j < t.len() implies is_white_space(#[trigger] t[j]) by {
            assert(t[j] == s[j]);
        }
        if k - 1 < t.len() {
            assert(t[t.len() - (k - 1) - 1] == s[s.len() - k - 1]);
        }
        lemma_trail_ws(t, k - 1);
    }
}

/// The characters of `s.trim()`.
pub fn trimmed_chars(s: &str) -> (r: Vec<char>)
    ensures
        r@ == trim_seq(s@),
{
    let v = chars_of(s);
    let mut a: usize = 0;
    while a < v.len() && white_space(v[a])
        invariant
            v@ == s@,
            a <= v.len(),
            forall|j: int| 0 <= j < a ==> is_white_space(#[trigger] s@[j]),
        decreases v.len() - a,
    {
        a += 1;
    }
    proof {
        lemma_lead_ws(s@, a as int);
    }
    let mut b: usize = v.len();
    while b > a && white_space(v[b - 1])
        invariant
            v@ == s@,
            a <= b <= v.len(),
            forall|j: int| b <= j < v.len() ==> is_white_space(#[trigger] s@[j]),
        decreases b - a,
    {
        b -= 1;
    }
    let ghost t = s@.skip(a as int);
    proof {
        let k = (v.len() - b) as int;
        assert forall|j: int| t.len() - k <= j < t.len() implies is_white_space(#[trigger] t[j]) by {
            assert(t[j] == s@[j + a]);
        }
        if k < t.len() {
            assert(t[t.len() - k - 1] == s@[b - 1]);
        }
        lemma_trail_ws(t, k);
    }
    let mut r: Vec<char> = Vec::new();
    let mut i = a;
    while i < b
        invariant
            v@ == s@,
            a <= i <= b <= v.len(),
            r@ == s@.subrange(a as int, i as int),
        decreases b - i,
    {
        r.push(v[i]);
        assert(s@.subrange(a as int, i + 1) == s@.subrange(a as int, i as int).push(s@[i as int]));
        i += 1;
    }
    assert(r@ =~= trim_seq(s@));
    r
}

/// `s` occurs in `t` at position `i` (on character vectors).
pub fn occurs_here(t: &Vec<char>, s: &Vec<char>, i: usize) -> (r: bool)
    requires
        i + s.len() <= t.len(),
    ensures
        r == occurs_at(t@, s@, i as int),
{
    let mut k: usize = 0;
    while k < s.len()
        invariant
            i + s.len() <= t.len(),
            k <= s.len(),
            forall|j: int| 0 <= j < k ==> t@[i + j] == s@[j],
        decreases s.len() - k,
    {
        if t[i + k] != s[k] {
            assert(t@.subrange(i as int, i + s.len())[k as int] != s@[k as int]);
            return false;
        }
        k += 1;
    }
    assert(t@.subrange(i as int, i + s.len()) =~= s@);
    true
}

/// `t.contains(s)` on character vectors.
pub fn contains_chars(t: &Vec<char>, s: &Vec<char>) -> (r: bool)
    ensures
        r == contains_text(t@, s@),
{
    if s.len() > t.len() {
        assert(!contains_text(t@, s@));
        return false;
    }
    let mut i: usize = 0;
    let last = t.len() - s.len();
    while i < last
        invariant
            s.len() <= t.len(),
            last == t.len() - s.len(),
            i <= last,
            forall|j: int| 0 <= j < i ==> !occurs_at(t@, s@, j),
        decreases last - i,
    {
        if occurs_here(t, s, i) {
            return true;
        }
        i += 1;
    }
    if occurs_here(t, s, last) {
        return true;
    }
    assert forall|j: int| !occurs_at(t@, s@, j) by {
        if 0 <= j && j + s.len() <= t.len() && j != last {
            assert(j < i);
        }
    }
    false
}

/// The first position of `s` in `t`, if any.
pub open spec fn first_occurrence(t: Seq<char>, s: Seq<char>) -> int {
    choose|i: int| occurs_at(t, s, i) && forall|j: int| 0 <= j < i ==> !occurs_at(t, s, j)
}

/// `t.find(s)` on character vectors: the first position of `s` in `t`.
pub fn find_chars(t: &Vec<char>, s: &Vec<char>) -> (r: Option<usize>)
    ensures
        r is None <==> !contains_text(t@, s@),
        r matches Some(i) ==> i == first_occurrence(t@, s@) && occurs_at(t@, s@, i as int),
{
    if s.len() > t.len() {
        assert(!contains_text(t@, s@));
        return None;
    }
    let mut i: usize = 0;
    let last = t.len() - s.len();
    loop
        invariant
            s.len() <= t.len(),
            last == t.len() - s.len(),
            i <= last,
            forall|j: int| 0 <= j < i ==> !occurs_at(t@, s@, j),
        ensures
            forall|j: int| 0 <= j <= last ==> !occurs_at(t@, s@, j),
        decreases last - i,
    {
        if occurs_here(t, s, i) {
            proof {
                let f = first_occurrence(t@, s@);
                assert(occurs_at(t@, s@, i as int) && forall|j: int| 0 <= j < i ==> !occurs_at(t@, s@, j));
                if f < i {
                    assert(!occurs_at(t@, s@, f));
                } else if f > i {
                    assert(!occurs_at(t@, s@, i as int));
                }
            }
            return Some(i);
        }
        if i == last {
            break;
        }
        i += 1;
    }
    assert forall|j: int| !occurs_at(t@, s@, j) by {
        if 0 <= j && j + s.len() <= t.len() {
            assert(j <= last);
        }
    }
    None
}

} // verus!
