use vstd::prelude::*;
use crate::form::Form;
use crate::json::Json;
use crate::records::{put, put_text};
use crate::guide::{to_lowercase, unicode_lower};
use crate::text::{
    chars_of, contains_chars, contains_text, is_blank, is_blank_text, is_white_space, occurs_at,
    push_char, push_text, text_of, white_space,
};

verus! {

/// What `char::is_alphanumeric` says of `c`: it has the Unicode `Alphabetic`
/// property, or a numeric general category (`Nd`, `Nl`, `No`).
pub uninterp spec fn is_alnum(c: char) -> bool;

/// Tests `c` with `char::is_alphanumeric`.
///
/// Trusted: the answer is whether `c` is alphabetic or numeric by the
/// Unicode tables that std carries, named by `is_alnum`; the tables are not
/// restated here.
#[verifier::external_body]
pub(crate) fn char_is_alphanumeric(c: char) -> (r: bool)
    ensures
        r == is_alnum(c),
{
    c.is_alphanumeric()
}

/// The number of bytes of `c` in UTF-8.
pub open spec fn char_width(c: char) -> nat {
    if (c as u32) < 0x80 {
        1
    } else if (c as u32) < 0x800 {
        2
    } else if (c as u32) < 0x1_0000 {
        3
    } else {
        4
    }
}

/// The number of bytes of `s` in UTF-8 (what `str::len` counts).
pub open spec fn utf8_len(s: Seq<char>) -> nat
    decreases s.len(),
{
    if s.len() == 0 {
        0
    } else {
        utf8_len(s.drop_last()) + char_width(s.last())
    }
}

pub fn width_of(c: char) -> (r: usize)
    ensures
        r == char_width(c),
{
    let u = c as u32;
    if u < 0x80 {
        1
    } else if u < 0x800 {
        2
    } else if u < 0x1_0000 {
        3
    } else {
        4
    }
}

proof fn lemma_utf8_len_grows(s: Seq<char>, i: int, j: int)
    requires
        0 <= i <= j <= s.len(),
    ensures
        utf8_len(s.take(i)) + (j - i) <= utf8_len(s.take(j)),
    decreases j - i,
{
    if i < j {
        lemma_utf8_len_grows(s, i, j - 1);
        assert(s.take(j).drop_last() =~= s.take(j - 1));
    }
}

/// The decimal digits of `n`.
pub open spec fn decimal(n: nat) -> Seq<char>
    decreases n,
{
    if n < 10 {
        seq![digit(n)]
    } else {
        decimal(n / 10).push(digit(n % 10))
    }
}

/// The digit character for `d < 10`.
pub open spec fn digit(d: nat) -> char {
    if d == 0 {
        '0'
    } else if d == 1 {
        '1'
    } else if d == 2 {
        '2'
    } else if d == 3 {
        '3'
    } else if d == 4 {
        '4'
    } else if d == 5 {
        '5'
    } else if d == 6 {
        '6'
    } else if d == 7 {
        '7'
    } else if d == 8 {
        '8'
    } else {
        '9'
    }
}

fn digit_char(d: usize) -> (c: char)
    requires
        d < 10,
    ensures
        c == digit(d as nat),
{
    if d == 0 {
        '0'
    } else if d == 1 {
        '1'
    } else if d == 2 {
        '2'
    } else if d == 3 {
        '3'
    } else if d == 4 {
        '4'
    } else if d == 5 {
        '5'
    } else if d == 6 {
        '6'
    } else if d == 7 {
        '7'
    } else if d == 8 {
        '8'
    } else {
        '9'
    }
}

/// Appends the decimal digits of `n`.
pub fn push_decimal(s: &mut String, n: usize)
    ensures
        final(s)@ == old(s)@ + decimal(n as nat),
    decreases n,
{
    if n < 10 {
        push_char(s, digit_char(n));
    } else {
        push_decimal(s, n / 10);
        push_char(s, digit_char(n % 10));
    }
}

/// `true` or `false`, as Rust writes a `bool`.
pub open spec fn bool_text(b: bool) -> Seq<char> {
    if b {
        "true"@
    } else {
        "false"@
    }
}

fn push_bool(s: &mut String, b: bool)
    ensures
        final(s)@ == old(s)@ + bool_text(b),
{
    if b {
        push_text(s, "true");
    } else {
        push_text(s, "false");
    }
}

/// The words of `s`, as `str::split_whitespace` yields them; `cur` is the
/// word being read.
pub open spec fn words_from(s: Seq<char>, cur: Seq<char>) -> Seq<Seq<char>>
    decreases s.len(),
{
    if s.len() == 0 {
        if cur.len() > 0 {
            seq![cur]
        } else {
            seq![]
        }
    } else if is_white_space(s[0]) {
        (if cur.len() > 0 {
            seq![cur]
        } else {
            seq![]
        }) + words_from(s.drop_first(), seq![])
    } else {
        words_from(s.drop_first(), cur.push(s[0]))
    }
}

/// The words of `s`: its maximal runs of characters that are not white space.
pub open spec fn words(s: Seq<char>) -> Seq<Seq<char>> {
    words_from(s, seq![])
}

proof fn lemma_words_step(s: Seq<char>, i: int, cur: Seq<char>, done: Seq<Seq<char>>)
    requires
        0 <= i < s.len(),
        words(s) == done + words_from(s.skip(i), cur),
    ensures
        is_white_space(s[i]) ==> words(s) == (done + (if cur.len() > 0 {
            seq![cur]
        } else {
            seq![]
        })) + words_from(s.skip(i + 1), seq![]),
        !is_white_space(s[i]) ==> words(s) == done + words_from(s.skip(i + 1), cur.push(s[i])),
{
    let t = s.skip(i);
    assert(t[0] == s[i]);
    assert(t.drop_first() =~= s.skip(i + 1));
    if is_white_space(s[i]) {
        assert((done + (if cur.len() > 0 {
            seq![cur]
        } else {
            seq![]
        })) + words_from(s.skip(i + 1), seq![]) =~= done + ((if cur.len() > 0 {
            seq![cur]
        } else {
            seq![]
        }) + words_from(s.skip(i + 1), seq![])));
    }
}

/// The words of `s`, as `split_whitespace` yields them.
pub fn split_words(s: &str) -> (r: Vec<Vec<char>>)
    ensures
        r@.map_values(|w: Vec<char>| w@) == words(s@),
{
    let v = chars_of(s);
    let mut out: Vec<Vec<char>> = Vec::new();
    let mut cur: Vec<char> = Vec::new();
    let mut i: usize = 0;
    assert(v@.skip(0) =~= v@);
    while i < v.len()
        invariant
            i <= v.len(),
            v@ == s@,
            words(s@) == out@.map_values(|w: Vec<char>| w@) + words_from(v@.skip(i as int), cur@),
        decreases v.len() - i,
    {
        proof {
            lemma_words_step(v@, i as int, cur@, out@.map_values(|w: Vec<char>| w@));
        }
        if white_space(v[i]) {
            if cur.len() > 0 {
                let ghost before = out@.map_values(|w: Vec<char>| w@);
                let ghost word = cur@;
                out.push(cur);
                assert(out@.map_values(|w: Vec<char>| w@) =~= before + seq![word]);
                cur = Vec::new();
            } else {
                assert(out@.map_values(|w: Vec<char>| w@) + seq![] =~= out@.map_values(|w: Vec<char>| w@));
            }
            assert(cur@ =~= seq![]);
        } else {
            cur.push(v[i]);
        }
        i += 1;
    }
    assert(v@.skip(i as int).len() == 0);
    if cur.len() > 0 {
        let ghost before = out@.map_values(|w: Vec<char>| w@);
        let ghost word = cur@;
        out.push(cur);
        assert(out@.map_values(|w: Vec<char>| w@) =~= before + seq![word]);
    } else {
        assert(out@.map_values(|w: Vec<char>| w@) + seq![] =~= out@.map_values(|w: Vec<char>| w@));
    }
    out
}

/// How many leading characters of `w` are not alphanumeric.
pub open spec fn lead_junk(w: Seq<char>) -> nat
    decreases w.len(),
{
    if w.len() > 0 && !is_alnum(w[0]) {
        1 + lead_junk(w.drop_first())
    } else {
        0
    }
}

/// How many trailing characters of `w` are not alphanumeric.
pub open spec fn trail_junk(w: Seq<char>) -> nat
    decreases w.len(),
{
    if w.len() > 0 && !is_alnum(w.last()) {
        1 + trail_junk(w.drop_last())
    } else {
        0
    }
}

/// `w` without its leading and trailing characters that are not
/// alphanumeric (`trim_matches(|c| !c.is_alphanumeric())`).
pub open spec fn strip_junk(w: Seq<char>) -> Seq<char> {
    let t = w.skip(lead_junk(w) as int);
    t.take(t.len() - trail_junk(t))
}

proof fn lemma_lead_junk(w: Seq<char>, i: int)
    requires
        0 <= i <= w.len(),
        forall|j: int| 0 <= j < i ==> !is_alnum(#[trigger] w[j]),
        i < w.len() ==> is_alnum(w[i]),
    ensures
        lead_junk(w) == i,
    decreases i,
{
    if i > 0 {
        assert forall|j: int| 0 <= j < i - 1 implies !is_alnum(#[trigger] w.drop_first()[j]) by {
            assert(w.drop_first()[j] == w[j + 1]);
        }
        if i < w.len() {
            assert(w.drop_first()[i - 1] == w[i]);
        }
        lemma_lead_junk(w.drop_first(), i - 1);
    }
}

proof fn lemma_trail_junk(w: Seq<char>, k: int)
    requires
        0 <= k <= w.len(),
        forall|j: int| w.len() - k <= j < w.len() ==> !is_alnum(#[trigger] w[j]),
        k < w.len() ==> is_alnum(w[w.len() - k - 1]),
    ensures
        trail_junk(w) == k,
    decreases k,
{
    if k > 0 {
        let d = w.drop_last();
        assert forall|j: int| d.len() - (k - 1) <= j < d.len() implies !is_alnum(#[trigger] d[j]) by {
            assert(d[j] == w[j]);
        }
        if k < w.len() {
            assert(d[d.len() - (k - 1) - 1] == w[w.len() - k - 1]);
        }
        lemma_trail_junk(d, k - 1);
    }
}

/// `w` with its non-alphanumeric ends removed.
pub fn strip_non_alnum(w: &Vec<char>) -> (r: Vec<char>)
    ensures
        r@ == strip_junk(w@),
{
    let mut a: usize = 0;
    while a < w.len() && !char_is_alphanumeric(w[a])
        invariant
            a <= w.len(),
            forall|j: int| 0 <= j < a ==> !is_alnum(#[trigger] w@[j]),
        decreases w.len() - a,
    {
        a += 1;
    }
    proof {
        lemma_lead_junk(w@, a as int);
    }
    let ghost t = w@.skip(a as int);
    let mut b: usize = w.len();
    while b > a && !char_is_alphanumeric(w[b - 1])
        invariant
            a <= b <= w.len(),
            t == w@.skip(a as int),
            forall|j: int| b <= j < w.len() ==> !is_alnum(#[trigger] w@[j]),
        decreases b - a,
    {
        b -= 1;
    }
    proof {
        let k = (w.len() - b) as int;
        assert forall|j: int| t.len() - k <= j < t.len() implies !is_alnum(#[trigger] t[j]) by {
            assert(t[j] == w@[j + a]);
        }
        if k < t.len() {
            assert(t[t.len() - k - 1] == w@[b - 1]);
        }
        lemma_trail_junk(t, k);
    }
    let mut r: Vec<char> = Vec::new();
    let mut i = a;
    while i < b
        invariant
            a <= i <= b <= w.len(),
            r@ == w@.subrange(a as int, i as int),
        decreases b - i,
    {
        r.push(w[i]);
        assert(w@.subrange(a as int, i + 1) =~= w@.subrange(a as int, i as int).push(w@[i as int]));
        i += 1;
    }
    assert(r@ =~= strip_junk(w@));
    r
}

/// `utf8_len(v) >= n`, found without adding up more than `n + 3` bytes.
pub fn bytes_at_least(v: &Vec<char>, n: usize) -> (r: bool)
    requires
        n <= usize::MAX - 4,
    ensures
        r == (utf8_len(v@) >= n),
{
    let mut acc: usize = 0;
    let mut i: usize = 0;
    while i < v.len() && acc < n
        invariant
            i <= v.len(),
            acc == utf8_len(v@.take(i as int)),
            n <= usize::MAX - 4,
            acc < n + 4,
        decreases v.len() - i,
    {
        assert(v@.take(i + 1).drop_last() =~= v@.take(i as int));
        acc = acc + width_of(v[i]);
        i += 1;
    }
    proof {
        if acc < n {
            assert(v@.take(i as int) =~= v@);
        } else {
            lemma_utf8_len_grows(v@, i as int, v.len() as int);
            assert(v@.take(v.len() as int) =~= v@);
        }
    }
    acc >= n
}

/// The words that a rationale search looks for: the domain lower-cased
/// (when it is not blank), then the words of the title and of the
/// description, each with its non-alphanumeric ends removed and
/// lower-cased, kept when at least three bytes long and new, until there
/// are eight.
pub open spec fn keywords_of(f: Form) -> Seq<Seq<char>> {
    gather(
        (words(f.title@) + words(f.description@)).map_values(|w: Seq<char>| candidate(w)),
        if is_blank(f.domain@) {
            seq![]
        } else {
            seq![unicode_lower(f.domain@)]
        },
    )
}

/// The keyword candidate that a word gives.
pub open spec fn candidate(w: Seq<char>) -> Seq<char> {
    unicode_lower(strip_junk(w))
}

/// Adds the candidates `cands` to `kws`, in order, each when it is at least
/// three bytes long and not there yet, stopping once there are eight.
pub open spec fn gather(cands: Seq<Seq<char>>, kws: Seq<Seq<char>>) -> Seq<Seq<char>>
    decreases cands.len(),
{
    if cands.len() == 0 {
        kws
    } else {
        let p = cands[0];
        let next = if utf8_len(p) >= 3 && !kws.contains(p) {
            kws.push(p)
        } else {
            kws
        };
        if next.len() >= 8 {
            next
        } else {
            gather(cands.drop_first(), next)
        }
    }
}

fn has_text(v: &Vec<String>, t: &str) -> (r: bool)
    ensures
        r == crate::model::texts_view(v@).contains(t@),
{
    let mut i: usize = 0;
    while i < v.len()
        invariant
            i <= v.len(),
            forall|j: int| 0 <= j < i ==> v@[j]@ != t@,
        decreases v.len() - i,
    {
        if crate::text::str_eq(v[i].as_str(), t) {
            assert(crate::model::texts_view(v@)[i as int] == t@);
            return true;
        }
        i += 1;
    }
    assert(!crate::model::texts_view(v@).contains(t@)) by {
        if crate::model::texts_view(v@).contains(t@) {
            let k = choose|k: int| 0 <= k < v.len() && crate::model::texts_view(v@)[k] == t@;
            assert(v@[k]@ == t@);
        }
    }
    false
}

/// Adds keyword candidates to `start` as `gather` says.
pub fn gather_keywords(start: &Vec<String>, candidates: &Vec<String>) -> (r: Vec<String>)
    ensures
        crate::model::texts_view(r@) == gather(
            crate::model::texts_view(candidates@),
            crate::model::texts_view(start@),
        ),
{
    let ghost cv = crate::model::texts_view(candidates@);
    let mut kws = crate::model::copy_texts(start);
    let mut i: usize = 0;
    assert(cv.skip(0) =~= cv);
    while i < candidates.len()
        invariant
            i <= candidates.len(),
            cv == crate::model::texts_view(candidates@),
            gather(cv.skip(i as int), crate::model::texts_view(kws@)) == gather(
                cv,
                crate::model::texts_view(start@),
            ),
        decreases candidates.len() - i,
    {
        let p = &candidates[i];
        let pc = chars_of(p.as_str());
        let ghost kv = crate::model::texts_view(kws@);
        assert(cv.skip(i as int)[0] == p@);
        assert(cv.skip(i as int).drop_first() =~= cv.skip(i + 1));
        if bytes_at_least(&pc, 3) && !has_text(&kws, p.as_str()) {
            kws.push(p.clone());
            assert(crate::model::texts_view(kws@) =~= kv.push(pc@));
        }
        if kws.len() >= 8 {
            return kws;
        }
        i += 1;
    }
    assert(cv.skip(i as int).len() == 0);
    kws
}

/// The keyword candidate of a word: its non-alphanumeric ends removed,
/// lower-cased.
pub fn keyword_candidate(w: &Vec<char>) -> (r: String)
    ensures
        r@ == candidate(w@),
{
    let stripped = strip_non_alnum(w);
    let s = text_of(&stripped, 0, stripped.len());
    assert(stripped@.subrange(0, stripped.len() as int) =~= stripped@);
    to_lowercase(s.as_str())
}

/// The keywords of a form, as `keywords_of` says.
pub fn keywords(form: &Form) -> (r: Vec<String>)
    ensures
        crate::model::texts_view(r@) == keywords_of(*form),
{
    let mut start: Vec<String> = Vec::new();
    if !is_blank_text(form.domain.as_str()) {
        start.push(to_lowercase(form.domain.as_str()));
    }
    assert(crate::model::texts_view(start@) =~= if is_blank(form.domain@) {
        seq![]
    } else {
        seq![unicode_lower(form.domain@)]
    });
    let title = split_words(form.title.as_str());
    let description = split_words(form.description.as_str());
    let ghost tw = words(form.title@);
    let ghost dw = words(form.description@);
    let mut cands: Vec<String> = Vec::new();
    let mut j: usize = 0;
    while j < title.len()
        invariant
            j <= title.len(),
            title@.map_values(|w: Vec<char>| w@) == tw,
            crate::model::texts_view(cands@) == tw.take(j as int).map_values(|w: Seq<char>| candidate(w)),
        decreases title.len() - j,
    {
        assert(title@[j as int]@ == tw[j as int]);
        let c = keyword_candidate(&title[j]);
        let ghost before = crate::model::texts_view(cands@);
        cands.push(c);
        assert(crate::model::texts_view(cands@) =~= before.push(candidate(tw[j as int])));
        assert(tw.take(j + 1).map_values(|w: Seq<char>| candidate(w)) =~= tw.take(j as int).map_values(
            |w: Seq<char>| candidate(w),
        ).push(candidate(tw[j as int])));
        j += 1;
    }
    assert(tw.take(title.len() as int) =~= tw);
    let mut k: usize = 0;
    while k < description.len()
        invariant
            k <= description.len(),
            description@.map_values(|w: Vec<char>| w@) == dw,
            crate::model::texts_view(cands@) == (tw + dw.take(k as int)).map_values(
                |w: Seq<char>| candidate(w),
            ),
        decreases description.len() - k,
    {
        assert(description@[k as int]@ == dw[k as int]);
        let c = keyword_candidate(&description[k]);
        let ghost before = crate::model::texts_view(cands@);
        cands.push(c);
        assert(crate::model::texts_view(cands@) =~= before.push(candidate(dw[k as int])));
        assert((tw + dw.take(k + 1)).map_values(|w: Seq<char>| candidate(w)) =~= (tw + dw.take(
            k as int,
        )).map_values(|w: Seq<char>| candidate(w)).push(candidate(dw[k as int])));
        k += 1;
    }
    assert(dw.take(description.len() as int) =~= dw);
    gather_keywords(&start, &cands)
}

/// The lines of `s`, as `str::lines` yields them: split at `\n`, a `\r`
/// just before the `\n` dropped, no empty line after a final `\n`; `cur`
/// is the line being read.
pub open spec fn lines_from(s: Seq<char>, cur: Seq<char>) -> Seq<Seq<char>>
    decreases s.len(),
{
    if s.len() == 0 {
        if cur.len() > 0 {
            seq![cur]
        } else {
            seq![]
        }
    } else if s[0] == '\n' {
        seq![strip_cr(cur)] + lines_from(s.drop_first(), seq![])
    } else {
        lines_from(s.drop_first(), cur.push(s[0]))
    }
}

/// A line without the `\r` that ended it.
pub open spec fn strip_cr(l: Seq<char>) -> Seq<char> {
    if l.len() > 0 && l.last() == '\r' {
        l.drop_last()
    } else {
        l
    }
}

/// The lines of `s`.
pub open spec fn lines(s: Seq<char>) -> Seq<Seq<char>> {
    lines_from(s, seq![])
}

/// The lines of `s`, as `str::lines` yields them.
pub fn split_lines(s: &str) -> (r: Vec<Vec<char>>)
    ensures
        r@.map_values(|w: Vec<char>| w@) == lines(s@),
{
    let v = chars_of(s);
    let mut out: Vec<Vec<char>> = Vec::new();
    let mut cur: Vec<char> = Vec::new();
    let mut i: usize = 0;
    assert(v@.skip(0) =~= v@);
    while i < v.len()
        invariant
            i <= v.len(),
            v@ == s@,
            lines(s@) == out@.map_values(|w: Vec<char>| w@) + lines_from(v@.skip(i as int), cur@),
        decreases v.len() - i,
    {
        let ghost t = v@.skip(i as int);
        assert(t[0] == v@[i as int]);
        assert(t.drop_first() =~= v@.skip(i + 1));
        if v[i] == '\n' {
            let ghost before = out@.map_values(|w: Vec<char>| w@);
            let ghost old_cur = cur@;
            if cur.len() > 0 && cur[cur.len() - 1] == '\r' {
                cur.pop();
            }
            assert(cur@ == strip_cr(old_cur));
            out.push(cur);
            assert(out@.map_values(|w: Vec<char>| w@) =~= before + seq![strip_cr(old_cur)]);
            assert(before + (seq![strip_cr(old_cur)] + lines_from(v@.skip(i + 1), seq![])) =~= (before
                + seq![strip_cr(old_cur)]) + lines_from(v@.skip(i + 1), seq![]));
            cur = Vec::new();
            assert(cur@ =~= seq![]);
        } else {
            cur.push(v[i]);
        }
        i += 1;
    }
    assert(v@.skip(i as int).len() == 0);
    if cur.len() > 0 {
        let ghost before = out@.map_values(|w: Vec<char>| w@);
        let ghost line = cur@;
        out.push(cur);
        assert(out@.map_values(|w: Vec<char>| w@) =~= before + seq![line]);
    } else {
        assert(out@.map_values(|w: Vec<char>| w@) + seq![] =~= out@.map_values(|w: Vec<char>| w@));
    }
    out
}

/// A line longer than 200 bytes can be cut at byte 200 only on a
/// character boundary (`&line[..200]` panics otherwise).
pub open spec fn cuttable(line: Seq<char>) -> bool {
    utf8_len(line) <= 200 || exists|k: int| 0 <= k <= line.len() && #[trigger] utf8_len(line.take(k)) == 200
}

/// Where the first 200 bytes of `line` end.
pub open spec fn cut_point(line: Seq<char>) -> int {
    choose|k: int| 0 <= k <= line.len() && #[trigger] utf8_len(line.take(k)) == 200
}

/// The excerpt of a matching line: its first 200 bytes and `...` when it
/// is longer, else the line.
pub open spec fn snippet_of(line: Seq<char>) -> Seq<char> {
    if utf8_len(line) > 200 {
        line.take(cut_point(line)) + "..."@
    } else {
        line
    }
}

proof fn lemma_take_full(s: Seq<char>)
    ensures
        s.take(s.len() as int) == s,
{
    assert(s.take(s.len() as int) =~= s);
}

/// The excerpt of a matching line.
pub fn snippet(line: &Vec<char>) -> (r: String)
    requires
        cuttable(line@),
    ensures
        r@ == snippet_of(line@),
{
    if bytes_at_least(line, 201) {
        let mut acc: usize = 0;
        let mut k: usize = 0;
        while k < line.len() && acc < 200
            invariant
                k <= line.len(),
                acc == utf8_len(line@.take(k as int)),
                acc < 204,
                k > 0 ==> utf8_len(line@.take(k - 1)) < 200,
            decreases line.len() - k,
        {
            assert(line@.take(k + 1).drop_last() =~= line@.take(k as int));
            acc = acc + width_of(line[k]);
            k += 1;
            assert(line@.take(k as int).drop_last() =~= line@.take(k - 1));
        }
        proof {
            lemma_take_full(line@);
            if k == line.len() {
                assert(acc >= 201);
            }
            let k0 = choose|k0: int| 0 <= k0 <= line.len() && #[trigger] utf8_len(line@.take(k0)) == 200;
            if k0 < k {
                lemma_utf8_len_grows(line@, k0, k - 1);
            } else if k0 > k {
                lemma_utf8_len_grows(line@, k as int, k0);
            }
            assert(k0 == k);
            assert(cut_point(line@) == k) by {
                let c = cut_point(line@);
                if c < k {
                    lemma_utf8_len_grows(line@, c, k as int);
                } else if c > k {
                    lemma_utf8_len_grows(line@, k as int, c);
                }
            }
        }
        let mut r = text_of(line, 0, k);
        assert(line@.subrange(0, k as int) =~= line@.take(k as int));
        push_text(&mut r, "...");
        r
    } else {
        let r = text_of(line, 0, line.len());
        assert(line@.subrange(0, line.len() as int) =~= line@);
        r
    }
}

/// Whether a matching line can be cut for its excerpt.
pub fn can_cut(line: &Vec<char>) -> (r: bool)
    ensures
        r == cuttable(line@),
{
    if !bytes_at_least(line, 201) {
        return true;
    }
    let mut acc: usize = 0;
    let mut k: usize = 0;
    while k < line.len() && acc < 200
        invariant
            k <= line.len(),
            acc == utf8_len(line@.take(k as int)),
            acc < 204,
            k > 0 ==> utf8_len(line@.take(k - 1)) < 200,
        decreases line.len() - k,
    {
        assert(line@.take(k + 1).drop_last() =~= line@.take(k as int));
        acc = acc + width_of(line[k]);
        k += 1;
        assert(line@.take(k as int).drop_last() =~= line@.take(k - 1));
    }
    proof {
        lemma_take_full(line@);
        if k == line.len() {
            assert(acc >= 201);
        }
        if acc != 200 {
            assert forall|k0: int| 0 <= k0 <= line.len() implies #[trigger] utf8_len(line@.take(k0)) != 200 by {
                if k0 < k {
                    lemma_utf8_len_grows(line@, k0, k - 1);
                } else if k0 > k {
                    lemma_utf8_len_grows(line@, k as int, k0);
                }
            }
        }
    }
    acc == 200
}

/// Whether `scan_text` can cut every excerpt it would make (a line cut
/// inside a character would make the cut fail).
pub fn scan_is_safe(text: &str, keywords: &Vec<String>, limit: usize) -> (r: bool)
    ensures
        r == (forall|i: int|
            0 <= i < hits(lines(text@), crate::model::texts_view(keywords@)).len() && i < limit
                ==> cuttable(#[trigger] hits(lines(text@), crate::model::texts_view(keywords@))[i].1)),
{
    let ghost kws = crate::model::texts_view(keywords@);
    let mut kv: Vec<Vec<char>> = Vec::new();
    let mut j: usize = 0;
    while j < keywords.len()
        invariant
            j <= keywords.len(),
            kws == crate::model::texts_view(keywords@),
            kv@.map_values(|k: Vec<char>| k@) == kws.take(j as int),
        decreases keywords.len() - j,
    {
        let c = chars_of(keywords[j].as_str());
        let ghost before = kv@.map_values(|k: Vec<char>| k@);
        kv.push(c);
        assert(kv@.map_values(|k: Vec<char>| k@) =~= before.push(kws[j as int]));
        assert(kws.take(j + 1) =~= kws.take(j as int).push(kws[j as int]));
        j += 1;
    }
    assert(kws.take(keywords.len() as int) =~= kws);
    let ls = split_lines(text);
    let ghost lv = ls@.map_values(|w: Vec<char>| w@);
    let ghost h = hits(lv, kws);
    let mut count: usize = 0;
    let mut i: usize = 0;
    while i < ls.len()
        invariant
            i <= ls.len(),
            lv == ls@.map_values(|w: Vec<char>| w@),
            lv == lines(text@),
            h == hits(lv, kws),
            kws == crate::model::texts_view(keywords@),
            kv@.map_values(|k: Vec<char>| k@) == kws,
            count == hits(lv.take(i as int), kws).len(),
            forall|k: int| 0 <= k < count && k < limit ==> cuttable(#[trigger] h[k].1),
        decreases ls.len() - i,
    {
        if count >= limit {
            proof {
                lemma_hits_prefix(lv, kws, i as int);
            }
            return true;
        }
        let ghost before = hits(lv.take(i as int), kws);
        assert(lv.take(i + 1).drop_last() =~= lv.take(i as int));
        assert(lv.take(i + 1).last() == lv[i as int]);
        proof {
            lemma_hits_prefix(lv, kws, i as int);
            lemma_hits_prefix(lv, kws, i + 1);
        }
        if line_matches(&ls[i], &kv) {
            let ghost now = hits(lv.take(i + 1), kws);
            assert(now =~= before + seq![((i + 1) as nat, lv[i as int])]);
            assert(h[count as int] == now[count as int]);
            if !can_cut(&ls[i]) {
                assert(!cuttable(h[count as int].1));
                return false;
            }
            count = count + 1;
        } else {
            assert(hits(lv.take(i + 1), kws) =~= before);
        }
        i += 1;
    }
    assert(lv.take(i as int) =~= lv);
    true
}

/// Some keyword occurs in the lower-cased line.
pub open spec fn line_hits(line: Seq<char>, kws: Seq<Seq<char>>) -> bool {
    exists|i: int| 0 <= i < kws.len() && contains_text(unicode_lower(line), #[trigger] kws[i])
}

/// The matching lines of `ls`, each with its number (counted from 1).
pub open spec fn hits(ls: Seq<Seq<char>>, kws: Seq<Seq<char>>) -> Seq<(nat, Seq<char>)>
    decreases ls.len(),
{
    if ls.len() == 0 {
        seq![]
    } else {
        hits(ls.drop_last(), kws) + if line_hits(ls.last(), kws) {
            seq![(ls.len(), ls.last())]
        } else {
            seq![]
        }
    }
}

proof fn lemma_hits_prefix(ls: Seq<Seq<char>>, kws: Seq<Seq<char>>, i: int)
    requires
        0 <= i <= ls.len(),
    ensures
        hits(ls, kws).len() >= hits(ls.take(i), kws).len(),
        hits(ls, kws).take(hits(ls.take(i), kws).len() as int) == hits(ls.take(i), kws),
    decreases ls.len() - i,
{
    if i == ls.len() {
        assert(ls.take(i) =~= ls);
        assert(hits(ls, kws).take(hits(ls, kws).len() as int) =~= hits(ls, kws));
    } else {
        lemma_hits_prefix(ls, kws, i + 1);
        assert(ls.take(i + 1).drop_last() =~= ls.take(i));
        let a = hits(ls.take(i), kws);
        let b = hits(ls.take(i + 1), kws);
        assert(b.take(a.len() as int) =~= a);
        assert(hits(ls, kws).take(a.len() as int) =~= b.take(a.len() as int));
    }
}

/// How many local matches a rationale search gathers at most.
pub const LOCAL_MATCH_LIMIT: usize = 10;

/// A line of a file that mentions a keyword.
pub struct LocalMatch {
    pub path: String,
    pub lineno: usize,
    pub snippet: String,
}

/// The mathematical form of a match: path, line number, excerpt.
pub open spec fn match_view(m: LocalMatch) -> (Seq<char>, nat, Seq<char>) {
    (m.path@, m.lineno as nat, m.snippet@)
}

/// The views of a list of matches.
pub open spec fn matches_view(v: Seq<LocalMatch>) -> Seq<(Seq<char>, nat, Seq<char>)> {
    v.map_values(|m: LocalMatch| match_view(m))
}

/// The matches that numbered lines of the file at `path` give.
pub open spec fn excerpts(path: Seq<char>, h: Seq<(nat, Seq<char>)>) -> Seq<(Seq<char>, nat, Seq<char>)> {
    h.map_values(|x: (nat, Seq<char>)| (path, x.0, snippet_of(x.1)))
}

/// The matches that the first `limit` matching lines give.
pub open spec fn found_in(path: Seq<char>, text: Seq<char>, kws: Seq<Seq<char>>, limit: nat) -> Seq<
    (Seq<char>, nat, Seq<char>),
> {
    let h = hits(lines(text), kws);
    let n = if h.len() < limit {
        h.len()
    } else {
        limit
    };
    excerpts(path, h.take(n as int))
}

fn line_matches(line: &Vec<char>, kws: &Vec<Vec<char>>) -> (r: bool)
    ensures
        r == line_hits(line@, kws@.map_values(|k: Vec<char>| k@)),
{
    let text = text_of(line, 0, line.len());
    assert(line@.subrange(0, line.len() as int) =~= line@);
    let low = to_lowercase(text.as_str());
    let lv = chars_of(low.as_str());
    let ghost kv = kws@.map_values(|k: Vec<char>| k@);
    let mut i: usize = 0;
    while i < kws.len()
        invariant
            i <= kws.len(),
            lv@ == unicode_lower(line@),
            kv == kws@.map_values(|k: Vec<char>| k@),
            forall|j: int| 0 <= j < i ==> !contains_text(unicode_lower(line@), #[trigger] kv[j]),
        decreases kws.len() - i,
    {
        if contains_chars(&lv, &kws[i]) {
            assert(contains_text(unicode_lower(line@), kv[i as int]));
            return true;
        }
        i += 1;
    }
    false
}

/// Looks through the text of the file at `path` for lines that mention a
/// keyword, lower-cased, keeping at most `limit` of them, each with its
/// line number and excerpt.
pub fn scan_text(path: &str, text: &str, keywords: &Vec<String>, limit: usize) -> (r: Vec<LocalMatch>)
    requires
        forall|i: int|
            0 <= i < hits(lines(text@), crate::model::texts_view(keywords@)).len() && i < limit
                ==> cuttable(#[trigger] hits(lines(text@), crate::model::texts_view(keywords@))[i].1),
    ensures
        matches_view(r@) == found_in(
            path@,
            text@,
            crate::model::texts_view(keywords@),
            limit as nat,
        ),
{
    let ghost kws = crate::model::texts_view(keywords@);
    let mut kv: Vec<Vec<char>> = Vec::new();
    let mut j: usize = 0;
    while j < keywords.len()
        invariant
            j <= keywords.len(),
            kws == crate::model::texts_view(keywords@),
            kv@.map_values(|k: Vec<char>| k@) == kws.take(j as int),
        decreases keywords.len() - j,
    {
        let c = chars_of(keywords[j].as_str());
        let ghost before = kv@.map_values(|k: Vec<char>| k@);
        kv.push(c);
        assert(kv@.map_values(|k: Vec<char>| k@) =~= before.push(kws[j as int]));
        assert(kws.take(j + 1) =~= kws.take(j as int).push(kws[j as int]));
        j += 1;
    }
    assert(kws.take(keywords.len() as int) =~= kws);
    let ls = split_lines(text);
    let ghost lv = ls@.map_values(|w: Vec<char>| w@);
    let ghost h = hits(lv, kws);
    let mut out: Vec<LocalMatch> = Vec::new();
    if limit == 0 {
        assert(matches_view(out@) =~= found_in(path@, text@, kws, 0));
        return out;
    }
    let mut i: usize = 0;
    while i < ls.len()
        invariant
            i <= ls.len(),
            lv == ls@.map_values(|w: Vec<char>| w@),
            lv == lines(text@),
            h == hits(lv, kws),
            kws == crate::model::texts_view(keywords@),
            kv@.map_values(|k: Vec<char>| k@) == kws,
            out.len() < limit,
            matches_view(out@) == excerpts(path@, hits(lv.take(i as int), kws)),
            forall|k: int| 0 <= k < h.len() && k < limit ==> cuttable(#[trigger] h[k].1),
        decreases ls.len() - i,
    {
        let ghost before = hits(lv.take(i as int), kws);
        assert(lv.take(i + 1).drop_last() =~= lv.take(i as int));
        assert(lv.take(i + 1).last() == lv[i as int]);
        if line_matches(&ls[i], &kv) {
            proof {
                lemma_hits_prefix(lv, kws, i + 1);
                let now = hits(lv.take(i + 1), kws);
                assert(now =~= before + seq![((i + 1) as nat, lv[i as int])]);
                assert(h[before.len() as int] == now[before.len() as int]);
                assert(before.len() == matches_view(out@).len());
                assert(h[before.len() as int].1 == ls@[i as int]@);
                assert(cuttable(h[before.len() as int].1));
            }
            let sn = snippet(&ls[i]);
            let m = LocalMatch { path: crate::text::owned(path), lineno: i + 1, snippet: sn };
            let ghost prev = matches_view(out@);
            assert(match_view(m) == (path@, (i + 1) as nat, snippet_of(lv[i as int])));
            out.push(m);
            assert(matches_view(out@) =~= prev.push(match_view(m)));
            assert(excerpts(path@, hits(lv.take(i + 1), kws)) =~= excerpts(path@, before).push(
                (path@, (i + 1) as nat, snippet_of(lv[i as int])),
            ));
            if out.len() >= limit {
                proof {
                    lemma_hits_prefix(lv, kws, i + 1);
                    let now = hits(lv.take(i + 1), kws);
                    assert(now.len() == limit);
                    assert(h.take(limit as int) == now);
                    assert(h.len() >= limit);
                    assert(found_in(path@, text@, kws, limit as nat) == excerpts(path@, now));
                }
                return out;
            }
        } else {
            assert(hits(lv.take(i + 1), kws) =~= before);
        }
        i += 1;
    }
    assert(lv.take(i as int) =~= lv);
    assert(h.take(h.len() as int) =~= h);
    out
}

/// The heading that opens the session-close part of `ml prime`'s output.
pub open spec fn close_marker() -> Seq<char> {
    "# 🚨 SESSION CLOSE PROTOCOL 🚨"@
}

/// `ml prime`'s output without its session-close part: cut where the
/// first close heading starts.
pub open spec fn without_close_protocol(prime: Seq<char>) -> Seq<char> {
    if contains_text(prime, close_marker()) {
        prime.take(crate::text::first_occurrence(prime, close_marker()))
    } else {
        prime
    }
}

/// Drops the session-close part of `ml prime`'s output.
pub fn strip_close_protocol(prime: &str) -> (r: String)
    ensures
        r@ == without_close_protocol(prime@),
{
    let pv = chars_of(prime);
    let mv = chars_of("# 🚨 SESSION CLOSE PROTOCOL 🚨");
    match crate::text::find_chars(&pv, &mv) {
        Some(i) => {
            let r = text_of(&pv, 0, i);
            assert(pv@.subrange(0, i as int) =~= pv@.take(i as int));
            r
        },
        None => {
            let r = text_of(&pv, 0, pv.len());
            assert(pv@.subrange(0, pv.len() as int) =~= pv@);
            r
        },
    }
}

/// The request for a rationale, with the texts of the form.
pub open spec fn form_prompt(f: Form) -> Seq<char> {
    "Busca notas relacionadas con el registro a otorgar despues de las instrucciones a continuación.\n\nDevuelve solo un texto conciso para el campo 'Rationale'.\n\nForm:\nTitle: "@
        + f.title@ + "\nDomain: "@ + f.domain@ + "\nDate: "@ + f.date@ + "\nParticipants: "@
        + f.participants@ + "\nFiles: "@ + f.files@ + "\nTags: "@ + f.tags@ + "\nDescription:\n"@
        + f.description@ + "\n\nRespuesta esperada: un único string con la rationale.\n"@
}

/// The request for a rationale, with the texts of the form.
pub fn rationale_prompt(form: &Form) -> (r: String)
    ensures
        r@ == form_prompt(*form),
{
    let mut r = String::new();
    push_text(
        &mut r,
        "Busca notas relacionadas con el registro a otorgar despues de las instrucciones a continuación.\n\nDevuelve solo un texto conciso para el campo 'Rationale'.\n\nForm:\nTitle: ",
    );
    push_text(&mut r, form.title.as_str());
    push_text(&mut r, "\nDomain: ");
    push_text(&mut r, form.domain.as_str());
    push_text(&mut r, "\nDate: ");
    push_text(&mut r, form.date.as_str());
    push_text(&mut r, "\nParticipants: ");
    push_text(&mut r, form.participants.as_str());
    push_text(&mut r, "\nFiles: ");
    push_text(&mut r, form.files.as_str());
    push_text(&mut r, "\nTags: ");
    push_text(&mut r, form.tags.as_str());
    push_text(&mut r, "\nDescription:\n");
    push_text(&mut r, form.description.as_str());
    push_text(&mut r, "\n\nRespuesta esperada: un único string con la rationale.\n");
    r
}

/// One line of the list of local matches: `- path:line: excerpt`.
pub open spec fn match_line(m: (Seq<char>, nat, Seq<char>)) -> Seq<char> {
    "- "@ + m.0 + ":"@ + decimal(m.1) + ": "@ + m.2 + "\n"@
}

/// The lines of a list of local matches.
pub open spec fn match_lines(ms: Seq<(Seq<char>, nat, Seq<char>)>) -> Seq<char>
    decreases ms.len(),
{
    if ms.len() == 0 {
        seq![]
    } else {
        match_lines(ms.drop_last()) + match_line(ms.last())
    }
}

/// The whole request sent to the agent: the form's request, `ml prime`'s
/// output without its session-close part, what is known of the
/// repository, the local matches, and the rules of the answer.
pub open spec fn full_prompt(f: Form, prime: Seq<char>, mulch_found: bool, ms: Seq<(Seq<char>, nat, Seq<char>)>) -> Seq<char> {
    form_prompt(f) + "\nMulchPrimeOutput:\n"@ + without_close_protocol(prime) + "\n"@
        + "Nota: `ml prime` ya fue ejecutado y su salida se incluye arriba. NO ejecutes `ml prime` de nuevo.\n"@
        + "\nMetadata:\n- mulch_initialized: "@ + bool_text(mulch_found) + "\n- local_matches_count: "@
        + decimal(ms.len()) + "\n"@ + (if ms.len() > 0 {
        "LocalMatches:\n"@ + match_lines(ms)
    } else {
        seq![]
    })
        + "\nReglas: Si no encuentras registros en Mulch, realiza una búsqueda directa en el árbol del repo. Devuelve SOLO un JSON válido con las claves: text, ids, sources, confidence, rationale_notes, actions, metadata, error. metadata debe incluir 'mulch_initialized' y 'local_matches_count'.\n"@
}

/// The whole request sent to the agent.
pub fn agent_prompt(form: &Form, prime: &str, mulch_found: bool, matches: &Vec<LocalMatch>) -> (r: String)
    ensures
        r@ == full_prompt(*form, prime@, mulch_found, matches_view(matches@)),
{
    let mut r = rationale_prompt(form);
    push_text(&mut r, "\nMulchPrimeOutput:\n");
    let cut = strip_close_protocol(prime);
    push_text(&mut r, cut.as_str());
    push_text(&mut r, "\n");
    push_text(
        &mut r,
        "Nota: `ml prime` ya fue ejecutado y su salida se incluye arriba. NO ejecutes `ml prime` de nuevo.\n",
    );
    push_text(&mut r, "\nMetadata:\n- mulch_initialized: ");
    push_bool(&mut r, mulch_found);
    push_text(&mut r, "\n- local_matches_count: ");
    push_decimal(&mut r, matches.len());
    push_text(&mut r, "\n");
    let ghost head = r@;
    let ghost mv = matches_view(matches@);
    if matches.len() > 0 {
        push_text(&mut r, "LocalMatches:\n");
        let ghost start = r@;
        let mut i: usize = 0;
        while i < matches.len()
            invariant
                i <= matches.len(),
                mv == matches_view(matches@),
                r@ == start + match_lines(mv.take(i as int)),
            decreases matches.len() - i,
        {
            let ghost before = r@;
            push_text(&mut r, "- ");
            push_text(&mut r, matches[i].path.as_str());
            push_text(&mut r, ":");
            push_decimal(&mut r, matches[i].lineno);
            push_text(&mut r, ": ");
            push_text(&mut r, matches[i].snippet.as_str());
            push_text(&mut r, "\n");
            assert(mv.take(i + 1).drop_last() =~= mv.take(i as int));
            assert(mv[i as int] == match_view(matches@[i as int]));
            assert(r@ =~= before + match_line(mv[i as int]));
            i += 1;
        }
        assert(mv.take(matches.len() as int) =~= mv);
        assert(r@ =~= head + ("LocalMatches:\n"@ + match_lines(mv)));
    } else {
        assert(r@ =~= head + seq![]);
    }
    push_text(
        &mut r,
        "\nReglas: Si no encuentras registros en Mulch, realiza una búsqueda directa en el árbol del repo. Devuelve SOLO un JSON válido con las claves: text, ids, sources, confidence, rationale_notes, actions, metadata, error. metadata debe incluir 'mulch_initialized' y 'local_matches_count'.\n",
    );
    r
}

/// The second request, asking the agent to restate its answer as the
/// JSON the rules ask for.
pub open spec fn followup_prompt(mulch_found: bool, match_count: nat) -> Seq<char> {
    "Por favor, convierte la respuesta anterior exactamente a un JSON válido con las claves: text, ids, sources, confidence, rationale_notes, actions, metadata, error. Si no encontraste ids, ids debe ser \"\" y confidence 0. Incluye metadata.mulch_initialized="@
        + bool_text(mulch_found) + " y metadata.local_matches_count="@ + decimal(match_count)
        + ". Si no hay sources, incluye suggested_queries en metadata. Devuelve SOLO JSON y nada más."@
}

/// The second request.
pub fn followup_text(mulch_found: bool, match_count: usize) -> (r: String)
    ensures
        r@ == followup_prompt(mulch_found, match_count as nat),
{
    let mut r = String::new();
    push_text(
        &mut r,
        "Por favor, convierte la respuesta anterior exactamente a un JSON válido con las claves: text, ids, sources, confidence, rationale_notes, actions, metadata, error. Si no encontraste ids, ids debe ser \"\" y confidence 0. Incluye metadata.mulch_initialized=",
    );
    push_bool(&mut r, mulch_found);
    push_text(&mut r, " y metadata.local_matches_count=");
    push_decimal(&mut r, match_count);
    push_text(
        &mut r,
        ". Si no hay sources, incluye suggested_queries en metadata. Devuelve SOLO JSON y nada más.",
    );
    r
}

/// The text of a content block: its `text` when its `type` is `text`.
pub open spec fn block_text(b: Json) -> Seq<char> {
    if b.text_at("type"@) == Some("text"@) {
        match b.text_at("text"@) {
            Some(t) => t,
            None => seq![],
        }
    } else {
        seq![]
    }
}

/// The texts of content blocks, one after the other.
pub open spec fn blocks_text(bs: Seq<Json>) -> Seq<char>
    decreases bs.len(),
{
    if bs.len() == 0 {
        seq![]
    } else {
        blocks_text(bs.drop_last()) + block_text(bs.last())
    }
}

/// The text of a message: the texts of its content when it is the
/// assistant's.
pub open spec fn message_text(m: Json) -> Seq<char> {
    if m.text_at("role"@) == Some("assistant"@) {
        match m.spec_get("content"@) {
            Some(Json::Array(c)) => blocks_text(c@),
            _ => seq![],
        }
    } else {
        seq![]
    }
}

/// The texts of messages, one after the other.
pub open spec fn messages_text(ms: Seq<Json>) -> Seq<char>
    decreases ms.len(),
{
    if ms.len() == 0 {
        seq![]
    } else {
        messages_text(ms.drop_last()) + message_text(ms.last())
    }
}

/// What the assistant wrote, as an `agent_end` event reports it.
pub open spec fn reply_text(ev: Json) -> Seq<char> {
    match ev.spec_get("messages"@) {
        Some(Json::Array(ms)) => messages_text(ms@),
        _ => seq![],
    }
}

/// The event marks the end of the agent's turn.
pub fn is_agent_end(ev: &Json) -> (r: bool)
    ensures
        r == (ev.text_at("type"@) == Some("agent_end"@)),
{
    match ev.get_str("type") {
        Some(t) => crate::text::str_eq(t.as_str(), "agent_end"),
        None => false,
    }
}

fn text_is(v: Option<&String>, word: &str) -> (r: bool)
    ensures
        r == (crate::json::opt_text(v) == Some(word@)),
{
    match v {
        Some(t) => crate::text::str_eq(t.as_str(), word),
        None => false,
    }
}

fn push_blocks(r: &mut String, bs: &Vec<Json>)
    ensures
        final(r)@ == old(r)@ + blocks_text(bs@),
{
    let mut i: usize = 0;
    while i < bs.len()
        invariant
            i <= bs.len(),
            r@ == old(r)@ + blocks_text(bs@.take(i as int)),
        decreases bs.len() - i,
    {
        let ghost before = r@;
        assert(bs@.take(i + 1).drop_last() =~= bs@.take(i as int));
        let b = &bs[i];
        if text_is(b.get_str("type"), "text") {
            match b.get_str("text") {
                Some(t) => push_text(r, t.as_str()),
                None => {},
            }
        }
        assert(r@ =~= before + block_text(bs@[i as int]));
        i += 1;
    }
    assert(bs@.take(bs.len() as int) =~= bs@);
}

/// What the assistant wrote, gathered from an `agent_end` event: the
/// `text` blocks of the assistant's messages, in order.
pub fn assistant_text(ev: &Json) -> (r: String)
    ensures
        r@ == reply_text(*ev),
{
    let mut r = String::new();
    match ev.get_array("messages") {
        Some(ms) => {
            let mut i: usize = 0;
            while i < ms.len()
                invariant
                    i <= ms.len(),
                    r@ == messages_text(ms@.take(i as int)),
                decreases ms.len() - i,
            {
                let ghost before = r@;
                assert(ms@.take(i + 1).drop_last() =~= ms@.take(i as int));
                let m = &ms[i];
                if text_is(m.get_str("role"), "assistant") {
                    match m.get_array("content") {
                        Some(c) => push_blocks(&mut r, c),
                        None => {},
                    }
                }
                assert(r@ =~= before + message_text(ms@[i as int]));
                i += 1;
            }
            assert(ms@.take(ms.len() as int) =~= ms@);
        },
        None => {},
    }
    r
}

/// An answer is usable when it names sources (a non-empty array) or ids
/// (a text that is not blank).
pub open spec fn usable(j: Json) -> bool {
    ||| (j.spec_get("sources"@) matches Some(Json::Array(a)) && a@.len() > 0)
    ||| (j.text_at("ids"@) matches Some(t) && !is_blank(t))
}

/// Whether the agent's answer can be used as it is.
pub fn reply_accepted(j: &Json) -> (r: bool)
    ensures
        r == usable(*j),
{
    let has_sources = match j.get_array("sources") {
        Some(a) => a.len() > 0,
        None => false,
    };
    let has_ids = match j.get_str("ids") {
        Some(t) => !is_blank_text(t.as_str()),
        None => false,
    };
    has_sources || has_ids
}

/// The answer made from plain text when the agent gave no usable JSON:
/// the trimmed text, no ids, sources or actions, confidence 0 and a note
/// saying how it was made.
pub open spec fn fallback_jval(text: Seq<char>, note: Seq<char>) -> crate::json::JVal {
    let es = crate::records::with_text(seq![], "text"@, crate::text::trim_seq(text));
    let es = crate::records::with_text(es, "ids"@, seq![]);
    let es = crate::records::with_val(es, "sources"@, crate::json::JVal::Arr(seq![]));
    let es = crate::records::with_val(es, "confidence"@, crate::json::JVal::Num(crate::json::JNum::Float(0)));
    let es = crate::records::with_text(es, "rationale_notes"@, seq![]);
    let es = crate::records::with_val(es, "actions"@, crate::json::JVal::Arr(seq![]));
    let es = crate::records::with_val(es, "metadata"@, crate::json::JVal::Obj(seq![("note"@, crate::json::JVal::Str(note))]));
    let es = crate::records::with_val(es, "error"@, crate::json::JVal::Null);
    crate::json::JVal::Obj(es)
}

fn empty_array() -> (r: Json)
    ensures
        crate::json::jview(r) == crate::json::JVal::Arr(seq![]),
{
    let items: Vec<Json> = Vec::new();
    assert(crate::records::arr_view(items@) =~= seq![]);
    Json::Array(items)
}

/// The answer made from plain text.
pub fn fallback_reply(text: &str, note: &str) -> (r: Json)
    ensures
        crate::json::jview(r) == fallback_jval(text@, note@),
{
    proof {
        reveal_strlit("");
        assert(""@ =~= Seq::<char>::empty());
    }
    let t = crate::text::trimmed_chars(text);
    let trimmed = text_of(&t, 0, t.len());
    assert(t@.subrange(0, t.len() as int) =~= t@);
    let mut es: Vec<(String, Json)> = Vec::new();
    assert(crate::records::obj_view(es@) =~= seq![]);
    put_text(&mut es, "text", trimmed.as_str());
    put_text(&mut es, "ids", "");
    put(&mut es, "sources", empty_array());
    put(&mut es, "confidence", Json::Number(crate::json::JNum::Float(0)));
    put_text(&mut es, "rationale_notes", "");
    put(&mut es, "actions", empty_array());
    let mut meta: Vec<(String, Json)> = Vec::new();
    assert(crate::records::obj_view(meta@) =~= seq![]);
    put_text(&mut meta, "note", note);
    put(&mut es, "metadata", Json::Object(meta));
    put(&mut es, "error", Json::Null);
    Json::Object(es)
}

/// What to do once the agent's first turn ends.
pub enum FirstVerdict {
    /// The answer is usable as it is.
    Accept(Json),
    /// Ask again with this request.
    FollowUp(String),
    /// The agent wrote nothing.
    NoText,
}

/// Decides on the first answer: `collected` is what the assistant wrote,
/// `parsed` the JSON read from it (trimmed), when it is JSON.
pub fn after_agent_end(collected: &str, parsed: Option<Json>, mulch_found: bool, match_count: usize) -> (r: FirstVerdict)
    ensures
        is_blank(collected@) ==> r is NoText,
        !is_blank(collected@) ==> match parsed {
            Some(j) => if usable(j) {
                r == FirstVerdict::Accept(j)
            } else {
                r matches FirstVerdict::FollowUp(p) && p@ == followup_prompt(mulch_found, match_count as nat)
            },
            None => r matches FirstVerdict::FollowUp(p) && p@ == followup_prompt(
                mulch_found,
                match_count as nat,
            ),
        },
{
    if is_blank_text(collected) {
        return FirstVerdict::NoText;
    }
    match parsed {
        Some(j) => {
            if reply_accepted(&j) {
                return FirstVerdict::Accept(j);
            }
        },
        None => {},
    }
    FirstVerdict::FollowUp(followup_text(mulch_found, match_count))
}

/// Decides on the answer after the second request: `second` is what the
/// assistant wrote then (empty when nothing came), `parsed_second` the JSON
/// read from it; without a second answer the first, `collected`, is kept.
pub fn after_followup(collected: &str, second: &str, parsed_second: Option<Json>) -> (r: Json)
    ensures
        !is_blank(second@) ==> match parsed_second {
            Some(j) => r == j,
            None => crate::json::jview(r) == fallback_jval(second@, "fallback_from_followup"@),
        },
        is_blank(second@) ==> crate::json::jview(r) == fallback_jval(
            collected@,
            "fallback_from_plain_text_no_followup"@,
        ),
{
    if !is_blank_text(second) {
        match parsed_second {
            Some(j) => j,
            None => fallback_reply(second, "fallback_from_followup"),
        }
    } else {
        fallback_reply(collected, "fallback_from_plain_text_no_followup")
    }
}

} // verus!
