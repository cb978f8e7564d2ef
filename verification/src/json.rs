use vstd::prelude::*;
use crate::text::{chars_of, same_chars};

verus! {

/// A JSON number as a JSON reader keeps it: a non-negative integer, a
/// negative integer, or a finite double held as its IEEE-754 bit pattern
/// (so that range checks on it are exact integer reasoning).
#[derive(Clone, Copy, PartialEq, Eq, Structural, Debug)]
pub enum JNum {
    PosInt(u64),
    NegInt(i64),
    Float(u64),
}

/// A JSON document as the library reads it. An object keeps its entries in
/// order; `get` finds the first entry with a key.
pub enum Json {
    Null,
    Bool(bool),
    Number(JNum),
    Str(String),
    Array(Vec<Json>),
    Object(Vec<(String, Json)>),
}

/// The value of the first entry with key `key`.
pub open spec fn first_entry(entries: Seq<(String, Json)>, key: Seq<char>) -> Option<Json>
    decreases entries.len(),
{
    if entries.len() == 0 {
        None
    } else if entries[0].0@ == key {
        Some(entries[0].1)
    } else {
        first_entry(entries.drop_first(), key)
    }
}

/// The text inside a JSON string, if the value is one.
pub open spec fn text_of_json(v: Option<Json>) -> Option<Seq<char>> {
    match v {
        Some(Json::Str(s)) => Some(s@),
        _ => None,
    }
}

/// The view of an optional borrowed text.
pub open spec fn opt_text(v: Option<&String>) -> Option<Seq<char>> {
    match v {
        Some(s) => Some(s@),
        None => None,
    }
}

impl Json {
    /// `serde_json::Value::get` with a text key: the value stored under
    /// `key` when `self` is an object.
    pub open spec fn spec_get(self, key: Seq<char>) -> Option<Json> {
        match self {
            Json::Object(entries) => first_entry(entries@, key),
            _ => None,
        }
    }

    /// `get(key).and_then(as_str)`.
    pub open spec fn text_at(self, key: Seq<char>) -> Option<Seq<char>> {
        text_of_json(self.spec_get(key))
    }

    pub fn get<'a>(&'a self, key: &str) -> (r: Option<&'a Json>)
        ensures
            r is Some <==> self.spec_get(key@) is Some,
            r matches Some(v) ==> self.spec_get(key@) == Some(*v),
            match r {
                Some(v) => jget(jview(*self), key@) == Some(jview(*v)),
                None => jget(jview(*self), key@) is None,
            },
    {
        proof {
            if self is Object {
                lemma_entry_view(self->Object_0@, key@);
            }
        }
        match self {
            Json::Object(entries) => {
                let kv = chars_of(key);
                let mut i: usize = 0;
                assert(entries@.subrange(0, entries.len() as int) =~= entries@);
                while i < entries.len()
                    invariant
                        kv@ == key@,
                        *self == Json::Object(*entries),
                        self.spec_get(key@) == first_entry(entries@, key@),
                        i <= entries.len(),
                        first_entry(entries@, key@) == first_entry(
                            entries@.subrange(i as int, entries.len() as int),
                            key@,
                        ),
                    decreases entries.len() - i,
                {
                    proof {
                        let rest = entries@.subrange(i as int, entries.len() as int);
                        assert(rest.drop_first() =~= entries@.subrange(
                            i + 1,
                            entries.len() as int,
                        ));
                        assert(rest[0] == entries@[i as int]);
                    }
                    let ev = chars_of(entries[i].0.as_str());
                    if same_chars(&ev, &kv) {
                        proof {
                            lemma_entry_view(entries@, key@);
                        }
                        return Some(&entries[i].1);
                    }
                    i += 1;
                }
                proof {
                    assert(entries@.subrange(i as int, entries.len() as int).len() == 0);
                }
                None
            },
            _ => None,
        }
    }

    /// `get(key).and_then(as_str)`.
    pub fn get_str<'a>(&'a self, key: &str) -> (r: Option<&'a String>)
        ensures
            opt_text(r) == self.text_at(key@),
            opt_text(r) == jtext(jview(*self), key@),
    {
        match self.get(key) {
            Some(Json::Str(s)) => Some(s),
            _ => None,
        }
    }

    /// `as_str()`.
    pub fn as_str<'a>(&'a self) -> (r: Option<&'a String>)
        ensures
            opt_text(r) == text_of_json(Some(*self)),
    {
        match self {
            Json::Str(s) => Some(s),
            _ => None,
        }
    }

    /// `get(key).and_then(as_array)`.
    pub fn get_array<'a>(&'a self, key: &str) -> (r: Option<&'a Vec<Json>>)
        ensures
            match self.spec_get(key@) {
                Some(Json::Array(a)) => r == Some(&a),
                _ => r is None,
            },
    {
        match self.get(key) {
            Some(Json::Array(a)) => Some(a),
            _ => None,
        }
    }
}

/// Bit patterns of IEEE-754 doubles, ordered as the doubles are.
pub open spec fn sign_bit() -> int {
    0x8000_0000_0000_0000
}

/// The double is a NaN.
pub open spec fn f64_is_nan(bits: u64) -> bool {
    (bits as int) % sign_bit() > 0x7FF0_0000_0000_0000
}

/// The double is `< 0.0` (so neither NaN nor a zero).
pub open spec fn f64_lt_zero(bits: u64) -> bool {
    !f64_is_nan(bits) && bits >= sign_bit() && (bits as int) % sign_bit() != 0
}

/// The double lies in `0.0..=1.0`: a zero of either sign, or a positive
/// double no larger than `1.0` (bits `0x3FF0_0000_0000_0000`).
pub open spec fn f64_in_unit_interval(bits: u64) -> bool {
    !f64_is_nan(bits) && ((bits as int) % sign_bit() == 0 || (bits < sign_bit() && bits
        <= 0x3FF0_0000_0000_0000))
}

/// The number, read as a double, lies in `0.0..=1.0`.
pub open spec fn num_in_unit_interval(n: JNum) -> bool {
    match n {
        JNum::PosInt(k) => k <= 1,
        JNum::NegInt(_) => false,
        JNum::Float(bits) => f64_in_unit_interval(bits),
    }
}

/// The number, read as a double, is `< 0.0`.
pub open spec fn num_lt_zero(n: JNum) -> bool {
    match n {
        JNum::PosInt(_) => false,
        JNum::NegInt(k) => k < 0,
        JNum::Float(bits) => f64_lt_zero(bits),
    }
}

pub fn num_in_unit(n: JNum) -> (r: bool)
    ensures
        r == num_in_unit_interval(n),
{
    match n {
        JNum::PosInt(k) => k <= 1,
        JNum::NegInt(_) => false,
        JNum::Float(bits) => in_unit_interval(bits),
    }
}

pub fn num_negative(n: JNum) -> (r: bool)
    ensures
        r == num_lt_zero(n),
{
    match n {
        JNum::PosInt(_) => false,
        JNum::NegInt(k) => k < 0,
        JNum::Float(bits) => lt_zero(bits),
    }
}

pub fn lt_zero(bits: u64) -> (r: bool)
    ensures
        r == f64_lt_zero(bits),
{
    let mag = bits % 0x8000_0000_0000_0000;
    mag <= 0x7FF0_0000_0000_0000 && bits >= 0x8000_0000_0000_0000 && mag != 0
}

pub fn in_unit_interval(bits: u64) -> (r: bool)
    ensures
        r == f64_in_unit_interval(bits),
{
    let mag = bits % 0x8000_0000_0000_0000;
    mag <= 0x7FF0_0000_0000_0000 && (mag == 0 || (bits < 0x8000_0000_0000_0000 && bits
        <= 0x3FF0_0000_0000_0000))
}

} // verus!

verus! {

/// The mathematical form of a JSON document.
pub enum JVal {
    Null,
    Bool(bool),
    Num(JNum),
    Str(Seq<char>),
    Arr(Seq<JVal>),
    Obj(Seq<(Seq<char>, JVal)>),
}

/// The first `n` elements of an array, each by its view.
pub open spec fn items_view(items: Seq<Json>, n: nat) -> Seq<JVal>
    decreases items, n,
{
    if n == 0 || n > items.len() {
        seq![]
    } else {
        items_view(items, (n - 1) as nat).push(jview(items[n - 1]))
    }
}

/// The first `n` entries of an object, each value by its view.
pub open spec fn entries_jview(entries: Seq<(String, Json)>, n: nat) -> Seq<(Seq<char>, JVal)>
    decreases entries, n,
{
    if n == 0 || n > entries.len() {
        seq![]
    } else {
        entries_jview(entries, (n - 1) as nat).push((entries[n - 1].0@, jview(entries[n - 1].1)))
    }
}

/// The value of the first entry with key `key`, among entries by their views.
#[verifier::opaque]
pub open spec fn val_entry(es: Seq<(Seq<char>, JVal)>, key: Seq<char>) -> Option<JVal>
    decreases es.len(),
{
    if es.len() == 0 {
        None
    } else if es[0].0 == key {
        Some(es[0].1)
    } else {
        val_entry(es.drop_first(), key)
    }
}

/// The value stored under `key` when `v` is an object.
pub open spec fn jget(v: JVal, key: Seq<char>) -> Option<JVal> {
    match v {
        JVal::Obj(es) => val_entry(es, key),
        _ => None,
    }
}

/// The text stored under `key`, if it is a text.
pub open spec fn jtext(v: JVal, key: Seq<char>) -> Option<Seq<char>> {
    match jget(v, key) {
        Some(JVal::Str(s)) => Some(s),
        _ => None,
    }
}

/// A lookup after appending an entry: the earlier entries win, then the
/// new one.
pub proof fn lemma_val_entry_push(es: Seq<(Seq<char>, JVal)>, x: (Seq<char>, JVal), k: Seq<char>)
    ensures
        val_entry(es.push(x), k) == match val_entry(es, k) {
            Some(v) => Some(v),
            None => if x.0 == k {
                Some(x.1)
            } else {
                None
            },
        },
    decreases es.len(),
{
    reveal(val_entry);
    if es.len() > 0 {
        assert(es.push(x).drop_first() =~= es.drop_first().push(x));
        lemma_val_entry_push(es.drop_first(), x, k);
    } else {
        assert(es.push(x).drop_first() =~= es);
    }
}

/// Changing the value of an entry does not change a lookup of another key.
pub proof fn lemma_val_entry_update(es: Seq<(Seq<char>, JVal)>, i: int, x: (Seq<char>, JVal), k: Seq<char>)
    requires
        0 <= i < es.len(),
        es[i].0 == x.0,
        k != x.0,
    ensures
        val_entry(es.update(i, x), k) == val_entry(es, k),
    decreases es.len(),
{
    reveal(val_entry);
    if i > 0 {
        assert(es.update(i, x).drop_first() =~= es.drop_first().update(i - 1, x));
        lemma_val_entry_update(es.drop_first(), i - 1, x, k);
    } else {
        assert(es.update(0, x).drop_first() =~= es.drop_first());
    }
}

/// The view of a lookup is the lookup in the view.
pub proof fn lemma_entry_view(es: Seq<(String, Json)>, key: Seq<char>)
    ensures
        val_entry(entries_jview(es, es.len()), key) == match first_entry(es, key) {
            Some(j) => Some(jview(j)),
            None => None,
        },
    decreases es.len(),
{
    reveal(val_entry);
    let v = entries_jview(es, es.len());
    crate::records::lemma_entries_len(es, es.len());
    if es.len() > 0 {
        let rest = es.drop_first();
        crate::records::lemma_entries_len(rest, rest.len());
        assert forall|i: int| 0 <= i < rest.len() implies #[trigger] entries_jview(rest, rest.len())[i]
            == v.drop_first()[i] by {
            crate::records::lemma_obj_view_index(rest, rest.len(), i);
            crate::records::lemma_obj_view_index(es, es.len(), i + 1);
        }
        assert(entries_jview(rest, rest.len()) =~= v.drop_first());
        crate::records::lemma_obj_view_index(es, es.len(), 0);
        lemma_entry_view(rest, key);
    }
}

/// The view of a document.
pub open spec fn jview(j: Json) -> JVal
    decreases j,
{
    match j {
        Json::Null => JVal::Null,
        Json::Bool(b) => JVal::Bool(b),
        Json::Number(n) => JVal::Num(n),
        Json::Str(s) => JVal::Str(s@),
        Json::Array(a) => JVal::Arr(items_view(a@, a@.len())),
        Json::Object(e) => JVal::Obj(entries_jview(e@, e@.len())),
    }
}

impl Json {
    /// A deep copy of the document.
    pub fn duplicate(&self) -> (r: Json)
        ensures
            jview(r) == jview(*self),
        decreases self,
    {
        match self {
            Json::Null => Json::Null,
            Json::Bool(b) => Json::Bool(*b),
            Json::Number(n) => Json::Number(*n),
            Json::Str(s) => Json::Str(s.clone()),
            Json::Array(items) => {
                let mut out: Vec<Json> = Vec::new();
                let mut i: usize = 0;
                while i < items.len()
                    invariant
                        i <= items.len(),
                        *self == Json::Array(*items),
                        crate::records::arr_view(out@) == items_view(items@, i as nat),
                    decreases items.len() - i,
                {
                    assert(decreases_to!(*items => items@));
                    assert(decreases_to!(items@ => items@[i as int]));
                    assert(decreases_to!(*self => (*self)->Array_0));
                    assert(decreases_to!(self => items@[i as int]));
                    let x = items[i].duplicate();
                    proof {
                        crate::records::lemma_arr_push(out@, x);
                    }
                    out.push(x);
                    i += 1;
                }
                Json::Array(out)
            },
            Json::Object(es) => {
                let mut out: Vec<(String, Json)> = Vec::new();
                let mut i: usize = 0;
                while i < es.len()
                    invariant
                        i <= es.len(),
                        *self == Json::Object(*es),
                        crate::records::obj_view(out@) == entries_jview(es@, i as nat),
                    decreases es.len() - i,
                {
                    assert(decreases_to!(*es => es@));
                    assert(decreases_to!(es@ => es@[i as int]));
                    assert(decreases_to!(es@[i as int] => es@[i as int].1));
                    assert(decreases_to!(*self => (*self)->Object_0));
                    assert(decreases_to!(self => es@[i as int].1));
                    let x = (es[i].0.clone(), es[i].1.duplicate());
                    proof {
                        crate::records::lemma_obj_push(out@, x);
                    }
                    out.push(x);
                    i += 1;
                }
                Json::Object(out)
            },
        }
    }
}

} // verus!
