use vstd::prelude::*;
use crate::json::{entries_jview, items_view, jview, JNum, JVal, Json};
use crate::model::{copy_opt, opt_view, texts_view};
use crate::text::owned;
use crate::datetime::rfc3339_instant;
use crate::validation::{datetime_check, named, validate_iso_datetime, Problem, ValidationError};

verus! {

/// The entries of an object, by their views.
pub type Entries = Seq<(Seq<char>, JVal)>;

/// The view of the entries of an object.
pub open spec fn obj_view(es: Seq<(String, Json)>) -> Entries {
    entries_jview(es, es.len())
}

/// The view of the items of an array.
pub open spec fn arr_view(items: Seq<Json>) -> Seq<JVal> {
    items_view(items, items.len())
}

proof fn lemma_entries_prefix(es: Seq<(String, Json)>, x: (String, Json), n: nat)
    requires
        n <= es.len(),
    ensures
        entries_jview(es.push(x), n) == entries_jview(es, n),
    decreases n,
{
    if n > 0 {
        lemma_entries_prefix(es, x, (n - 1) as nat);
        assert(es.push(x)[n - 1] == es[n - 1]);
    }
}

proof fn lemma_items_prefix(items: Seq<Json>, x: Json, n: nat)
    requires
        n <= items.len(),
    ensures
        items_view(items.push(x), n) == items_view(items, n),
    decreases n,
{
    if n > 0 {
        lemma_items_prefix(items, x, (n - 1) as nat);
        assert(items.push(x)[n - 1] == items[n - 1]);
    }
}

/// Appending an entry appends its view.
pub proof fn lemma_obj_push(es: Seq<(String, Json)>, x: (String, Json))
    ensures
        obj_view(es.push(x)) == obj_view(es).push((x.0@, jview(x.1))),
{
    lemma_entries_prefix(es, x, es.len());
    assert(es.push(x)[es.len() as int] == x);
}

/// Appending an item appends its view.
pub proof fn lemma_arr_push(items: Seq<Json>, x: Json)
    ensures
        arr_view(items.push(x)) == arr_view(items).push(jview(x)),
{
    lemma_items_prefix(items, x, items.len());
    assert(items.push(x)[items.len() as int] == x);
}

/// The view of an object's entries has one entry per entry, key by key.
pub proof fn lemma_obj_view_index(es: Seq<(String, Json)>, n: nat, i: int)
    requires
        n <= es.len(),
        0 <= i < n,
    ensures
        entries_jview(es, n).len() == n,
        entries_jview(es, n)[i] == (es[i].0@, jview(es[i].1)),
    decreases n,
{
    if i < n - 1 {
        lemma_obj_view_index(es, (n - 1) as nat, i);
    } else {
        lemma_entries_len(es, (n - 1) as nat);
    }
}

/// The view of the first `n` entries has `n` entries.
pub proof fn lemma_entries_len(es: Seq<(String, Json)>, n: nat)
    requires
        n <= es.len(),
    ensures
        entries_jview(es, n).len() == n,
    decreases n,
{
    if n > 0 {
        lemma_entries_len(es, (n - 1) as nat);
    }
}

/// The view of the first `n` items, item by item.
pub proof fn lemma_arr_view_index(items: Seq<Json>, n: nat, i: int)
    requires
        n <= items.len(),
        0 <= i < n,
    ensures
        items_view(items, n).len() == n,
        items_view(items, n)[i] == jview(items[i]),
    decreases n,
{
    if i < n - 1 {
        lemma_arr_view_index(items, (n - 1) as nat, i);
    } else {
        lemma_items_len(items, (n - 1) as nat);
    }
}

/// The view of the first `n` items has `n` items.
pub proof fn lemma_items_len(items: Seq<Json>, n: nat)
    requires
        n <= items.len(),
    ensures
        items_view(items, n).len() == n,
    decreases n,
{
    if n > 0 {
        lemma_items_len(items, (n - 1) as nat);
    }
}

/// A text member.
pub open spec fn with_text(es: Entries, key: Seq<char>, v: Seq<char>) -> Entries {
    es.push((key, JVal::Str(v)))
}

/// A text member that is left out when there is no text.
pub open spec fn with_opt_text(es: Entries, key: Seq<char>, v: Option<Seq<char>>) -> Entries {
    match v {
        Some(t) => with_text(es, key, t),
        None => es,
    }
}

/// An array of texts.
pub open spec fn texts_jval(ts: Seq<Seq<char>>) -> JVal {
    JVal::Arr(ts.map_values(|t: Seq<char>| JVal::Str(t)))
}

/// A member holding an array of texts (present even when empty).
pub open spec fn with_texts(es: Entries, key: Seq<char>, ts: Seq<Seq<char>>) -> Entries {
    es.push((key, texts_jval(ts)))
}

/// A double in JSON: a number when finite, `null` otherwise (as a JSON
/// writer stores a NaN or an infinity).
pub open spec fn float_jval(bits: u64) -> JVal {
    if (bits as int) % 0x8000_0000_0000_0000 < 0x7FF0_0000_0000_0000 {
        JVal::Num(JNum::Float(bits))
    } else {
        JVal::Null
    }
}

/// A number member that is left out when there is no number.
pub open spec fn with_opt_float(es: Entries, key: Seq<char>, v: Option<u64>) -> Entries {
    match v {
        Some(bits) => es.push((key, float_jval(bits))),
        None => es,
    }
}

/// A member holding any value.
pub open spec fn with_val(es: Entries, key: Seq<char>, v: JVal) -> Entries {
    es.push((key, v))
}

/// A member that is left out when there is no value.
pub open spec fn with_opt_val(es: Entries, key: Seq<char>, v: Option<JVal>) -> Entries {
    match v {
        Some(x) => es.push((key, x)),
        None => es,
    }
}

pub fn text_json(s: &str) -> (r: Json)
    ensures
        jview(r) == JVal::Str(s@),
{
    Json::Str(owned(s))
}

pub fn float_json(bits: u64) -> (r: Json)
    ensures
        jview(r) == float_jval(bits),
{
    if bits % 0x8000_0000_0000_0000 < 0x7FF0_0000_0000_0000 {
        Json::Number(JNum::Float(bits))
    } else {
        Json::Null
    }
}

/// An array of the texts `v`.
pub fn texts_json(v: &Vec<String>) -> (r: Json)
    ensures
        jview(r) == texts_jval(texts_view(v@)),
{
    let mut items: Vec<Json> = Vec::new();
    let mut i: usize = 0;
    while i < v.len()
        invariant
            i <= v.len(),
            arr_view(items@) == texts_view(v@.take(i as int)).map_values(|t: Seq<char>| JVal::Str(t)),
        decreases v.len() - i,
    {
        let x = Json::Str(v[i].clone());
        proof {
            lemma_arr_push(items@, x);
        }
        items.push(x);
        assert(texts_view(v@.take(i + 1)).map_values(|t: Seq<char>| JVal::Str(t)) =~= texts_view(
            v@.take(i as int),
        ).map_values(|t: Seq<char>| JVal::Str(t)).push(JVal::Str(v@[i as int]@)));
        i += 1;
    }
    assert(v@.take(v.len() as int) =~= v@);
    Json::Array(items)
}

/// Adds the member `key: v`.
pub fn put(es: &mut Vec<(String, Json)>, key: &str, v: Json)
    ensures
        obj_view(final(es)@) == with_val(obj_view(old(es)@), key@, jview(v)),
{
    let x = (owned(key), v);
    proof {
        lemma_obj_push(es@, x);
    }
    es.push(x);
}

/// Adds the text member `key: v`.
pub fn put_text(es: &mut Vec<(String, Json)>, key: &str, v: &str)
    ensures
        obj_view(final(es)@) == with_text(obj_view(old(es)@), key@, v@),
{
    put(es, key, text_json(v));
}

/// Adds the text member `key: v` when there is a text.
pub fn put_opt_text(es: &mut Vec<(String, Json)>, key: &str, v: &Option<String>)
    ensures
        obj_view(final(es)@) == with_opt_text(obj_view(old(es)@), key@, opt_view(*v)),
{
    match v {
        Some(t) => put_text(es, key, t.as_str()),
        None => {},
    }
}

/// Adds the member `key` holding the texts `v`.
pub fn put_texts(es: &mut Vec<(String, Json)>, key: &str, v: &Vec<String>)
    ensures
        obj_view(final(es)@) == with_texts(obj_view(old(es)@), key@, texts_view(v@)),
{
    put(es, key, texts_json(v));
}

/// Adds the number member `key` when there is a number.
pub fn put_opt_float(es: &mut Vec<(String, Json)>, key: &str, v: Option<u64>)
    ensures
        obj_view(final(es)@) == with_opt_float(obj_view(old(es)@), key@, v),
{
    match v {
        Some(bits) => put(es, key, float_json(bits)),
        None => {},
    }
}

/// A piece of evidence behind a record.
pub struct Evidence {
    /// One of the evidence types (`commit`, `file`, `issue`, ...).
    pub evidence_type: String,
    pub reference: String,
    pub date: Option<String>,
    pub excerpt: Option<String>,
    pub recorded_by: Option<String>,
}

/// How an action or a decision turned out.
pub struct Outcome {
    pub status: String,
    pub notes: Option<String>,
    /// A double, as its IEEE-754 bit pattern.
    pub duration: Option<u64>,
    pub agent: Option<String>,
    pub recorded_at: Option<String>,
}

/// Where a record came from.
pub struct Provenance {
    pub source_tool: Option<String>,
    pub recorded_via: Option<String>,
    pub recorded_by: Option<String>,
}

/// A typed link stored in the record it starts from.
pub struct Link {
    pub relation: String,
    pub target: String,
    pub rationale: Option<String>,
    /// A double, as its IEEE-754 bit pattern.
    pub strength: Option<u64>,
    pub recorded_at: Option<String>,
}

/// The JSON form of a piece of evidence; absent optional members are left out.
pub open spec fn evidence_jval(e: Evidence) -> JVal {
    let es = with_text(seq![], "type"@, e.evidence_type@);
    let es = with_text(es, "reference"@, e.reference@);
    let es = with_opt_text(es, "date"@, opt_view(e.date));
    let es = with_opt_text(es, "excerpt"@, opt_view(e.excerpt));
    let es = with_opt_text(es, "recorded_by"@, opt_view(e.recorded_by));
    JVal::Obj(es)
}

/// The JSON form of an outcome; absent optional members are left out.
pub open spec fn outcome_jval(o: Outcome) -> JVal {
    let es = with_text(seq![], "status"@, o.status@);
    let es = with_opt_text(es, "notes"@, opt_view(o.notes));
    let es = with_opt_float(es, "duration"@, o.duration);
    let es = with_opt_text(es, "agent"@, opt_view(o.agent));
    let es = with_opt_text(es, "recorded_at"@, opt_view(o.recorded_at));
    JVal::Obj(es)
}

/// The JSON form of a provenance; absent members are left out.
pub open spec fn provenance_jval(p: Provenance) -> JVal {
    let es = with_opt_text(seq![], "source_tool"@, opt_view(p.source_tool));
    let es = with_opt_text(es, "recorded_via"@, opt_view(p.recorded_via));
    let es = with_opt_text(es, "recorded_by"@, opt_view(p.recorded_by));
    JVal::Obj(es)
}

/// The JSON form of a link; absent optional members are left out.
pub open spec fn link_jval(l: Link) -> JVal {
    let es = with_text(seq![], "relation"@, l.relation@);
    let es = with_text(es, "target"@, l.target@);
    let es = with_opt_text(es, "rationale"@, opt_view(l.rationale));
    let es = with_opt_float(es, "strength"@, l.strength);
    let es = with_opt_text(es, "recorded_at"@, opt_view(l.recorded_at));
    JVal::Obj(es)
}

pub fn evidence_json(e: &Evidence) -> (r: Json)
    ensures
        jview(r) == evidence_jval(*e),
{
    let mut es: Vec<(String, Json)> = Vec::new();
    put_text(&mut es, "type", e.evidence_type.as_str());
    put_text(&mut es, "reference", e.reference.as_str());
    put_opt_text(&mut es, "date", &e.date);
    put_opt_text(&mut es, "excerpt", &e.excerpt);
    put_opt_text(&mut es, "recorded_by", &e.recorded_by);
    Json::Object(es)
}

pub fn outcome_json(o: &Outcome) -> (r: Json)
    ensures
        jview(r) == outcome_jval(*o),
{
    let mut es: Vec<(String, Json)> = Vec::new();
    put_text(&mut es, "status", o.status.as_str());
    put_opt_text(&mut es, "notes", &o.notes);
    put_opt_float(&mut es, "duration", o.duration);
    put_opt_text(&mut es, "agent", &o.agent);
    put_opt_text(&mut es, "recorded_at", &o.recorded_at);
    Json::Object(es)
}

pub fn provenance_json(p: &Provenance) -> (r: Json)
    ensures
        jview(r) == provenance_jval(*p),
{
    let mut es: Vec<(String, Json)> = Vec::new();
    put_opt_text(&mut es, "source_tool", &p.source_tool);
    put_opt_text(&mut es, "recorded_via", &p.recorded_via);
    put_opt_text(&mut es, "recorded_by", &p.recorded_by);
    Json::Object(es)
}

pub fn link_json(l: &Link) -> (r: Json)
    ensures
        jview(r) == link_jval(*l),
{
    let mut es: Vec<(String, Json)> = Vec::new();
    put_text(&mut es, "relation", l.relation.as_str());
    put_text(&mut es, "target", l.target.as_str());
    put_opt_text(&mut es, "rationale", &l.rationale);
    put_opt_float(&mut es, "strength", l.strength);
    put_opt_text(&mut es, "recorded_at", &l.recorded_at);
    Json::Object(es)
}

/// The JSON forms of a list of evidence.
pub open spec fn evidence_list(v: Seq<Evidence>) -> Seq<JVal> {
    v.map_values(|e: Evidence| evidence_jval(e))
}

/// The JSON forms of a list of outcomes.
pub open spec fn outcome_list(v: Seq<Outcome>) -> Seq<JVal> {
    v.map_values(|o: Outcome| outcome_jval(o))
}

pub fn evidence_array(v: &Vec<Evidence>) -> (r: Json)
    ensures
        jview(r) == JVal::Arr(evidence_list(v@)),
{
    let mut items: Vec<Json> = Vec::new();
    let mut i: usize = 0;
    while i < v.len()
        invariant
            i <= v.len(),
            arr_view(items@) == evidence_list(v@.take(i as int)),
        decreases v.len() - i,
    {
        let x = evidence_json(&v[i]);
        proof {
            lemma_arr_push(items@, x);
        }
        items.push(x);
        assert(evidence_list(v@.take(i + 1)) =~= evidence_list(v@.take(i as int)).push(
            evidence_jval(v@[i as int]),
        ));
        i += 1;
    }
    assert(v@.take(v.len() as int) =~= v@);
    Json::Array(items)
}

pub fn outcome_array(v: &Vec<Outcome>) -> (r: Json)
    ensures
        jview(r) == JVal::Arr(outcome_list(v@)),
{
    let mut items: Vec<Json> = Vec::new();
    let mut i: usize = 0;
    while i < v.len()
        invariant
            i <= v.len(),
            arr_view(items@) == outcome_list(v@.take(i as int)),
        decreases v.len() - i,
    {
        let x = outcome_json(&v[i]);
        proof {
            lemma_arr_push(items@, x);
        }
        items.push(x);
        assert(outcome_list(v@.take(i + 1)) =~= outcome_list(v@.take(i as int)).push(
            outcome_jval(v@[i as int]),
        ));
        i += 1;
    }
    assert(v@.take(v.len() as int) =~= v@);
    Json::Array(items)
}

/// A JSON command-line argument after decoding: the value, or the raw text
/// that did not decode.
pub enum JsonArg<T> {
    Decoded(T),
    Invalid(String),
}

/// The flags that take a JSON value.
#[derive(Clone, Copy, PartialEq, Eq, Structural, Debug)]
pub enum JsonFlag {
    Evidence,
    Outcomes,
    Provenance,
    Outcome,
}

impl JsonFlag {
    /// The flag as written on the command line.
    pub fn flag_text(self) -> (r: &'static str)
        ensures
            r@ == crate::messages::flag_words(self),
    {
        match self {
            JsonFlag::Evidence => "--evidence-json",
            JsonFlag::Outcomes => "--outcomes-json",
            JsonFlag::Provenance => "--provenance-json",
            JsonFlag::Outcome => "--outcome-json",
        }
    }
}

/// The options that every kind of record but a person takes.
pub struct CommonCreateArgs {
    pub id: Option<String>,
    pub recorded_at: Option<String>,
    pub domain: Option<String>,
    pub description: Option<String>,
    pub tags: Vec<String>,
    pub author: Option<String>,
    pub status: Option<String>,
    /// A double, as its IEEE-754 bit pattern.
    pub confidence: Option<u64>,
    pub impact: Option<String>,
    pub classification: Option<String>,
    pub related_files: Vec<String>,
    pub evidence_json: Vec<JsonArg<Evidence>>,
    pub outcomes_json: Vec<JsonArg<Outcome>>,
    pub provenance_json: Option<JsonArg<Provenance>>,
    pub context: String,
}

/// The ontology members shared by the records, once their JSON arguments decoded.
pub struct CommonOntologyFields {
    pub classification: Option<String>,
    pub related_files: Vec<String>,
    pub evidence: Vec<Evidence>,
    pub outcomes: Vec<Outcome>,
    pub provenance: Option<Provenance>,
}

/// Why a record could not be made.
pub enum CreateError {
    /// A JSON argument did not decode; `raw` is its text.
    BadJsonArgument { flag: JsonFlag, raw: String },
    /// The record, or one of its dates, breaks a rule.
    Rejected(ValidationError),
    /// The record has no text `id`.
    MissingId,
}

/// The mathematical form of a `CreateError`.
pub enum CreateFailure {
    BadJsonArgument { flag: JsonFlag, raw: Seq<char> },
    Rejected(Problem),
    MissingId,
}

impl View for CreateError {
    type V = CreateFailure;

    open spec fn view(&self) -> CreateFailure {
        match self {
            CreateError::BadJsonArgument { flag, raw } => CreateFailure::BadJsonArgument {
                flag: *flag,
                raw: raw@,
            },
            CreateError::Rejected(e) => CreateFailure::Rejected(e@),
            CreateError::MissingId => CreateFailure::MissingId,
        }
    }
}

/// The raw text of the first argument that did not decode.
pub open spec fn first_invalid<T>(args: Seq<JsonArg<T>>) -> Option<Seq<char>>
    decreases args.len(),
{
    if args.len() == 0 {
        None
    } else {
        match args[0] {
            JsonArg::Invalid(raw) => Some(raw@),
            JsonArg::Decoded(_) => first_invalid(args.drop_first()),
        }
    }
}

/// The decoded values of arguments that all decoded.
pub open spec fn decoded<T>(args: Seq<JsonArg<T>>) -> Seq<T> {
    args.map_values(|a: JsonArg<T>| a->Decoded_0)
}

/// The first JSON argument of `c` that did not decode: evidence first, then
/// outcomes, then provenance.
pub open spec fn json_failure(c: CommonCreateArgs) -> Option<CreateFailure> {
    match first_invalid(c.evidence_json@) {
        Some(raw) => Some(CreateFailure::BadJsonArgument { flag: JsonFlag::Evidence, raw }),
        None => match first_invalid(c.outcomes_json@) {
            Some(raw) => Some(CreateFailure::BadJsonArgument { flag: JsonFlag::Outcomes, raw }),
            None => match c.provenance_json {
                Some(JsonArg::Invalid(raw)) => Some(
                    CreateFailure::BadJsonArgument { flag: JsonFlag::Provenance, raw: raw@ },
                ),
                _ => None,
            },
        },
    }
}

/// The mathematical form of the ontology members: the classification, the
/// related files, and the JSON forms of the evidence, outcomes and provenance.
pub struct OntologyView {
    pub classification: Option<Seq<char>>,
    pub related_files: Seq<Seq<char>>,
    pub evidence: Seq<JVal>,
    pub outcomes: Seq<JVal>,
    pub provenance: Option<JVal>,
}

impl View for CommonOntologyFields {
    type V = OntologyView;

    open spec fn view(&self) -> OntologyView {
        OntologyView {
            classification: opt_view(self.classification),
            related_files: texts_view(self.related_files@),
            evidence: evidence_list(self.evidence@),
            outcomes: outcome_list(self.outcomes@),
            provenance: match self.provenance {
                Some(p) => Some(provenance_jval(p)),
                None => None,
            },
        }
    }
}

/// The ontology members that the options `c` give, when all their JSON
/// arguments decoded.
pub open spec fn ontology_of(c: CommonCreateArgs) -> OntologyView {
    OntologyView {
        classification: opt_view(c.classification),
        related_files: texts_view(c.related_files@),
        evidence: evidence_list(decoded(c.evidence_json@)),
        outcomes: outcome_list(decoded(c.outcomes_json@)),
        provenance: match c.provenance_json {
            Some(JsonArg::Decoded(p)) => Some(provenance_jval(p)),
            _ => None,
        },
    }
}

proof fn lemma_first_invalid_step<T>(args: Seq<JsonArg<T>>, i: int)
    requires
        0 <= i < args.len(),
        first_invalid(args.take(i)) is None,
    ensures
        first_invalid(args.take(i + 1)) == (match args[i] {
            JsonArg::Invalid(raw) => Some(raw@),
            JsonArg::Decoded(_) => None::<Seq<char>>,
        }),
    decreases i,
{
    assert(args.take(i + 1)[0] == args[0]);
    if i > 0 {
        assert(args.take(i)[0] == args[0]);
        assert(args.take(i + 1).drop_first() =~= args.drop_first().take(i));
        assert(args.take(i).drop_first() =~= args.drop_first().take(i - 1));
        lemma_first_invalid_step(args.drop_first(), i - 1);
    } else {
        assert(args.take(1).drop_first().len() == 0);
        assert(first_invalid(args.take(1).drop_first()) is None);
    }
}

/// Decodes the evidence arguments, stopping at the first that did not decode.
fn decode_all_evidence(args: &Vec<JsonArg<Evidence>>) -> (r: Result<Vec<Evidence>, String>)
    ensures
        match r {
            Ok(v) => first_invalid(args@) is None && evidence_list(v@) == evidence_list(
                decoded(args@),
            ),
            Err(raw) => first_invalid(args@) == Some(raw@),
        },
{
    let mut out: Vec<Evidence> = Vec::new();
    let mut i: usize = 0;
    while i < args.len()
        invariant
            i <= args.len(),
            first_invalid(args@.take(i as int)) is None,
            evidence_list(out@) == evidence_list(decoded(args@.take(i as int))),
        decreases args.len() - i,
    {
        proof {
            lemma_first_invalid_step(args@, i as int);
        }
        match &args[i] {
            JsonArg::Invalid(raw) => {
                proof {
                    lemma_first_invalid_prefix(args@, i + 1);
                }
                return Err(raw.clone());
            },
            JsonArg::Decoded(e) => {
                let copy = Evidence {
                    evidence_type: e.evidence_type.clone(),
                    reference: e.reference.clone(),
                    date: copy_opt(&e.date),
                    excerpt: copy_opt(&e.excerpt),
                    recorded_by: copy_opt(&e.recorded_by),
                };
                out.push(copy);
                assert(evidence_list(decoded(args@.take(i + 1))) =~= evidence_list(
                    decoded(args@.take(i as int)),
                ).push(evidence_jval(*e)));
                assert(evidence_list(out@) =~= evidence_list(decoded(args@.take(i as int))).push(
                    evidence_jval(*e),
                ));
            },
        }
        i += 1;
    }
    assert(args@.take(args.len() as int) =~= args@);
    Ok(out)
}

/// Decodes the outcome arguments, stopping at the first that did not decode.
fn decode_all_outcomes(args: &Vec<JsonArg<Outcome>>) -> (r: Result<Vec<Outcome>, String>)
    ensures
        match r {
            Ok(v) => first_invalid(args@) is None && outcome_list(v@) == outcome_list(
                decoded(args@),
            ),
            Err(raw) => first_invalid(args@) == Some(raw@),
        },
{
    let mut out: Vec<Outcome> = Vec::new();
    let mut i: usize = 0;
    while i < args.len()
        invariant
            i <= args.len(),
            first_invalid(args@.take(i as int)) is None,
            outcome_list(out@) == outcome_list(decoded(args@.take(i as int))),
        decreases args.len() - i,
    {
        proof {
            lemma_first_invalid_step(args@, i as int);
        }
        match &args[i] {
            JsonArg::Invalid(raw) => {
                proof {
                    lemma_first_invalid_prefix(args@, i + 1);
                }
                return Err(raw.clone());
            },
            JsonArg::Decoded(o) => {
                out.push(copy_outcome(o));
                assert(outcome_list(decoded(args@.take(i + 1))) =~= outcome_list(
                    decoded(args@.take(i as int)),
                ).push(outcome_jval(*o)));
                assert(outcome_list(out@) =~= outcome_list(decoded(args@.take(i as int))).push(
                    outcome_jval(*o),
                ));
            },
        }
        i += 1;
    }
    assert(args@.take(args.len() as int) =~= args@);
    Ok(out)
}

fn copy_outcome(o: &Outcome) -> (r: Outcome)
    ensures
        outcome_jval(r) == outcome_jval(*o),
{
    Outcome {
        status: o.status.clone(),
        notes: copy_opt(&o.notes),
        duration: o.duration,
        agent: copy_opt(&o.agent),
        recorded_at: copy_opt(&o.recorded_at),
    }
}

fn copy_provenance(p: &Provenance) -> (r: Provenance)
    ensures
        provenance_jval(r) == provenance_jval(*p),
{
    Provenance {
        source_tool: copy_opt(&p.source_tool),
        recorded_via: copy_opt(&p.recorded_via),
        recorded_by: copy_opt(&p.recorded_by),
    }
}

/// When a prefix already holds an argument that did not decode, so does
/// the whole list, with the same text.
proof fn lemma_first_invalid_prefix<T>(args: Seq<JsonArg<T>>, n: int)
    requires
        0 <= n <= args.len(),
        first_invalid(args.take(n)) is Some,
    ensures
        first_invalid(args) == first_invalid(args.take(n)),
    decreases n,
{
    if n > 0 {
        assert(args.take(n)[0] == args[0]);
        if args[0] is Decoded {
            assert(args.take(n).drop_first() =~= args.drop_first().take(n - 1));
            lemma_first_invalid_prefix(args.drop_first(), n - 1);
        }
    }
}

/// Decodes the JSON options of `common` (evidence, outcomes, provenance, in
/// that order) and gathers the ontology members; the first argument that
/// did not decode is the error.
pub fn parse_common_ontology_fields(common: &CommonCreateArgs) -> (r: Result<
    CommonOntologyFields,
    CreateError,
>)
    ensures
        match r {
            Ok(o) => json_failure(*common) is None && o@ == ontology_of(*common),
            Err(e) => json_failure(*common) == Some(e@),
        },
{
    let evidence = match decode_all_evidence(&common.evidence_json) {
        Ok(v) => v,
        Err(raw) => {
            return Err(CreateError::BadJsonArgument { flag: JsonFlag::Evidence, raw });
        },
    };
    let outcomes = match decode_all_outcomes(&common.outcomes_json) {
        Ok(v) => v,
        Err(raw) => {
            return Err(CreateError::BadJsonArgument { flag: JsonFlag::Outcomes, raw });
        },
    };
    let provenance = match &common.provenance_json {
        Some(JsonArg::Invalid(raw)) => {
            return Err(CreateError::BadJsonArgument { flag: JsonFlag::Provenance, raw: raw.clone() });
        },
        Some(JsonArg::Decoded(p)) => Some(copy_provenance(p)),
        None => None,
    };
    let r = CommonOntologyFields {
        classification: copy_opt(&common.classification),
        related_files: crate::model::copy_texts(&common.related_files),
        evidence,
        outcomes,
        provenance,
    };
    assert(r@.provenance == ontology_of(*common).provenance);
    Ok(r)
}

/// The identifier made for a record of `domain` from the random `token`.
pub open spec fn urn(domain: Seq<char>, token: Seq<char>) -> Seq<char> {
    "urn:bitacora:"@ + domain + ":"@ + token
}

/// `id` is an identifier made for a record of `domain` from a random UUID.
pub open spec fn is_urn_of(id: Seq<char>, domain: Seq<char>) -> bool {
    exists|token: Seq<char>| crate::datetime::uuid_v4_text(token) && id == #[trigger] urn(domain, token)
}

/// The identifier `urn:bitacora:<domain>:<token>`.
pub fn urn_text(domain: &str, token: &str) -> (r: String)
    ensures
        r@ == urn(domain@, token@),
{
    let mut r = String::new();
    crate::text::push_text(&mut r, "urn:bitacora:");
    crate::text::push_text(&mut r, domain);
    crate::text::push_text(&mut r, ":");
    crate::text::push_text(&mut r, token);
    r
}

/// A fresh identifier for a record of `domain`, made from a random UUID.
pub fn make_urn(domain: &str) -> (r: String)
    ensures
        is_urn_of(r@, domain@),
{
    let token = crate::datetime::new_uuid_v4();
    let r = urn_text(domain, token.as_str());
    assert(r@ == urn(domain@, token@));
    r
}

/// The `recorded_at` that a record gets: the given one, when it is an RFC
/// 3339 date-time; the current time, written in RFC 3339, when none is given.
pub fn normalize_recorded_at(recorded_at: Option<&str>) -> (r: Result<String, ValidationError>)
    ensures
        match recorded_at {
            Some(v) => match r {
                Ok(s) => s@ == v@ && datetime_check(v@, named("recorded_at"@)) is Ok,
                Err(e) => datetime_check(v@, named("recorded_at"@)) == Err::<(), Problem>(e@),
            },
            None => r matches Ok(s) && rfc3339_instant(s@) is Some && !crate::text::is_blank(s@),
        },
{
    match recorded_at {
        Some(v) => match validate_iso_datetime(v, "recorded_at") {
            Ok(()) => Ok(owned(v)),
            Err(e) => Err(e),
        },
        None => Ok(crate::datetime::now_rfc3339()),
    }
}

/// The domain of a record: the given one, else `general`.
pub open spec fn domain_of(c: CommonCreateArgs) -> Seq<char> {
    match c.domain {
        Some(d) => d@,
        None => "general"@,
    }
}

/// The error, if any, that the dates and JSON options of `c` give: a JSON
/// option that did not decode, else a `recorded_at` that is not RFC 3339.
pub open spec fn create_failure(c: CommonCreateArgs) -> Option<CreateFailure> {
    match json_failure(c) {
        Some(f) => Some(f),
        None => match c.recorded_at {
            Some(v) => match datetime_check(v@, named("recorded_at"@)) {
                Err(p) => Some(CreateFailure::Rejected(p)),
                Ok(_) => None,
            },
            None => None,
        },
    }
}

/// `id` and `ts` are the identifier and time that a record made from `c`
/// carries: the given ones, else a fresh identifier of its domain and the
/// current time, a non-blank RFC 3339 date-time.
pub open spec fn stamped(c: CommonCreateArgs, id: Seq<char>, ts: Seq<char>) -> bool {
    &&& match c.id {
        Some(x) => id == x@,
        None => is_urn_of(id, domain_of(c)),
    }
    &&& match c.recorded_at {
        Some(x) => ts == x@,
        None => rfc3339_instant(ts) is Some && !crate::text::is_blank(ts),
    }
}

/// The members that open every record.
pub open spec fn head(context: Seq<char>, id: Seq<char>, kind: Seq<char>) -> Entries {
    let es = with_text(seq![], "@context"@, context);
    let es = with_text(es, "id"@, id);
    with_text(es, "type"@, kind)
}

/// The classification and related files.
pub open spec fn with_files(es: Entries, o: OntologyView) -> Entries {
    let es = with_opt_text(es, "classification"@, o.classification);
    with_texts(es, "related_files"@, o.related_files)
}

/// The evidence, outcomes and provenance.
pub open spec fn with_support(es: Entries, o: OntologyView) -> Entries {
    let es = with_val(es, "evidence"@, JVal::Arr(o.evidence));
    let es = with_val(es, "outcomes"@, JVal::Arr(o.outcomes));
    with_opt_val(es, "provenance"@, o.provenance)
}

/// The links of a new record: none.
pub open spec fn with_no_links(es: Entries) -> Entries {
    with_val(es, "links"@, JVal::Arr(seq![]))
}

fn put_head(es: &mut Vec<(String, Json)>, context: &str, id: &str, kind: &str)
    requires
        old(es)@.len() == 0,
    ensures
        obj_view(final(es)@) == head(context@, id@, kind@),
{
    assert(obj_view(es@) =~= seq![]);
    put_text(es, "@context", context);
    put_text(es, "id", id);
    put_text(es, "type", kind);
}

fn put_files(es: &mut Vec<(String, Json)>, o: &CommonOntologyFields)
    ensures
        obj_view(final(es)@) == with_files(obj_view(old(es)@), o@),
{
    put_opt_text(es, "classification", &o.classification);
    put_texts(es, "related_files", &o.related_files);
}

fn put_support(es: &mut Vec<(String, Json)>, o: &CommonOntologyFields)
    ensures
        obj_view(final(es)@) == with_support(obj_view(old(es)@), o@),
{
    put(es, "evidence", evidence_array(&o.evidence));
    put(es, "outcomes", outcome_array(&o.outcomes));
    match &o.provenance {
        Some(p) => put(es, "provenance", provenance_json(p)),
        None => {},
    }
}

fn put_no_links(es: &mut Vec<(String, Json)>)
    ensures
        obj_view(final(es)@) == with_no_links(obj_view(old(es)@)),
{
    let items: Vec<Json> = Vec::new();
    assert(arr_view(items@) =~= seq![]);
    put(es, "links", Json::Array(items));
}

/// The options of `create decision`.
pub struct CreateDecisionArgs {
    pub common: CommonCreateArgs,
    pub title: String,
    pub rationale: String,
    pub options_considered: Vec<String>,
    pub chosen_option: Option<String>,
    pub effective_from: Option<String>,
    pub consequences: Option<String>,
    pub impacted_components: Vec<String>,
}

/// The options of `create fact`.
pub struct CreateFactArgs {
    pub common: CommonCreateArgs,
    pub observation: String,
    pub related_components: Vec<String>,
}

/// The options of `create assumption`.
pub struct CreateAssumptionArgs {
    pub common: CommonCreateArgs,
    pub assumption_statement: String,
    pub tests_needed: Vec<String>,
    pub expire_at: Option<String>,
}

/// The options of `create meeting`.
pub struct CreateMeetingArgs {
    pub common: CommonCreateArgs,
    pub title: String,
    pub date: String,
    pub location: Option<String>,
    pub participants: Vec<String>,
    pub minutes: Option<String>,
    pub decisions_made: Vec<String>,
    pub actions: Vec<String>,
}

/// The options of `create action`.
pub struct CreateActionArgs {
    pub common: CommonCreateArgs,
    pub title: String,
    pub assigned_to: Option<String>,
    pub due_date: Option<String>,
    pub parent_decision: Option<String>,
    pub outcome_json: Option<JsonArg<Outcome>>,
}

/// The options of `create person`.
pub struct CreatePersonArgs {
    pub id: Option<String>,
    pub name: String,
    pub role: Option<String>,
    pub contact: Option<String>,
    pub context: String,
}

/// The members that every record but a person has after its own leading
/// members: the domain, the description, the tags and the author.
pub open spec fn with_basics(es: Entries, c: CommonCreateArgs) -> Entries {
    let es = with_text(es, "domain"@, domain_of(c));
    let es = with_opt_text(es, "description"@, opt_view(c.description));
    let es = with_texts(es, "tags"@, texts_view(c.tags@));
    with_opt_text(es, "author"@, opt_view(c.author))
}

/// The JSON document of a decision with identifier `id` and time `ts`.
pub open spec fn decision_doc(a: CreateDecisionArgs, o: OntologyView, id: Seq<char>, ts: Seq<char>) -> JVal {
    let c = a.common;
    let es = with_text(head(c.context@, id, "Decision"@), "recorded_at"@, ts);
    let es = with_text(es, "title"@, a.title@);
    let es = with_text(es, "rationale"@, a.rationale@);
    let es = with_basics(es, c);
    let es = with_opt_text(es, "status"@, opt_view(c.status));
    let es = with_opt_float(es, "confidence"@, c.confidence);
    let es = with_opt_text(es, "impact"@, opt_view(c.impact));
    let es = with_support(with_files(es, o), o);
    let es = with_texts(es, "options_considered"@, texts_view(a.options_considered@));
    let es = with_opt_text(es, "chosen_option"@, opt_view(a.chosen_option));
    let es = with_opt_text(es, "effective_from"@, opt_view(a.effective_from));
    let es = with_opt_text(es, "consequences"@, opt_view(a.consequences));
    let es = with_texts(es, "impacted_components"@, texts_view(a.impacted_components@));
    JVal::Obj(with_no_links(es))
}

/// The JSON document of a fact with identifier `id` and time `ts`.
pub open spec fn fact_doc(a: CreateFactArgs, o: OntologyView, id: Seq<char>, ts: Seq<char>) -> JVal {
    let c = a.common;
    let es = with_text(head(c.context@, id, "Fact"@), "recorded_at"@, ts);
    let es = with_text(es, "observation"@, a.observation@);
    let es = with_basics(es, c);
    let es = with_opt_float(es, "confidence"@, c.confidence);
    let es = with_files(es, o);
    let es = with_texts(es, "related_components"@, texts_view(a.related_components@));
    let es = with_support(es, o);
    JVal::Obj(with_no_links(es))
}

/// The JSON document of an assumption with identifier `id` and time `ts`.
pub open spec fn assumption_doc(a: CreateAssumptionArgs, o: OntologyView, id: Seq<char>, ts: Seq<char>) -> JVal {
    let c = a.common;
    let es = with_text(head(c.context@, id, "Assumption"@), "recorded_at"@, ts);
    let es = with_text(es, "assumption_statement"@, a.assumption_statement@);
    let es = with_basics(es, c);
    let es = with_opt_float(es, "confidence"@, c.confidence);
    let es = with_support(with_files(es, o), o);
    let es = with_texts(es, "tests_needed"@, texts_view(a.tests_needed@));
    let es = with_opt_text(es, "expire_at"@, opt_view(a.expire_at));
    JVal::Obj(with_no_links(es))
}

/// The JSON document of a meeting with identifier `id` and time `ts`.
pub open spec fn meeting_doc(a: CreateMeetingArgs, o: OntologyView, id: Seq<char>, ts: Seq<char>) -> JVal {
    let c = a.common;
    let es = with_text(head(c.context@, id, "Meeting"@), "recorded_at"@, ts);
    let es = with_text(es, "title"@, a.title@);
    let es = with_text(es, "date"@, a.date@);
    let es = with_basics(es, c);
    let es = with_support(with_files(es, o), o);
    let es = with_opt_text(es, "location"@, opt_view(a.location));
    let es = with_texts(es, "participants"@, texts_view(a.participants@));
    let es = with_opt_text(es, "minutes"@, opt_view(a.minutes));
    let es = with_texts(es, "decisions_made"@, texts_view(a.decisions_made@));
    let es = with_texts(es, "actions"@, texts_view(a.actions@));
    JVal::Obj(with_no_links(es))
}

/// The JSON form of the single outcome of an action, when it decoded.
pub open spec fn action_outcome(a: CreateActionArgs) -> Option<JVal> {
    match a.outcome_json {
        Some(JsonArg::Decoded(o)) => Some(outcome_jval(o)),
        _ => None,
    }
}

/// The JSON document of an action with identifier `id` and time `ts`.
pub open spec fn action_doc(a: CreateActionArgs, o: OntologyView, id: Seq<char>, ts: Seq<char>) -> JVal {
    let c = a.common;
    let es = with_text(head(c.context@, id, "Action"@), "recorded_at"@, ts);
    let es = with_text(es, "title"@, a.title@);
    let es = with_basics(es, c);
    let es = with_support(with_files(es, o), o);
    let es = with_opt_text(es, "status"@, opt_view(c.status));
    let es = with_opt_text(es, "assigned_to"@, opt_view(a.assigned_to));
    let es = with_opt_text(es, "due_date"@, opt_view(a.due_date));
    let es = with_opt_text(es, "parent_decision"@, opt_view(a.parent_decision));
    let es = with_opt_val(es, "outcome"@, action_outcome(a));
    JVal::Obj(with_no_links(es))
}

/// The JSON document of a person with identifier `id`.
pub open spec fn person_doc(a: CreatePersonArgs, id: Seq<char>) -> JVal {
    let es = with_text(head(a.context@, id, "Person"@), "name"@, a.name@);
    let es = with_opt_text(es, "role"@, opt_view(a.role));
    JVal::Obj(with_opt_text(es, "contact"@, opt_view(a.contact)))
}

/// `v` is a decision made from `a`, filed under domain `d`.
pub open spec fn decision_made(a: CreateDecisionArgs, v: Json, d: Seq<char>) -> bool {
    &&& d == domain_of(a.common)
    &&& exists|id: Seq<char>, ts: Seq<char>|
        stamped(a.common, id, ts) && jview(v) == #[trigger] decision_doc(a, ontology_of(a.common), id, ts)
}

/// `v` is a fact made from `a`, filed under domain `d`.
pub open spec fn fact_made(a: CreateFactArgs, v: Json, d: Seq<char>) -> bool {
    &&& d == domain_of(a.common)
    &&& exists|id: Seq<char>, ts: Seq<char>|
        stamped(a.common, id, ts) && jview(v) == #[trigger] fact_doc(a, ontology_of(a.common), id, ts)
}

/// `v` is an assumption made from `a`, filed under domain `d`.
pub open spec fn assumption_made(a: CreateAssumptionArgs, v: Json, d: Seq<char>) -> bool {
    &&& d == domain_of(a.common)
    &&& exists|id: Seq<char>, ts: Seq<char>|
        stamped(a.common, id, ts) && jview(v) == #[trigger] assumption_doc(a, ontology_of(a.common), id, ts)
}

/// `v` is a meeting made from `a`, filed under domain `d`.
pub open spec fn meeting_made(a: CreateMeetingArgs, v: Json, d: Seq<char>) -> bool {
    &&& d == domain_of(a.common)
    &&& exists|id: Seq<char>, ts: Seq<char>|
        stamped(a.common, id, ts) && jview(v) == #[trigger] meeting_doc(a, ontology_of(a.common), id, ts)
}

/// `v` is an action made from `a`, filed under domain `d`.
pub open spec fn action_made(a: CreateActionArgs, v: Json, d: Seq<char>) -> bool {
    &&& d == domain_of(a.common)
    &&& exists|id: Seq<char>, ts: Seq<char>|
        stamped(a.common, id, ts) && jview(v) == #[trigger] action_doc(a, ontology_of(a.common), id, ts)
}

/// `v` is a person made from `a`, filed under domain `d` (always `people`).
pub open spec fn person_made(a: CreatePersonArgs, v: Json, d: Seq<char>) -> bool {
    &&& d == "people"@
    &&& exists|id: Seq<char>|
        (match a.id {
            Some(x) => id == x@,
            None => is_urn_of(id, "people"@),
        }) && jview(v) == #[trigger] person_doc(a, id)
}

/// The error of an action's options: those of the common options, else its
/// `--outcome-json` when that did not decode.
pub open spec fn action_failure(a: CreateActionArgs) -> Option<CreateFailure> {
    match create_failure(a.common) {
        Some(f) => Some(f),
        None => match a.outcome_json {
            Some(JsonArg::Invalid(raw)) => Some(
                CreateFailure::BadJsonArgument { flag: JsonFlag::Outcome, raw: raw@ },
            ),
            _ => None,
        },
    }
}

/// What every creation does first: decodes the JSON options, settles the
/// domain, the identifier and the time.
fn stamp(c: &CommonCreateArgs) -> (r: Result<(CommonOntologyFields, String, String, String), CreateError>)
    ensures
        match r {
            Ok((o, d, id, ts)) => create_failure(*c) is None && o@ == ontology_of(*c) && d@
                == domain_of(*c) && stamped(*c, id@, ts@),
            Err(e) => create_failure(*c) == Some(e@),
        },
{
    let ontology = match parse_common_ontology_fields(c) {
        Ok(o) => o,
        Err(e) => {
            return Err(e);
        },
    };
    let domain = match &c.domain {
        Some(d) => d.clone(),
        None => owned("general"),
    };
    let id = match &c.id {
        Some(x) => x.clone(),
        None => make_urn(domain.as_str()),
    };
    let given = match &c.recorded_at {
        Some(t) => Some(t.as_str()),
        None => None,
    };
    let ts = match normalize_recorded_at(given) {
        Ok(t) => t,
        Err(e) => {
            return Err(CreateError::Rejected(e));
        },
    };
    Ok((ontology, domain, id, ts))
}

/// Builds a decision record from its options.
pub fn create_decision(args: CreateDecisionArgs) -> (r: Result<(Json, String), CreateError>)
    ensures
        match r {
            Ok((v, d)) => create_failure(args.common) is None && decision_made(args, v, d@),
            Err(e) => create_failure(args.common) == Some(e@),
        },
{
    let (o, domain, id, ts) = match stamp(&args.common) {
        Ok(x) => x,
        Err(e) => {
            return Err(e);
        },
    };
    let c = &args.common;
    let mut es: Vec<(String, Json)> = Vec::new();
    put_head(&mut es, c.context.as_str(), id.as_str(), "Decision");
    put_text(&mut es, "recorded_at", ts.as_str());
    put_text(&mut es, "title", args.title.as_str());
    put_text(&mut es, "rationale", args.rationale.as_str());
    put_text(&mut es, "domain", domain.as_str());
    put_opt_text(&mut es, "description", &c.description);
    put_texts(&mut es, "tags", &c.tags);
    put_opt_text(&mut es, "author", &c.author);
    put_opt_text(&mut es, "status", &c.status);
    put_opt_float(&mut es, "confidence", c.confidence);
    put_opt_text(&mut es, "impact", &c.impact);
    put_files(&mut es, &o);
    put_support(&mut es, &o);
    put_texts(&mut es, "options_considered", &args.options_considered);
    put_opt_text(&mut es, "chosen_option", &args.chosen_option);
    put_opt_text(&mut es, "effective_from", &args.effective_from);
    put_opt_text(&mut es, "consequences", &args.consequences);
    put_texts(&mut es, "impacted_components", &args.impacted_components);
    put_no_links(&mut es);
    let v = Json::Object(es);
    assert(jview(v) == decision_doc(args, ontology_of(args.common), id@, ts@));
    Ok((v, domain))
}

/// Builds a fact record from its options.
pub fn create_fact(args: CreateFactArgs) -> (r: Result<(Json, String), CreateError>)
    ensures
        match r {
            Ok((v, d)) => create_failure(args.common) is None && fact_made(args, v, d@),
            Err(e) => create_failure(args.common) == Some(e@),
        },
{
    let (o, domain, id, ts) = match stamp(&args.common) {
        Ok(x) => x,
        Err(e) => {
            return Err(e);
        },
    };
    let c = &args.common;
    let mut es: Vec<(String, Json)> = Vec::new();
    put_head(&mut es, c.context.as_str(), id.as_str(), "Fact");
    put_text(&mut es, "recorded_at", ts.as_str());
    put_text(&mut es, "observation", args.observation.as_str());
    put_text(&mut es, "domain", domain.as_str());
    put_opt_text(&mut es, "description", &c.description);
    put_texts(&mut es, "tags", &c.tags);
    put_opt_text(&mut es, "author", &c.author);
    put_opt_float(&mut es, "confidence", c.confidence);
    put_files(&mut es, &o);
    put_texts(&mut es, "related_components", &args.related_components);
    put_support(&mut es, &o);
    put_no_links(&mut es);
    let v = Json::Object(es);
    assert(jview(v) == fact_doc(args, ontology_of(args.common), id@, ts@));
    Ok((v, domain))
}

/// Builds an assumption record from its options.
pub fn create_assumption(args: CreateAssumptionArgs) -> (r: Result<(Json, String), CreateError>)
    ensures
        match r {
            Ok((v, d)) => create_failure(args.common) is None && assumption_made(args, v, d@),
            Err(e) => create_failure(args.common) == Some(e@),
        },
{
    let (o, domain, id, ts) = match stamp(&args.common) {
        Ok(x) => x,
        Err(e) => {
            return Err(e);
        },
    };
    let c = &args.common;
    let mut es: Vec<(String, Json)> = Vec::new();
    put_head(&mut es, c.context.as_str(), id.as_str(), "Assumption");
    put_text(&mut es, "recorded_at", ts.as_str());
    put_text(&mut es, "assumption_statement", args.assumption_statement.as_str());
    put_text(&mut es, "domain", domain.as_str());
    put_opt_text(&mut es, "description", &c.description);
    put_texts(&mut es, "tags", &c.tags);
    put_opt_text(&mut es, "author", &c.author);
    put_opt_float(&mut es, "confidence", c.confidence);
    put_files(&mut es, &o);
    put_support(&mut es, &o);
    put_texts(&mut es, "tests_needed", &args.tests_needed);
    put_opt_text(&mut es, "expire_at", &args.expire_at);
    put_no_links(&mut es);
    let v = Json::Object(es);
    assert(jview(v) == assumption_doc(args, ontology_of(args.common), id@, ts@));
    Ok((v, domain))
}

/// Builds a meeting record from its options.
pub fn create_meeting(args: CreateMeetingArgs) -> (r: Result<(Json, String), CreateError>)
    ensures
        match r {
            Ok((v, d)) => create_failure(args.common) is None && meeting_made(args, v, d@),
            Err(e) => create_failure(args.common) == Some(e@),
        },
{
    let (o, domain, id, ts) = match stamp(&args.common) {
        Ok(x) => x,
        Err(e) => {
            return Err(e);
        },
    };
    let c = &args.common;
    let mut es: Vec<(String, Json)> = Vec::new();
    put_head(&mut es, c.context.as_str(), id.as_str(), "Meeting");
    put_text(&mut es, "recorded_at", ts.as_str());
    put_text(&mut es, "title", args.title.as_str());
    put_text(&mut es, "date", args.date.as_str());
    put_text(&mut es, "domain", domain.as_str());
    put_opt_text(&mut es, "description", &c.description);
    put_texts(&mut es, "tags", &c.tags);
    put_opt_text(&mut es, "author", &c.author);
    put_files(&mut es, &o);
    put_support(&mut es, &o);
    put_opt_text(&mut es, "location", &args.location);
    put_texts(&mut es, "participants", &args.participants);
    put_opt_text(&mut es, "minutes", &args.minutes);
    put_texts(&mut es, "decisions_made", &args.decisions_made);
    put_texts(&mut es, "actions", &args.actions);
    put_no_links(&mut es);
    let v = Json::Object(es);
    assert(jview(v) == meeting_doc(args, ontology_of(args.common), id@, ts@));
    Ok((v, domain))
}

/// Builds an action record from its options.
pub fn create_action(args: CreateActionArgs) -> (r: Result<(Json, String), CreateError>)
    ensures
        match r {
            Ok((v, d)) => action_failure(args) is None && action_made(args, v, d@),
            Err(e) => action_failure(args) == Some(e@),
        },
{
    let (o, domain, id, ts) = match stamp(&args.common) {
        Ok(x) => x,
        Err(e) => {
            return Err(e);
        },
    };
    let outcome = match &args.outcome_json {
        Some(JsonArg::Invalid(raw)) => {
            return Err(CreateError::BadJsonArgument { flag: JsonFlag::Outcome, raw: raw.clone() });
        },
        Some(JsonArg::Decoded(x)) => Some(outcome_json(x)),
        None => None,
    };
    let c = &args.common;
    let mut es: Vec<(String, Json)> = Vec::new();
    put_head(&mut es, c.context.as_str(), id.as_str(), "Action");
    put_text(&mut es, "recorded_at", ts.as_str());
    put_text(&mut es, "title", args.title.as_str());
    put_text(&mut es, "domain", domain.as_str());
    put_opt_text(&mut es, "description", &c.description);
    put_texts(&mut es, "tags", &c.tags);
    put_opt_text(&mut es, "author", &c.author);
    put_files(&mut es, &o);
    put_support(&mut es, &o);
    put_opt_text(&mut es, "status", &c.status);
    put_opt_text(&mut es, "assigned_to", &args.assigned_to);
    put_opt_text(&mut es, "due_date", &args.due_date);
    put_opt_text(&mut es, "parent_decision", &args.parent_decision);
    match outcome {
        Some(x) => put(&mut es, "outcome", x),
        None => {},
    }
    put_no_links(&mut es);
    let v = Json::Object(es);
    assert(jview(v) == action_doc(args, ontology_of(args.common), id@, ts@));
    Ok((v, domain))
}

/// Builds a person record from its options; a person is filed under the
/// domain `people`.
pub fn create_person(args: CreatePersonArgs) -> (r: (Json, String))
    ensures
        person_made(args, r.0, r.1@),
{
    let domain = owned("people");
    let id = match &args.id {
        Some(x) => x.clone(),
        None => make_urn(domain.as_str()),
    };
    let mut es: Vec<(String, Json)> = Vec::new();
    put_head(&mut es, args.context.as_str(), id.as_str(), "Person");
    put_text(&mut es, "name", args.name.as_str());
    put_opt_text(&mut es, "role", &args.role);
    put_opt_text(&mut es, "contact", &args.contact);
    let v = Json::Object(es);
    assert(jview(v) == person_doc(args, id@));
    (v, domain)
}

} // verus!
