use vstd::prelude::*;
use crate::json::{f64_in_unit_interval, in_unit_interval, jview, JVal, Json};
use crate::model::{copy_opt, entries_view, opt_view, IndexEntry};
use crate::records::{
    action_failure, action_made, arr_view, assumption_made, create_action, create_assumption,
    create_decision, create_failure, create_fact, create_meeting, create_person, decision_made,
    fact_made, lemma_arr_push, lemma_obj_push, lemma_obj_view_index, link_json, link_jval,
    meeting_made, obj_view, person_made, CreateActionArgs, CreateAssumptionArgs,
    CreateDecisionArgs, CreateError, CreateFactArgs, CreateFailure, CreateMeetingArgs,
    CreatePersonArgs, Entries, Link,
};
use crate::text::{owned, same_chars, chars_of};
use crate::validation::{
    named, record_check, validate_record_json, validate_relation, vocabulary_check, Problem,
    ValidationError,
};
use crate::vocabulary::Vocabulary;

verus! {

/// The kinds of record that `create` makes, with their options.
pub enum CreateCommands {
    Decision(CreateDecisionArgs),
    Fact(CreateFactArgs),
    Assumption(CreateAssumptionArgs),
    Meeting(CreateMeetingArgs),
    Action(CreateActionArgs),
    Person(CreatePersonArgs),
}

/// The error, if any, that the options of `kind` give before any record
/// is built.
pub open spec fn kind_failure(kind: CreateCommands) -> Option<CreateFailure> {
    match kind {
        CreateCommands::Decision(a) => create_failure(a.common),
        CreateCommands::Fact(a) => create_failure(a.common),
        CreateCommands::Assumption(a) => create_failure(a.common),
        CreateCommands::Meeting(a) => create_failure(a.common),
        CreateCommands::Action(a) => action_failure(a),
        CreateCommands::Person(_) => None,
    }
}

/// `v` is a record that `kind` makes, filed under domain `d`.
pub open spec fn made_by(kind: CreateCommands, v: Json, d: Seq<char>) -> bool {
    match kind {
        CreateCommands::Decision(a) => decision_made(a, v, d),
        CreateCommands::Fact(a) => fact_made(a, v, d),
        CreateCommands::Assumption(a) => assumption_made(a, v, d),
        CreateCommands::Meeting(a) => meeting_made(a, v, d),
        CreateCommands::Action(a) => action_made(a, v, d),
        CreateCommands::Person(a) => person_made(a, v, d),
    }
}

/// A new record ready to be stored: its document, domain and identifier.
pub struct NewRecord {
    pub value: Json,
    pub domain: String,
    pub id: String,
}

/// Builds the record that `kind` asks for, checks it against the record
/// rules and reads its identifier: everything `create` does before it
/// stores the record.
///
/// It succeeds exactly when the options are sound and the records they
/// make pass the rules (whichever fresh identifier and clock reading they
/// get, the verdict is the same: `lemma_made_same_verdict`).
pub fn prepare_record(kind: CreateCommands) -> (r: Result<NewRecord, CreateError>)
    ensures
        r is Ok <==> (kind_failure(kind) is None && forall|v: Json, d: Seq<char>|
            #[trigger] made_by(kind, v, d) ==> record_check(jview(v)) is Ok),
        match r {
            Ok(n) => {
                &&& made_by(kind, n.value, n.domain@)
                &&& record_check(jview(n.value)) is Ok
                &&& n.value.text_at("id"@) == Some(n.id@)
            },
            Err(e) => {
                ||| kind_failure(kind) == Some(e@)
                ||| kind_failure(kind) is None && exists|p: Problem|
                    e@ == CreateFailure::Rejected(p) && forall|v: Json, d: Seq<char>|
                        #[trigger] made_by(kind, v, d) ==> record_check(jview(v)) == Err::<(), Problem>(p)
            },
        },
{
    let ghost k = kind;
    let made = match kind {
        CreateCommands::Decision(a) => create_decision(a),
        CreateCommands::Fact(a) => create_fact(a),
        CreateCommands::Assumption(a) => create_assumption(a),
        CreateCommands::Meeting(a) => create_meeting(a),
        CreateCommands::Action(a) => create_action(a),
        CreateCommands::Person(a) => Ok(create_person(a)),
    };
    let (value, domain) = match made {
        Ok(x) => x,
        Err(e) => {
            return Err(e);
        },
    };
    assert(kind_failure(k) is None && made_by(k, value, domain@));
    match validate_record_json(&value) {
        Ok(()) => {},
        Err(e) => {
            proof {
                assert forall|v: Json, d: Seq<char>| #[trigger] made_by(k, v, d) implies record_check(jview(v))
                    == Err::<(), Problem>(e@) by {
                    crate::stamp::lemma_made_same_verdict(k, value, domain@, v, d);
                }
            }
            return Err(CreateError::Rejected(e));
        },
    }
    proof {
        assert forall|v: Json, d: Seq<char>| #[trigger] made_by(k, v, d) implies record_check(jview(v)) is Ok by {
            crate::stamp::lemma_made_same_verdict(k, value, domain@, v, d);
        }
    }
    let id = match value.get_str("id") {
        Some(s) => s.clone(),
        None => {
            return Err(CreateError::MissingId);
        },
    };
    Ok(NewRecord { value, domain, id })
}

/// Files a new record stored at `path` (relative to the knowledge
/// directory) in the index: its entry replaces the entry with the same id,
/// or is appended.
pub fn index_new_record(index: &mut Vec<IndexEntry>, value: &Json, path: &str) -> (r: Result<(), crate::index::EntryError>)
    ensures
        r is Ok <==> (value.text_at("id"@) is Some && value.text_at("type"@) is Some),
        r is Ok ==> entries_view(final(index)@) == crate::index::upserted(
            entries_view(old(index)@),
            crate::index::entry_of(*value, value.text_at("id"@)->0, value.text_at("type"@)->0, path@),
        ),
        r is Err ==> final(index)@ == old(index)@,
{
    match crate::index::build_index_entry(value, path) {
        Ok(entry) => {
            crate::index::upsert_index_entry(index, entry);
            Ok(())
        },
        Err(e) => Err(e),
    }
}

/// A path joined as `PathBuf::push` joins on Unix: an absolute `rel`
/// replaces `dir`, and one `/` separates the two otherwise.
pub open spec fn join_path(dir: Seq<char>, rel: Seq<char>) -> Seq<char> {
    if rel.len() > 0 && rel[0] == '/' {
        rel
    } else if dir.len() == 0 || dir.last() == '/' {
        dir + rel
    } else {
        dir + seq!['/'] + rel
    }
}

/// Why an id could not be found.
pub enum LookupError {
    /// No index entry has the id.
    UnknownId(String),
}

/// Where the index says the record `id` is stored, under `knowledge_dir`.
pub fn resolve_record_path(entries: &Vec<IndexEntry>, knowledge_dir: &str, id: &str) -> (r: Result<String, LookupError>)
    ensures
        r is Err <==> forall|j: int| 0 <= j < entries.len() ==> (#[trigger] entries@[j]).id@ != id@,
        r matches Err(LookupError::UnknownId(x)) ==> x@ == id@,
        r matches Ok(p) ==> exists|i: int|
            0 <= i < entries.len() && (#[trigger] entries@[i]).id@ == id@ && (forall|j: int|
                0 <= j < i ==> (#[trigger] entries@[j]).id@ != id@) && p@ == join_path(
                knowledge_dir@,
                entries@[i].path@,
            ),
{
    match crate::index::find_entry(entries, id) {
        None => Err(LookupError::UnknownId(owned(id))),
        Some(i) => {
            let rel = chars_of(entries[i].path.as_str());
            let mut p = owned(knowledge_dir);
            let dv = chars_of(knowledge_dir);
            if rel.len() > 0 && rel[0] == '/' {
                p = entries[i].path.clone();
            } else {
                if dv.len() > 0 && dv[dv.len() - 1] != '/' {
                    crate::text::push_char(&mut p, '/');
                }
                crate::text::push_text(&mut p, entries[i].path.as_str());
            }
            assert(p@ == join_path(knowledge_dir@, entries@[i as int].path@));
            Ok(p)
        },
    }
}

/// The options of `link`.
pub struct LinkArgs {
    pub from: String,
    pub to: String,
    pub relation: String,
    pub rationale: Option<String>,
    /// A double, as its IEEE-754 bit pattern.
    pub strength: Option<u64>,
}

/// Why a link could not be added.
pub enum LinkError {
    /// The relation is unknown, or the linked record breaks a rule.
    Rejected(ValidationError),
    /// The strength lies outside `0.0..=1.0`.
    StrengthOutOfRange,
    /// The record to link from is not a JSON object.
    NotObject,
    /// The record's `links` member is not an array.
    LinksNotArray,
}

/// Checks the relation and the strength of a link before anything is read.
pub fn check_link_args(args: &LinkArgs) -> (r: Result<(), LinkError>)
    ensures
        match vocabulary_check(args.relation@, Vocabulary::Relation, named("relation"@)) {
            Err(p) => r matches Err(LinkError::Rejected(e)) && e@ == p,
            Ok(_) => match args.strength {
                Some(bits) => if f64_in_unit_interval(bits) {
                    r is Ok
                } else {
                    r matches Err(LinkError::StrengthOutOfRange)
                },
                None => r is Ok,
            },
        },
{
    match validate_relation(args.relation.as_str()) {
        Ok(()) => {},
        Err(e) => {
            return Err(LinkError::Rejected(e));
        },
    }
    match args.strength {
        Some(bits) => if in_unit_interval(bits) {
            Ok(())
        } else {
            Err(LinkError::StrengthOutOfRange)
        },
        None => Ok(()),
    }
}

/// The link that `args` describes, stamped with the current time in RFC
/// 3339.
pub fn new_link(args: &LinkArgs) -> (l: Link)
    ensures
        l.relation@ == args.relation@,
        l.target@ == args.to@,
        opt_view(l.rationale) == opt_view(args.rationale),
        l.strength == args.strength,
        l.recorded_at matches Some(t) && crate::datetime::rfc3339_instant(t@) is Some,
{
    Link {
        relation: args.relation.clone(),
        target: args.to.clone(),
        rationale: copy_opt(&args.rationale),
        strength: args.strength,
        recorded_at: Some(crate::datetime::now_rfc3339()),
    }
}

/// The position of the first entry with key `key`, or the number of
/// entries when there is none.
pub open spec fn first_key(es: Entries, key: Seq<char>) -> int
    decreases es.len(),
{
    if es.len() == 0 {
        0
    } else if es[0].0 == key {
        0
    } else {
        1 + first_key(es.drop_first(), key)
    }
}

proof fn lemma_first_key(es: Entries, key: Seq<char>, i: int)
    requires
        0 <= i <= es.len(),
        forall|j: int| 0 <= j < i ==> (#[trigger] es[j]).0 != key,
        i < es.len() ==> es[i].0 == key,
    ensures
        first_key(es, key) == i,
    decreases i,
{
    if i > 0 {
        assert forall|j: int| 0 <= j < i - 1 implies (#[trigger] es.drop_first()[j]).0 != key by {
            assert(es.drop_first()[j] == es[j + 1]);
        }
        if i < es.len() {
            assert(es.drop_first()[i - 1] == es[i]);
        }
        lemma_first_key(es.drop_first(), key, i - 1);
    }
}

/// The entries with `l` added to the array under the first `links` member,
/// or with a new `links` member holding `l` alone; `None` when `links` is
/// not an array.
pub open spec fn with_link(es: Entries, l: JVal) -> Option<Entries> {
    let i = first_key(es, "links"@);
    if i < es.len() {
        match es[i].1 {
            JVal::Arr(items) => Some(es.update(i, ("links"@, JVal::Arr(items.push(l))))),
            _ => None,
        }
    } else {
        Some(es.push(("links"@, JVal::Arr(seq![l]))))
    }
}

proof fn lemma_find_key_done(es: Seq<(String, Json)>, key: Seq<char>, i: int)
    requires
        0 <= i <= es.len(),
        forall|j: int| 0 <= j < i ==> (#[trigger] es[j]).0@ != key,
        i < es.len() ==> es[i].0@ == key,
    ensures
        i == first_key(obj_view(es), key),
{
    let v = obj_view(es);
    crate::records::lemma_entries_len(es, es.len());
    assert forall|j: int| 0 <= j < i implies (#[trigger] v[j]).0 != key by {
        lemma_obj_view_index(es, es.len(), j);
    }
    if i < es.len() {
        lemma_obj_view_index(es, es.len(), i);
    }
    lemma_first_key(v, key, i);
}

/// The position of the first entry with key `key`.
fn find_key(es: &Vec<(String, Json)>, key: &str) -> (i: usize)
    ensures
        i <= es.len(),
        i == first_key(obj_view(es@), key@),
        i < es.len() ==> es@[i as int].0@ == key@,
{
    let kv = chars_of(key);
    let mut i: usize = 0;
    while i < es.len()
        invariant
            i <= es.len(),
            kv@ == key@,
            forall|j: int| 0 <= j < i ==> (#[trigger] es@[j]).0@ != key@,
        decreases es.len() - i,
    {
        let ev = chars_of(es[i].0.as_str());
        if same_chars(&ev, &kv) {
            proof {
                lemma_find_key_done(es@, key@, i as int);
            }
            return i;
        }
        i += 1;
    }
    proof {
        lemma_find_key_done(es@, key@, i as int);
    }
    i
}

proof fn lemma_obj_update(es: Seq<(String, Json)>, i: int, x: (String, Json))
    requires
        0 <= i < es.len(),
    ensures
        obj_view(es.update(i, x)) == obj_view(es).update(i, (x.0@, jview(x.1))),
{
    let a = obj_view(es.update(i, x));
    let b = obj_view(es).update(i, (x.0@, jview(x.1)));
    crate::records::lemma_entries_len(es.update(i, x), es.len());
    crate::records::lemma_entries_len(es, es.len());
    assert forall|j: int| 0 <= j < es.len() implies a[j] == b[j] by {
        lemma_obj_view_index(es.update(i, x), es.len(), j);
        lemma_obj_view_index(es, es.len(), j);
    }
    assert(a =~= b);
}

/// Adds `link` to the links of `record`, then checks the record against
/// the record rules. The record keeps the link whatever the rules say; a
/// record that is not an object, or whose `links` is not an array, reads
/// as it did.
pub fn link_record(record: &mut Json, link: &Link) -> (r: Result<(), LinkError>)
    ensures
        match jview(*old(record)) {
            JVal::Obj(es) => match with_link(es, link_jval(*link)) {
                Some(es2) => {
                    &&& jview(*final(record)) == JVal::Obj(es2)
                    &&& match record_check(jview(*final(record))) {
                        Ok(_) => r is Ok,
                        Err(p) => r matches Err(LinkError::Rejected(e)) && e@ == p,
                    }
                },
                None => jview(*final(record)) == jview(*old(record)) && r matches Err(
                    LinkError::LinksNotArray,
                ),
            },
            _ => jview(*final(record)) == jview(*old(record)) && r matches Err(LinkError::NotObject),
        },
{
    let mut taken = Json::Null;
    std::mem::swap(&mut taken, record);
    match taken {
        Json::Object(mut es) => {
            let ghost before = es@;
            let i = find_key(&es, "links");
            if i < es.len() {
                proof {
                    lemma_obj_view_index(es@, es@.len(), i as int);
                }
                let (k, v) = es.remove(i);
                match v {
                    Json::Array(mut items) => {
                        let ghost old_items = items@;
                        let lj = link_json(link);
                        proof {
                            lemma_arr_push(items@, lj);
                        }
                        items.push(lj);
                        let ghost entry = (k, Json::Array(items));
                        es.insert(i, (k, Json::Array(items)));
                        proof {
                            assert(es@ =~= before.update(i as int, entry));
                            lemma_obj_update(before, i as int, entry);
                            let ov = obj_view(before);
                            assert(ov[i as int] == (k@, JVal::Arr(arr_view(old_items))));
                            assert(k@ == "links"@);
                            assert(with_link(ov, link_jval(*link)) == Some(
                                ov.update(i as int, ("links"@, JVal::Arr(arr_view(old_items).push(link_jval(*link))))),
                            ));
                            assert(jview(entry.1) == JVal::Arr(arr_view(old_items).push(link_jval(*link))));
                            assert(obj_view(es@) == ov.update(i as int, ("links"@, JVal::Arr(arr_view(old_items).push(link_jval(*link))))));
                            assert(Some(obj_view(es@)) == with_link(obj_view(before), link_jval(*link)));
                        }
                    },
                    other => {
                        es.insert(i, (k, other));
                        assert(es@ =~= before);
                        *record = Json::Object(es);
                        return Err(LinkError::LinksNotArray);
                    },
                }
            } else {
                let mut items: Vec<Json> = Vec::new();
                let lj = link_json(link);
                proof {
                    lemma_arr_push(items@, lj);
                    assert(arr_view(items@) =~= seq![]);
                }
                items.push(lj);
                let entry = (owned("links"), Json::Array(items));
                proof {
                    lemma_obj_push(es@, entry);
                    crate::records::lemma_entries_len(before, before.len());
                    assert(arr_view(items@) =~= seq![link_jval(*link)]);
                }
                es.push(entry);
                proof {
                    assert(obj_view(es@) == obj_view(before).push(("links"@, JVal::Arr(seq![link_jval(*link)]))));
                    assert(Some(obj_view(es@)) == with_link(obj_view(before), link_jval(*link)));
                }
            }
            assert(Some(obj_view(es@)) == with_link(obj_view(before), link_jval(*link)));
            *record = Json::Object(es);
            assert(jview(*record) == JVal::Obj(obj_view(es@)));
        },
        other => {
            *record = other;
            return Err(LinkError::NotObject);
        },
    }
    match validate_record_json(record) {
        Ok(()) => Ok(()),
        Err(e) => Err(LinkError::Rejected(e)),
    }
}

/// The options of `validate`: the file to check.
pub struct ValidateArgs {
    pub file: String,
}

/// The options of `show`: the id of the record to print.
pub struct ShowArgs {
    pub id: String,
}

/// The options of `links`: the ends and relation of the links wanted.
pub struct QueryLinksArgs {
    pub from: Option<String>,
    pub to: Option<String>,
    pub relation: Option<String>,
}

/// The options of `neighbors`.
pub struct NeighborsArgs {
    pub id: String,
    pub depth: usize,
    pub relation: Option<String>,
}

/// The options of `search`.
pub struct SearchArgs {
    pub query: String,
    pub in_types: Vec<String>,
    pub limit: usize,
}

/// The options of `validate-graph`: the form of the report.
pub struct ValidateGraphArgs {
    pub report: String,
}

impl ValidateGraphArgs {
    /// The report is asked for as JSON (`json`, in any ASCII case).
    pub fn json_report(&self) -> (r: bool)
        ensures
            r == crate::text::eq_ignore_case(self.report@, "json"@),
    {
        crate::text::eq_ignore_ascii_case(self.report.as_str(), "json")
    }
}

/// The options of `path`.
pub struct PathArgs {
    pub from: String,
    pub to: String,
    pub relation: Option<String>,
    pub max_depth: usize,
}

} // verus!
