use vstd::prelude::*;
use crate::commands::{made_by, CreateCommands};
use crate::json::{jget, jview, lemma_val_entry_update, val_entry, JVal, Json};
use crate::records::{
    action_doc, assumption_doc, decision_doc, domain_of, fact_doc, is_urn_of, meeting_doc,
    ontology_of, person_doc, stamped, urn, CreateActionArgs, CreateAssumptionArgs,
    CreateDecisionArgs, CreateFactArgs, CreateMeetingArgs, CreatePersonArgs, Entries,
    OntologyView,
};
use crate::datetime::rfc3339_instant;
use crate::text::{is_blank, is_white_space};
use crate::validation::{lemma_verdict_from_members, nonblank_text, record_check};

verus! {

/// The entries of an object with the value at position `i` replaced by
/// the text `v`, under the same key.
pub open spec fn with_text_at(es: Entries, i: int, v: Seq<char>) -> Entries {
    es.update(i, (es[i].0, JVal::Str(v)))
}

/// A record opens with `@context`, the identifier `id`, its `type`, and,
/// when `ts` is given, the time `ts`.
pub open spec fn opens_with(es: Entries, id: Seq<char>, ts: Option<Seq<char>>) -> bool {
    &&& es.len() >= 3
    &&& es[0].0 == "@context"@
    &&& es[1] == ("id"@, JVal::Str(id))
    &&& es[2].0 == "type"@
    &&& ts matches Some(t) ==> es.len() >= 4 && es[3] == ("recorded_at"@, JVal::Str(t))
}

/// The two identifiers are the same, or neither is blank.
pub open spec fn ids_alike(a: Seq<char>, b: Seq<char>) -> bool {
    a == b || (!is_blank(a) && !is_blank(b))
}

/// The two times are the same, or both are non-blank RFC 3339 date-times.
pub open spec fn times_alike(a: Seq<char>, b: Seq<char>) -> bool {
    a == b || (rfc3339_instant(a) is Some && !is_blank(a) && rfc3339_instant(b) is Some && !is_blank(
        b,
    ))
}

proof fn lemma_keys()
    ensures
        "@context"@ != "id"@,
        "@context"@ != "recorded_at"@,
        "id"@ != "recorded_at"@,
        "type"@ != "recorded_at"@,
{
    reveal_strlit("@context");
    reveal_strlit("id");
    reveal_strlit("recorded_at");
    reveal_strlit("type");
    assert("@context"@.len() == 8);
    assert("id"@.len() == 2);
    assert("recorded_at"@.len() == 11);
    assert("type"@.len() == 4);
}

/// Replacing the identifier of a record by one that is blank exactly when
/// it was keeps the verdict.
proof fn lemma_other_id(e: Entries, id1: Seq<char>, id2: Seq<char>, ts: Option<Seq<char>>)
    requires
        opens_with(e, id2, ts),
        ids_alike(id1, id2),
    ensures
        opens_with(with_text_at(e, 1, id1), id1, ts),
        record_check(JVal::Obj(with_text_at(e, 1, id1))) == record_check(JVal::Obj(e)),
{
    let e1 = with_text_at(e, 1, id1);
    lemma_keys();
    assert forall|k: Seq<char>| k != "id"@ && k != "recorded_at"@ implies #[trigger] jget(
        JVal::Obj(e),
        k,
    ) == jget(JVal::Obj(e1), k) by {
        lemma_val_entry_update(e, 1, (e[1].0, JVal::Str(id1)), k);
    }
    lemma_val_entry_update(e, 1, (e[1].0, JVal::Str(id1)), "recorded_at"@);
    reveal_with_fuel(val_entry, 3);
    assert(e1.drop_first()[0] == e1[1]);
    assert(e.drop_first()[0] == e[1]);
    assert(jget(JVal::Obj(e1), "id"@) == Some(JVal::Str(id1)));
    assert(jget(JVal::Obj(e), "id"@) == Some(JVal::Str(id2)));
    lemma_verdict_from_members(JVal::Obj(e1), JVal::Obj(e));
}

/// Replacing the time of a record by one that is valid exactly when it
/// was keeps the verdict.
proof fn lemma_other_time(e: Entries, id: Seq<char>, ts1: Seq<char>, ts2: Seq<char>)
    requires
        opens_with(e, id, Some(ts2)),
        times_alike(ts1, ts2),
    ensures
        opens_with(with_text_at(e, 3, ts1), id, Some(ts1)),
        record_check(JVal::Obj(with_text_at(e, 3, ts1))) == record_check(JVal::Obj(e)),
{
    let e1 = with_text_at(e, 3, ts1);
    lemma_keys();
    assert forall|k: Seq<char>| k != "id"@ && k != "recorded_at"@ implies #[trigger] jget(
        JVal::Obj(e),
        k,
    ) == jget(JVal::Obj(e1), k) by {
        lemma_val_entry_update(e, 3, (e[3].0, JVal::Str(ts1)), k);
    }
    lemma_val_entry_update(e, 3, (e[3].0, JVal::Str(ts1)), "id"@);
    reveal_with_fuel(val_entry, 5);
    assert(e1.drop_first().drop_first().drop_first()[0] == e1[3]);
    assert(e.drop_first().drop_first().drop_first()[0] == e[3]);
    assert(e1.drop_first()[0] == e1[1]);
    assert(e1.drop_first().drop_first()[0] == e1[2]);
    assert(e.drop_first()[0] == e[1]);
    assert(e.drop_first().drop_first()[0] == e[2]);
    assert(jget(JVal::Obj(e1), "recorded_at"@) == Some(JVal::Str(ts1)));
    assert(jget(JVal::Obj(e), "recorded_at"@) == Some(JVal::Str(ts2)));
    lemma_verdict_from_members(JVal::Obj(e1), JVal::Obj(e));
}

/// An identifier made from a UUID is not blank: it starts with `urn:`.
proof fn lemma_urn_not_blank(id: Seq<char>, d: Seq<char>)
    requires
        is_urn_of(id, d),
    ensures
        !is_blank(id),
{
    let token = choose|token: Seq<char>| crate::datetime::uuid_v4_text(token) && id == #[trigger] urn(d, token);
    reveal_strlit("urn:bitacora:");
    assert(id[0] == 'u');
    assert(!is_white_space(id[0]));
}

} // verus!

verus! {

/// Two records that differ only in identifiers that are blank together and
/// in times that are valid together get the same verdict.
proof fn lemma_restamped(e1: Entries, e2: Entries, id1: Seq<char>, ts1: Seq<char>, id2: Seq<char>, ts2: Seq<char>)
    requires
        opens_with(e2, id2, Some(ts2)),
        e1 == with_text_at(with_text_at(e2, 1, id1), 3, ts1),
        ids_alike(id1, id2),
        times_alike(ts1, ts2),
    ensures
        record_check(JVal::Obj(e1)) == record_check(JVal::Obj(e2)),
{
    lemma_other_id(e2, id1, id2, Some(ts2));
    lemma_other_time(with_text_at(e2, 1, id1), id1, ts1, ts2);
}

/// The identifiers and times that one set of options stamps are alike.
proof fn lemma_stamps_alike(
    c: crate::records::CommonCreateArgs,
    id1: Seq<char>,
    ts1: Seq<char>,
    id2: Seq<char>,
    ts2: Seq<char>,
)
    requires
        stamped(c, id1, ts1),
        stamped(c, id2, ts2),
    ensures
        ids_alike(id1, id2),
        times_alike(ts1, ts2),
{
    if c.id is None {
        lemma_urn_not_blank(id1, domain_of(c));
        lemma_urn_not_blank(id2, domain_of(c));
    }
}

#[verifier::rlimit(100)]
#[verifier::spinoff_prover]
proof fn lemma_decision_layout(a: CreateDecisionArgs, o: OntologyView, id1: Seq<char>, ts1: Seq<char>, id2: Seq<char>, ts2: Seq<char>)
    ensures
        opens_with(decision_doc(a, o, id2, ts2)->Obj_0, id2, Some(ts2)),
        decision_doc(a, o, id1, ts1)->Obj_0 == with_text_at(
            with_text_at(decision_doc(a, o, id2, ts2)->Obj_0, 1, id1),
            3,
            ts1,
        ),
{
    assert(decision_doc(a, o, id1, ts1)->Obj_0 =~= with_text_at(
        with_text_at(decision_doc(a, o, id2, ts2)->Obj_0, 1, id1),
        3,
        ts1,
    ));
}

#[verifier::rlimit(100)]
#[verifier::spinoff_prover]
proof fn lemma_fact_layout(a: CreateFactArgs, o: OntologyView, id1: Seq<char>, ts1: Seq<char>, id2: Seq<char>, ts2: Seq<char>)
    ensures
        opens_with(fact_doc(a, o, id2, ts2)->Obj_0, id2, Some(ts2)),
        fact_doc(a, o, id1, ts1)->Obj_0 == with_text_at(
            with_text_at(fact_doc(a, o, id2, ts2)->Obj_0, 1, id1),
            3,
            ts1,
        ),
{
    assert(fact_doc(a, o, id1, ts1)->Obj_0 =~= with_text_at(
        with_text_at(fact_doc(a, o, id2, ts2)->Obj_0, 1, id1),
        3,
        ts1,
    ));
}

#[verifier::rlimit(100)]
#[verifier::spinoff_prover]
proof fn lemma_assumption_layout(a: CreateAssumptionArgs, o: OntologyView, id1: Seq<char>, ts1: Seq<char>, id2: Seq<char>, ts2: Seq<char>)
    ensures
        opens_with(assumption_doc(a, o, id2, ts2)->Obj_0, id2, Some(ts2)),
        assumption_doc(a, o, id1, ts1)->Obj_0 == with_text_at(
            with_text_at(assumption_doc(a, o, id2, ts2)->Obj_0, 1, id1),
            3,
            ts1,
        ),
{
    assert(assumption_doc(a, o, id1, ts1)->Obj_0 =~= with_text_at(
        with_text_at(assumption_doc(a, o, id2, ts2)->Obj_0, 1, id1),
        3,
        ts1,
    ));
}

#[verifier::rlimit(100)]
#[verifier::spinoff_prover]
proof fn lemma_meeting_layout(a: CreateMeetingArgs, o: OntologyView, id1: Seq<char>, ts1: Seq<char>, id2: Seq<char>, ts2: Seq<char>)
    ensures
        opens_with(meeting_doc(a, o, id2, ts2)->Obj_0, id2, Some(ts2)),
        meeting_doc(a, o, id1, ts1)->Obj_0 == with_text_at(
            with_text_at(meeting_doc(a, o, id2, ts2)->Obj_0, 1, id1),
            3,
            ts1,
        ),
{
    assert(meeting_doc(a, o, id1, ts1)->Obj_0 =~= with_text_at(
        with_text_at(meeting_doc(a, o, id2, ts2)->Obj_0, 1, id1),
        3,
        ts1,
    ));
}

#[verifier::rlimit(100)]
#[verifier::spinoff_prover]
proof fn lemma_action_layout(a: CreateActionArgs, o: OntologyView, id1: Seq<char>, ts1: Seq<char>, id2: Seq<char>, ts2: Seq<char>)
    ensures
        opens_with(action_doc(a, o, id2, ts2)->Obj_0, id2, Some(ts2)),
        action_doc(a, o, id1, ts1)->Obj_0 == with_text_at(
            with_text_at(action_doc(a, o, id2, ts2)->Obj_0, 1, id1),
            3,
            ts1,
        ),
{
    assert(action_doc(a, o, id1, ts1)->Obj_0 =~= with_text_at(
        with_text_at(action_doc(a, o, id2, ts2)->Obj_0, 1, id1),
        3,
        ts1,
    ));
}

#[verifier::rlimit(100)]
#[verifier::spinoff_prover]
proof fn lemma_person_layout(a: CreatePersonArgs, id1: Seq<char>, id2: Seq<char>)
    ensures
        opens_with(person_doc(a, id2)->Obj_0, id2, None),
        person_doc(a, id1)->Obj_0 == with_text_at(person_doc(a, id2)->Obj_0, 1, id1),
{
    assert(person_doc(a, id1)->Obj_0 =~= with_text_at(person_doc(a, id2)->Obj_0, 1, id1));
}

} // verus!

verus! {

/// Whether a record made by `create` passes the record rules does not
/// depend on the fresh identifier nor on the clock reading that it got:
/// any two records that the same options make get the same verdict.
pub proof fn lemma_made_same_verdict(kind: CreateCommands, v1: Json, d1: Seq<char>, v2: Json, d2: Seq<char>)
    requires
        made_by(kind, v1, d1),
        made_by(kind, v2, d2),
    ensures
        record_check(jview(v1)) == record_check(jview(v2)),
{
    match kind {
        CreateCommands::Decision(a) => {
            let o = ontology_of(a.common);
            let (id1, ts1) = choose|id: Seq<char>, ts: Seq<char>|
                stamped(a.common, id, ts) && jview(v1) == #[trigger] decision_doc(a, o, id, ts);
            let (id2, ts2) = choose|id: Seq<char>, ts: Seq<char>|
                stamped(a.common, id, ts) && jview(v2) == #[trigger] decision_doc(a, o, id, ts);
            lemma_stamps_alike(a.common, id1, ts1, id2, ts2);
            lemma_decision_layout(a, o, id1, ts1, id2, ts2);
            lemma_restamped(decision_doc(a, o, id1, ts1)->Obj_0, decision_doc(a, o, id2, ts2)->Obj_0, id1, ts1, id2, ts2);
        },
        CreateCommands::Fact(a) => {
            let o = ontology_of(a.common);
            let (id1, ts1) = choose|id: Seq<char>, ts: Seq<char>|
                stamped(a.common, id, ts) && jview(v1) == #[trigger] fact_doc(a, o, id, ts);
            let (id2, ts2) = choose|id: Seq<char>, ts: Seq<char>|
                stamped(a.common, id, ts) && jview(v2) == #[trigger] fact_doc(a, o, id, ts);
            lemma_stamps_alike(a.common, id1, ts1, id2, ts2);
            lemma_fact_layout(a, o, id1, ts1, id2, ts2);
            lemma_restamped(fact_doc(a, o, id1, ts1)->Obj_0, fact_doc(a, o, id2, ts2)->Obj_0, id1, ts1, id2, ts2);
        },
        CreateCommands::Assumption(a) => {
            let o = ontology_of(a.common);
            let (id1, ts1) = choose|id: Seq<char>, ts: Seq<char>|
                stamped(a.common, id, ts) && jview(v1) == #[trigger] assumption_doc(a, o, id, ts);
            let (id2, ts2) = choose|id: Seq<char>, ts: Seq<char>|
                stamped(a.common, id, ts) && jview(v2) == #[trigger] assumption_doc(a, o, id, ts);
            lemma_stamps_alike(a.common, id1, ts1, id2, ts2);
            lemma_assumption_layout(a, o, id1, ts1, id2, ts2);
            lemma_restamped(assumption_doc(a, o, id1, ts1)->Obj_0, assumption_doc(a, o, id2, ts2)->Obj_0, id1, ts1, id2, ts2);
        },
        CreateCommands::Meeting(a) => {
            let o = ontology_of(a.common);
            let (id1, ts1) = choose|id: Seq<char>, ts: Seq<char>|
                stamped(a.common, id, ts) && jview(v1) == #[trigger] meeting_doc(a, o, id, ts);
            let (id2, ts2) = choose|id: Seq<char>, ts: Seq<char>|
                stamped(a.common, id, ts) && jview(v2) == #[trigger] meeting_doc(a, o, id, ts);
            lemma_stamps_alike(a.common, id1, ts1, id2, ts2);
            lemma_meeting_layout(a, o, id1, ts1, id2, ts2);
            lemma_restamped(meeting_doc(a, o, id1, ts1)->Obj_0, meeting_doc(a, o, id2, ts2)->Obj_0, id1, ts1, id2, ts2);
        },
        CreateCommands::Action(a) => {
            let o = ontology_of(a.common);
            let (id1, ts1) = choose|id: Seq<char>, ts: Seq<char>|
                stamped(a.common, id, ts) && jview(v1) == #[trigger] action_doc(a, o, id, ts);
            let (id2, ts2) = choose|id: Seq<char>, ts: Seq<char>|
                stamped(a.common, id, ts) && jview(v2) == #[trigger] action_doc(a, o, id, ts);
            lemma_stamps_alike(a.common, id1, ts1, id2, ts2);
            lemma_action_layout(a, o, id1, ts1, id2, ts2);
            lemma_restamped(action_doc(a, o, id1, ts1)->Obj_0, action_doc(a, o, id2, ts2)->Obj_0, id1, ts1, id2, ts2);
        },
        CreateCommands::Person(a) => {
            let id1 = choose|id: Seq<char>|
                (match a.id {
                    Some(x) => id == x@,
                    None => is_urn_of(id, "people"@),
                }) && jview(v1) == #[trigger] person_doc(a, id);
            let id2 = choose|id: Seq<char>|
                (match a.id {
                    Some(x) => id == x@,
                    None => is_urn_of(id, "people"@),
                }) && jview(v2) == #[trigger] person_doc(a, id);
            if a.id is None {
                lemma_urn_not_blank(id1, "people"@);
                lemma_urn_not_blank(id2, "people"@);
            }
            lemma_person_layout(a, id1, id2);
            lemma_other_id(person_doc(a, id2)->Obj_0, id1, id2, None);
        },
    }
}

} // verus!
