use vstd::prelude::*;
use crate::text::str_eq;

verus! {

/// The closed word lists that record fields and links must draw from.
#[derive(Clone, Copy, PartialEq, Eq, Structural, Debug)]
pub enum Vocabulary {
    /// `status` of a record (and of a Decision).
    RecordStatus,
    /// `status` of an Action.
    ActionStatus,
    /// `impact`.
    Impact,
    /// `classification`.
    Classification,
    /// `evidence[i].type`.
    EvidenceType,
    /// `status` of an outcome.
    OutcomeStatus,
    /// `relation` of a link.
    Relation,
}

/// The words of each list, in the order in which they are documented.
pub open spec fn vocabulary(v: Vocabulary) -> Seq<Seq<char>> {
    match v {
        Vocabulary::RecordStatus => seq![
            "proposed"@,
            "accepted"@,
            "rejected"@,
            "in-progress"@,
            "done"@,
            "deprecated"@,
        ],
        Vocabulary::ActionStatus => seq!["todo"@, "in-progress"@, "blocked"@, "done"@, "cancelled"@],
        Vocabulary::Impact => seq!["low"@, "medium"@, "high"@],
        Vocabulary::Classification => seq!["foundational"@, "tactical"@, "observational"@],
        Vocabulary::EvidenceType => seq![
            "commit"@,
            "file"@,
            "issue"@,
            "screenshot"@,
            "link"@,
            "bead"@,
        ],
        Vocabulary::OutcomeStatus => seq!["success"@, "failure"@, "partial"@],
        Vocabulary::Relation => seq![
            "relatesTo"@,
            "supersedes"@,
            "references"@,
            "dependsOn"@,
            "recordedInMeeting"@,
            "derivedFrom"@,
            "confirms"@,
            "contradicts"@,
            "actionFor"@,
            "assignedTo"@,
        ],
    }
}

/// The words of a list, for messages that name what is allowed.
pub fn vocabulary_words(v: Vocabulary) -> (r: Vec<&'static str>)
    ensures
        r.len() == vocabulary(v).len(),
        forall|i: int| 0 <= i < r.len() ==> (#[trigger] r@[i])@ == vocabulary(v)[i],
{
    let mut r: Vec<&'static str> = Vec::new();
    match v {
        Vocabulary::RecordStatus => {
            r.push("proposed");
            r.push("accepted");
            r.push("rejected");
            r.push("in-progress");
            r.push("done");
            r.push("deprecated");
        },
        Vocabulary::ActionStatus => {
            r.push("todo");
            r.push("in-progress");
            r.push("blocked");
            r.push("done");
            r.push("cancelled");
        },
        Vocabulary::Impact => {
            r.push("low");
            r.push("medium");
            r.push("high");
        },
        Vocabulary::Classification => {
            r.push("foundational");
            r.push("tactical");
            r.push("observational");
        },
        Vocabulary::EvidenceType => {
            r.push("commit");
            r.push("file");
            r.push("issue");
            r.push("screenshot");
            r.push("link");
            r.push("bead");
        },
        Vocabulary::OutcomeStatus => {
            r.push("success");
            r.push("failure");
            r.push("partial");
        },
        Vocabulary::Relation => {
            r.push("relatesTo");
            r.push("supersedes");
            r.push("references");
            r.push("dependsOn");
            r.push("recordedInMeeting");
            r.push("derivedFrom");
            r.push("confirms");
            r.push("contradicts");
            r.push("actionFor");
            r.push("assignedTo");
        },
    }
    r
}

/// `value` is one of the words of `v` (exact, case-sensitive match).
pub fn allows(v: Vocabulary, value: &str) -> (b: bool)
    ensures
        b == vocabulary(v).contains(value@),
{
    let words = vocabulary_words(v);
    let mut i: usize = 0;
    while i < words.len()
        invariant
            words.len() == vocabulary(v).len(),
            forall|k: int| 0 <= k < words.len() ==> (#[trigger] words@[k])@ == vocabulary(v)[k],
            i <= words.len(),
            forall|k: int| 0 <= k < i ==> vocabulary(v)[k] != value@,
        decreases words.len() - i,
    {
        if str_eq(words[i], value) {
            assert(vocabulary(v)[i as int] == value@);
            return true;
        }
        assert(words@[i as int]@ == vocabulary(v)[i as int]);
        i += 1;
    }
    false
}

} // verus!
