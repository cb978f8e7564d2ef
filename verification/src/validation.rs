use vstd::prelude::*;
use crate::datetime::{parse_rfc3339, parse_ymd, rfc3339_instant, ymd_midnight};
use crate::json::{
    jget, jtext, jview, num_in_unit, num_in_unit_interval, num_lt_zero, num_negative, opt_text, JVal,
    Json,
};
use crate::records::{arr_view, lemma_arr_view_index, lemma_items_len};
use crate::text::{is_blank, is_blank_text, owned};
use crate::vocabulary::{allows, vocabulary, Vocabulary};

verus! {

/// Where in a record a problem lies: `base`, then `[index]`, then `.sub`
/// (for example `evidence[2].type`).
pub struct FieldPath {
    pub base: String,
    pub index: Option<usize>,
    pub sub: Option<String>,
}

/// The mathematical form of a `FieldPath`.
pub struct PathView {
    pub base: Seq<char>,
    pub index: Option<usize>,
    pub sub: Option<Seq<char>>,
}

impl View for FieldPath {
    type V = PathView;

    open spec fn view(&self) -> PathView {
        PathView {
            base: self.base@,
            index: self.index,
            sub: match self.sub {
                Some(s) => Some(s@),
                None => None,
            },
        }
    }
}

/// A top-level field such as `recorded_at`.
pub open spec fn named(base: Seq<char>) -> PathView {
    PathView { base, index: None, sub: None }
}

/// An element of a field, or the field itself when `index` is `None`.
pub open spec fn item(base: Seq<char>, index: Option<usize>) -> PathView {
    PathView { base, index, sub: None }
}

/// A member `sub` of `base[index]` (or of `base`).
pub open spec fn member(base: Seq<char>, index: Option<usize>, sub: Seq<char>) -> PathView {
    PathView { base, index, sub: Some(sub) }
}

pub fn path_item(base: &str, index: Option<usize>) -> (p: FieldPath)
    ensures
        p@ == item(base@, index),
{
    FieldPath { base: owned(base), index, sub: None }
}

pub fn path_member(base: &str, index: Option<usize>, sub: &str) -> (p: FieldPath)
    ensures
        p@ == member(base@, index, sub@),
{
    FieldPath { base: owned(base), index, sub: Some(owned(sub)) }
}

/// Why a record was refused.
pub enum ValidationError {
    /// A required text field is missing, not a text, or blank.
    MissingField { key: String },
    /// The value is not an RFC 3339 date-time.
    InvalidDateTime { field: FieldPath, value: String },
    /// The value is neither `YYYY-MM-DD` nor an RFC 3339 date-time.
    InvalidDateOrDateTime { field: FieldPath, value: String },
    /// `confidence` is present but not a number.
    ConfidenceNotNumber,
    /// `confidence` is a number outside `0.0..=1.0`.
    ConfidenceOutOfRange,
    /// The value is not one of the words of `allowed`.
    NotAllowed { field: FieldPath, value: String, allowed: Vocabulary },
    /// The field is not an array of texts.
    NotStringArray { key: String },
    /// The field (`evidence` or `outcomes`) is not an array.
    NotObjectArray { key: String },
    /// The value at `field` is not an object.
    NotObject { field: FieldPath },
    /// A required member is missing or not a text.
    Required { field: FieldPath },
    /// A member that must be a text is something else.
    NotString { field: FieldPath },
    /// A member that must be a number is something else.
    NotNumber { field: FieldPath },
    /// A member that must be `>= 0` is negative.
    Negative { field: FieldPath },
    /// `type` names no known kind of record.
    UnsupportedType { found: String },
}

/// The mathematical form of a `ValidationError`.
pub enum Problem {
    MissingField { key: Seq<char> },
    InvalidDateTime { field: PathView, value: Seq<char> },
    InvalidDateOrDateTime { field: PathView, value: Seq<char> },
    ConfidenceNotNumber,
    ConfidenceOutOfRange,
    NotAllowed { field: PathView, value: Seq<char>, allowed: Vocabulary },
    NotStringArray { key: Seq<char> },
    NotObjectArray { key: Seq<char> },
    NotObject { field: PathView },
    Required { field: PathView },
    NotString { field: PathView },
    NotNumber { field: PathView },
    Negative { field: PathView },
    UnsupportedType { found: Seq<char> },
}

impl View for ValidationError {
    type V = Problem;

    open spec fn view(&self) -> Problem {
        match self {
            ValidationError::MissingField { key } => Problem::MissingField { key: key@ },
            ValidationError::InvalidDateTime { field, value } => Problem::InvalidDateTime {
                field: field@,
                value: value@,
            },
            ValidationError::InvalidDateOrDateTime { field, value } =>
                Problem::InvalidDateOrDateTime { field: field@, value: value@ },
            ValidationError::ConfidenceNotNumber => Problem::ConfidenceNotNumber,
            ValidationError::ConfidenceOutOfRange => Problem::ConfidenceOutOfRange,
            ValidationError::NotAllowed { field, value, allowed } => Problem::NotAllowed {
                field: field@,
                value: value@,
                allowed: *allowed,
            },
            ValidationError::NotStringArray { key } => Problem::NotStringArray { key: key@ },
            ValidationError::NotObjectArray { key } => Problem::NotObjectArray { key: key@ },
            ValidationError::NotObject { field } => Problem::NotObject { field: field@ },
            ValidationError::Required { field } => Problem::Required { field: field@ },
            ValidationError::NotString { field } => Problem::NotString { field: field@ },
            ValidationError::NotNumber { field } => Problem::NotNumber { field: field@ },
            ValidationError::Negative { field } => Problem::Negative { field: field@ },
            ValidationError::UnsupportedType { found } => Problem::UnsupportedType {
                found: found@,
            },
        }
    }
}

/// The verdict of a check, with the error taken by its view.
pub open spec fn verdict(r: Result<(), ValidationError>) -> Result<(), Problem> {
    match r {
        Ok(_) => Ok(()),
        Err(e) => Err(e@),
    }
}

/// Run `a`, then `b`: the first problem wins.
pub open spec fn then(a: Result<(), Problem>, b: Result<(), Problem>) -> Result<(), Problem> {
    match a {
        Err(e) => Err(e),
        Ok(_) => b,
    }
}

/// The text under `key`, unless it is missing, not a text, or blank.
pub open spec fn nonblank_text(r: JVal, key: Seq<char>) -> Option<Seq<char>> {
    match jtext(r, key) {
        Some(s) => if is_blank(s) {
            None
        } else {
            Some(s)
        },
        None => None,
    }
}

pub open spec fn required_check(r: JVal, key: Seq<char>) -> Result<(), Problem> {
    if nonblank_text(r, key) is Some {
        Ok(())
    } else {
        Err(Problem::MissingField { key })
    }
}

/// An RFC 3339 date-time.
pub open spec fn datetime_check(value: Seq<char>, field: PathView) -> Result<(), Problem> {
    if rfc3339_instant(value) is Some {
        Ok(())
    } else {
        Err(Problem::InvalidDateTime { field, value })
    }
}

/// An RFC 3339 date-time or a `YYYY-MM-DD` date.
pub open spec fn date_check(value: Seq<char>, field: PathView) -> Result<(), Problem> {
    if rfc3339_instant(value) is Some || ymd_midnight(value) is Some {
        Ok(())
    } else {
        Err(Problem::InvalidDateOrDateTime { field, value })
    }
}

pub open spec fn vocabulary_check(value: Seq<char>, allowed: Vocabulary, field: PathView) -> Result<
    (),
    Problem,
> {
    if vocabulary(allowed).contains(value) {
        Ok(())
    } else {
        Err(Problem::NotAllowed { field, value, allowed })
    }
}

/// A field that, when it holds a non-blank text, must hold an RFC 3339
/// date-time.
pub open spec fn optional_datetime(r: JVal, key: Seq<char>) -> Result<(), Problem> {
    match nonblank_text(r, key) {
        Some(v) => datetime_check(v, named(key)),
        None => Ok(()),
    }
}

/// The kinds of record that inherit from Record, and so carry `recorded_at`.
pub open spec fn record_kind(t: Seq<char>) -> bool {
    t == "Decision"@ || t == "Fact"@ || t == "Assumption"@ || t == "Meeting"@ || t == "Action"@
}

/// A field that must hold an RFC 3339 date-time.
pub open spec fn required_datetime(r: JVal, key: Seq<char>) -> Result<(), Problem> {
    match nonblank_text(r, key) {
        Some(v) => datetime_check(v, named(key)),
        None => Err(Problem::MissingField { key }),
    }
}

pub open spec fn optional_date(r: JVal, key: Seq<char>) -> Result<(), Problem> {
    match nonblank_text(r, key) {
        Some(v) => date_check(v, named(key)),
        None => Ok(()),
    }
}

pub open spec fn optional_word(r: JVal, key: Seq<char>, allowed: Vocabulary) -> Result<(), Problem> {
    match nonblank_text(r, key) {
        Some(v) => vocabulary_check(v, allowed, named(key)),
        None => Ok(()),
    }
}

pub open spec fn confidence_check(r: JVal) -> Result<(), Problem> {
    match jget(r, "confidence"@) {
        None => Ok(()),
        Some(JVal::Num(b)) => if num_in_unit_interval(b) {
            Ok(())
        } else {
            Err(Problem::ConfidenceOutOfRange)
        },
        Some(_) => Err(Problem::ConfidenceNotNumber),
    }
}

pub open spec fn all_texts(a: Seq<JVal>) -> bool {
    forall|i: int| 0 <= i < a.len() ==> (#[trigger] a[i]) is Str
}

pub open spec fn string_array_check(r: JVal, key: Seq<char>) -> Result<(), Problem> {
    match jget(r, key) {
        None => Ok(()),
        Some(JVal::Arr(a)) => if all_texts(a) {
            Ok(())
        } else {
            Err(Problem::NotStringArray { key })
        },
        Some(_) => Err(Problem::NotStringArray { key }),
    }
}

/// A member that, when present, must be a text.
pub open spec fn text_member_check(o: JVal, key: Seq<char>, field: PathView) -> Result<(), Problem> {
    match jget(o, key) {
        Some(JVal::Str(_)) => Ok(()),
        Some(_) => Err(Problem::NotString { field }),
        None => Ok(()),
    }
}

pub open spec fn evidence_check(e: JVal, index: usize) -> Result<(), Problem> {
    let base = "evidence"@;
    let at = Some(index);
    if !(e is Obj) {
        Err(Problem::NotObject { field: item(base, at) })
    } else {
        match jtext(e, "type"@) {
            None => Err(Problem::Required { field: member(base, at, "type"@) }),
            Some(t) => then(
                vocabulary_check(t, Vocabulary::EvidenceType, member(base, at, "type"@)),
                if jtext(e, "reference"@) is None {
                    Err(Problem::Required { field: member(base, at, "reference"@) })
                } else {
                    then(
                        match jtext(e, "date"@) {
                            Some(d) => datetime_check(d, member(base, at, "date"@)),
                            None => Ok(()),
                        },
                        then(
                            text_member_check(e, "excerpt"@, member(base, at, "excerpt"@)),
                            text_member_check(e, "recorded_by"@, member(base, at, "recorded_by"@)),
                        ),
                    )
                },
            ),
        }
    }
}

/// The first problem among `items[from..]`.
pub open spec fn evidence_items_check(items: Seq<JVal>, from: int) -> Result<(), Problem>
    decreases items.len() - from,
{
    if from < 0 || from >= items.len() {
        Ok(())
    } else {
        then(evidence_check(items[from], from as usize), evidence_items_check(items, from + 1))
    }
}

pub open spec fn evidence_array_check(r: JVal) -> Result<(), Problem> {
    match jget(r, "evidence"@) {
        None => Ok(()),
        Some(JVal::Arr(a)) => evidence_items_check(a, 0),
        Some(_) => Err(Problem::NotObjectArray { key: "evidence"@ }),
    }
}

pub open spec fn duration_check(o: JVal, field: PathView) -> Result<(), Problem> {
    match jget(o, "duration"@) {
        None => Ok(()),
        Some(JVal::Num(b)) => if num_lt_zero(b) {
            Err(Problem::Negative { field })
        } else {
            Ok(())
        },
        Some(_) => Err(Problem::NotNumber { field }),
    }
}

pub open spec fn outcome_check(o: JVal, base: Seq<char>, at: Option<usize>) -> Result<(), Problem> {
    if !(o is Obj) {
        Err(Problem::NotObject { field: item(base, at) })
    } else {
        match jtext(o, "status"@) {
            None => Err(Problem::Required { field: member(base, at, "status"@) }),
            Some(s) => then(
                vocabulary_check(s, Vocabulary::OutcomeStatus, member(base, at, "status"@)),
                then(
                    duration_check(o, member(base, at, "duration"@)),
                    then(
                        match jtext(o, "recorded_at"@) {
                            Some(d) => datetime_check(d, member(base, at, "recorded_at"@)),
                            None => Ok(()),
                        },
                        then(
                            text_member_check(o, "notes"@, member(base, at, "notes"@)),
                            text_member_check(o, "agent"@, member(base, at, "agent"@)),
                        ),
                    ),
                ),
            ),
        }
    }
}

/// The first problem among `items[from..]`.
pub open spec fn outcome_items_check(items: Seq<JVal>, from: int) -> Result<(), Problem>
    decreases items.len() - from,
{
    if from < 0 || from >= items.len() {
        Ok(())
    } else {
        then(
            outcome_check(items[from], "outcomes"@, Some(from as usize)),
            outcome_items_check(items, from + 1),
        )
    }
}

pub open spec fn outcomes_array_check(r: JVal) -> Result<(), Problem> {
    match jget(r, "outcomes"@) {
        None => Ok(()),
        Some(JVal::Arr(a)) => outcome_items_check(a, 0),
        Some(_) => Err(Problem::NotObjectArray { key: "outcomes"@ }),
    }
}

pub open spec fn provenance_check(r: JVal) -> Result<(), Problem> {
    let base = "provenance"@;
    match jget(r, base) {
        None => Ok(()),
        Some(p) => if p is Obj {
            then(
                text_member_check(p, "source_tool"@, member(base, None, "source_tool"@)),
                then(
                    text_member_check(p, "recorded_via"@, member(base, None, "recorded_via"@)),
                    text_member_check(p, "recorded_by"@, member(base, None, "recorded_by"@)),
                ),
            )
        } else {
            Err(Problem::NotObject { field: named(base) })
        },
    }
}

/// A link: an object whose `relation` is one of the link relations, whose
/// `target` is a text, and whose `recorded_at`, when it is a text, is an
/// RFC 3339 date-time.
pub open spec fn link_check(l: JVal, index: usize) -> Result<(), Problem> {
    let base = "links"@;
    let at = Some(index);
    if !(l is Obj) {
        Err(Problem::NotObject { field: item(base, at) })
    } else {
        match jtext(l, "relation"@) {
            None => Err(Problem::Required { field: member(base, at, "relation"@) }),
            Some(rel) => then(
                vocabulary_check(rel, Vocabulary::Relation, member(base, at, "relation"@)),
                if jtext(l, "target"@) is None {
                    Err(Problem::Required { field: member(base, at, "target"@) })
                } else {
                    match jtext(l, "recorded_at"@) {
                        Some(d) => datetime_check(d, member(base, at, "recorded_at"@)),
                        None => Ok(()),
                    }
                },
            ),
        }
    }
}

/// The first problem among `items[from..]`.
pub open spec fn link_items_check(items: Seq<JVal>, from: int) -> Result<(), Problem>
    decreases items.len() - from,
{
    if from < 0 || from >= items.len() {
        Ok(())
    } else {
        then(link_check(items[from], from as usize), link_items_check(items, from + 1))
    }
}

pub open spec fn links_array_check(r: JVal) -> Result<(), Problem> {
    match jget(r, "links"@) {
        None => Ok(()),
        Some(JVal::Arr(a)) => link_items_check(a, 0),
        Some(_) => Err(Problem::NotObjectArray { key: "links"@ }),
    }
}

/// The checks that every record of type `t` goes through, in order: it
/// carries an `id`; a Decision, Fact, Assumption, Meeting or Action carries
/// an RFC 3339 `recorded_at` (any other kind may, and then it is checked);
/// then the shared optional fields; then its links.
pub open spec fn common_check(r: JVal, t: Seq<char>) -> Result<(), Problem> {
    then(
        required_check(r, "id"@),
        then(
            if record_kind(t) {
                required_datetime(r, "recorded_at"@)
            } else {
                optional_datetime(r, "recorded_at"@)
            },
            then(
                confidence_check(r),
                then(
                    optional_word(r, "impact"@, Vocabulary::Impact),
                    then(
                        optional_word(r, "classification"@, Vocabulary::Classification),
                        then(
                            string_array_check(r, "related_files"@),
                            then(
                                evidence_array_check(r),
                                then(
                                    outcomes_array_check(r),
                                    then(provenance_check(r), links_array_check(r)),
                                ),
                            ),
                        ),
                    ),
                ),
            ),
        ),
    )
}

/// The checks that depend on the kind of record named by `t`.
pub open spec fn kind_check(r: JVal, t: Seq<char>) -> Result<(), Problem> {
    if t == "Decision"@ {
        then(
            required_check(r, "title"@),
            then(
                required_check(r, "rationale"@),
                then(
                    optional_word(r, "status"@, Vocabulary::RecordStatus),
                    optional_date(r, "effective_from"@),
                ),
            ),
        )
    } else if t == "Fact"@ {
        then(required_check(r, "observation"@), string_array_check(r, "related_components"@))
    } else if t == "Assumption"@ {
        then(required_check(r, "assumption_statement"@), optional_date(r, "expire_at"@))
    } else if t == "Meeting"@ {
        then(
            required_check(r, "title"@),
            match nonblank_text(r, "date"@) {
                None => Err(Problem::MissingField { key: "date"@ }),
                Some(d) => date_check(d, named("date"@)),
            },
        )
    } else if t == "Action"@ {
        then(
            required_check(r, "title"@),
            then(
                optional_word(r, "status"@, Vocabulary::ActionStatus),
                then(
                    optional_date(r, "due_date"@),
                    match jget(r, "outcome"@) {
                        Some(o) => outcome_check(o, "outcome"@, None),
                        None => Ok(()),
                    },
                ),
            ),
        )
    } else if t == "Person"@ {
        then(required_check(r, "name"@), required_check(r, "id"@))
    } else {
        Err(Problem::UnsupportedType { found: t })
    }
}

/// The verdict on a whole record, by its view: its `type` must be a
/// non-blank text, then the common checks run, then those of its kind.
pub open spec fn record_check(r: JVal) -> Result<(), Problem> {
    match nonblank_text(r, "type"@) {
        None => Err(Problem::MissingField { key: "type"@ }),
        Some(t) => then(common_check(r, t), kind_check(r, t)),
    }
}

/// `get(key).and_then(as_str).filter(|s| !s.trim().is_empty())`.
fn nonblank<'a>(r: &'a Json, key: &str) -> (res: Option<&'a String>)
    ensures
        opt_text(res) == nonblank_text(jview(*r), key@),
{
    match r.get_str(key) {
        Some(s) => if is_blank_text(s.as_str()) {
            None
        } else {
            Some(s)
        },
        None => None,
    }
}

fn required<'a>(r: &'a Json, key: &str) -> (res: Result<&'a String, ValidationError>)
    ensures
        match res {
            Ok(s) => nonblank_text(jview(*r), key@) == Some(s@),
            Err(e) => nonblank_text(jview(*r), key@) is None && e@ == (Problem::MissingField { key: key@ }),
        },
{
    match nonblank(r, key) {
        Some(s) => Ok(s),
        None => Err(ValidationError::MissingField { key: owned(key) }),
    }
}

fn check_required(r: &Json, key: &str) -> (res: Result<(), ValidationError>)
    ensures
        verdict(res) == required_check(jview(*r), key@),
{
    required(r, key)?;
    Ok(())
}

fn check_datetime(value: &str, field: FieldPath) -> (res: Result<(), ValidationError>)
    ensures
        verdict(res) == datetime_check(value@, field@),
{
    match parse_rfc3339(value) {
        Some(_) => Ok(()),
        None => Err(ValidationError::InvalidDateTime { field, value: owned(value) }),
    }
}

fn check_date(value: &str, field: FieldPath) -> (res: Result<(), ValidationError>)
    ensures
        verdict(res) == date_check(value@, field@),
{
    if parse_rfc3339(value).is_some() {
        return Ok(());
    }
    match parse_ymd(value) {
        Some(_) => Ok(()),
        None => Err(ValidationError::InvalidDateOrDateTime { field, value: owned(value) }),
    }
}

fn check_word(value: &str, allowed: Vocabulary, field: FieldPath) -> (res: Result<
    (),
    ValidationError,
>)
    ensures
        verdict(res) == vocabulary_check(value@, allowed, field@),
{
    if allows(allowed, value) {
        Ok(())
    } else {
        Err(ValidationError::NotAllowed { field, value: owned(value), allowed })
    }
}

/// Checks that `value` is an RFC 3339 (ISO-8601) date-time.
pub fn validate_iso_datetime(value: &str, field: &str) -> (res: Result<(), ValidationError>)
    ensures
        verdict(res) == datetime_check(value@, named(field@)),
{
    check_datetime(value, path_item(field, None))
}

/// Checks that `value` is a `YYYY-MM-DD` date or an RFC 3339 date-time.
pub fn validate_date_or_datetime(value: &str, field: &str) -> (res: Result<(), ValidationError>)
    ensures
        verdict(res) == date_check(value@, named(field@)),
{
    check_date(value, path_item(field, None))
}

/// Checks that `relation` is one of the link relations.
pub fn validate_relation(relation: &str) -> (res: Result<(), ValidationError>)
    ensures
        verdict(res) == vocabulary_check(relation@, Vocabulary::Relation, named("relation"@)),
{
    check_word(relation, Vocabulary::Relation, path_item("relation", None))
}

/// Checks `value` against the word list `allowed`, naming `field` in the error.
pub fn validate_in_enum(value: &str, allowed: Vocabulary, field: &str) -> (res: Result<
    (),
    ValidationError,
>)
    ensures
        verdict(res) == vocabulary_check(value@, allowed, named(field@)),
{
    check_word(value, allowed, path_item(field, None))
}

fn check_required_datetime(r: &Json, key: &str) -> (res: Result<(), ValidationError>)
    ensures
        verdict(res) == required_datetime(jview(*r), key@),
{
    let v = required(r, key)?;
    check_datetime(v.as_str(), path_item(key, None))
}

fn check_optional_datetime(r: &Json, key: &str) -> (res: Result<(), ValidationError>)
    ensures
        verdict(res) == optional_datetime(jview(*r), key@),
{
    match nonblank(r, key) {
        Some(v) => check_datetime(v.as_str(), path_item(key, None)),
        None => Ok(()),
    }
}

fn check_optional_date(r: &Json, key: &str) -> (res: Result<(), ValidationError>)
    ensures
        verdict(res) == optional_date(jview(*r), key@),
{
    match nonblank(r, key) {
        Some(v) => check_date(v.as_str(), path_item(key, None)),
        None => Ok(()),
    }
}

fn check_optional_word(r: &Json, key: &str, allowed: Vocabulary) -> (res: Result<
    (),
    ValidationError,
>)
    ensures
        verdict(res) == optional_word(jview(*r), key@, allowed),
{
    match nonblank(r, key) {
        Some(v) => check_word(v.as_str(), allowed, path_item(key, None)),
        None => Ok(()),
    }
}

fn check_confidence(r: &Json) -> (res: Result<(), ValidationError>)
    ensures
        verdict(res) == confidence_check(jview(*r)),
{
    match r.get("confidence") {
        None => Ok(()),
        Some(Json::Number(b)) => if num_in_unit(*b) {
            Ok(())
        } else {
            Err(ValidationError::ConfidenceOutOfRange)
        },
        Some(_) => Err(ValidationError::ConfidenceNotNumber),
    }
}

fn all_strings(a: &Vec<Json>) -> (b: bool)
    ensures
        b == all_texts(arr_view(a@)),
{
    proof {
        lemma_items_len(a@, a@.len());
    }
    let mut i: usize = 0;
    while i < a.len()
        invariant
            i <= a.len(),
            arr_view(a@).len() == a.len(),
            forall|k: int| 0 <= k < i ==> (#[trigger] arr_view(a@)[k]) is Str,
        decreases a.len() - i,
    {
        proof {
            lemma_arr_view_index(a@, a@.len(), i as int);
        }
        match &a[i] {
            Json::Str(_) => {},
            _ => {
                assert(!(arr_view(a@)[i as int] is Str));
                return false;
            },
        }
        i += 1;
    }
    true
}

fn check_string_array(r: &Json, key: &str) -> (res: Result<(), ValidationError>)
    ensures
        verdict(res) == string_array_check(jview(*r), key@),
{
    match r.get(key) {
        None => Ok(()),
        Some(Json::Array(a)) => if all_strings(a) {
            Ok(())
        } else {
            Err(ValidationError::NotStringArray { key: owned(key) })
        },
        Some(_) => Err(ValidationError::NotStringArray { key: owned(key) }),
    }
}

fn check_text_member(o: &Json, key: &str, field: FieldPath) -> (res: Result<(), ValidationError>)
    ensures
        verdict(res) == text_member_check(jview(*o), key@, field@),
{
    match o.get(key) {
        Some(Json::Str(_)) => Ok(()),
        Some(_) => Err(ValidationError::NotString { field }),
        None => Ok(()),
    }
}

fn check_evidence(e: &Json, index: usize) -> (res: Result<(), ValidationError>)
    ensures
        verdict(res) == evidence_check(jview(*e), index),
{
    let at = Some(index);
    match e {
        Json::Object(_) => {},
        _ => {
            return Err(ValidationError::NotObject { field: path_item("evidence", at) });
        },
    }
    let t = match e.get_str("type") {
        Some(t) => t,
        None => {
            return Err(ValidationError::Required { field: path_member("evidence", at, "type") });
        },
    };
    check_word(t.as_str(), Vocabulary::EvidenceType, path_member("evidence", at, "type"))?;
    if e.get_str("reference").is_none() {
        return Err(ValidationError::Required { field: path_member("evidence", at, "reference") });
    }
    if let Some(d) = e.get_str("date") {
        check_datetime(d.as_str(), path_member("evidence", at, "date"))?;
    }
    check_text_member(e, "excerpt", path_member("evidence", at, "excerpt"))?;
    check_text_member(e, "recorded_by", path_member("evidence", at, "recorded_by"))
}

fn check_evidence_array(r: &Json) -> (res: Result<(), ValidationError>)
    ensures
        verdict(res) == evidence_array_check(jview(*r)),
{
    match r.get("evidence") {
        None => Ok(()),
        Some(Json::Array(items)) => {
            let ghost a = arr_view(items@);
            proof {
                lemma_items_len(items@, items@.len());
            }
            let mut i: usize = 0;
            while i < items.len()
                invariant
                    i <= items.len(),
                    a == arr_view(items@),
                    a.len() == items.len(),
                    evidence_array_check(jview(*r)) == evidence_items_check(a, 0),
                    evidence_items_check(a, 0) == evidence_items_check(a, i as int),
                decreases items.len() - i,
            {
                proof {
                    lemma_arr_view_index(items@, items@.len(), i as int);
                }
                check_evidence(&items[i], i)?;
                i += 1;
            }
            Ok(())
        },
        Some(_) => Err(ValidationError::NotObjectArray { key: owned("evidence") }),
    }
}

fn check_duration(o: &Json, field: FieldPath) -> (res: Result<(), ValidationError>)
    ensures
        verdict(res) == duration_check(jview(*o), field@),
{
    match o.get("duration") {
        None => Ok(()),
        Some(Json::Number(b)) => if num_negative(*b) {
            Err(ValidationError::Negative { field })
        } else {
            Ok(())
        },
        Some(_) => Err(ValidationError::NotNumber { field }),
    }
}

fn check_outcome(o: &Json, base: &str, at: Option<usize>) -> (res: Result<(), ValidationError>)
    ensures
        verdict(res) == outcome_check(jview(*o), base@, at),
{
    match o {
        Json::Object(_) => {},
        _ => {
            return Err(ValidationError::NotObject { field: path_item(base, at) });
        },
    }
    let s = match o.get_str("status") {
        Some(s) => s,
        None => {
            return Err(ValidationError::Required { field: path_member(base, at, "status") });
        },
    };
    check_word(s.as_str(), Vocabulary::OutcomeStatus, path_member(base, at, "status"))?;
    check_duration(o, path_member(base, at, "duration"))?;
    if let Some(d) = o.get_str("recorded_at") {
        check_datetime(d.as_str(), path_member(base, at, "recorded_at"))?;
    }
    check_text_member(o, "notes", path_member(base, at, "notes"))?;
    check_text_member(o, "agent", path_member(base, at, "agent"))
}

fn check_outcomes_array(r: &Json) -> (res: Result<(), ValidationError>)
    ensures
        verdict(res) == outcomes_array_check(jview(*r)),
{
    match r.get("outcomes") {
        None => Ok(()),
        Some(Json::Array(items)) => {
            let ghost a = arr_view(items@);
            proof {
                lemma_items_len(items@, items@.len());
            }
            let mut i: usize = 0;
            while i < items.len()
                invariant
                    i <= items.len(),
                    a == arr_view(items@),
                    a.len() == items.len(),
                    outcomes_array_check(jview(*r)) == outcome_items_check(a, 0),
                    outcome_items_check(a, 0) == outcome_items_check(a, i as int),
                decreases items.len() - i,
            {
                proof {
                    lemma_arr_view_index(items@, items@.len(), i as int);
                }
                check_outcome(&items[i], "outcomes", Some(i))?;
                i += 1;
            }
            Ok(())
        },
        Some(_) => Err(ValidationError::NotObjectArray { key: owned("outcomes") }),
    }
}

fn check_provenance(r: &Json) -> (res: Result<(), ValidationError>)
    ensures
        verdict(res) == provenance_check(jview(*r)),
{
    match r.get("provenance") {
        None => Ok(()),
        Some(p) => {
            match p {
                Json::Object(_) => {},
                _ => {
                    return Err(ValidationError::NotObject { field: path_item("provenance", None) });
                },
            }
            check_text_member(p, "source_tool", path_member("provenance", None, "source_tool"))?;
            check_text_member(p, "recorded_via", path_member("provenance", None, "recorded_via"))?;
            check_text_member(p, "recorded_by", path_member("provenance", None, "recorded_by"))
        },
    }
}

fn check_link(l: &Json, index: usize) -> (res: Result<(), ValidationError>)
    ensures
        verdict(res) == link_check(jview(*l), index),
{
    let at = Some(index);
    match l {
        Json::Object(_) => {},
        _ => {
            return Err(ValidationError::NotObject { field: path_item("links", at) });
        },
    }
    let rel = match l.get_str("relation") {
        Some(t) => t,
        None => {
            return Err(ValidationError::Required { field: path_member("links", at, "relation") });
        },
    };
    check_word(rel.as_str(), Vocabulary::Relation, path_member("links", at, "relation"))?;
    if l.get_str("target").is_none() {
        return Err(ValidationError::Required { field: path_member("links", at, "target") });
    }
    match l.get_str("recorded_at") {
        Some(d) => check_datetime(d.as_str(), path_member("links", at, "recorded_at")),
        None => Ok(()),
    }
}

fn check_links_array(r: &Json) -> (res: Result<(), ValidationError>)
    ensures
        verdict(res) == links_array_check(jview(*r)),
{
    match r.get("links") {
        None => Ok(()),
        Some(Json::Array(items)) => {
            let ghost a = arr_view(items@);
            proof {
                lemma_items_len(items@, items@.len());
            }
            let mut i: usize = 0;
            while i < items.len()
                invariant
                    i <= items.len(),
                    a == arr_view(items@),
                    a.len() == items.len(),
                    links_array_check(jview(*r)) == link_items_check(a, 0),
                    link_items_check(a, 0) == link_items_check(a, i as int),
                decreases items.len() - i,
            {
                proof {
                    lemma_arr_view_index(items@, items@.len(), i as int);
                }
                check_link(&items[i], i)?;
                i += 1;
            }
            Ok(())
        },
        Some(_) => Err(ValidationError::NotObjectArray { key: owned("links") }),
    }
}

fn check_common(r: &Json, t: &str) -> (res: Result<(), ValidationError>)
    ensures
        verdict(res) == common_check(jview(*r), t@),
{
    check_required(r, "id")?;
    if crate::text::str_eq(t, "Decision") || crate::text::str_eq(t, "Fact") || crate::text::str_eq(
        t,
        "Assumption",
    ) || crate::text::str_eq(t, "Meeting") || crate::text::str_eq(t, "Action") {
        check_required_datetime(r, "recorded_at")?;
    } else {
        check_optional_datetime(r, "recorded_at")?;
    }
    check_confidence(r)?;
    check_optional_word(r, "impact", Vocabulary::Impact)?;
    check_optional_word(r, "classification", Vocabulary::Classification)?;
    check_string_array(r, "related_files")?;
    check_evidence_array(r)?;
    check_outcomes_array(r)?;
    check_provenance(r)?;
    check_links_array(r)
}

fn check_kind(r: &Json, t: &str) -> (res: Result<(), ValidationError>)
    ensures
        verdict(res) == kind_check(jview(*r), t@),
{
    if crate::text::str_eq(t, "Decision") {
        check_required(r, "title")?;
        check_required(r, "rationale")?;
        check_optional_word(r, "status", Vocabulary::RecordStatus)?;
        check_optional_date(r, "effective_from")
    } else if crate::text::str_eq(t, "Fact") {
        check_required(r, "observation")?;
        check_string_array(r, "related_components")
    } else if crate::text::str_eq(t, "Assumption") {
        check_required(r, "assumption_statement")?;
        check_optional_date(r, "expire_at")
    } else if crate::text::str_eq(t, "Meeting") {
        check_required(r, "title")?;
        let d = required(r, "date")?;
        check_date(d.as_str(), path_item("date", None))
    } else if crate::text::str_eq(t, "Action") {
        check_required(r, "title")?;
        check_optional_word(r, "status", Vocabulary::ActionStatus)?;
        check_optional_date(r, "due_date")?;
        match r.get("outcome") {
            Some(o) => check_outcome(o, "outcome", None),
            None => Ok(()),
        }
    } else if crate::text::str_eq(t, "Person") {
        check_required(r, "name")?;
        check_required(r, "id")
    } else {
        Err(ValidationError::UnsupportedType { found: owned(t) })
    }
}

/// Checks a record against the rules of the ontology.
///
/// The verdict is exactly `record_check` of the record's view: the first
/// rule that the record breaks, in the documented order, or `Ok` when it
/// breaks none.
pub fn validate_record_json(record: &Json) -> (res: Result<(), ValidationError>)
    ensures
        verdict(res) == record_check(jview(*record)),
{
    let record_type = required(record, "type")?;
    check_common(record, record_type.as_str())?;
    check_kind(record, record_type.as_str())
}

} // verus!

verus! {

/// The verdict on a record reads its `id` only for being a non-blank text,
/// and its `recorded_at` only through the date-time checks: two records
/// that agree on every other member, and on those, get the same verdict.
pub proof fn lemma_verdict_from_members(a: JVal, b: JVal)
    requires
        forall|k: Seq<char>| k != "id"@ && k != "recorded_at"@ ==> #[trigger] jget(b, k) == jget(a, k),
        (nonblank_text(a, "id"@) is Some) == (nonblank_text(b, "id"@) is Some),
        required_datetime(a, "recorded_at"@) == required_datetime(b, "recorded_at"@),
        optional_datetime(a, "recorded_at"@) == optional_datetime(b, "recorded_at"@),
    ensures
        record_check(a) == record_check(b),
{
    reveal_strlit("id");
    assert("id"@.len() == 2);
    reveal_strlit("recorded_at");
    assert("recorded_at"@.len() == 11);
    reveal_strlit("type");
    assert("type"@.len() == 4);
    reveal_strlit("confidence");
    assert("confidence"@.len() == 10);
    reveal_strlit("impact");
    assert("impact"@.len() == 6);
    reveal_strlit("classification");
    assert("classification"@.len() == 14);
    reveal_strlit("related_files");
    assert("related_files"@.len() == 13);
    reveal_strlit("evidence");
    assert("evidence"@.len() == 8);
    reveal_strlit("outcomes");
    assert("outcomes"@.len() == 8);
    reveal_strlit("provenance");
    assert("provenance"@.len() == 10);
    reveal_strlit("links");
    assert("links"@.len() == 5);
    reveal_strlit("title");
    assert("title"@.len() == 5);
    reveal_strlit("rationale");
    assert("rationale"@.len() == 9);
    reveal_strlit("status");
    assert("status"@.len() == 6);
    reveal_strlit("effective_from");
    assert("effective_from"@.len() == 14);
    reveal_strlit("observation");
    assert("observation"@.len() == 11);
    reveal_strlit("related_components");
    assert("related_components"@.len() == 18);
    reveal_strlit("assumption_statement");
    assert("assumption_statement"@.len() == 20);
    reveal_strlit("expire_at");
    assert("expire_at"@.len() == 9);
    reveal_strlit("date");
    assert("date"@.len() == 4);
    reveal_strlit("due_date");
    assert("due_date"@.len() == 8);
    reveal_strlit("outcome");
    assert("outcome"@.len() == 7);
    reveal_strlit("name");
    assert("name"@.len() == 4);
    assert("observation"@[0] != "recorded_at"@[0]);
    assert(jget(b, "type"@) == jget(a, "type"@));
    assert(nonblank_text(a, "type"@) == nonblank_text(b, "type"@));
    if let Some(t) = nonblank_text(a, "type"@) {
        assert(jget(b, "confidence"@) == jget(a, "confidence"@));
        assert(jget(b, "impact"@) == jget(a, "impact"@));
        assert(jget(b, "classification"@) == jget(a, "classification"@));
        assert(jget(b, "related_files"@) == jget(a, "related_files"@));
        assert(jget(b, "evidence"@) == jget(a, "evidence"@));
        assert(jget(b, "outcomes"@) == jget(a, "outcomes"@));
        assert(jget(b, "provenance"@) == jget(a, "provenance"@));
        assert(jget(b, "links"@) == jget(a, "links"@));
        assert(common_check(a, t) == common_check(b, t));
        assert(jget(b, "title"@) == jget(a, "title"@));
        assert(jget(b, "rationale"@) == jget(a, "rationale"@));
        assert(jget(b, "status"@) == jget(a, "status"@));
        assert(jget(b, "effective_from"@) == jget(a, "effective_from"@));
        assert(jget(b, "observation"@) == jget(a, "observation"@));
        assert(jget(b, "related_components"@) == jget(a, "related_components"@));
        assert(jget(b, "assumption_statement"@) == jget(a, "assumption_statement"@));
        assert(jget(b, "expire_at"@) == jget(a, "expire_at"@));
        assert(jget(b, "date"@) == jget(a, "date"@));
        assert(jget(b, "due_date"@) == jget(a, "due_date"@));
        assert(jget(b, "outcome"@) == jget(a, "outcome"@));
        assert(jget(b, "name"@) == jget(a, "name"@));
        assert(kind_check(a, t) == kind_check(b, t));
    }
}

} // verus!
