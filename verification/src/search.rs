use vstd::prelude::*;
use crate::json::{text_of_json, Json};
use crate::model::{entries_view, texts_view, EntryView, IndexEntry};
use crate::text::{
    ascii_lower_seq, chars_of, contains_chars, contains_text, eq_ignore_ascii_case, eq_ignore_case,
    push_char, to_ascii_lower, trim_seq, trimmed_chars,
};

verus! {

/// The views of a list of literal keys.
pub open spec fn keys_view(v: Seq<&str>) -> Seq<Seq<char>> {
    v.map_values(|s: &str| s@)
}

/// The lower-cased texts stored under `keys` in `r`, key by key.
pub open spec fn field_texts(r: Json, keys: Seq<Seq<char>>) -> Seq<Seq<char>>
    decreases keys.len(),
{
    if keys.len() == 0 {
        seq![]
    } else {
        field_texts(r, keys.drop_last()) + match r.text_at(keys.last()) {
            Some(s) => seq![ascii_lower_seq(s)],
            None => seq![],
        }
    }
}

/// The lower-cased texts among the items of `items`, in order.
pub open spec fn item_texts(items: Seq<Json>) -> Seq<Seq<char>>
    decreases items.len(),
{
    if items.len() == 0 {
        seq![]
    } else {
        item_texts(items.drop_last()) + match text_of_json(Some(items.last())) {
            Some(s) => seq![ascii_lower_seq(s)],
            None => seq![],
        }
    }
}

/// The lower-cased texts of the arrays stored under `keys` in `r`.
pub open spec fn list_texts(r: Json, keys: Seq<Seq<char>>) -> Seq<Seq<char>>
    decreases keys.len(),
{
    if keys.len() == 0 {
        seq![]
    } else {
        list_texts(r, keys.drop_last()) + match r.spec_get(keys.last()) {
            Some(Json::Array(a)) => item_texts(a@),
            _ => seq![],
        }
    }
}

/// `field_texts` of each element of `items`, in order.
pub open spec fn members_texts(items: Seq<Json>, keys: Seq<Seq<char>>) -> Seq<Seq<char>>
    decreases items.len(),
{
    if items.len() == 0 {
        seq![]
    } else {
        members_texts(items.drop_last(), keys) + field_texts(items.last(), keys)
    }
}

/// `field_texts` of the objects in the array under `key`.
pub open spec fn array_member_texts(r: Json, key: Seq<char>, keys: Seq<Seq<char>>) -> Seq<Seq<char>> {
    match r.spec_get(key) {
        Some(Json::Array(a)) => members_texts(a@, keys),
        _ => seq![],
    }
}

/// `field_texts` of the object under `key`.
pub open spec fn object_member_texts(r: Json, key: Seq<char>, keys: Seq<Seq<char>>) -> Seq<Seq<char>> {
    match r.spec_get(key) {
        Some(o) => field_texts(o, keys),
        None => seq![],
    }
}

pub open spec fn string_field_keys() -> Seq<Seq<char>> {
    seq![
        "id"@,
        "type"@,
        "title"@,
        "name"@,
        "domain"@,
        "project"@,
        "description"@,
        "body"@,
        "rationale"@,
        "observation"@,
        "assumption_statement"@,
        "minutes"@,
        "consequences"@,
        "status"@,
        "author"@,
        "classification"@,
        "location"@,
        "assigned_to"@,
    ]
}

pub open spec fn list_field_keys() -> Seq<Seq<char>> {
    seq![
        "tags"@,
        "options_considered"@,
        "impacted_components"@,
        "tests_needed"@,
        "participants"@,
        "decisions_made"@,
        "actions"@,
        "related_files"@,
        "related_components"@,
    ]
}

pub open spec fn provenance_keys() -> Seq<Seq<char>> {
    seq!["source_tool"@, "recorded_via"@, "recorded_by"@]
}

pub open spec fn evidence_keys() -> Seq<Seq<char>> {
    seq!["type"@, "reference"@, "excerpt"@, "recorded_by"@]
}

pub open spec fn outcome_keys() -> Seq<Seq<char>> {
    seq!["status"@, "notes"@, "agent"@]
}

/// The lower-cased pieces of text of a record that search looks at, in order.
pub open spec fn search_chunks(r: Json) -> Seq<Seq<char>> {
    field_texts(r, string_field_keys()) + list_texts(r, list_field_keys()) + object_member_texts(
        r,
        "provenance"@,
        provenance_keys(),
    ) + array_member_texts(r, "evidence"@, evidence_keys()) + array_member_texts(
        r,
        "outcomes"@,
        outcome_keys(),
    ) + object_member_texts(r, "outcome"@, outcome_keys())
}

/// `chunks.join(sep)`.
pub open spec fn join(chunks: Seq<Seq<char>>, sep: Seq<char>) -> Seq<char>
    decreases chunks.len(),
{
    if chunks.len() == 0 {
        seq![]
    } else if chunks.len() == 1 {
        chunks[0]
    } else {
        join(chunks.drop_last(), sep) + sep + chunks.last()
    }
}

/// The text that a query is looked for in: the chunks joined by one space.
pub open spec fn search_text(r: Json) -> Seq<char> {
    join(search_chunks(r), " "@)
}

fn string_field_names() -> (r: Vec<&'static str>)
    ensures
        keys_view(r@) == string_field_keys(),
{
    let r = vec![
        "id",
        "type",
        "title",
        "name",
        "domain",
        "project",
        "description",
        "body",
        "rationale",
        "observation",
        "assumption_statement",
        "minutes",
        "consequences",
        "status",
        "author",
        "classification",
        "location",
        "assigned_to",
    ];
    assert(keys_view(r@) =~= string_field_keys());
    r
}

fn list_field_names() -> (r: Vec<&'static str>)
    ensures
        keys_view(r@) == list_field_keys(),
{
    let r = vec![
        "tags",
        "options_considered",
        "impacted_components",
        "tests_needed",
        "participants",
        "decisions_made",
        "actions",
        "related_files",
        "related_components",
    ];
    assert(keys_view(r@) =~= list_field_keys());
    r
}

fn provenance_names() -> (r: Vec<&'static str>)
    ensures
        keys_view(r@) == provenance_keys(),
{
    let r = vec!["source_tool", "recorded_via", "recorded_by"];
    assert(keys_view(r@) =~= provenance_keys());
    r
}

fn evidence_names() -> (r: Vec<&'static str>)
    ensures
        keys_view(r@) == evidence_keys(),
{
    let r = vec!["type", "reference", "excerpt", "recorded_by"];
    assert(keys_view(r@) =~= evidence_keys());
    r
}

fn outcome_names() -> (r: Vec<&'static str>)
    ensures
        keys_view(r@) == outcome_keys(),
{
    let r = vec!["status", "notes", "agent"];
    assert(keys_view(r@) =~= outcome_keys());
    r
}

/// Appends `field_texts(r, keys)` to `chunks`.
fn push_field_texts(r: &Json, keys: &Vec<&'static str>, chunks: &mut Vec<String>)
    ensures
        texts_view(final(chunks)@) == texts_view(old(chunks)@) + field_texts(*r, keys_view(keys@)),
{
    let ghost start = texts_view(chunks@);
    let mut i: usize = 0;
    while i < keys.len()
        invariant
            i <= keys.len(),
            texts_view(chunks@) == start + field_texts(*r, keys_view(keys@.take(i as int))),
        decreases keys.len() - i,
    {
        let ghost before = texts_view(chunks@);
        assert(keys_view(keys@.take(i + 1)).drop_last() =~= keys_view(keys@.take(i as int)));
        if let Some(s) = r.get_str(keys[i]) {
            chunks.push(to_ascii_lower(s.as_str()));
            assert(texts_view(chunks@) =~= before.push(ascii_lower_seq(s@)));
        } else {
            assert(texts_view(chunks@) =~= before);
        }
        i += 1;
    }
    assert(keys@.take(keys.len() as int) =~= keys@);
}

/// Appends `item_texts(items)` to `chunks`.
fn push_item_texts(items: &Vec<Json>, chunks: &mut Vec<String>)
    ensures
        texts_view(final(chunks)@) == texts_view(old(chunks)@) + item_texts(items@),
{
    let ghost start = texts_view(chunks@);
    let mut i: usize = 0;
    while i < items.len()
        invariant
            i <= items.len(),
            texts_view(chunks@) == start + item_texts(items@.take(i as int)),
        decreases items.len() - i,
    {
        let ghost before = texts_view(chunks@);
        assert(items@.take(i + 1).drop_last() =~= items@.take(i as int));
        if let Some(s) = items[i].as_str() {
            chunks.push(to_ascii_lower(s.as_str()));
            assert(texts_view(chunks@) =~= before.push(ascii_lower_seq(s@)));
        } else {
            assert(texts_view(chunks@) =~= before);
        }
        i += 1;
    }
    assert(items@.take(items.len() as int) =~= items@);
}

/// Appends `list_texts(r, keys)` to `chunks`.
fn push_list_texts(r: &Json, keys: &Vec<&'static str>, chunks: &mut Vec<String>)
    ensures
        texts_view(final(chunks)@) == texts_view(old(chunks)@) + list_texts(*r, keys_view(keys@)),
{
    let ghost start = texts_view(chunks@);
    let mut i: usize = 0;
    while i < keys.len()
        invariant
            i <= keys.len(),
            texts_view(chunks@) == start + list_texts(*r, keys_view(keys@.take(i as int))),
        decreases keys.len() - i,
    {
        let ghost before = texts_view(chunks@);
        assert(keys_view(keys@.take(i + 1)).drop_last() =~= keys_view(keys@.take(i as int)));
        if let Some(a) = r.get_array(keys[i]) {
            push_item_texts(a, chunks);
        } else {
            assert(texts_view(chunks@) =~= before);
        }
        i += 1;
    }
    assert(keys@.take(keys.len() as int) =~= keys@);
}

/// Appends `members_texts(items, keys)` to `chunks`.
fn push_members_texts(items: &Vec<Json>, keys: &Vec<&'static str>, chunks: &mut Vec<String>)
    ensures
        texts_view(final(chunks)@) == texts_view(old(chunks)@) + members_texts(
            items@,
            keys_view(keys@),
        ),
{
    let ghost start = texts_view(chunks@);
    let mut i: usize = 0;
    while i < items.len()
        invariant
            i <= items.len(),
            texts_view(chunks@) == start + members_texts(items@.take(i as int), keys_view(keys@)),
        decreases items.len() - i,
    {
        assert(items@.take(i + 1).drop_last() =~= items@.take(i as int));
        push_field_texts(&items[i], keys, chunks);
        i += 1;
    }
    assert(items@.take(items.len() as int) =~= items@);
}

/// Joins texts with a separator.
pub fn join_texts(chunks: &Vec<String>, sep: &str) -> (r: String)
    ensures
        r@ == join(texts_view(chunks@), sep@),
{
    let sv = chars_of(sep);
    let mut r = String::new();
    let mut i: usize = 0;
    while i < chunks.len()
        invariant
            sv@ == sep@,
            i <= chunks.len(),
            r@ == join(texts_view(chunks@.take(i as int)), sep@),
        decreases chunks.len() - i,
    {
        let ghost before = r@;
        assert(texts_view(chunks@.take(i + 1)).drop_last() =~= texts_view(chunks@.take(i as int)));
        if i > 0 {
            let mut k: usize = 0;
            while k < sv.len()
                invariant
                    k <= sv.len(),
                    r@ == before + sv@.take(k as int),
                decreases sv.len() - k,
            {
                push_char(&mut r, sv[k]);
                assert(sv@.take(k + 1) =~= sv@.take(k as int).push(sv@[k as int]));
                k += 1;
            }
            assert(sv@.take(sv.len() as int) =~= sv@);
        }
        let ghost mid = r@;
        let cv = chars_of(chunks[i].as_str());
        let mut k: usize = 0;
        while k < cv.len()
            invariant
                k <= cv.len(),
                r@ == mid + cv@.take(k as int),
            decreases cv.len() - k,
        {
            push_char(&mut r, cv[k]);
            assert(cv@.take(k + 1) =~= cv@.take(k as int).push(cv@[k as int]));
            k += 1;
        }
        assert(cv@.take(cv.len() as int) =~= cv@);
        proof {
            let t = texts_view(chunks@.take(i + 1));
            assert(t.last() == chunks@[i as int]@);
            if i == 0 {
                assert(t.len() == 1);
                assert(r@ =~= t[0]);
            } else {
                assert(r@ =~= before + sep@ + t.last());
            }
        }
        i += 1;
    }
    assert(chunks@.take(chunks.len() as int) =~= chunks@);
    r
}

/// The lower-cased text of a record that search matches against: its text
/// fields, the texts of its list fields, then the texts inside provenance,
/// evidence, outcomes and outcome, joined by single spaces.
pub fn extract_search_text(record: &Json) -> (r: String)
    ensures
        r@ == search_text(*record),
{
    let mut chunks: Vec<String> = Vec::new();
    push_field_texts(record, &string_field_names(), &mut chunks);
    push_list_texts(record, &list_field_names(), &mut chunks);
    let ghost after_lists = texts_view(chunks@);
    match record.get("provenance") {
        Some(p) => push_field_texts(p, &provenance_names(), &mut chunks),
        None => {},
    }
    let ghost after_provenance = texts_view(chunks@);
    assert(after_provenance =~= after_lists + object_member_texts(
        *record,
        "provenance"@,
        provenance_keys(),
    ));
    match record.get_array("evidence") {
        Some(items) => push_members_texts(items, &evidence_names(), &mut chunks),
        None => {},
    }
    let ghost after_evidence = texts_view(chunks@);
    assert(after_evidence =~= after_provenance + array_member_texts(
        *record,
        "evidence"@,
        evidence_keys(),
    ));
    match record.get_array("outcomes") {
        Some(items) => push_members_texts(items, &outcome_names(), &mut chunks),
        None => {},
    }
    let ghost after_outcomes = texts_view(chunks@);
    assert(after_outcomes =~= after_evidence + array_member_texts(
        *record,
        "outcomes"@,
        outcome_keys(),
    ));
    match record.get("outcome") {
        Some(o) => push_field_texts(o, &outcome_names(), &mut chunks),
        None => {},
    }
    assert(texts_view(chunks@) =~= search_chunks(*record));
    join_texts(&chunks, " ")
}

} // verus!

verus! {

/// Why a query over the knowledge base was refused.
#[derive(Debug)]
pub enum QueryError {
    /// `--query` is blank.
    EmptyQuery,
    /// Neither `--from` nor `--to` was given to a links query.
    MissingEndpoint,
    /// `--depth` is outside `1..=5`.
    DepthOutOfRange,
    /// `--max-depth` is outside `1..=20`.
    MaxDepthOutOfRange,
    /// The `--from` id is not a record.
    UnknownFrom(String),
    /// The `--to` id is not a record.
    UnknownTo(String),
    /// A `--from-date` or `--to-date` bound is neither a date nor a date-time.
    InvalidDate(String),
}

/// The record type is accepted by the `--in` filter (an empty filter accepts all).
pub open spec fn type_selected(record_type: Seq<char>, types: Seq<Seq<char>>) -> bool {
    types.len() == 0 || exists|i: int| 0 <= i < types.len() && eq_ignore_case(record_type, #[trigger] types[i])
}

/// The entries of the records that the search finds, in order.
pub open spec fn search_hits(
    records: Seq<(IndexEntry, Json)>,
    query: Seq<char>,
    types: Seq<Seq<char>>,
) -> Seq<EntryView>
    decreases records.len(),
{
    if records.len() == 0 {
        seq![]
    } else {
        let r = records.last();
        search_hits(records.drop_last(), query, types) + if type_selected(r.0.record_type@, types)
            && contains_text(search_text(r.1), query) {
            seq![r.0@]
        } else {
            seq![]
        }
    }
}

/// The query as it is matched: trimmed and ASCII lower-cased.
pub open spec fn normalized_query(query: Seq<char>) -> Seq<char> {
    ascii_lower_seq(trim_seq(query))
}

/// `s.take(n)` for any `n`.
pub open spec fn first_n<A>(s: Seq<A>, n: int) -> Seq<A> {
    if n < s.len() {
        s.take(n)
    } else {
        s
    }
}

fn type_matches(record_type: &str, types: &Vec<String>) -> (b: bool)
    ensures
        b == type_selected(record_type@, texts_view(types@)),
{
    if types.len() == 0 {
        return true;
    }
    let mut i: usize = 0;
    while i < types.len()
        invariant
            i <= types.len(),
            types.len() > 0,
            forall|k: int| 0 <= k < i ==> !eq_ignore_case(record_type@, #[trigger] types@[k]@),
        decreases types.len() - i,
    {
        if eq_ignore_ascii_case(record_type, types[i].as_str()) {
            assert(eq_ignore_case(record_type@, texts_view(types@)[i as int]));
            return true;
        }
        i += 1;
    }
    assert forall|k: int| 0 <= k < texts_view(types@).len() implies !eq_ignore_case(
        record_type@,
        #[trigger] texts_view(types@)[k],
    ) by {
        assert(texts_view(types@)[k] == types@[k]@);
    }
    false
}

/// A search query must hold more than white space.
pub fn check_search_query(query: &str) -> (r: Result<(), QueryError>)
    ensures
        r is Err <==> normalized_query(query@).len() == 0,
        r matches Err(e) ==> e is EmptyQuery,
{
    let t = trimmed_chars(query);
    if t.len() == 0 {
        Err(QueryError::EmptyQuery)
    } else {
        Ok(())
    }
}

/// Free-text search over records: the entries of the records whose search
/// text contains the trimmed, lower-cased query and whose type passes the
/// `--in` filter, in order, at most `limit` of them.
pub fn search_records(
    records: &Vec<(IndexEntry, Json)>,
    query: &str,
    in_types: &Vec<String>,
    limit: usize,
) -> (r: Result<Vec<IndexEntry>, QueryError>)
    ensures
        normalized_query(query@).len() == 0 <==> r is Err,
        r matches Err(e) ==> e is EmptyQuery,
        r matches Ok(hits) ==> entries_view(hits@) == first_n(
            search_hits(records@, normalized_query(query@), texts_view(in_types@)),
            limit as int,
        ),
{
    let tq = trimmed_chars(query);
    let mut q: Vec<char> = Vec::new();
    let mut k: usize = 0;
    while k < tq.len()
        invariant
            k <= tq.len(),
            tq@ == trim_seq(query@),
            q@ == ascii_lower_seq(tq@.take(k as int)),
        decreases tq.len() - k,
    {
        q.push(crate::text::lower_char(tq[k]));
        assert(ascii_lower_seq(tq@.take(k + 1)) =~= ascii_lower_seq(tq@.take(k as int)).push(
            crate::text::ascii_lower(tq@[k as int]),
        ));
        k += 1;
    }
    assert(tq@.take(tq.len() as int) =~= tq@);
    if q.len() == 0 {
        return Err(QueryError::EmptyQuery);
    }
    let ghost nq = normalized_query(query@);
    let ghost types = texts_view(in_types@);
    let mut hits: Vec<IndexEntry> = Vec::new();
    let mut i: usize = 0;
    while i < records.len()
        invariant
            i <= records.len(),
            q@ == nq,
            types == texts_view(in_types@),
            entries_view(hits@) == search_hits(records@.take(i as int), nq, types),
        decreases records.len() - i,
    {
        assert(records@.take(i + 1).drop_last() =~= records@.take(i as int));
        let (entry, record) = (&records[i].0, &records[i].1);
        let selected = type_matches(entry.record_type.as_str(), in_types);
        let ghost before = entries_view(hits@);
        if selected {
            let haystack = chars_of(extract_search_text(record).as_str());
            if contains_chars(&haystack, &q) {
                hits.push(entry.duplicate());
                assert(entries_view(hits@) =~= before.push(entry@));
            } else {
                assert(entries_view(hits@) =~= before);
            }
        } else {
            assert(entries_view(hits@) =~= before);
        }
        i += 1;
    }
    assert(records@.take(records.len() as int) =~= records@);
    if hits.len() > limit {
        hits.truncate(limit);
        assert(entries_view(hits@) =~= first_n(search_hits(records@, nq, types), limit as int));
    }
    Ok(hits)
}

} // verus!
