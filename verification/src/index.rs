use vstd::prelude::*;
use crate::datetime::{parse_rfc3339, parse_ymd, rfc3339_instant, ymd_midnight, LAST_SECOND_OF_DAY};
use crate::json::{text_of_json, Json};
use crate::model::{copy_opt, entries_view, opt_view, texts_view, EntryView, IndexEntry};
use crate::search::{first_n, QueryError};
use crate::text::{
    ascii_lower_seq, chars_of, contains_chars, contains_text, eq_ignore_ascii_case, eq_ignore_case,
    owned, push_char, str_eq, to_ascii_lower,
};

verus! {

/// The character kept in a file name: ASCII letters and digits, `-` and `_`
/// stay, anything else becomes `_`.
pub open spec fn filename_char(c: char) -> char {
    if ('a' <= c && c <= 'z') || ('A' <= c && c <= 'Z') || ('0' <= c && c <= '9') || c == '-'
        || c == '_' {
        c
    } else {
        '_'
    }
}

/// A record id made safe to use as a file name.
pub fn sanitize_id_for_filename(id: &str) -> (r: String)
    ensures
        r@ == id@.map_values(|c: char| filename_char(c)),
{
    let v = chars_of(id);
    let mut r = String::new();
    let mut i: usize = 0;
    while i < v.len()
        invariant
            v@ == id@,
            i <= v.len(),
            r@ == id@.take(i as int).map_values(|c: char| filename_char(c)),
        decreases v.len() - i,
    {
        let c = v[i];
        let k = if ('a' <= c && c <= 'z') || ('A' <= c && c <= 'Z') || ('0' <= c && c <= '9') || c
            == '-' || c == '_' {
            c
        } else {
            '_'
        };
        push_char(&mut r, k);
        assert(id@.take(i + 1).map_values(|c: char| filename_char(c)) =~= id@.take(i as int).map_values(
            |c: char| filename_char(c),
        ).push(k));
        i += 1;
    }
    assert(id@.take(v.len() as int) =~= id@);
    r
}

/// The name of the file that holds a record: its sanitized id and `.jsonld`.
pub fn record_file_name(id: &str) -> (r: String)
    ensures
        r@ == id@.map_values(|c: char| filename_char(c)) + ".jsonld"@,
{
    let mut r = sanitize_id_for_filename(id);
    let ext = chars_of(".jsonld");
    let ghost start = r@;
    let mut i: usize = 0;
    while i < ext.len()
        invariant
            i <= ext.len(),
            ext@ == ".jsonld"@,
            r@ == start + ext@.take(i as int),
        decreases ext.len() - i,
    {
        push_char(&mut r, ext[i]);
        assert(ext@.take(i + 1) =~= ext@.take(i as int).push(ext@[i as int]));
        i += 1;
    }
    assert(ext@.take(ext.len() as int) =~= ext@);
    r
}

/// The index after an upsert: the first entry with the same id replaced, or
/// the entry appended when no entry has that id.
pub open spec fn upserted(entries: Seq<EntryView>, entry: EntryView) -> Seq<EntryView> {
    if exists|i: int| 0 <= i < entries.len() && (#[trigger] entries[i]).id == entry.id {
        let i = choose|i: int|
            0 <= i < entries.len() && (#[trigger] entries[i]).id == entry.id && forall|j: int|
                0 <= j < i ==> (#[trigger] entries[j]).id != entry.id;
        entries.update(i, entry)
    } else {
        entries.push(entry)
    }
}

/// No two entries share an id.
pub open spec fn ids_unique(entries: Seq<EntryView>) -> bool {
    forall|i: int, j: int| 0 <= i < j < entries.len() ==> (#[trigger] entries[i]).id != (#[trigger] entries[j]).id
}

/// The position of the first entry with id `id`.
pub fn find_entry(entries: &Vec<IndexEntry>, id: &str) -> (r: Option<usize>)
    ensures
        r matches Some(i) ==> i < entries.len() && entries@[i as int].id@ == id@ && forall|j: int|
            0 <= j < i ==> (#[trigger] entries@[j]).id@ != id@,
        r is None ==> forall|j: int| 0 <= j < entries.len() ==> (#[trigger] entries@[j]).id@ != id@,
{
    let mut i: usize = 0;
    while i < entries.len()
        invariant
            i <= entries.len(),
            forall|j: int| 0 <= j < i ==> (#[trigger] entries@[j]).id@ != id@,
        decreases entries.len() - i,
    {
        if str_eq(entries[i].id.as_str(), id) {
            return Some(i);
        }
        i += 1;
    }
    None
}

/// Adds an entry to the index, or replaces the entry with the same id.
/// An index whose ids are unique keeps them unique, and afterwards holds the
/// new entry.
pub fn upsert_index_entry(entries: &mut Vec<IndexEntry>, entry: IndexEntry)
    ensures
        entries_view(final(entries)@) == upserted(entries_view(old(entries)@), entry@),
        ids_unique(entries_view(old(entries)@)) ==> ids_unique(entries_view(final(entries)@)),
        entries_view(final(entries)@).contains(entry@),
{
    let ghost before = entries_view(entries@);
    let ghost e = entry@;
    match find_entry(entries, entry.id.as_str()) {
        Some(pos) => {
            proof {
                assert(before[pos as int].id == e.id);
                let i = choose|i: int|
                    0 <= i < before.len() && (#[trigger] before[i]).id == e.id && forall|j: int|
                        0 <= j < i ==> (#[trigger] before[j]).id != e.id;
                if i < pos {
                    assert(entries@[i].id@ == before[i].id);
                } else if i > pos {
                    assert(before[pos as int].id == e.id);
                }
                assert(i == pos);
            }
            entries.set(pos, entry);
            proof {
                assert(entries_view(entries@) =~= before.update(pos as int, e));
                assert(entries_view(entries@)[pos as int] == e);
                if ids_unique(before) {
                    assert forall|a: int, b: int| 0 <= a < b < entries.len() implies (#[trigger] entries_view(entries@)[a]).id
                        != (#[trigger] entries_view(entries@)[b]).id by {
                        if a == pos {
                            assert(before[b].id != before[a].id);
                        } else if b == pos {
                            assert(before[b].id != before[a].id);
                        } else {
                            assert(before[b].id != before[a].id);
                        }
                    }
                }
            }
        },
        None => {
            proof {
                assert forall|i: int| 0 <= i < before.len() implies (#[trigger] before[i]).id != e.id by {
                    assert(entries@[i].id@ == before[i].id);
                }
            }
            entries.push(entry);
            proof {
                assert(entries_view(entries@) =~= before.push(e));
                assert(entries_view(entries@)[before.len() as int] == e);
            }
        },
    }
}

/// Why an index entry could not be built from a record.
#[derive(Debug)]
pub enum EntryError {
    /// The record has no text `id`.
    MissingId,
    /// The record has no text `type`.
    MissingType,
}

/// `domain`, or `project` when the record has no `domain` at all.
pub open spec fn domain_of(value: Json) -> Option<Seq<char>> {
    match value.spec_get("domain"@) {
        Some(d) => text_of_json(Some(d)),
        None => value.text_at("project"@),
    }
}

/// The texts in the array under `tags` (others are skipped), or nothing.
pub open spec fn tags_of(value: Json) -> Seq<Seq<char>> {
    match value.spec_get("tags"@) {
        Some(Json::Array(a)) => texts_in(a@),
        _ => seq![],
    }
}

/// The texts among `items`, in order.
pub open spec fn texts_in(items: Seq<Json>) -> Seq<Seq<char>>
    decreases items.len(),
{
    if items.len() == 0 {
        seq![]
    } else {
        texts_in(items.drop_last()) + match text_of_json(Some(items.last())) {
            Some(s) => seq![s],
            None => seq![],
        }
    }
}

/// The index entry of a record stored at `path`.
pub open spec fn entry_of(value: Json, id: Seq<char>, record_type: Seq<char>, path: Seq<char>) -> EntryView {
    EntryView {
        id,
        record_type,
        title: value.text_at("title"@),
        name: value.text_at("name"@),
        domain: domain_of(value),
        classification: value.text_at("classification"@),
        tags: tags_of(value),
        recorded_at: value.text_at("recorded_at"@),
        status: value.text_at("status"@),
        author: value.text_at("author"@),
        path,
    }
}

fn text_copy(v: Option<&String>) -> (r: Option<String>)
    ensures
        opt_view(r) == crate::json::opt_text(v),
{
    match v {
        Some(s) => Some(s.clone()),
        None => None,
    }
}

/// The metadata that the index keeps of a record stored at `path`
/// (relative to the knowledge directory).
pub fn build_index_entry(value: &Json, path: &str) -> (r: Result<IndexEntry, EntryError>)
    ensures
        r is Ok <==> (value.text_at("id"@) is Some && value.text_at("type"@) is Some),
        r matches Err(e) ==> (if value.text_at("id"@) is None {
            e is MissingId
        } else {
            e is MissingType
        }),
        r matches Ok(entry) ==> entry@ == entry_of(
            *value,
            value.text_at("id"@)->0,
            value.text_at("type"@)->0,
            path@,
        ),
{
    let id = match value.get_str("id") {
        Some(s) => s.clone(),
        None => {
            return Err(EntryError::MissingId);
        },
    };
    let record_type = match value.get_str("type") {
        Some(s) => s.clone(),
        None => {
            return Err(EntryError::MissingType);
        },
    };
    let mut tags: Vec<String> = Vec::new();
    match value.get_array("tags") {
        Some(a) => {
            let mut i: usize = 0;
            while i < a.len()
                invariant
                    i <= a.len(),
                    texts_view(tags@) == texts_in(a@.take(i as int)),
                decreases a.len() - i,
            {
                assert(a@.take(i + 1).drop_last() =~= a@.take(i as int));
                let ghost before = texts_view(tags@);
                if let Some(s) = a[i].as_str() {
                    tags.push(s.clone());
                    assert(texts_view(tags@) =~= before.push(s@));
                } else {
                    assert(texts_view(tags@) =~= before);
                }
                i += 1;
            }
            assert(a@.take(a.len() as int) =~= a@);
        },
        None => {
            assert(texts_view(tags@) =~= seq![]);
        },
    }
    let domain = match value.get("domain") {
        Some(d) => text_copy(d.as_str()),
        None => text_copy(value.get_str("project")),
    };
    Ok(
        IndexEntry {
            id,
            record_type,
            title: text_copy(value.get_str("title")),
            name: text_copy(value.get_str("name")),
            domain,
            classification: text_copy(value.get_str("classification")),
            tags,
            recorded_at: text_copy(value.get_str("recorded_at")),
            status: text_copy(value.get_str("status")),
            author: text_copy(value.get_str("author")),
            path: owned(path),
        },
    )
}

} // verus!

verus! {

/// The filters and paging of a `list` query.
pub struct ListArgs {
    pub record_type: Option<String>,
    pub domain: Option<String>,
    pub classification: Option<String>,
    pub tags: Vec<String>,
    pub status: Option<String>,
    pub author: Option<String>,
    pub from_date: Option<String>,
    pub to_date: Option<String>,
    pub limit: usize,
    pub offset: usize,
}

/// The instant of a `--from-date` (`end_of_day == false`) or `--to-date`
/// bound: an RFC 3339 date-time, or a `YYYY-MM-DD` date taken at 00:00:00
/// or 23:59:59 UTC.
pub open spec fn bound_of(value: Seq<char>, end_of_day: bool) -> Option<(i64, u32)> {
    match rfc3339_instant(value) {
        Some(t) => Some(t),
        None => match ymd_midnight(value) {
            Some(m) => Some(
                (
                    if end_of_day {
                        (m + LAST_SECOND_OF_DAY) as i64
                    } else {
                        m
                    },
                    0u32,
                ),
            ),
            None => None,
        },
    }
}

/// `a < b` for instants (seconds, then nanoseconds).
pub open spec fn instant_lt(a: (i64, u32), b: (i64, u32)) -> bool {
    a.0 < b.0 || (a.0 == b.0 && a.1 < b.1)
}

/// Reads a date bound.
pub fn parse_datetime_bound(value: &str, end_of_day: bool) -> (r: Result<(i64, u32), QueryError>)
    ensures
        match bound_of(value@, end_of_day) {
            Some(t) => r == Ok::<(i64, u32), QueryError>(t),
            None => r matches Err(QueryError::InvalidDate(v)) && v@ == value@,
        },
{
    if let Some(t) = parse_rfc3339(value) {
        return Ok(t);
    }
    match parse_ymd(value) {
        Some(m) => {
            if end_of_day {
                Ok((m + LAST_SECOND_OF_DAY, 0))
            } else {
                Ok((m, 0))
            }
        },
        None => Err(QueryError::InvalidDate(owned(value))),
    }
}

/// An optional field equals the wanted text up to ASCII case (no wanted
/// text: anything passes; wanted but missing: fails).
pub open spec fn field_matches(field: Option<Seq<char>>, wanted: Option<Seq<char>>) -> bool {
    match wanted {
        None => true,
        Some(w) => match field {
            Some(f) => eq_ignore_case(f, w),
            None => false,
        },
    }
}

/// `w` is among `tags`, up to ASCII case.
pub open spec fn tag_present(tags: Seq<Seq<char>>, w: Seq<char>) -> bool {
    exists|j: int| 0 <= j < tags.len() && eq_ignore_case(#[trigger] tags[j], w)
}

/// Every wanted tag is among the entry's tags, up to ASCII case.
pub open spec fn has_tags(tags: Seq<Seq<char>>, wanted: Seq<Seq<char>>) -> bool {
    forall|i: int| 0 <= i < wanted.len() ==> tag_present(tags, #[trigger] wanted[i])
}

/// The entry passes the date bounds: when a bound is given, its
/// `recorded_at` must be an RFC 3339 date-time no earlier than `from` and
/// no later than `to`.
pub open spec fn in_window(recorded_at: Option<Seq<char>>, from: Option<(i64, u32)>, to: Option<(i64, u32)>) -> bool {
    if from is None && to is None {
        true
    } else {
        match recorded_at {
            None => false,
            Some(ra) => match rfc3339_instant(ra) {
                None => false,
                Some(t) => (from matches Some(f) ==> !instant_lt(t, f)) && (to matches Some(u) ==> !instant_lt(u, t)),
            },
        }
    }
}

/// The entry passes all the filters of a `list` query.
pub open spec fn listed(e: EntryView, args: ListArgs, from: Option<(i64, u32)>, to: Option<(i64, u32)>) -> bool {
    &&& (args.record_type matches Some(w) ==> eq_ignore_case(e.record_type, w@))
    &&& field_matches(e.domain, opt_view(args.domain))
    &&& field_matches(e.status, opt_view(args.status))
    &&& field_matches(e.classification, opt_view(args.classification))
    &&& (args.author matches Some(w) ==> (e.author matches Some(a) && contains_text(
        ascii_lower_seq(a),
        ascii_lower_seq(w@),
    )))
    &&& has_tags(e.tags, texts_view(args.tags@))
    &&& in_window(e.recorded_at, from, to)
}

/// The entries that pass, in order.
pub open spec fn listed_entries(
    entries: Seq<EntryView>,
    args: ListArgs,
    from: Option<(i64, u32)>,
    to: Option<(i64, u32)>,
) -> Seq<EntryView>
    decreases entries.len(),
{
    if entries.len() == 0 {
        seq![]
    } else {
        listed_entries(entries.drop_last(), args, from, to) + if listed(entries.last(), args, from, to) {
            seq![entries.last()]
        } else {
            seq![]
        }
    }
}

/// The page `offset..offset + limit` of `s` (what `skip(offset).take(limit)` keeps).
pub open spec fn page<A>(s: Seq<A>, offset: int, limit: int) -> Seq<A> {
    if offset >= s.len() {
        seq![]
    } else {
        first_n(s.skip(offset), limit)
    }
}

fn opt_field_matches(field: &Option<String>, wanted: &Option<String>) -> (r: bool)
    ensures
        r == field_matches(opt_view(*field), opt_view(*wanted)),
{
    match wanted {
        None => true,
        Some(w) => match field {
            Some(f) => eq_ignore_ascii_case(f.as_str(), w.as_str()),
            None => false,
        },
    }
}

fn tags_match(tags: &Vec<String>, wanted: &Vec<String>) -> (r: bool)
    ensures
        r == has_tags(texts_view(tags@), texts_view(wanted@)),
{
    let ghost tv = texts_view(tags@);
    let ghost wv = texts_view(wanted@);
    let mut i: usize = 0;
    while i < wanted.len()
        invariant
            i <= wanted.len(),
            tv == texts_view(tags@),
            wv == texts_view(wanted@),
            forall|k: int| 0 <= k < i ==> tag_present(tv, #[trigger] wv[k]),
        decreases wanted.len() - i,
    {
        let mut j: usize = 0;
        let mut hit = false;
        while j < tags.len()
            invariant
                j <= tags.len(),
                i < wanted.len(),
                tv == texts_view(tags@),
                wv == texts_view(wanted@),
                hit ==> tag_present(tv, wv[i as int]),
                !hit ==> forall|m: int| 0 <= m < j ==> !eq_ignore_case(#[trigger] tv[m], wv[i as int]),
            decreases tags.len() - j,
        {
            if eq_ignore_ascii_case(tags[j].as_str(), wanted[i].as_str()) {
                assert(eq_ignore_case(tv[j as int], wv[i as int]));
                hit = true;
            }
            j += 1;
        }
        if !hit {
            assert(!tag_present(tv, wv[i as int]));
            return false;
        }
        i += 1;
    }
    true
}

fn window_matches(recorded_at: &Option<String>, from: Option<(i64, u32)>, to: Option<(i64, u32)>) -> (r: bool)
    ensures
        r == in_window(opt_view(*recorded_at), from, to),
{
    if from.is_none() && to.is_none() {
        return true;
    }
    let ra = match recorded_at {
        Some(ra) => ra,
        None => {
            return false;
        },
    };
    let t = match parse_rfc3339(ra.as_str()) {
        Some(t) => t,
        None => {
            return false;
        },
    };
    if let Some(f) = from {
        if t.0 < f.0 || (t.0 == f.0 && t.1 < f.1) {
            return false;
        }
    }
    if let Some(u) = to {
        if u.0 < t.0 || (u.0 == t.0 && u.1 < t.1) {
            return false;
        }
    }
    true
}

fn entry_listed(e: &IndexEntry, args: &ListArgs, from: Option<(i64, u32)>, to: Option<(i64, u32)>) -> (r: bool)
    ensures
        r == listed(e@, *args, from, to),
{
    if let Some(w) = &args.record_type {
        if !eq_ignore_ascii_case(e.record_type.as_str(), w.as_str()) {
            return false;
        }
    }
    if !opt_field_matches(&e.domain, &args.domain) {
        return false;
    }
    if !opt_field_matches(&e.status, &args.status) {
        return false;
    }
    if !opt_field_matches(&e.classification, &args.classification) {
        return false;
    }
    if let Some(w) = &args.author {
        match &e.author {
            Some(a) => {
                let hay = chars_of(to_ascii_lower(a.as_str()).as_str());
                let needle = chars_of(to_ascii_lower(w.as_str()).as_str());
                if !contains_chars(&hay, &needle) {
                    return false;
                }
            },
            None => {
                return false;
            },
        }
    }
    if !tags_match(&e.tags, &args.tags) {
        return false;
    }
    window_matches(&e.recorded_at, from, to)
}

/// A `list` query over the index: the entries that pass every given filter
/// (type, domain, status and classification equal up to ASCII case; author
/// containing the text up to ASCII case; all wanted tags present; recorded
/// between the date bounds), in index order, then the page `offset`,
/// `limit`. A date bound that is neither a date nor a date-time is refused,
/// `from_date` first.
pub fn list_entries(entries: &Vec<IndexEntry>, args: &ListArgs) -> (r: Result<Vec<IndexEntry>, QueryError>)
    ensures
        r is Err <==> ((args.from_date matches Some(f) && bound_of(f@, false) is None) || (
        args.to_date matches Some(t) && bound_of(t@, true) is None)),
        r matches Err(e) ==> (if args.from_date matches Some(f) && bound_of(f@, false) is None {
            e matches QueryError::InvalidDate(v) && v@ == args.from_date->0@
        } else {
            e matches QueryError::InvalidDate(v) && v@ == args.to_date->0@
        }),
        r matches Ok(rows) ==> entries_view(rows@) == page(
            listed_entries(
                entries_view(entries@),
                *args,
                match args.from_date {
                    Some(f) => bound_of(f@, false),
                    None => None,
                },
                match args.to_date {
                    Some(t) => bound_of(t@, true),
                    None => None,
                },
            ),
            args.offset as int,
            args.limit as int,
        ),
{
    let from = match &args.from_date {
        Some(f) => Some(parse_datetime_bound(f.as_str(), false)?),
        None => None,
    };
    let to = match &args.to_date {
        Some(t) => Some(parse_datetime_bound(t.as_str(), true)?),
        None => None,
    };
    let ghost ev = entries_view(entries@);
    let mut kept: Vec<IndexEntry> = Vec::new();
    let mut i: usize = 0;
    while i < entries.len()
        invariant
            i <= entries.len(),
            ev == entries_view(entries@),
            entries_view(kept@) == listed_entries(ev.take(i as int), *args, from, to),
        decreases entries.len() - i,
    {
        assert(ev.take(i + 1).drop_last() =~= ev.take(i as int));
        assert(ev.take(i + 1).last() == entries@[i as int]@);
        let ghost before = entries_view(kept@);
        if entry_listed(&entries[i], args, from, to) {
            kept.push(entries[i].duplicate());
            assert(entries_view(kept@) =~= before.push(entries@[i as int]@));
        } else {
            assert(entries_view(kept@) =~= before);
        }
        i += 1;
    }
    assert(ev.take(entries.len() as int) =~= ev);
    let ghost all = entries_view(kept@);
    let mut rows: Vec<IndexEntry> = Vec::new();
    if args.offset < kept.len() {
        let mut k = args.offset;
        while k < kept.len() && rows.len() < args.limit
            invariant
                args.offset <= k <= kept.len(),
                rows.len() == k - args.offset,
                rows.len() <= args.limit,
                all == entries_view(kept@),
                entries_view(rows@) == all.subrange(args.offset as int, k as int),
            decreases kept.len() - k,
        {
            rows.push(kept[k].duplicate());
            assert(entries_view(rows@) =~= all.subrange(args.offset as int, k + 1));
            k += 1;
        }
        assert(entries_view(rows@) =~= page(all, args.offset as int, args.limit as int));
    }
    Ok(rows)
}

} // verus!
