use vstd::prelude::*;
use crate::form::{field_text, Form, FIELD_COUNT};
use crate::inference::{decimal, push_decimal};
use crate::json::Json;
use crate::text::push_text;

verus! {

/// The title bar of the wizard.
pub open spec fn header(editing: bool) -> Seq<char> {
    "Log Diario — Nuevo Registro   "@ + if editing {
        "Edición"@
    } else {
        "Listo"@
    }
}

/// The title bar of the wizard.
pub fn header_text(editing: bool) -> (r: String)
    ensures
        r@ == header(editing),
{
    let mut r = String::new();
    push_text(&mut r, "Log Diario — Nuevo Registro   ");
    if editing {
        push_text(&mut r, "Edición");
    } else {
        push_text(&mut r, "Listo");
    }
    r
}

/// The label of each field.
pub open spec fn label(i: usize) -> Seq<char> {
    if i == 0 {
        "Title:"@
    } else if i == 1 {
        "Domain:"@
    } else if i == 2 {
        "Date:"@
    } else if i == 3 {
        "Participants:"@
    } else if i == 4 {
        "Files:"@
    } else if i == 5 {
        "Tags:"@
    } else if i == 6 {
        "Description:"@
    } else if i == 7 {
        "Rationale:"@
    } else {
        ""@
    }
}

/// The label of field `i`.
pub fn field_label(i: usize) -> (r: &'static str)
    ensures
        r@ == label(i),
{
    if i == 0 {
        "Title:"
    } else if i == 1 {
        "Domain:"
    } else if i == 2 {
        "Date:"
    } else if i == 3 {
        "Participants:"
    } else if i == 4 {
        "Files:"
    } else if i == 5 {
        "Tags:"
    } else if i == 6 {
        "Description:"
    } else if i == 7 {
        "Rationale:"
    } else {
        ""
    }
}

/// What box `i` of the form shows: its label and its text, or the text
/// being edited followed by a cursor when that field is being edited.
pub open spec fn field_box(f: Form, i: usize, editing: bool, current: usize, editing_text: Seq<char>) -> Seq<char> {
    label(i) + " "@ + if editing && current == i {
        editing_text + "▮"@
    } else {
        field_text(f, i)
    }
}

/// What box `i` of the form shows.
pub fn field_line(form: &Form, i: usize, editing: bool, current: usize, editing_text: &str) -> (r: String)
    requires
        i < FIELD_COUNT,
    ensures
        r@ == field_box(*form, i, editing, current, editing_text@),
{
    let mut r = String::new();
    push_text(&mut r, field_label(i));
    push_text(&mut r, " ");
    if editing && current == i {
        push_text(&mut r, editing_text);
        push_text(&mut r, "▮");
    } else {
        let t = form.field(i);
        push_text(&mut r, t.as_str());
    }
    r
}

/// The preview of the form, with the keys and the meaning of the
/// relational fields.
pub open spec fn preview_base(f: Form) -> Seq<char> {
    "Preview:\n\nTitle: "@ + f.title@ + "\nDomain: "@ + f.domain@ + "\nDate: "@ + f.date@
        + "\nParticipants: "@ + f.participants@ + "\nFiles: "@ + f.files@ + "\nTags: "@ + f.tags@
        + "\n\nDescription:\n"@ + f.description@ + "\n\nRationale:\n"@ + f.rationale@
        + "\n\nActions:\n- Ctrl+S Save draft\n- Ctrl+Enter Submit (generate ml record)\n- Esc Quit\n\nRelational fields:\n- Participants: comma-separated list of user IDs or names.\n- Files: glob patterns (e.g., src/**, tests/*.rs).\n- Domain: logical grouping, e.g., infra/database or operacion/tienda.\n"@
}

/// The text under `key`, or `default`.
pub open spec fn text_or(s: Json, key: Seq<char>, default: Seq<char>) -> Seq<char> {
    match s.text_at(key) {
        Some(t) => t,
        None => default,
    }
}

/// Suggestion `i` (counted from 0) as the preview lists it.
pub open spec fn suggestion_line(i: nat, s: Json) -> Seq<char> {
    decimal(i + 1) + ": "@ + text_or(s, "title"@, "(no title)"@) + " — "@ + text_or(s, "snippet"@, ""@)
        + "\n"@ + if text_or(s, "id"@, ""@).len() > 0 {
        "   id: "@ + text_or(s, "id"@, ""@) + "\n"@
    } else {
        seq![]
    }
}

/// The first `n` suggestions as the preview lists them.
pub open spec fn suggestion_lines(ss: Seq<Json>, n: nat) -> Seq<char>
    decreases n,
{
    if n == 0 || n > ss.len() {
        seq![]
    } else {
        suggestion_lines(ss, (n - 1) as nat) + suggestion_line((n - 1) as nat, ss[n - 1])
    }
}

/// The preview pane: the form, then the search state of suggestions:
/// searching, the first six suggestions, or the error of the search.
pub open spec fn preview(f: Form, loading: bool, ss: Seq<Json>, error: Option<Seq<char>>) -> Seq<char> {
    preview_base(f) + if loading {
        "\nSearching suggestions...\n"@
    } else if ss.len() > 0 {
        "\nSuggestions:\n"@ + suggestion_lines(ss, if ss.len() < 6 {
            ss.len()
        } else {
            6
        })
    } else {
        match error {
            Some(e) => "\nSuggestion error: "@ + e + "\n"@,
            None => seq![],
        }
    }
}

fn push_text_or(r: &mut String, s: &Json, key: &str, default: &str)
    ensures
        final(r)@ == old(r)@ + text_or(*s, key@, default@),
{
    match s.get_str(key) {
        Some(t) => push_text(r, t.as_str()),
        None => push_text(r, default),
    }
}

/// The preview pane of the wizard.
pub fn preview_text(form: &Form, loading: bool, suggestions: &Vec<Json>, error: &Option<String>) -> (r: String)
    ensures
        r@ == preview(*form, loading, suggestions@, crate::model::opt_view(*error)),
{
    let mut r = String::new();
    push_text(&mut r, "Preview:\n\nTitle: ");
    push_text(&mut r, form.title.as_str());
    push_text(&mut r, "\nDomain: ");
    push_text(&mut r, form.domain.as_str());
    push_text(&mut r, "\nDate: ");
    push_text(&mut r, form.date.as_str());
    push_text(&mut r, "\nParticipants: ");
    push_text(&mut r, form.participants.as_str());
    push_text(&mut r, "\nFiles: ");
    push_text(&mut r, form.files.as_str());
    push_text(&mut r, "\nTags: ");
    push_text(&mut r, form.tags.as_str());
    push_text(&mut r, "\n\nDescription:\n");
    push_text(&mut r, form.description.as_str());
    push_text(&mut r, "\n\nRationale:\n");
    push_text(&mut r, form.rationale.as_str());
    push_text(
        &mut r,
        "\n\nActions:\n- Ctrl+S Save draft\n- Ctrl+Enter Submit (generate ml record)\n- Esc Quit\n\nRelational fields:\n- Participants: comma-separated list of user IDs or names.\n- Files: glob patterns (e.g., src/**, tests/*.rs).\n- Domain: logical grouping, e.g., infra/database or operacion/tienda.\n",
    );
    let ghost base = r@;
    assert(base == preview_base(*form));
    if loading {
        push_text(&mut r, "\nSearching suggestions...\n");
    } else if suggestions.len() > 0 {
        push_text(&mut r, "\nSuggestions:\n");
        let ghost start = r@;
        let n: usize = if suggestions.len() < 6 {
            suggestions.len()
        } else {
            6
        };
        let mut i: usize = 0;
        while i < n
            invariant
                i <= n <= suggestions.len(),
                n <= 6,
                r@ == start + suggestion_lines(suggestions@, i as nat),
            decreases n - i,
        {
            let ghost before = r@;
            let s = &suggestions[i];
            push_decimal(&mut r, i + 1);
            push_text(&mut r, ": ");
            push_text_or(&mut r, s, "title", "(no title)");
            push_text(&mut r, " — ");
            push_text_or(&mut r, s, "snippet", "");
            push_text(&mut r, "\n");
            match s.get_str("id") {
                Some(id) => {
                    if !id.as_str().is_empty() {
                        push_text(&mut r, "   id: ");
                        push_text(&mut r, id.as_str());
                        push_text(&mut r, "\n");
                    }
                },
                None => {},
            }
            proof {
                reveal_strlit("");
                assert(""@ =~= Seq::<char>::empty());
                assert(r@ =~= before + suggestion_line(i as nat, suggestions@[i as int]));
            }
            i += 1;
        }
        assert(r@ =~= base + ("\nSuggestions:\n"@ + suggestion_lines(suggestions@, n as nat)));
    } else {
        match error {
            Some(e) => {
                push_text(&mut r, "\nSuggestion error: ");
                push_text(&mut r, e.as_str());
                push_text(&mut r, "\n");
            },
            None => {},
        }
    }
    r
}

} // verus!
