use vstd::prelude::*;
use vstd::utf8::{encode_utf8, is_char_boundary};
use crate::form::{commit_field, field_text, field_verdict, next_field, previous_field, FieldError, Form, FIELD_COUNT};
use crate::json::Json;

verus! {

/// The bytes of a text in UTF-8.
pub open spec fn bytes(s: Seq<char>) -> Seq<u8> {
    encode_utf8(s)
}

/// Inserts `c` at byte `idx` with `String::insert`.
///
/// Trusted: std documents that the character's bytes go in at byte `idx`,
/// and that the call panics unless `idx` is a character boundary, which
/// `requires` rules out.
#[verifier::external_body]
pub(crate) fn insert_char(s: &mut String, idx: usize, c: char)
    requires
        is_char_boundary(bytes(old(s)@), idx as int),
    ensures
        bytes(final(s)@) == bytes(old(s)@).take(idx as int) + bytes(seq![c]) + bytes(old(s)@).skip(
            idx as int,
        ),
{
    s.insert(idx, c);
}

/// Removes the character that starts at byte `idx` with `String::remove`.
///
/// Trusted: std documents that the character whose bytes start at `idx`
/// is returned and its bytes taken out, and that the call panics unless
/// `idx` is a character boundary before the end, which `requires` rules out.
#[verifier::external_body]
pub(crate) fn remove_char(s: &mut String, idx: usize) -> (c: char)
    requires
        idx < bytes(old(s)@).len(),
        is_char_boundary(bytes(old(s)@), idx as int),
    ensures
        bytes(old(s)@).subrange(idx as int, idx + bytes(seq![c]).len()) == bytes(seq![c]),
        bytes(final(s)@) == bytes(old(s)@).take(idx as int) + bytes(old(s)@).skip(
            idx + bytes(seq![c]).len(),
        ),
{
    s.remove(idx)
}

/// The length of `s` in bytes, with `str::len`.
///
/// Trusted: std documents the result as the length of `s` in bytes, that
/// is of its UTF-8 encoding; a text's bytes always fit in `usize`.
#[verifier::external_body]
pub(crate) fn byte_len(s: &str) -> (n: usize)
    ensures
        n == bytes(s@).len(),
{
    s.len()
}

/// The keys that the wizard reacts to.
#[derive(Clone, Copy, PartialEq, Eq, Structural, Debug)]
pub enum Key {
    Esc,
    Char(char),
    Backspace,
    Left,
    Right,
    Tab,
    BackTab,
    Up,
    Down,
    Enter,
    F(u8),
    Other,
}

/// The short notices the wizard shows.
#[derive(Clone, Copy, PartialEq, Eq, Structural, Debug)]
pub enum Notice {
    Executing,
    Cancelled,
    Completed,
    DraftSaved,
    SuggestionsReceived,
    SuggestionsFailed,
}

impl Notice {
    /// The text of the notice.
    pub fn text(self) -> (r: &'static str)
        ensures
            r@ == notice_text(self),
    {
        match self {
            Notice::Executing => "Ejecutando...",
            Notice::Cancelled => "Ejecución cancelada",
            Notice::Completed => "Ejecución completada",
            Notice::DraftSaved => "Borrador guardado (simulado)",
            Notice::SuggestionsReceived => "Sugerencias recibidas",
            Notice::SuggestionsFailed => "Error al obtener sugerencias",
        }
    }
}

/// The text of each notice.
pub open spec fn notice_text(n: Notice) -> Seq<char> {
    match n {
        Notice::Executing => "Ejecutando..."@,
        Notice::Cancelled => "Ejecución cancelada"@,
        Notice::Completed => "Ejecución completada"@,
        Notice::DraftSaved => "Borrador guardado (simulado)"@,
        Notice::SuggestionsReceived => "Sugerencias recibidas"@,
        Notice::SuggestionsFailed => "Error al obtener sugerencias"@,
    }
}

/// What the program around the wizard has to do after a key.
#[derive(Clone, Copy, PartialEq, Eq, Structural, Debug)]
pub enum Effect {
    /// Nothing more.
    Nothing,
    /// Leave the wizard.
    Quit,
    /// Show a notice.
    Show(Notice),
    /// Show why the text of the field was refused.
    Refused(FieldError),
    /// The date field got the focus: its text may be written anew as a date.
    DateFocused,
    /// Ask for a rationale for the form, as request `req_id`.
    Infer(u64),
}

/// The state of the wizard between keys.
pub struct Wizard {
    pub form: Form,
    pub editing: bool,
    pub current_field: usize,
    /// A byte position in `editing_text`.
    pub edit_pos: usize,
    pub editing_text: String,
    pub show_confirm: bool,
    pub executing: bool,
    pub exec_result: Option<String>,
    pub suggestion_loading: bool,
    pub suggestion_req_id: u64,
    pub suggestions: Vec<Json>,
    pub suggestion_error: Option<String>,
}

impl Wizard {
    /// A wizard on an empty form, not editing, on the first field.
    pub fn new() -> (w: Wizard)
        ensures
            forall|i: usize| #[trigger] field_text(w.form, i) == Seq::<char>::empty(),
            !w.editing && w.current_field == 0 && w.edit_pos == 0 && w.editing_text@.len() == 0,
            !w.show_confirm && !w.executing && w.exec_result is None,
            !w.suggestion_loading && w.suggestion_req_id == 0 && w.suggestions@.len() == 0,
            w.suggestion_error is None,
    {
        Wizard {
            form: Form::new(),
            editing: false,
            current_field: 0,
            edit_pos: 0,
            editing_text: String::new(),
            show_confirm: false,
            executing: false,
            exec_result: None,
            suggestion_loading: false,
            suggestion_req_id: 0,
            suggestions: Vec::new(),
            suggestion_error: None,
        }
    }
}

/// The form reads the same, field by field.
pub open spec fn same_form(a: Form, b: Form) -> bool {
    forall|i: usize|
        #![trigger field_text(a, i)]
        #![trigger field_text(b, i)]
        field_text(a, i) == field_text(b, i)
}

/// The form after field `idx` was set to `text`.
pub open spec fn form_set(a: Form, b: Form, idx: usize, text: Seq<char>) -> bool {
    forall|i: usize|
        #[trigger] field_text(b, i) == if i == idx && idx < FIELD_COUNT {
            text
        } else {
            field_text(a, i)
        }
}

/// The suggestion state is as it was.
pub open spec fn suggestions_kept(a: Wizard, b: Wizard) -> bool {
    &&& b.suggestion_loading == a.suggestion_loading
    &&& b.suggestion_req_id == a.suggestion_req_id
    &&& b.suggestions@ == a.suggestions@
    &&& crate::model::opt_view(b.suggestion_error) == crate::model::opt_view(a.suggestion_error)
}

/// The confirmation and execution state is as it was.
pub open spec fn run_kept(a: Wizard, b: Wizard) -> bool {
    &&& b.show_confirm == a.show_confirm
    &&& b.executing == a.executing
    &&& crate::model::opt_view(b.exec_result) == crate::model::opt_view(a.exec_result)
}

/// Everything but the editing state is as it was.
pub open spec fn rest_kept(a: Wizard, b: Wizard) -> bool {
    same_form(a.form, b.form) && run_kept(a, b) && suggestions_kept(a, b)
}

/// The editing state is as it was.
pub open spec fn editing_kept(a: Wizard, b: Wizard) -> bool {
    &&& b.editing == a.editing
    &&& b.current_field == a.current_field
    &&& b.edit_pos == a.edit_pos
    &&& b.editing_text@ == a.editing_text@
}

/// `b` edits field `f`, its text loaded, the cursor at its end.
pub open spec fn focused_on(b: Wizard, f: usize) -> bool {
    &&& b.current_field == f
    &&& b.editing_text@ == field_text(b.form, f)
    &&& b.edit_pos == bytes(b.editing_text@).len()
}

/// The key does not ask `String` to cut inside a character: typing into
/// the text, or deleting before the cursor, at a byte that is no character
/// boundary.
pub open spec fn key_safe(w: Wizard, key: Key) -> bool {
    if w.show_confirm || w.executing {
        true
    } else {
        match key {
            Key::Char(_) => w.editing && w.edit_pos <= bytes(w.editing_text@).len() ==> is_char_boundary(
                bytes(w.editing_text@),
                w.edit_pos as int,
            ),
            Key::Backspace => w.editing && 0 < w.edit_pos <= bytes(w.editing_text@).len() ==> is_char_boundary(
                bytes(w.editing_text@),
                w.edit_pos - 1,
            ),
            _ => true,
        }
    }
}

/// Whether the key can be handled (see `key_safe`).
pub fn key_is_safe(w: &Wizard, key: Key) -> (r: bool)
    ensures
        r == key_safe(*w, key),
{
    if w.show_confirm || w.executing {
        return true;
    }
    let len = byte_len(w.editing_text.as_str());
    match key {
        Key::Char(_) => !(w.editing && w.edit_pos <= len) || w.editing_text.as_str().is_char_boundary(
            w.edit_pos,
        ),
        Key::Backspace => !(w.editing && 0 < w.edit_pos && w.edit_pos <= len)
            || w.editing_text.as_str().is_char_boundary(w.edit_pos - 1),
        _ => true,
    }
}

/// The field that a move from field `f` goes to: on for `Tab`, `Down` and
/// `Enter`, back for `BackTab` and `Up`.
pub open spec fn moved_to(f: usize, key: Key) -> usize {
    if key == Key::BackTab {
        ((f + FIELD_COUNT - 1) % (FIELD_COUNT as int)) as usize
    } else if key == Key::Up {
        if f == 0 {
            (FIELD_COUNT - 1) as usize
        } else {
            (f - 1) as usize
        }
    } else {
        ((f + 1) % (FIELD_COUNT as int)) as usize
    }
}

/// What a key does to the wizard, and what it asks of the program around
/// it; `date_read` tells whether the wizard's date reader understood the
/// text being edited.
pub open spec fn key_step(a: Wizard, key: Key, date_read: bool, b: Wizard, e: Effect) -> bool {
    if a.show_confirm {
        &&& same_form(a.form, b.form) && editing_kept(a, b) && suggestions_kept(a, b)
        &&& match key {
            Key::Char('y') => !b.show_confirm && b.executing && b.exec_result is None && e == Effect::Show(
                Notice::Executing,
            ),
            Key::Char('n') | Key::Esc => !b.show_confirm && b.executing == a.executing
                && crate::model::opt_view(b.exec_result) == crate::model::opt_view(a.exec_result) && e
                == Effect::Show(Notice::Cancelled),
            _ => run_kept(a, b) && e == Effect::Nothing,
        }
    } else if a.executing {
        &&& same_form(a.form, b.form) && editing_kept(a, b) && suggestions_kept(a, b)
        &&& !b.executing && b.show_confirm == a.show_confirm
        &&& crate::model::opt_view(b.exec_result) == Some("Resultado: OK (simulado)"@)
        &&& e == Effect::Show(Notice::Completed)
    } else {
        match key {
            Key::Esc => rest_kept(a, b) && if a.editing {
                !b.editing && b.editing_text@.len() == 0 && b.edit_pos == 0 && b.current_field
                    == a.current_field && e == Effect::Nothing
            } else {
                editing_kept(a, b) && e == Effect::Quit
            },
            Key::Char(c) => rest_kept(a, b) && e == Effect::Nothing && b.editing && b.current_field
                == a.current_field && if !a.editing {
                &&& bytes(b.editing_text@) == bytes(seq![c]) + bytes(field_text(a.form, a.current_field))
                &&& b.edit_pos == 1
            } else if a.edit_pos <= bytes(a.editing_text@).len() {
                &&& bytes(b.editing_text@) == bytes(a.editing_text@).take(a.edit_pos as int) + bytes(seq![c])
                    + bytes(a.editing_text@).skip(a.edit_pos as int)
                &&& b.edit_pos == a.edit_pos.saturating_add(1)
            } else {
                &&& b.editing_text@ == a.editing_text@.push(c)
                &&& b.edit_pos == bytes(b.editing_text@).len()
            },
            Key::Backspace => rest_kept(a, b) && e == Effect::Nothing && b.editing == a.editing
                && b.current_field == a.current_field && if a.editing && 0 < a.edit_pos <= bytes(
                a.editing_text@,
            ).len() {
                &&& b.edit_pos == a.edit_pos - 1
                &&& exists|c: char|
                    #![trigger bytes(seq![c])]
                    bytes(a.editing_text@).subrange(b.edit_pos as int, b.edit_pos + bytes(seq![c]).len())
                        == bytes(seq![c]) && bytes(b.editing_text@) == bytes(a.editing_text@).take(
                        b.edit_pos as int,
                    ) + bytes(a.editing_text@).skip(b.edit_pos + bytes(seq![c]).len())
            } else {
                b.edit_pos == a.edit_pos && b.editing_text@ == a.editing_text@
            },
            Key::Left => rest_kept(a, b) && e == Effect::Nothing && b.editing == a.editing
                && b.current_field == a.current_field && b.editing_text@ == a.editing_text@ && b.edit_pos
                == if a.editing && a.edit_pos > 0 {
                (a.edit_pos - 1) as usize
            } else {
                a.edit_pos
            },
            Key::Right => rest_kept(a, b) && e == Effect::Nothing && b.editing == a.editing
                && b.current_field == a.current_field && b.editing_text@ == a.editing_text@ && b.edit_pos
                == if a.editing && a.edit_pos < bytes(a.editing_text@).len() {
                (a.edit_pos + 1) as usize
            } else {
                a.edit_pos
            },
            Key::Up | Key::Down => rest_kept(a, b) && e == Effect::Nothing && b.editing == a.editing && if a.editing {
                focused_on(b, moved_to(a.current_field, key))
            } else {
                editing_kept(a, b)
            },
            Key::Tab | Key::BackTab | Key::Enter => if !a.editing {
                rest_kept(a, b) && editing_kept(a, b) && e == Effect::Nothing
            } else {
                match field_verdict(a.current_field, a.editing_text@, date_read) {
                    Err(fe) => rest_kept(a, b) && editing_kept(a, b) && e == Effect::Refused(fe),
                    Ok(_) => {
                        let f = moved_to(a.current_field, key);
                        &&& form_set(a.form, b.form, a.current_field, a.editing_text@)
                        &&& b.editing
                        &&& focused_on(b, f)
                        &&& run_kept(a, b)
                        &&& b.suggestions@ == a.suggestions@
                        &&& crate::model::opt_view(b.suggestion_error) == crate::model::opt_view(a.suggestion_error)
                        &&& if key == Key::Enter && f == 7 {
                            &&& b.suggestion_loading
                            &&& b.suggestion_req_id == a.suggestion_req_id.wrapping_add(1)
                            &&& e == Effect::Infer(b.suggestion_req_id)
                        } else {
                            &&& b.suggestion_loading == a.suggestion_loading
                            &&& b.suggestion_req_id == a.suggestion_req_id
                            &&& e == if key == Key::Enter && f == 2 {
                                Effect::DateFocused
                            } else {
                                Effect::Nothing
                            }
                        }
                    },
                }
            },
            Key::F(n) => same_form(a.form, b.form) && editing_kept(a, b) && suggestions_kept(a, b)
                && b.executing == a.executing && crate::model::opt_view(b.exec_result)
                == crate::model::opt_view(a.exec_result) && if n == 9 {
                b.show_confirm && e == Effect::Nothing
            } else {
                b.show_confirm == a.show_confirm && e == if n == 5 {
                    Effect::Show(Notice::DraftSaved)
                } else {
                    Effect::Nothing
                }
            },
            Key::Other => rest_kept(a, b) && editing_kept(a, b) && e == Effect::Nothing,
        }
    }
}

/// Loads field `f` into the editor, the cursor at its end.
fn focus(w: &mut Wizard, f: usize)
    ensures
        focused_on(*final(w), f),
        same_form(old(w).form, final(w).form),
        final(w).editing == old(w).editing,
        rest_kept(*old(w), *final(w)),
{
    w.current_field = f;
    w.editing_text = w.form.field(f);
    w.edit_pos = byte_len(w.editing_text.as_str());
}

/// Handles one key.
pub fn on_key(w: &mut Wizard, key: Key, date_read: bool) -> (e: Effect)
    requires
        key_safe(*old(w), key),
    ensures
        key_step(*old(w), key, date_read, *final(w), e),
{
    if w.show_confirm {
        match key {
            Key::Char('y') => {
                w.show_confirm = false;
                w.executing = true;
                w.exec_result = None;
                return Effect::Show(Notice::Executing);
            },
            Key::Char('n') | Key::Esc => {
                w.show_confirm = false;
                return Effect::Show(Notice::Cancelled);
            },
            _ => {
                return Effect::Nothing;
            },
        }
    }
    if w.executing {
        w.exec_result = Some(crate::text::owned("Resultado: OK (simulado)"));
        w.executing = false;
        return Effect::Show(Notice::Completed);
    }
    match key {
        Key::Esc => {
            if w.editing {
                w.editing = false;
                w.editing_text = String::new();
                w.edit_pos = 0;
                Effect::Nothing
            } else {
                Effect::Quit
            }
        },
        Key::Char(c) => {
            if w.editing {
                if w.edit_pos <= byte_len(w.editing_text.as_str()) {
                    insert_char(&mut w.editing_text, w.edit_pos, c);
                    w.edit_pos = w.edit_pos.saturating_add(1);
                } else {
                    crate::text::push_char(&mut w.editing_text, c);
                    w.edit_pos = byte_len(w.editing_text.as_str());
                }
            } else {
                w.editing = true;
                w.edit_pos = 0;
                w.editing_text = w.form.field(w.current_field);
                proof {
                    vstd::utf8::encode_utf8_valid_utf8(w.editing_text@);
                    assert(is_char_boundary(bytes(w.editing_text@), 0));
                }
                insert_char(&mut w.editing_text, 0, c);
                proof {
                    assert(bytes(w.editing_text@) =~= bytes(seq![c]) + bytes(field_text(w.form, w.current_field)));
                }
                w.edit_pos = 1;
            }
            Effect::Nothing
        },
        Key::Backspace => {
            if w.editing && w.edit_pos > 0 && w.edit_pos <= byte_len(w.editing_text.as_str()) {
                w.edit_pos = w.edit_pos - 1;
                let removed = remove_char(&mut w.editing_text, w.edit_pos);
                proof {
                    let c = removed;
                    assert(bytes(seq![c]) == bytes(seq![removed]));
                }
            }
            Effect::Nothing
        },
        Key::Left => {
            if w.editing && w.edit_pos > 0 {
                w.edit_pos = w.edit_pos - 1;
            }
            Effect::Nothing
        },
        Key::Right => {
            if w.editing && w.edit_pos < byte_len(w.editing_text.as_str()) {
                w.edit_pos = w.edit_pos + 1;
            }
            Effect::Nothing
        },
        Key::Up => {
            if w.editing {
                let f = if w.current_field == 0 {
                    FIELD_COUNT - 1
                } else {
                    w.current_field - 1
                };
                focus(w, f);
            }
            Effect::Nothing
        },
        Key::Down => {
            if w.editing {
                let f = (w.current_field % FIELD_COUNT + 1) % FIELD_COUNT;
                focus(w, f);
            }
            Effect::Nothing
        },
        Key::Tab | Key::BackTab | Key::Enter => {
            if !w.editing {
                return Effect::Nothing;
            }
            let current = w.current_field;
            let text = w.editing_text.clone();
            match commit_field(&mut w.form, current, text.as_str(), date_read) {
                Err(fe) => Effect::Refused(fe),
                Ok(()) => {
                    let f = if key == Key::BackTab {
                        previous_field(current)
                    } else {
                        next_field(current)
                    };
                    focus(w, f);
                    w.editing = true;
                    if key == Key::Enter && f == 7 {
                        w.suggestion_loading = true;
                        w.suggestion_req_id = w.suggestion_req_id.wrapping_add(1);
                        Effect::Infer(w.suggestion_req_id)
                    } else if key == Key::Enter && f == 2 {
                        Effect::DateFocused
                    } else {
                        Effect::Nothing
                    }
                },
            }
        },
        Key::F(n) => {
            if n == 9 {
                w.show_confirm = true;
                Effect::Nothing
            } else if n == 5 {
                Effect::Show(Notice::DraftSaved)
            } else {
                Effect::Nothing
            }
        },
        Key::Other => Effect::Nothing,
    }
}

/// Takes in the answer `result` of rationale request `req_id`; an answer to
/// an older request is dropped.
pub fn on_suggestions(w: &mut Wizard, req_id: u64, result: Result<Vec<Json>, String>) -> (e: Effect)
    ensures
        same_form(old(w).form, final(w).form),
        editing_kept(*old(w), *final(w)),
        run_kept(*old(w), *final(w)),
        final(w).suggestion_req_id == old(w).suggestion_req_id,
        req_id != old(w).suggestion_req_id ==> suggestions_kept(*old(w), *final(w)) && e == Effect::Nothing,
        req_id == old(w).suggestion_req_id ==> !final(w).suggestion_loading && match result {
            Ok(list) => final(w).suggestions@ == list@ && crate::model::opt_view(final(w).suggestion_error)
                == crate::model::opt_view(old(w).suggestion_error) && e == Effect::Show(
                Notice::SuggestionsReceived,
            ),
            Err(msg) => final(w).suggestions@ == old(w).suggestions@ && crate::model::opt_view(
                final(w).suggestion_error,
            ) == Some(msg@) && e == Effect::Show(Notice::SuggestionsFailed),
        },
{
    if req_id != w.suggestion_req_id {
        return Effect::Nothing;
    }
    match result {
        Ok(list) => {
            w.suggestions = list;
            w.suggestion_loading = false;
            Effect::Show(Notice::SuggestionsReceived)
        },
        Err(msg) => {
            w.suggestion_error = Some(msg);
            w.suggestion_loading = false;
            Effect::Show(Notice::SuggestionsFailed)
        },
    }
}

} // verus!
