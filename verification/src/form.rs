use vstd::prelude::*;
use crate::text::{is_blank, is_blank_text, owned};

verus! {

/// The steps of the record wizard, in order.
#[derive(Clone, Copy, PartialEq, Eq, Structural, Debug)]
pub enum Step {
    Identification,
    DateContext,
    Participants,
    Files,
    Content,
    Preview,
}

/// The texts that the wizard gathers.
pub struct Form {
    pub title: String,
    pub domain: String,
    pub date: String,
    pub participants: String,
    pub files: String,
    pub description: String,
    pub tags: String,
    pub rationale: String,
}

/// The number of editable fields of a form.
pub const FIELD_COUNT: usize = 8;

impl Form {
    /// A form with every field empty.
    pub fn new() -> (f: Form)
        ensures
            forall|i: usize| i < FIELD_COUNT ==> (#[trigger] field_text(f, i)) == Seq::<char>::empty(),
    {
        Form {
            title: String::new(),
            domain: String::new(),
            date: String::new(),
            participants: String::new(),
            files: String::new(),
            description: String::new(),
            tags: String::new(),
            rationale: String::new(),
        }
    }

    /// The text of field `idx` (the empty text past the last field).
    pub fn field(&self, idx: usize) -> (r: String)
        ensures
            r@ == field_text(*self, idx),
    {
        match idx {
            0 => self.title.clone(),
            1 => self.domain.clone(),
            2 => self.date.clone(),
            3 => self.participants.clone(),
            4 => self.files.clone(),
            5 => self.tags.clone(),
            6 => self.description.clone(),
            7 => self.rationale.clone(),
            _ => String::new(),
        }
    }

    /// Sets field `idx` to `text`; an index past the last field changes nothing.
    pub fn set_field(&mut self, idx: usize, text: &str)
        ensures
            forall|i: usize|
                #![trigger field_text(*final(self), i)]
                field_text(*final(self), i) == if i == idx && idx < FIELD_COUNT {
                    text@
                } else {
                    field_text(*old(self), i)
                },
    {
        match idx {
            0 => self.title = owned(text),
            1 => self.domain = owned(text),
            2 => self.date = owned(text),
            3 => self.participants = owned(text),
            4 => self.files = owned(text),
            5 => self.tags = owned(text),
            6 => self.description = owned(text),
            7 => self.rationale = owned(text),
            _ => {},
        }
    }
}

/// The fields in the order the wizard visits them: title, domain, date,
/// participants, files, tags, description, rationale.
pub open spec fn field_text(f: Form, idx: usize) -> Seq<char> {
    if idx == 0 {
        f.title@
    } else if idx == 1 {
        f.domain@
    } else if idx == 2 {
        f.date@
    } else if idx == 3 {
        f.participants@
    } else if idx == 4 {
        f.files@
    } else if idx == 5 {
        f.tags@
    } else if idx == 6 {
        f.description@
    } else if idx == 7 {
        f.rationale@
    } else {
        Seq::empty()
    }
}

/// The number of steps of the wizard.
pub fn step_count() -> (n: usize)
    ensures
        n == 6,
{
    6
}

/// The heading of each step.
pub open spec fn step_heading(s: Step) -> Seq<char> {
    match s {
        Step::Identification => "Identificación"@,
        Step::DateContext => "Fecha & Contexto"@,
        Step::Participants => "Participantes"@,
        Step::Files => "Archivos"@,
        Step::Content => "Contenido"@,
        Step::Preview => "Preview"@,
    }
}

/// The heading of step `s`.
pub fn step_title(s: Step) -> (r: &'static str)
    ensures
        r@ == step_heading(s),
{
    match s {
        Step::Identification => "Identificación",
        Step::DateContext => "Fecha & Contexto",
        Step::Participants => "Participantes",
        Step::Files => "Archivos",
        Step::Content => "Contenido",
        Step::Preview => "Preview",
    }
}

/// The status line of a field: being edited, or done.
pub fn status_text(editing: bool) -> (r: &'static str)
    ensures
        r@ == if editing {
            "● En edición"@
        } else {
            "✓ Listo"@
        },
{
    if editing {
        "● En edición"
    } else {
        "✓ Listo"
    }
}

/// Why the text of a field was refused.
#[derive(Clone, Copy, PartialEq, Eq, Structural, Debug)]
pub enum FieldError {
    /// The title is blank.
    TitleRequired,
    /// The date is neither a date nor one of the words for a day.
    BadDate,
}

impl FieldError {
    /// The message shown for the error.
    pub fn message(self) -> (r: &'static str)
        ensures
            r@ == match self {
                FieldError::TitleRequired => "Title is required"@,
                FieldError::BadDate => "Date must be YYYY-MM-DD or textual (hoy/ayer/antes de ayer/la semana pasada/el mes pasado/hace N dias)"@,
            },
    {
        match self {
            FieldError::TitleRequired => "Title is required",
            FieldError::BadDate => "Date must be YYYY-MM-DD or textual (hoy/ayer/antes de ayer/la semana pasada/el mes pasado/hace N dias)",
        }
    }
}

/// What the check of field `idx` holding `val` says, where `date_read`
/// tells whether the wizard's date reader understood `val`: the title
/// must not be blank; the date may be blank, else it must be understood;
/// any other field is accepted.
pub open spec fn field_verdict(idx: usize, val: Seq<char>, date_read: bool) -> Result<(), FieldError> {
    if idx == 0 {
        if is_blank(val) {
            Err(FieldError::TitleRequired)
        } else {
            Ok(())
        }
    } else if idx == 2 {
        if is_blank(val) || date_read {
            Ok(())
        } else {
            Err(FieldError::BadDate)
        }
    } else {
        Ok(())
    }
}

/// Checks the text `val` of field `idx`; `date_read` tells whether the
/// wizard's date reader understood `val`.
pub fn validate_field(idx: usize, val: &str, date_read: bool) -> (r: Result<(), FieldError>)
    ensures
        r == field_verdict(idx, val@, date_read),
{
    if idx == 0 {
        if is_blank_text(val) {
            Err(FieldError::TitleRequired)
        } else {
            Ok(())
        }
    } else if idx == 2 {
        if is_blank_text(val) || date_read {
            Ok(())
        } else {
            Err(FieldError::BadDate)
        }
    } else {
        Ok(())
    }
}

/// Stores the text being edited into field `idx` once it passes the check;
/// a refused text leaves the form as it was.
pub fn commit_field(form: &mut Form, idx: usize, text: &str, date_read: bool) -> (r: Result<(), FieldError>)
    ensures
        r == field_verdict(idx, text@, date_read),
        r is Ok ==> forall|i: usize|
            #![trigger field_text(*final(form), i)]
            field_text(*final(form), i) == if i == idx && idx < FIELD_COUNT {
                text@
            } else {
                field_text(*old(form), i)
            },
        r is Err ==> forall|i: usize| #[trigger] field_text(*final(form), i) == field_text(*old(form), i),
{
    match validate_field(idx, text, date_read) {
        Ok(()) => {
            form.set_field(idx, text);
            Ok(())
        },
        Err(e) => Err(e),
    }
}

/// The field after `idx`, wrapping round after the last.
pub fn next_field(idx: usize) -> (r: usize)
    ensures
        r == (idx + 1) % (FIELD_COUNT as int),
{
    (idx % FIELD_COUNT + 1) % FIELD_COUNT
}

/// The field before `idx`, wrapping round before the first.
pub fn previous_field(idx: usize) -> (r: usize)
    ensures
        r == (idx + FIELD_COUNT - 1) % (FIELD_COUNT as int),
{
    (idx % FIELD_COUNT + FIELD_COUNT - 1) % FIELD_COUNT
}

} // verus!
