use vstd::prelude::*;
use crate::commands::{LinkError, LookupError};
use crate::inference::{decimal, push_decimal};
use crate::records::{CreateError, CreateFailure, JsonFlag};
use crate::search::{join, join_texts, QueryError};
use crate::text::push_text;
use crate::validation::{FieldPath, PathView, Problem, ValidationError};
use crate::vocabulary::{vocabulary, vocabulary_words, Vocabulary};

verus! {

/// How a place in a record is written: `base`, `[index]`, `.sub`.
pub open spec fn path_text(p: PathView) -> Seq<char> {
    p.base + (match p.index {
        Some(i) => "["@ + decimal(i as nat) + "]"@,
        None => seq![],
    }) + (match p.sub {
        Some(s) => "."@ + s,
        None => seq![],
    })
}

fn push_path(r: &mut String, p: &FieldPath)
    ensures
        final(r)@ == old(r)@ + path_text(p@),
{
    push_text(r, p.base.as_str());
    let ghost a = r@;
    match p.index {
        Some(i) => {
            push_text(r, "[");
            push_decimal(r, i);
            push_text(r, "]");
        },
        None => {
            assert(r@ =~= a + seq![]);
        },
    }
    let ghost b = r@;
    match &p.sub {
        Some(s) => {
            push_text(r, ".");
            push_text(r, s.as_str());
        },
        None => {
            assert(r@ =~= b + seq![]);
        },
    }
}

/// The words of a list, written one after the other with `, ` between.
pub open spec fn allowed_text(v: Vocabulary) -> Seq<char> {
    join(vocabulary(v), ", "@)
}

fn push_allowed(r: &mut String, v: Vocabulary)
    ensures
        final(r)@ == old(r)@ + allowed_text(v),
{
    let words = vocabulary_words(v);
    let mut owned_words: Vec<String> = Vec::new();
    let mut i: usize = 0;
    while i < words.len()
        invariant
            i <= words.len(),
            words.len() == vocabulary(v).len(),
            forall|k: int| 0 <= k < words.len() ==> (#[trigger] words@[k])@ == vocabulary(v)[k],
            crate::model::texts_view(owned_words@) == vocabulary(v).take(i as int),
        decreases words.len() - i,
    {
        let ghost before = crate::model::texts_view(owned_words@);
        let w = crate::text::owned(words[i]);
        owned_words.push(w);
        assert(words@[i as int]@ == vocabulary(v)[i as int]);
        assert(crate::model::texts_view(owned_words@) =~= before.push(vocabulary(v)[i as int]));
        assert(vocabulary(v).take(i + 1) =~= vocabulary(v).take(i as int).push(vocabulary(v)[i as int]));
        i += 1;
    }
    assert(vocabulary(v).take(words.len() as int) =~= vocabulary(v));
    let joined = join_texts(&owned_words, ", ");
    push_text(r, joined.as_str());
}

/// The message of a validation problem.
pub open spec fn problem_text(p: Problem) -> Seq<char> {
    match p {
        Problem::MissingField { key } => "campo requerido faltante o vacio: "@ + key,
        Problem::InvalidDateTime { field, value } => path_text(field) + " debe ser ISO-8601 (RFC3339): "@
            + value,
        Problem::InvalidDateOrDateTime { field, value } => path_text(field)
            + " debe ser YYYY-MM-DD o ISO-8601: "@ + value,
        Problem::ConfidenceNotNumber => "confidence debe ser numerico entre 0.0 y 1.0"@,
        Problem::ConfidenceOutOfRange => "confidence debe estar entre 0.0 y 1.0"@,
        Problem::NotAllowed { field, value, allowed } => path_text(field) + " invalido: "@ + value
            + ". Permitidos: "@ + allowed_text(allowed),
        Problem::NotStringArray { key } => key + " debe ser un arreglo de strings"@,
        Problem::NotObjectArray { key } => key + " debe ser un arreglo de objetos"@,
        Problem::NotObject { field } => path_text(field) + " debe ser un objeto"@,
        Problem::Required { field } => path_text(field) + " es requerido"@,
        Problem::NotString { field } => path_text(field) + " debe ser string"@,
        Problem::NotNumber { field } => path_text(field) + " debe ser numerico"@,
        Problem::Negative { field } => path_text(field) + " debe ser >= 0"@,
        Problem::UnsupportedType { found } => "type no soportado: "@ + found,
    }
}

impl ValidationError {
    /// The message that tells the user what is wrong.
    pub fn message(&self) -> (r: String)
        ensures
            r@ == problem_text(self@),
    {
        let mut r = String::new();
        match self {
            ValidationError::MissingField { key } => {
                push_text(&mut r, "campo requerido faltante o vacio: ");
                push_text(&mut r, key.as_str());
            },
            ValidationError::InvalidDateTime { field, value } => {
                push_path(&mut r, field);
                push_text(&mut r, " debe ser ISO-8601 (RFC3339): ");
                push_text(&mut r, value.as_str());
            },
            ValidationError::InvalidDateOrDateTime { field, value } => {
                push_path(&mut r, field);
                push_text(&mut r, " debe ser YYYY-MM-DD o ISO-8601: ");
                push_text(&mut r, value.as_str());
            },
            ValidationError::ConfidenceNotNumber => {
                push_text(&mut r, "confidence debe ser numerico entre 0.0 y 1.0");
            },
            ValidationError::ConfidenceOutOfRange => {
                push_text(&mut r, "confidence debe estar entre 0.0 y 1.0");
            },
            ValidationError::NotAllowed { field, value, allowed } => {
                push_path(&mut r, field);
                push_text(&mut r, " invalido: ");
                push_text(&mut r, value.as_str());
                push_text(&mut r, ". Permitidos: ");
                push_allowed(&mut r, *allowed);
            },
            ValidationError::NotStringArray { key } => {
                push_text(&mut r, key.as_str());
                push_text(&mut r, " debe ser un arreglo de strings");
            },
            ValidationError::NotObjectArray { key } => {
                push_text(&mut r, key.as_str());
                push_text(&mut r, " debe ser un arreglo de objetos");
            },
            ValidationError::NotObject { field } => {
                push_path(&mut r, field);
                push_text(&mut r, " debe ser un objeto");
            },
            ValidationError::Required { field } => {
                push_path(&mut r, field);
                push_text(&mut r, " es requerido");
            },
            ValidationError::NotString { field } => {
                push_path(&mut r, field);
                push_text(&mut r, " debe ser string");
            },
            ValidationError::NotNumber { field } => {
                push_path(&mut r, field);
                push_text(&mut r, " debe ser numerico");
            },
            ValidationError::Negative { field } => {
                push_path(&mut r, field);
                push_text(&mut r, " debe ser >= 0");
            },
            ValidationError::UnsupportedType { found } => {
                push_text(&mut r, "type no soportado: ");
                push_text(&mut r, found.as_str());
            },
        }
        r
    }
}

/// The flag of a JSON option, as written on the command line.
pub open spec fn flag_words(f: JsonFlag) -> Seq<char> {
    match f {
        JsonFlag::Evidence => "--evidence-json"@,
        JsonFlag::Outcomes => "--outcomes-json"@,
        JsonFlag::Provenance => "--provenance-json"@,
        JsonFlag::Outcome => "--outcome-json"@,
    }
}

/// The message of a refused creation.
pub open spec fn create_text(f: CreateFailure) -> Seq<char> {
    match f {
        CreateFailure::BadJsonArgument { flag, raw } => flag_words(flag) + " invalido, se esperaba JSON: "@
            + raw,
        CreateFailure::Rejected(p) => problem_text(p),
        CreateFailure::MissingId => "registro sin id"@,
    }
}

impl CreateError {
    /// The message that tells the user why the record was not made.
    pub fn message(&self) -> (r: String)
        ensures
            r@ == create_text(self@),
    {
        match self {
            CreateError::BadJsonArgument { flag, raw } => {
                let mut r = String::new();
                push_text(&mut r, flag.flag_text());
                push_text(&mut r, " invalido, se esperaba JSON: ");
                push_text(&mut r, raw.as_str());
                r
            },
            CreateError::Rejected(e) => e.message(),
            CreateError::MissingId => crate::text::owned("registro sin id"),
        }
    }
}

impl LinkError {
    /// The message that tells the user why the link was not added.
    pub fn message(&self) -> (r: String)
        ensures
            match self {
                LinkError::Rejected(e) => r@ == problem_text(e@),
                LinkError::StrengthOutOfRange => r@ == "strength debe estar entre 0.0 y 1.0"@,
                LinkError::NotObject => r@ == "registro origen no es un objeto JSON"@,
                LinkError::LinksNotArray => r@ == "campo links no es un arreglo"@,
            },
    {
        match self {
            LinkError::Rejected(e) => e.message(),
            LinkError::StrengthOutOfRange => crate::text::owned("strength debe estar entre 0.0 y 1.0"),
            LinkError::NotObject => crate::text::owned("registro origen no es un objeto JSON"),
            LinkError::LinksNotArray => crate::text::owned("campo links no es un arreglo"),
        }
    }
}

impl QueryError {
    /// The message that tells the user why the query was refused.
    pub fn message(&self) -> (r: String)
        ensures
            match self {
                QueryError::EmptyQuery => r@ == "--query no puede estar vacio"@,
                QueryError::MissingEndpoint => r@ == "debes indicar --from o --to para consultar links"@,
                QueryError::DepthOutOfRange => r@ == "--depth debe estar entre 1 y 5"@,
                QueryError::MaxDepthOutOfRange => r@ == "--max-depth debe estar entre 1 y 20"@,
                QueryError::UnknownFrom(id) => r@ == "id --from no encontrado: "@ + id@,
                QueryError::UnknownTo(id) => r@ == "id --to no encontrado: "@ + id@,
                QueryError::InvalidDate(v) => r@ == "fecha invalida: "@ + v@ + ". Usa YYYY-MM-DD o RFC3339"@,
            },
    {
        let mut r = String::new();
        match self {
            QueryError::EmptyQuery => push_text(&mut r, "--query no puede estar vacio"),
            QueryError::MissingEndpoint => push_text(&mut r, "debes indicar --from o --to para consultar links"),
            QueryError::DepthOutOfRange => push_text(&mut r, "--depth debe estar entre 1 y 5"),
            QueryError::MaxDepthOutOfRange => push_text(&mut r, "--max-depth debe estar entre 1 y 20"),
            QueryError::UnknownFrom(id) => {
                push_text(&mut r, "id --from no encontrado: ");
                push_text(&mut r, id.as_str());
            },
            QueryError::UnknownTo(id) => {
                push_text(&mut r, "id --to no encontrado: ");
                push_text(&mut r, id.as_str());
            },
            QueryError::InvalidDate(v) => {
                push_text(&mut r, "fecha invalida: ");
                push_text(&mut r, v.as_str());
                push_text(&mut r, ". Usa YYYY-MM-DD o RFC3339");
            },
        }
        r
    }
}

impl LookupError {
    /// The message that tells the user that the id is not in the index.
    pub fn message(&self) -> (r: String)
        ensures
            match self {
                LookupError::UnknownId(id) => r@ == "id no encontrado en index: "@ + id@,
            },
    {
        let mut r = String::new();
        match self {
            LookupError::UnknownId(id) => {
                push_text(&mut r, "id no encontrado en index: ");
                push_text(&mut r, id.as_str());
            },
        }
        r
    }
}

impl crate::index::EntryError {
    /// The message that tells the user what the record lacks.
    pub fn message(&self) -> (r: String)
        ensures
            match self {
                crate::index::EntryError::MissingId => r@ == "registro sin id"@,
                crate::index::EntryError::MissingType => r@ == "registro sin type"@,
            },
    {
        match self {
            crate::index::EntryError::MissingId => crate::text::owned("registro sin id"),
            crate::index::EntryError::MissingType => crate::text::owned("registro sin type"),
        }
    }
}

} // verus!
