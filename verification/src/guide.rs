use vstd::prelude::*;
use crate::text::{push_text, text_of, trim_seq, trimmed_chars};

verus! {

/// What `str::to_lowercase` makes of a text: its Unicode lower-case form
/// (which may be longer than the text, and which treats a final Greek sigma
/// by its context).
pub uninterp spec fn unicode_lower(s: Seq<char>) -> Seq<char>;

/// Lower-cases `s` with `str::to_lowercase`.
///
/// Trusted: the result is the Unicode lower-case form of `s`, named by
/// `unicode_lower`; the mapping tables are not restated here.
#[verifier::external_body]
pub(crate) fn to_lowercase(s: &str) -> (r: String)
    ensures
        r@ == unicode_lower(s@),
{
    s.to_lowercase()
}

/// The required options of each kind of record.
pub open spec fn create_variants() -> Seq<char> {
    "SKILL CREATE (TODAS LAS VARIANTES):\n  decision   -> requeridos: --title --rationale\n  fact       -> requerido : --observation\n  assumption -> requerido : --assumption-statement\n  meeting    -> requeridos: --title --date\n  action     -> requerido : --title\n  person     -> requerido : --name"@
}

/// The optional ontology options.
pub open spec fn advanced_fields() -> Seq<char> {
    "CAMPOS OPCIONALES DE ONTOLOGIA:\n  --classification foundational|tactical|observational\n  --related-files a,b,c\n  --evidence-json '{\"type\":\"issue\",\"reference\":\"#123\"}' (repetible)\n  --outcomes-json '{\"status\":\"success\"}' (repetible)\n  --provenance-json '{\"source_tool\":\"cli\"}'\n  aliases: --project == --domain, --body == --description"@
}

/// The general guide.
pub open spec fn general_guide() -> Seq<char> {
    "GUIA GENERAL\n\nComandos principales:\n  - create <tipo>\n  - link\n  - validate\n  - show/list/links/neighbors/search/validate-graph/path\n\n"@
        + create_variants() + "\n\nContraejemplos:\n  - create decision sin --title o sin --rationale\n  - create action --status invalid\n\n"@
        + advanced_fields()
}

/// The guide of one domain.
pub open spec fn domain_guide(skill: Seq<char>) -> Seq<char> {
    "GUIA SKILL: "@ + skill + "\n\nUsa este dominio para centrar tus registros:\n  --domain "@ + skill + "\n\n"@
        + create_variants() + "\n\n"@ + advanced_fields()
}

fn push_create_variants(s: &mut String)
    ensures
        final(s)@ == old(s)@ + create_variants(),
{
    push_text(
        s,
        "SKILL CREATE (TODAS LAS VARIANTES):\n  decision   -> requeridos: --title --rationale\n  fact       -> requerido : --observation\n  assumption -> requerido : --assumption-statement\n  meeting    -> requeridos: --title --date\n  action     -> requerido : --title\n  person     -> requerido : --name",
    );
}

fn push_advanced_fields(s: &mut String)
    ensures
        final(s)@ == old(s)@ + advanced_fields(),
{
    push_text(
        s,
        "CAMPOS OPCIONALES DE ONTOLOGIA:\n  --classification foundational|tactical|observational\n  --related-files a,b,c\n  --evidence-json '{\"type\":\"issue\",\"reference\":\"#123\"}' (repetible)\n  --outcomes-json '{\"status\":\"success\"}' (repetible)\n  --provenance-json '{\"source_tool\":\"cli\"}'\n  aliases: --project == --domain, --body == --description",
    );
}

/// The guide for `skill`, given `normalized`, the trimmed lower-case form
/// of `skill`: the general guide when it reads `general`, the guide of the
/// domain `skill` otherwise.
pub fn guide_text(normalized: &str, skill: &str) -> (r: String)
    ensures
        r@ == if normalized@ == "general"@ {
            general_guide()
        } else {
            domain_guide(skill@)
        },
{
    let mut r = String::new();
    if crate::text::str_eq(normalized, "general") {
        push_text(
            &mut r,
            "GUIA GENERAL\n\nComandos principales:\n  - create <tipo>\n  - link\n  - validate\n  - show/list/links/neighbors/search/validate-graph/path\n\n",
        );
        push_create_variants(&mut r);
        push_text(
            &mut r,
            "\n\nContraejemplos:\n  - create decision sin --title o sin --rationale\n  - create action --status invalid\n\n",
        );
        push_advanced_fields(&mut r);
    } else {
        push_text(&mut r, "GUIA SKILL: ");
        push_text(&mut r, skill);
        push_text(&mut r, "\n\nUsa este dominio para centrar tus registros:\n  --domain ");
        push_text(&mut r, skill);
        push_text(&mut r, "\n\n");
        push_create_variants(&mut r);
        push_text(&mut r, "\n\n");
        push_advanced_fields(&mut r);
    }
    r
}

/// The usage guide that `--skill` prints: the general one when the skill
/// reads `general` once trimmed and lower-cased, else the guide of that
/// domain.
pub fn skill_guide(skill: &str) -> (r: String)
    ensures
        r@ == if unicode_lower(trim_seq(skill@)) == "general"@ {
            general_guide()
        } else {
            domain_guide(skill@)
        },
{
    let t = trimmed_chars(skill);
    let trimmed = text_of(&t, 0, t.len());
    assert(t@.subrange(0, t.len() as int) =~= t@);
    let normalized = to_lowercase(trimmed.as_str());
    guide_text(normalized.as_str(), skill)
}

} // verus!
