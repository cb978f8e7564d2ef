use knowledge_cli::commands::{
    check_link_args, index_new_record, link_record, new_link, prepare_record, resolve_record_path,
    CreateCommands, LinkArgs, LinkError, ValidateGraphArgs,
};
use knowledge_cli::form::{
    commit_field, next_field, previous_field, status_text, step_count, step_title,
    validate_field, FieldError, Form, Step, FIELD_COUNT,
};
use knowledge_cli::graph::{find_path, report_outcome, validate_graph};
use knowledge_cli::guide::skill_guide;
use knowledge_cli::index::{
    list_entries, parse_datetime_bound, record_file_name, sanitize_id_for_filename,
    upsert_index_entry, ListArgs,
};
use knowledge_cli::inference::{
    after_agent_end, after_followup, agent_prompt, assistant_text, fallback_reply, keywords,
    rationale_prompt, reply_accepted, scan_text, strip_close_protocol, FirstVerdict,
};
use knowledge_cli::json::{JNum, Json};
use knowledge_cli::model::{GraphEdge, IndexEntry};
use knowledge_cli::records::{
    create_decision, create_person, make_urn, normalize_recorded_at, CommonCreateArgs,
    CreateActionArgs, CreateDecisionArgs, CreateError, CreatePersonArgs, JsonArg, JsonFlag,
    Outcome, Provenance,
};
use knowledge_cli::screen::{field_line, header_text, preview_text};
use knowledge_cli::search::{search_records, QueryError};
use knowledge_cli::validation::{
    validate_date_or_datetime, validate_in_enum, validate_iso_datetime, validate_record_json,
    validate_relation, ValidationError,
};
use knowledge_cli::vocabulary::Vocabulary;

fn s(t: &str) -> Json {
    Json::Str(t.to_string())
}

fn obj(entries: Vec<(&str, Json)>) -> Json {
    Json::Object(entries.into_iter().map(|(k, v)| (k.to_string(), v)).collect())
}

fn float(x: f64) -> Json {
    Json::Number(JNum::Float(x.to_bits()))
}

fn text<'a>(j: &'a Json, key: &str) -> Option<&'a str> {
    j.get_str(key).map(|v| v.as_str())
}

fn verdict(j: &Json) -> Result<(), String> {
    validate_record_json(j).map_err(|e| e.message())
}

fn decision_doc(extra: Vec<(&str, Json)>) -> Json {
    let mut base = vec![
        ("id", s("urn:bitacora:payments:dec-1")),
        ("type", s("Decision")),
        ("recorded_at", s("2026-03-31T10:00:00Z")),
        ("title", s("T")),
        ("rationale", s("R")),
    ];
    for (k, v) in extra {
        match base.iter().position(|(key, _)| *key == k) {
            Some(i) => base[i] = (k, v),
            None => base.push((k, v)),
        }
    }
    obj(base)
}

fn stamped(kind: &str, extra: Vec<(&str, Json)>) -> Json {
    let mut base = vec![("id", s("urn:bitacora:ops:x")), ("type", s(kind)), ("recorded_at", s("2026-03-31T10:00:00Z"))];
    base.extend(extra);
    obj(base)
}

fn common(domain: Option<&str>) -> CommonCreateArgs {
    CommonCreateArgs {
        id: None,
        recorded_at: None,
        domain: domain.map(|d| d.to_string()),
        description: None,
        tags: Vec::new(),
        author: None,
        status: None,
        confidence: None,
        impact: None,
        classification: None,
        related_files: Vec::new(),
        evidence_json: Vec::new(),
        outcomes_json: Vec::new(),
        provenance_json: None,
        context: "./context.jsonld".to_string(),
    }
}

fn decision_args(c: CommonCreateArgs) -> CreateDecisionArgs {
    CreateDecisionArgs {
        common: c,
        title: "Adoptar Postgres".to_string(),
        rationale: "Necesitamos ACID".to_string(),
        options_considered: Vec::new(),
        chosen_option: None,
        effective_from: None,
        consequences: None,
        impacted_components: Vec::new(),
    }
}

fn entry(id: &str, record_type: &str, path: &str) -> IndexEntry {
    IndexEntry {
        id: id.to_string(),
        record_type: record_type.to_string(),
        title: None,
        name: None,
        domain: None,
        classification: None,
        tags: Vec::new(),
        recorded_at: None,
        status: None,
        author: None,
        path: path.to_string(),
    }
}

fn edge(from: &str, to: &str, relation: &str) -> GraphEdge {
    GraphEdge { from: from.to_string(), to: to.to_string(), relation: relation.to_string() }
}

// ---- validation rules, one input per error ----

#[test]
fn validation_accepts_minimal_decision() {
    assert_eq!(verdict(&decision_doc(vec![])), Ok(()));
}

#[test]
fn validation_reports_each_problem() {
    let cases: Vec<(Json, &str)> = vec![
        (obj(vec![]), "campo requerido faltante o vacio: type"),
        (decision_doc(vec![("title", s("   "))]), "campo requerido faltante o vacio: title"),
        (decision_doc(vec![("recorded_at", s("yesterday"))]), "recorded_at debe ser ISO-8601 (RFC3339): yesterday"),
        (decision_doc(vec![("effective_from", s("31/03/2026"))]), "effective_from debe ser YYYY-MM-DD o ISO-8601: 31/03/2026"),
        (decision_doc(vec![("confidence", s("high"))]), "confidence debe ser numerico entre 0.0 y 1.0"),
        (decision_doc(vec![("confidence", float(1.5))]), "confidence debe estar entre 0.0 y 1.0"),
        (decision_doc(vec![("impact", s("huge"))]), "impact invalido: huge. Permitidos: low, medium, high"),
        (decision_doc(vec![("related_files", Json::Array(vec![Json::Bool(true)]))]), "related_files debe ser un arreglo de strings"),
        (decision_doc(vec![("evidence", s("x"))]), "evidence debe ser un arreglo de objetos"),
        (decision_doc(vec![("evidence", Json::Array(vec![s("x")]))]), "evidence[0] debe ser un objeto"),
        (decision_doc(vec![("evidence", Json::Array(vec![obj(vec![("type", s("issue"))])]))]), "evidence[0].reference es requerido"),
        (decision_doc(vec![("evidence", Json::Array(vec![obj(vec![("type", s("issue")), ("reference", s("#1")), ("excerpt", Json::Null)])]))]), "evidence[0].excerpt debe ser string"),
        (decision_doc(vec![("outcomes", Json::Array(vec![obj(vec![("status", s("success")), ("duration", s("long"))])]))]), "outcomes[0].duration debe ser numerico"),
        (decision_doc(vec![("outcomes", Json::Array(vec![obj(vec![("status", s("success")), ("duration", Json::Number(JNum::NegInt(-3)))])]))]), "outcomes[0].duration debe ser >= 0"),
        (decision_doc(vec![("provenance", Json::Array(vec![]))]), "provenance debe ser un objeto"),
        (stamped("Note", vec![]), "type no soportado: Note"),
    ];
    for (doc, expected) in cases {
        assert_eq!(verdict(&doc), Err(expected.to_string()));
    }
}

#[test]
fn validation_checks_numbers_as_doubles() {
    assert_eq!(verdict(&decision_doc(vec![("confidence", Json::Number(JNum::PosInt(1)))])), Ok(()));
    assert_eq!(verdict(&decision_doc(vec![("confidence", float(-0.0))])), Ok(()));
    assert!(verdict(&decision_doc(vec![("confidence", Json::Number(JNum::PosInt(2)))])).is_err());
    let ok_duration = obj(vec![("status", s("partial")), ("duration", float(0.0))]);
    assert_eq!(verdict(&decision_doc(vec![("outcomes", Json::Array(vec![ok_duration]))])), Ok(()));
}

#[test]
fn validation_of_action_outcome_and_meeting_date() {
    let action = stamped("Action", vec![
        ("title", s("Deploy")),
        ("status", s("done")),
        ("outcome", obj(vec![("status", s("bad"))])),
    ]);
    assert_eq!(verdict(&action), Err("outcome.status invalido: bad. Permitidos: success, failure, partial".to_string()));
    let meeting = stamped("Meeting", vec![("title", s("Weekly")), ("date", s("2026-03-31"))]);
    assert_eq!(verdict(&meeting), Ok(()));
    let person = obj(vec![("type", s("Person")), ("name", s("Alice"))]);
    assert_eq!(verdict(&person), Err("campo requerido faltante o vacio: id".to_string()));
}

// ---- creating records ----

#[test]
fn create_decision_with_given_id_and_time() {
    let mut c = common(None);
    c.id = Some("urn:x:1".to_string());
    c.recorded_at = Some("2026-03-31T00:00:00Z".to_string());
    c.tags = vec!["db".to_string()];
    c.confidence = Some(0.5f64.to_bits());
    let (v, domain) = create_decision(decision_args(c)).ok().expect("created");
    assert_eq!(domain, "general");
    assert_eq!(text(&v, "id"), Some("urn:x:1"));
    assert_eq!(text(&v, "type"), Some("Decision"));
    assert_eq!(text(&v, "@context"), Some("./context.jsonld"));
    assert_eq!(text(&v, "recorded_at"), Some("2026-03-31T00:00:00Z"));
    assert_eq!(text(&v, "domain"), Some("general"));
    assert!(v.get("description").is_none());
    assert!(matches!(v.get("confidence"), Some(Json::Number(JNum::Float(b))) if *b == 0.5f64.to_bits()));
    assert_eq!(v.get_array("tags").map(|a| a.len()), Some(1));
    assert_eq!(v.get_array("links").map(|a| a.len()), Some(0));
    assert_eq!(verdict(&v), Ok(()));
}

#[test]
fn create_keeps_a_nan_confidence_as_null() {
    let mut c = common(Some("payments"));
    c.confidence = Some(f64::NAN.to_bits());
    let (v, _) = create_decision(decision_args(c)).ok().expect("created");
    assert!(matches!(v.get("confidence"), Some(Json::Null)));
    assert_eq!(verdict(&v), Err("confidence debe ser numerico entre 0.0 y 1.0".to_string()));
}

#[test]
fn create_refuses_bad_recorded_at() {
    let mut c = common(None);
    c.recorded_at = Some("ayer".to_string());
    let err = create_decision(decision_args(c)).err().expect("refused");
    assert_eq!(err.message(), "recorded_at debe ser ISO-8601 (RFC3339): ayer");
}

#[test]
fn create_reports_first_bad_json_option() {
    let mut c = common(None);
    c.outcomes_json = vec![JsonArg::Invalid("[1]".to_string())];
    c.provenance_json = Some(JsonArg::Invalid("{".to_string()));
    let err = create_decision(decision_args(c)).err().expect("refused");
    assert!(matches!(err, CreateError::BadJsonArgument { flag: JsonFlag::Outcomes, .. }));
    assert_eq!(err.message(), "--outcomes-json invalido, se esperaba JSON: [1]");

    let mut c = common(None);
    c.provenance_json = Some(JsonArg::Invalid("{".to_string()));
    let err = create_decision(decision_args(c)).err().expect("refused");
    assert_eq!(err.message(), "--provenance-json invalido, se esperaba JSON: {");

    let action = CreateCommands::Action(CreateActionArgs {
        common: common(Some("ops")),
        title: "Action With Outcome".to_string(),
        assigned_to: None,
        due_date: None,
        parent_decision: None,
        outcome_json: Some(JsonArg::Invalid("nope".to_string())),
    });
    let err = prepare_record(action).err().expect("refused");
    assert_eq!(err.message(), "--outcome-json invalido, se esperaba JSON: nope");
}

#[test]
fn create_action_supports_single_outcome_json() {
    let action = CreateCommands::Action(CreateActionArgs {
        common: common(Some("ops")),
        title: "Action With Outcome".to_string(),
        assigned_to: None,
        due_date: None,
        parent_decision: None,
        outcome_json: Some(JsonArg::Decoded(Outcome {
            status: "partial".to_string(),
            notes: Some("pendiente".to_string()),
            duration: None,
            agent: None,
            recorded_at: None,
        })),
    });
    let rec = prepare_record(action).ok().expect("created");
    let outcome = rec.value.get("outcome").expect("outcome object");
    assert_eq!(text(outcome, "status"), Some("partial"));
    assert_eq!(text(outcome, "notes"), Some("pendiente"));
    assert!(outcome.get("agent").is_none());
}

#[test]
fn create_keeps_provenance() {
    let mut c = common(Some("payments"));
    c.provenance_json = Some(JsonArg::Decoded(Provenance {
        source_tool: Some("knowledge-cli".to_string()),
        recorded_via: Some("manual".to_string()),
        recorded_by: None,
    }));
    let rec = prepare_record(CreateCommands::Decision(decision_args(c))).ok().expect("created");
    let p = rec.value.get("provenance").expect("provenance");
    assert_eq!(text(p, "source_tool"), Some("knowledge-cli"));
    assert!(p.get("recorded_by").is_none());
}

#[test]
fn generated_ids_name_the_domain() {
    let id = make_urn("payments");
    assert!(id.starts_with("urn:bitacora:payments:"));
    let token = &id["urn:bitacora:payments:".len()..];
    assert_eq!(token.len(), 36);
    assert_eq!(token.matches('-').count(), 4);
    assert_ne!(make_urn("payments"), id);
}

#[test]
fn person_records_go_to_people() {
    let (v, domain) = create_person(CreatePersonArgs {
        id: Some("p-1".to_string()),
        name: "Alice Example".to_string(),
        role: Some("Engineer".to_string()),
        contact: None,
        context: "./context.jsonld".to_string(),
    });
    assert_eq!(domain, "people");
    assert_eq!(text(&v, "id"), Some("p-1"));
    assert_eq!(text(&v, "type"), Some("Person"));
    assert_eq!(text(&v, "role"), Some("Engineer"));
    assert!(v.get("recorded_at").is_none());
    assert_eq!(verdict(&v), Ok(()));
}

#[test]
fn recorded_at_defaults_to_now() {
    let now = normalize_recorded_at(None).ok().expect("now");
    assert!(normalize_recorded_at(Some(&now)).is_ok());
    assert_eq!(normalize_recorded_at(Some("2026-03-31T00:00:00Z")).ok(), Some("2026-03-31T00:00:00Z".to_string()));
    assert!(normalize_recorded_at(Some("2026-03-31")).is_err());
}

// ---- dates ----

#[test]
fn dates_are_read_by_chrono() {
    assert_eq!(parse_datetime_bound("2026-03-31T00:00:00Z", false).ok(), Some((1774915200, 0)));
    assert_eq!(parse_datetime_bound("2026-03-31T12:30:00+02:00", true).ok(), Some((1774953000, 0)));
    assert_eq!(parse_datetime_bound("2026-03-31T12:30:00.25Z", false).ok(), Some((1774960200, 250_000_000)));
    assert_eq!(parse_datetime_bound("2026-03-31", false).ok(), Some((1774915200, 0)));
    assert!(parse_datetime_bound("2026-02-30", false).is_err());
    assert!(validate_record_json(&decision_doc(vec![("recorded_at", s("2026-03-31T00:00:00Z"))])).is_ok());
    assert!(validate_record_json(&decision_doc(vec![("recorded_at", s("2026-03-31"))])).is_err());
}

#[test]
fn date_bounds_cover_the_whole_day() {
    let from = parse_datetime_bound("2026-03-31", false).ok().expect("from");
    let to = parse_datetime_bound("2026-03-31", true).ok().expect("to");
    assert_eq!(from, (1774915200, 0));
    assert_eq!(to.0 - from.0, 86_399);
    let err = parse_datetime_bound("31-03", false).err().expect("bad date");
    assert_eq!(err.message(), "fecha invalida: 31-03. Usa YYYY-MM-DD o RFC3339");
}

// ---- index ----

#[test]
fn sanitized_ids_are_file_names() {
    assert_eq!(sanitize_id_for_filename("urn:bitacora:ops:a1-b2_c3"), "urn_bitacora_ops_a1-b2_c3");
    assert_eq!(sanitize_id_for_filename("a/b ñ"), "a_b__");
    let once = sanitize_id_for_filename("x:y/z");
    assert_eq!(sanitize_id_for_filename(&once), once);
    assert_eq!(record_file_name("a:b"), "a_b.jsonld");
}

#[test]
fn upsert_replaces_the_entry_with_the_same_id() {
    let mut index = vec![entry("a", "Fact", "x/a.jsonld"), entry("b", "Fact", "x/b.jsonld")];
    upsert_index_entry(&mut index, entry("a", "Decision", "y/a.jsonld"));
    assert_eq!(index.len(), 2);
    assert_eq!(index[0].record_type, "Decision");
    assert_eq!(index[0].path, "y/a.jsonld");
    upsert_index_entry(&mut index, entry("c", "Fact", "x/c.jsonld"));
    assert_eq!(index.len(), 3);
    assert_eq!(index.iter().filter(|e| e.id == "a").count(), 1);
}

#[test]
fn index_entries_read_the_record() {
    let doc = obj(vec![
        ("id", s("r1")),
        ("type", s("Fact")),
        ("project", s("ops")),
        ("tags", Json::Array(vec![s("a"), Json::Null, s("b")])),
        ("recorded_at", s("2026-03-31T00:00:00Z")),
    ]);
    let mut index = Vec::new();
    assert!(index_new_record(&mut index, &doc, "ops/r1.jsonld").is_ok());
    assert_eq!(index[0].domain.as_deref(), Some("ops"));
    assert_eq!(index[0].tags, vec!["a".to_string(), "b".to_string()]);
    assert!(index_new_record(&mut index, &obj(vec![("type", s("Fact"))]), "p").is_err());
    assert_eq!(index.len(), 1);
}

#[test]
fn records_are_found_under_the_knowledge_dir() {
    let index = vec![entry("a", "Fact", "ops/a.jsonld"), entry("b", "Fact", "/abs/b.jsonld")];
    assert_eq!(resolve_record_path(&index, "knowledge", "a").ok(), Some("knowledge/ops/a.jsonld".to_string()));
    assert_eq!(resolve_record_path(&index, "knowledge/", "a").ok(), Some("knowledge/ops/a.jsonld".to_string()));
    assert_eq!(resolve_record_path(&index, "knowledge", "b").ok(), Some("/abs/b.jsonld".to_string()));
    let err = resolve_record_path(&index, "knowledge", "zz").err().expect("unknown");
    assert_eq!(err.message(), "id no encontrado en index: zz");
}

#[test]
fn list_pages_and_filters_by_dates_and_tags() {
    let mut a = entry("a", "Fact", "a");
    a.recorded_at = Some("2026-03-30T10:00:00Z".to_string());
    a.tags = vec!["DB".to_string()];
    let mut b = entry("b", "Fact", "b");
    b.recorded_at = Some("2026-03-31T23:00:00Z".to_string());
    b.tags = vec!["db".to_string(), "ops".to_string()];
    let c = entry("c", "Fact", "c");
    let index = vec![a, b, c];
    let mut args = ListArgs {
        record_type: None,
        domain: None,
        classification: None,
        tags: vec!["db".to_string()],
        status: None,
        author: None,
        from_date: None,
        to_date: None,
        limit: 100,
        offset: 0,
    };
    assert_eq!(list_entries(&index, &args).ok().map(|v| v.len()), Some(2));
    args.from_date = Some("2026-03-31".to_string());
    let rows = list_entries(&index, &args).ok().expect("rows");
    assert_eq!(rows.len(), 1);
    assert_eq!(rows[0].id, "b");
    args.from_date = None;
    args.to_date = Some("2026-03-31".to_string());
    args.offset = 1;
    let rows = list_entries(&index, &args).ok().expect("rows");
    assert_eq!(rows.len(), 1);
    assert_eq!(rows[0].id, "b");
    args.to_date = Some("mañana".to_string());
    assert!(matches!(list_entries(&index, &args), Err(QueryError::InvalidDate(_))));
}

// ---- links ----

#[test]
fn link_arguments_are_checked() {
    let mut args = LinkArgs {
        from: "a".to_string(),
        to: "b".to_string(),
        relation: "likes".to_string(),
        rationale: None,
        strength: None,
    };
    let err = check_link_args(&args).err().expect("bad relation");
    assert!(err.message().starts_with("relation invalido: likes. Permitidos: relatesTo, supersedes"));
    args.relation = "dependsOn".to_string();
    args.strength = Some(1.5f64.to_bits());
    assert!(matches!(check_link_args(&args), Err(LinkError::StrengthOutOfRange)));
    args.strength = Some(f64::NAN.to_bits());
    assert!(matches!(check_link_args(&args), Err(LinkError::StrengthOutOfRange)));
    args.strength = Some(1.0f64.to_bits());
    assert!(check_link_args(&args).is_ok());
}

#[test]
fn linking_appends_to_the_links() {
    let args = LinkArgs {
        from: "a".to_string(),
        to: "b".to_string(),
        relation: "confirms".to_string(),
        rationale: Some("porque".to_string()),
        strength: Some(0.25f64.to_bits()),
    };
    let mut doc = decision_doc(vec![("links", Json::Array(vec![obj(vec![("relation", s("relatesTo")), ("target", s("z"))])]))]);
    assert!(link_record(&mut doc, &new_link(&args)).is_ok());
    let links = doc.get_array("links").expect("links");
    assert_eq!(links.len(), 2);
    assert_eq!(text(&links[0], "target"), Some("z"));
    assert_eq!(text(&links[1], "target"), Some("b"));
    assert_eq!(text(&links[1], "relation"), Some("confirms"));
    assert_eq!(text(&links[1], "rationale"), Some("porque"));
    assert!(normalize_recorded_at(Some(text(&links[1], "recorded_at").expect("time"))).is_ok());

    let mut fresh = decision_doc(vec![]);
    assert!(link_record(&mut fresh, &new_link(&args)).is_ok());
    assert_eq!(fresh.get_array("links").map(|a| a.len()), Some(1));
}

#[test]
fn linking_refuses_odd_records() {
    let args = LinkArgs { from: "a".to_string(), to: "b".to_string(), relation: "confirms".to_string(), rationale: None, strength: None };
    let mut not_object = s("x");
    assert_eq!(link_record(&mut not_object, &new_link(&args)).err().map(|e| e.message()), Some("registro origen no es un objeto JSON".to_string()));
    let mut odd = decision_doc(vec![("links", s("x"))]);
    assert_eq!(link_record(&mut odd, &new_link(&args)).err().map(|e| e.message()), Some("campo links no es un arreglo".to_string()));
    let mut invalid = stamped("Decision", vec![]);
    assert_eq!(link_record(&mut invalid, &new_link(&args)).err().map(|e| e.message()), Some("campo requerido faltante o vacio: title".to_string()));
    assert_eq!(invalid.get_array("links").map(|a| a.len()), Some(1));
}

// ---- graph health ----

#[test]
fn validate_graph_fails_with_broken_reference() {
    let ids = vec!["a".to_string(), "b".to_string(), "c".to_string()];
    let edges = vec![edge("a", "b", "relatesTo"), edge("a", "urn:log:payments:does-not-exist", "relatesTo")];
    let report = validate_graph(&ids, &edges);
    assert_eq!(report.total_nodes, 3);
    assert_eq!(report.total_edges, 2);
    assert_eq!(report.broken_references.len(), 1);
    assert_eq!(report.orphan_nodes, vec!["c".to_string()]);
    assert!(!report.has_cycle);
    assert_eq!(report_outcome(&report), Err(1));
}

#[test]
fn validate_graph_finds_cycles() {
    let ids = vec!["a".to_string(), "b".to_string()];
    let edges = vec![edge("a", "b", "dependsOn"), edge("b", "a", "dependsOn")];
    let report = validate_graph(&ids, &edges);
    assert!(report.has_cycle);
    assert_eq!(report_outcome(&report), Ok(()));
    let json = ValidateGraphArgs { report: "JSON".to_string() };
    assert!(json.json_report());
    assert!(!ValidateGraphArgs { report: "text".to_string() }.json_report());
}

// ---- search ----

#[test]
fn search_ignores_query_case_and_space() {
    let records = vec![(entry("f", "Fact", "f"), obj(vec![("id", s("f")), ("type", s("Fact")), ("observation", s("RabbitMQ saturado"))]))];
    let a = search_records(&records, "  RABBITmq ", &Vec::new(), 20).ok().expect("a");
    let b = search_records(&records, "rabbitmq", &Vec::new(), 20).ok().expect("b");
    assert_eq!(a.len(), 1);
    assert_eq!(b.len(), 1);
    assert_eq!(search_records(&records, "rabbitmq", &vec!["Decision".to_string()], 20).ok().map(|v| v.len()), Some(0));
    let err = search_records(&records, "   ", &Vec::new(), 20).err().expect("empty");
    assert_eq!(err.message(), "--query no puede estar vacio");
}

// ---- wizard ----

#[test]
fn wizard_steps_and_status() {
    assert_eq!(step_count(), 6);
    assert_eq!(step_title(Step::Identification), "Identificación");
    assert_eq!(step_title(Step::DateContext), "Fecha & Contexto");
    assert_eq!(step_title(Step::Preview), "Preview");
    assert_eq!(status_text(true), "● En edición");
    assert_eq!(status_text(false), "✓ Listo");
}

#[test]
fn wizard_fields_read_back_what_was_committed() {
    let mut form = Form::new();
    for i in 0..FIELD_COUNT {
        assert_eq!(form.field(i), "");
    }
    assert_eq!(commit_field(&mut form, 0, "  ", false), Err(FieldError::TitleRequired));
    assert_eq!(form.field(0), "");
    assert_eq!(commit_field(&mut form, 0, "Cierre", false), Ok(()));
    assert_eq!(commit_field(&mut form, 2, "pasado mañana", false), Err(FieldError::BadDate));
    assert_eq!(commit_field(&mut form, 2, "", false), Ok(()));
    assert_eq!(commit_field(&mut form, 2, "ayer", true), Ok(()));
    assert_eq!(commit_field(&mut form, 5, "x,y", false), Ok(()));
    assert_eq!(form.field(0), "Cierre");
    assert_eq!(form.field(2), "ayer");
    assert_eq!(form.tags, "x,y");
    assert_eq!(validate_field(7, "", false), Ok(()));
    assert_eq!(FieldError::TitleRequired.message(), "Title is required");
}

#[test]
fn wizard_navigation_wraps_round() {
    assert_eq!(next_field(7), 0);
    assert_eq!(previous_field(0), 7);
    for i in 0..FIELD_COUNT {
        assert_eq!(previous_field(next_field(i)), i);
        assert_eq!(next_field(previous_field(i)), i);
    }
}

#[test]
fn wizard_screen_texts() {
    let mut form = Form::new();
    form.title = "Cierre".to_string();
    assert_eq!(header_text(true), "Log Diario — Nuevo Registro   Edición");
    assert_eq!(field_line(&form, 0, false, 0, ""), "Title: Cierre");
    assert_eq!(field_line(&form, 0, true, 0, "Cie"), "Title: Cie▮");
    assert_eq!(field_line(&form, 1, true, 0, "Cie"), "Domain: ");
    let suggestions = vec![obj(vec![("id", s("inference")), ("title", s("rationale")), ("snippet", s("r"))]), obj(vec![])];
    let p = preview_text(&form, false, &suggestions, &None);
    assert!(p.starts_with("Preview:\n\nTitle: Cierre\nDomain: \n"));
    assert!(p.ends_with("\nSuggestions:\n1: rationale — r\n   id: inference\n2: (no title) — \n"));
    let p = preview_text(&form, false, &Vec::new(), &Some("boom".to_string()));
    assert!(p.ends_with("\nSuggestion error: boom\n"));
    let p = preview_text(&form, true, &suggestions, &None);
    assert!(p.ends_with("\nSearching suggestions...\n"));
}

// ---- skill guide ----

#[test]
fn skill_guide_general_and_domain() {
    let g = skill_guide("  GENERAL ");
    assert!(g.starts_with("GUIA GENERAL"));
    assert!(g.contains("Contraejemplos"));
    assert!(g.contains("SKILL CREATE (TODAS LAS VARIANTES)"));
    let d = skill_guide("payments");
    assert!(d.starts_with("GUIA SKILL: payments"));
    assert!(d.contains("--domain payments"));
    assert!(d.contains("SKILL CREATE (TODAS LAS VARIANTES)"));
}

// ---- rationale inference ----

#[test]
fn keywords_come_from_domain_title_and_description() {
    let mut form = Form::new();
    form.domain = "Pagos".to_string();
    form.title = "¡Adoptar Postgres! (DB)".to_string();
    form.description = "adoptar postgres en Ñandú, ya".to_string();
    let k = keywords(&form);
    assert_eq!(k, vec!["pagos", "adoptar", "postgres", "ñandú"]);

    let mut many = Form::new();
    many.title = "alpha bravo charlie delta echo foxtrot golf hotel india".to_string();
    assert_eq!(keywords(&many).len(), 8);
}

#[test]
fn local_scan_keeps_numbered_excerpts() {
    let long = "x".repeat(250);
    let text = format!("nada\r\nPostgres aqui\n{long} postgres\nmas postgres\n");
    let kws = vec!["postgres".to_string()];
    let found = scan_text("src/db.rs", &text, &kws, 2);
    assert_eq!(found.len(), 2);
    assert_eq!(found[0].lineno, 2);
    assert_eq!(found[0].snippet, "Postgres aqui");
    assert_eq!(found[1].lineno, 3);
    assert_eq!(found[1].snippet, format!("{}...", "x".repeat(200)));
    assert_eq!(found[1].path, "src/db.rs");
    assert_eq!(scan_text("f", &text, &kws, 10).len(), 3);
    assert_eq!(scan_text("f", &text, &kws, 0).len(), 0);
}

#[test]
fn prompts_carry_the_form_and_the_context() {
    let mut form = Form::new();
    form.title = "T".to_string();
    form.description = "D".to_string();
    let base = rationale_prompt(&form);
    assert!(base.contains("Form:\nTitle: T\nDomain: \nDate: "));
    assert!(base.ends_with("Description:\nD\n\nRespuesta esperada: un único string con la rationale.\n"));
    assert_eq!(strip_close_protocol("uno\n# 🚨 SESSION CLOSE PROTOCOL 🚨\ndos"), "uno\n");
    assert_eq!(strip_close_protocol("sin cierre"), "sin cierre");
    let matches = scan_text("a.rs", "postgres\n", &vec!["postgres".to_string()], 10);
    let full = agent_prompt(&form, "prime\n# 🚨 SESSION CLOSE PROTOCOL 🚨 x", true, &matches);
    assert!(full.starts_with(&base));
    assert!(full.contains("\nMulchPrimeOutput:\nprime\n\n"));
    assert!(full.contains("- mulch_initialized: true\n- local_matches_count: 1\nLocalMatches:\n- a.rs:1: postgres\n"));
    assert!(!full.contains("SESSION CLOSE"));
}

#[test]
fn agent_replies_are_read_and_judged() {
    let event = obj(vec![
        ("type", s("agent_end")),
        ("messages", Json::Array(vec![
            obj(vec![("role", s("user")), ("content", Json::Array(vec![obj(vec![("type", s("text")), ("text", s("no"))])]))]),
            obj(vec![("role", s("assistant")), ("content", Json::Array(vec![
                obj(vec![("type", s("text")), ("text", s("{\"ids\":"))]),
                obj(vec![("type", s("tool")), ("text", s("skip"))]),
                obj(vec![("type", s("text")), ("text", s("\"a\"}"))]),
            ]))]),
        ])),
    ]);
    assert!(knowledge_cli::inference::is_agent_end(&event));
    assert_eq!(assistant_text(&event), "{\"ids\":\"a\"}");

    let usable = obj(vec![("ids", s("a"))]);
    assert!(reply_accepted(&usable));
    assert!(reply_accepted(&obj(vec![("sources", Json::Array(vec![s("x")]))])));
    assert!(!reply_accepted(&obj(vec![("ids", s("  ")), ("sources", Json::Array(vec![]))])));

    assert!(matches!(after_agent_end("  ", None, false, 0), FirstVerdict::NoText));
    assert!(matches!(after_agent_end("{\"ids\":\"a\"}", Some(usable), false, 0), FirstVerdict::Accept(_)));
    match after_agent_end("texto libre", None, true, 3) {
        FirstVerdict::FollowUp(p) => assert!(p.contains("metadata.mulch_initialized=true y metadata.local_matches_count=3.")),
        _ => panic!("expected a follow-up"),
    }

    let fb = fallback_reply("  hola  ", "fallback_from_followup");
    assert_eq!(text(&fb, "text"), Some("hola"));
    assert_eq!(text(&fb, "ids"), Some(""));
    assert_eq!(text(fb.get("metadata").expect("metadata"), "note"), Some("fallback_from_followup"));
    assert!(!reply_accepted(&fb));

    let second = after_followup("primero", "segundo", None);
    assert_eq!(text(&second, "text"), Some("segundo"));
    let none = after_followup("primero", "", None);
    assert_eq!(text(none.get("metadata").expect("metadata"), "note"), Some("fallback_from_plain_text_no_followup"));
    let parsed = after_followup("primero", "{}", Some(obj(vec![("ids", s("z"))])));
    assert_eq!(text(&parsed, "ids"), Some("z"));
}

#[test]
fn keyword_gathering_keeps_new_long_candidates() {
    let start = vec!["pagos".to_string()];
    let cands: Vec<String> = ["adoptar", "db", "adoptar", "ñandú", "ñu"].iter().map(|s| s.to_string()).collect();
    let k = knowledge_cli::inference::gather_keywords(&start, &cands);
    // "ñu" is three bytes long in UTF-8, "db" two.
    assert_eq!(k, vec!["pagos", "adoptar", "ñandú", "ñu"]);
    let full: Vec<String> = (0..12).map(|i| format!("word{i}")).collect();
    let k = knowledge_cli::inference::gather_keywords(&Vec::new(), &full);
    assert_eq!(k.len(), 8);
    assert_eq!(k[7], "word7");
}

#[test]
fn single_value_validators() {
    assert!(validate_in_enum("high", Vocabulary::Impact, "impact").is_ok());
    assert_eq!(
        validate_in_enum("huge", Vocabulary::Impact, "impact").map_err(|e| e.message()),
        Err("impact invalido: huge. Permitidos: low, medium, high".to_string())
    );
    assert!(validate_date_or_datetime("2026-03-31", "date").is_ok());
    assert!(validate_date_or_datetime("2026-03-31T10:00:00Z", "date").is_ok());
    assert_eq!(
        validate_date_or_datetime("31/03/2026", "date").map_err(|e| e.message()),
        Err("date debe ser YYYY-MM-DD o ISO-8601: 31/03/2026".to_string())
    );
    assert!(validate_iso_datetime("2026-03-31", "recorded_at").is_err());
    assert!(validate_relation("dependsOn").is_ok());
    assert!(validate_relation("likes").is_err());
}

#[test]
fn records_carry_id_and_recorded_at() {
    let bare = obj(vec![("type", s("Decision")), ("title", s("Adoptar Postgres")), ("rationale", s("Necesitamos ACID"))]);
    assert_eq!(verdict(&bare), Err("campo requerido faltante o vacio: id".to_string()));
    let no_time = obj(vec![("id", s("urn:bitacora:p:1")), ("type", s("Fact")), ("observation", s("o"))]);
    assert_eq!(verdict(&no_time), Err("campo requerido faltante o vacio: recorded_at".to_string()));
    let stamped_fact = stamped("Fact", vec![("observation", s("o"))]);
    assert_eq!(verdict(&stamped_fact), Ok(()));
    let dated = obj(vec![("id", s("urn:bitacora:p:1")), ("type", s("Fact")), ("recorded_at", s("2026-03-31")), ("observation", s("o"))]);
    assert_eq!(verdict(&dated), Err("recorded_at debe ser ISO-8601 (RFC3339): 2026-03-31".to_string()));
    let person = obj(vec![("id", s("urn:bitacora:people:1")), ("type", s("Person")), ("name", s("Alice"))]);
    assert_eq!(verdict(&person), Ok(()));
}

#[test]
fn links_follow_the_link_rules() {
    let link = |entries: Vec<(&str, Json)>| decision_doc(vec![("links", Json::Array(vec![obj(entries)]))]);
    assert_eq!(verdict(&link(vec![("relation", s("relatesTo")), ("target", s("x")), ("recorded_at", s("2026-03-31T00:00:00Z"))])), Ok(()));
    assert_eq!(
        verdict(&link(vec![("relation", s("relatesTo")), ("target", s("x")), ("recorded_at", s("2026-03-31"))])),
        Err("links[0].recorded_at debe ser ISO-8601 (RFC3339): 2026-03-31".to_string())
    );
    assert!(verdict(&link(vec![("relation", s("likes")), ("target", s("x"))])).is_err());
    assert!(verdict(&link(vec![("target", s("x"))])).is_err());
    assert!(verdict(&link(vec![("relation", s("confirms"))])).is_err());
    assert!(verdict(&decision_doc(vec![("links", s("x"))])).is_err());
    assert!(verdict(&decision_doc(vec![("links", Json::Array(vec![s("x")]))])).is_err());
}

#[test]
fn path_follows_the_first_discovery() {
    let ids: Vec<String> = ["a", "b", "c", "d"].iter().map(|x| x.to_string()).collect();
    let edges = vec![edge("a", "c", "dependsOn"), edge("a", "b", "dependsOn"), edge("b", "d", "dependsOn"), edge("c", "d", "dependsOn")];
    let p = find_path(&ids, &edges, "a", "d", None, 5).ok().expect("path");
    assert!(p.found);
    assert_eq!(p.path, vec!["a".to_string(), "c".to_string(), "d".to_string()]);
    assert_eq!(p.hops, 2);
    let swapped = vec![edge("a", "b", "dependsOn"), edge("a", "c", "dependsOn"), edge("c", "d", "dependsOn"), edge("b", "d", "dependsOn")];
    let q = find_path(&ids, &swapped, "a", "d", None, 5).ok().expect("path");
    assert_eq!(q.path, vec!["a".to_string(), "b".to_string(), "d".to_string()]);
}

#[test]
fn created_records_carry_a_valid_stamp() {
    let now = normalize_recorded_at(None).ok().expect("now");
    assert!(validate_iso_datetime(&now, "recorded_at").is_ok());
    let made = prepare_record(CreateCommands::Decision(decision_args(common(Some("payments"))))).ok().expect("made");
    assert_eq!(verdict(&made.value), Ok(()));
    assert!(text(&made.value, "recorded_at").map(|t| validate_iso_datetime(t, "recorded_at").is_ok()).unwrap_or(false));
}
