use knowledge_cli::commands::{
    check_link_args, index_new_record, link_record, new_link, prepare_record,
    resolve_record_path, CreateCommands, LinkArgs,
};
use knowledge_cli::graph::{collect_graph_edges, find_path, neighbors, query_links};
use knowledge_cli::index::{list_entries, record_file_name, ListArgs};
use knowledge_cli::json::Json;
use knowledge_cli::model::IndexEntry;
use knowledge_cli::records::{
    CommonCreateArgs, CreateActionArgs, CreateAssumptionArgs, CreateDecisionArgs,
    CreateFactArgs, CreateMeetingArgs, CreatePersonArgs, Evidence, JsonArg, Outcome, Provenance,
};
use knowledge_cli::search::search_records;
use knowledge_cli::validation::validate_record_json;

/// A knowledge base held in memory: the index and the stored documents.
struct Kb {
    index: Vec<IndexEntry>,
    files: Vec<(String, Json)>,
}

impl Kb {
    fn new() -> Kb {
        Kb { index: Vec::new(), files: Vec::new() }
    }

    /// What `create` does: build, check, store under `<domain>/<file>` and index.
    fn create(&mut self, kind: CreateCommands) -> Result<String, String> {
        let rec = prepare_record(kind).map_err(|e| e.message())?;
        let path = format!("{}/{}", rec.domain, record_file_name(&rec.id));
        index_new_record(&mut self.index, &rec.value, &path).expect("entry");
        self.files.push((path, rec.value));
        Ok(rec.id)
    }

    fn doc(&self, path: &str) -> &Json {
        &self.files.iter().find(|(p, _)| p == path).expect("stored").1
    }

    fn doc_mut(&mut self, path: &str) -> &mut Json {
        &mut self.files.iter_mut().find(|(p, _)| p == path).expect("stored").1
    }

    /// What `load_all_records` gives: each index entry with its document.
    fn records(&self) -> Vec<(IndexEntry, Json)> {
        self.index
            .iter()
            .map(|e| (e.duplicate(), self.doc(&e.path).duplicate()))
            .collect()
    }

    fn id_by_title(&self, title: &str) -> String {
        self.index
            .iter()
            .find(|e| e.title.as_deref() == Some(title))
            .expect("id by title")
            .id
            .clone()
    }

    fn path_of(&self, id: &str) -> String {
        self.index.iter().find(|e| e.id == id).expect("path by id").path.clone()
    }

    /// What `link` does once both ids resolve.
    fn link(&mut self, from: &str, to: &str, relation: &str) -> Result<(), String> {
        let args = LinkArgs {
            from: from.to_string(),
            to: to.to_string(),
            relation: relation.to_string(),
            rationale: None,
            strength: None,
        };
        check_link_args(&args).map_err(|e| e.message())?;
        resolve_record_path(&self.index, "knowledge", from).map_err(|e| e.message())?;
        resolve_record_path(&self.index, "knowledge", to).map_err(|e| e.message())?;
        let path = self.path_of(from);
        let link = new_link(&args);
        link_record(self.doc_mut(&path), &link).map_err(|e| e.message())
    }
}

fn common(domain: Option<&str>) -> CommonCreateArgs {
    CommonCreateArgs {
        id: None,
        recorded_at: None,
        domain: domain.map(|d| d.to_string()),
        description: None,
        tags: Vec::new(),
        author: None,
        status: None,
        confidence: None,
        impact: None,
        classification: None,
        related_files: Vec::new(),
        evidence_json: Vec::new(),
        outcomes_json: Vec::new(),
        provenance_json: None,
        context: "./context.jsonld".to_string(),
    }
}

fn decision(title: &str, rationale: &str, c: CommonCreateArgs) -> CreateCommands {
    CreateCommands::Decision(CreateDecisionArgs {
        common: c,
        title: title.to_string(),
        rationale: rationale.to_string(),
        options_considered: Vec::new(),
        chosen_option: None,
        effective_from: None,
        consequences: None,
        impacted_components: Vec::new(),
    })
}

fn fact(observation: &str, c: CommonCreateArgs) -> CreateCommands {
    CreateCommands::Fact(CreateFactArgs {
        common: c,
        observation: observation.to_string(),
        related_components: Vec::new(),
    })
}

fn list_args() -> ListArgs {
    ListArgs {
        record_type: None,
        domain: None,
        classification: None,
        tags: Vec::new(),
        status: None,
        author: None,
        from_date: None,
        to_date: None,
        limit: 100,
        offset: 0,
    }
}

fn text<'a>(j: &'a Json, key: &str) -> Option<&'a str> {
    j.get_str(key).map(|s| s.as_str())
}

#[test]
fn create_and_validate_all_record_types() {
    let mut kb = Kb::new();

    let mut c = common(Some("payments"));
    c.status = Some("accepted".to_string());
    assert!(kb.create(decision("Adopt Postgres", "Need ACID", c)).is_ok());

    let mut c = common(Some("payments"));
    c.confidence = Some(0.95f64.to_bits());
    assert!(kb.create(fact("Queue X saturated", c)).is_ok());

    let mut c = common(Some("payments"));
    c.confidence = Some(0.7f64.to_bits());
    let assumption = CreateCommands::Assumption(CreateAssumptionArgs {
        common: c,
        assumption_statement: "Traffic will grow steadily".to_string(),
        tests_needed: Vec::new(),
        expire_at: Some("2027-03-31".to_string()),
    });
    assert!(kb.create(assumption).is_ok());

    let meeting = CreateCommands::Meeting(CreateMeetingArgs {
        common: common(Some("payments")),
        title: "Payments weekly".to_string(),
        date: "2026-03-31".to_string(),
        location: None,
        participants: Vec::new(),
        minutes: None,
        decisions_made: Vec::new(),
        actions: Vec::new(),
    });
    assert!(kb.create(meeting).is_ok());

    let mut c = common(Some("payments"));
    c.status = Some("todo".to_string());
    let action = CreateCommands::Action(CreateActionArgs {
        common: c,
        title: "Tune queue worker".to_string(),
        assigned_to: None,
        due_date: Some("2026-04-15".to_string()),
        parent_decision: None,
        outcome_json: None,
    });
    assert!(kb.create(action).is_ok());

    let person = CreateCommands::Person(CreatePersonArgs {
        id: None,
        name: "Alice Example".to_string(),
        role: Some("Engineer".to_string()),
        contact: None,
        context: "./context.jsonld".to_string(),
    });
    assert!(kb.create(person).is_ok());

    assert_eq!(kb.index.len(), 6);
    let expected_types = ["Decision", "Fact", "Assumption", "Meeting", "Action", "Person"];
    for expected in expected_types {
        let count = kb.index.iter().filter(|e| e.record_type == expected).count();
        assert_eq!(count, 1, "expected exactly one {} record", expected);
    }
    for entry in &kb.index {
        let doc = kb.doc(&entry.path);
        assert!(validate_record_json(doc).is_ok());
    }
}

#[test]
fn show_returns_record_json() {
    let mut kb = Kb::new();
    kb.create(decision("Decision Show", "Validar comando show", common(Some("payments"))))
        .expect("create");
    let id = kb.id_by_title("Decision Show");

    let full = resolve_record_path(&kb.index, "knowledge", &id).ok().expect("resolve");
    let rel = full.strip_prefix("knowledge/").expect("under knowledge dir");
    let value = kb.doc(rel);
    assert_eq!(text(value, "id"), Some(id.as_str()));
    assert_eq!(text(value, "type"), Some("Decision"));
}

#[test]
fn list_filters_by_domain_and_type() {
    let mut kb = Kb::new();
    kb.create(decision("Decision Payments", "R1", common(Some("payments")))).expect("c1");
    kb.create(fact("Observacion Ops", common(Some("ops")))).expect("c2");

    let mut args = list_args();
    args.domain = Some("payments".to_string());
    args.record_type = Some("Decision".to_string());
    let rows = list_entries(&kb.index, &args).ok().expect("list");
    assert_eq!(rows.len(), 1);
    assert_eq!(rows[0].record_type, "Decision");
    assert_eq!(rows[0].domain.as_deref(), Some("payments"));
}

#[test]
fn links_query_returns_outgoing_edges() {
    let mut kb = Kb::new();
    kb.create(decision("Decision A", "A", common(Some("payments")))).expect("a");
    kb.create(decision("Decision B", "B", common(Some("payments")))).expect("b");
    let id_a = kb.id_by_title("Decision A");
    let id_b = kb.id_by_title("Decision B");

    kb.link(&id_a, &id_b, "relatesTo").expect("link");

    let edges = collect_graph_edges(&kb.records());
    let found = query_links(&edges, Some(&id_a), None, None).ok().expect("links");
    assert_eq!(found.len(), 1);
    assert_eq!(found[0].from, id_a);
    assert_eq!(found[0].to, id_b);
    assert_eq!(found[0].relation, "relatesTo");
}

#[test]
fn neighbors_depth_finds_two_hops() {
    let mut kb = Kb::new();
    for title in ["N-A", "N-B", "N-C"] {
        kb.create(decision(title, "R", common(Some("payments")))).expect("create");
    }
    let a = kb.id_by_title("N-A");
    let b = kb.id_by_title("N-B");
    let c = kb.id_by_title("N-C");
    kb.link(&a, &b, "relatesTo").expect("l1");
    kb.link(&b, &c, "relatesTo").expect("l2");

    let edges = collect_graph_edges(&kb.records());
    let out = neighbors(&edges, &a, 2, None).ok().expect("neighbors");
    let ids: Vec<&str> = out.neighbors.iter().map(|n| n.id.as_str()).collect();
    assert!(ids.contains(&b.as_str()));
    assert!(ids.contains(&c.as_str()));
}

#[test]
fn search_finds_record_by_text() {
    let mut kb = Kb::new();
    kb.create(fact("Rabbitmq se saturo en horario punta", common(Some("payments"))))
        .expect("fact");

    let rows = search_records(&kb.records(), "rabbitmq", &vec!["Fact".to_string()], 20)
        .ok()
        .expect("search");
    assert_eq!(rows.len(), 1);
    assert_eq!(rows[0].record_type, "Fact");
}

#[test]
fn path_finds_shortest_route() {
    let mut kb = Kb::new();
    for title in ["P-A", "P-B", "P-C"] {
        kb.create(decision(title, "R", common(Some("payments")))).expect("create");
    }
    let a = kb.id_by_title("P-A");
    let b = kb.id_by_title("P-B");
    let c = kb.id_by_title("P-C");
    kb.link(&a, &b, "dependsOn").expect("l1");
    kb.link(&b, &c, "dependsOn").expect("l2");

    let records = kb.records();
    let edges = collect_graph_edges(&records);
    let ids: Vec<String> = records.iter().map(|(e, _)| e.id.clone()).collect();
    let out = find_path(&ids, &edges, &a, &c, None, 5).ok().expect("path");
    assert!(out.found);
    assert_eq!(out.hops, 2);
    assert_eq!(out.path.len(), 3);
}

#[test]
fn create_with_invalid_classification_fails() {
    let mut kb = Kb::new();
    let mut c = common(None);
    c.classification = Some("invalid-class".to_string());
    let err = kb.create(decision("Decision Invalid", "R", c)).expect_err("must fail");
    assert!(err.contains("classification invalido"), "stderr={err}");
}

#[test]
fn create_with_invalid_evidence_fails() {
    let mut kb = Kb::new();
    let mut c = common(None);
    c.evidence_json = vec![JsonArg::Invalid("{}".to_string())];
    let err = kb.create(fact("Fact invalid evidence", c)).expect_err("must fail");
    assert!(err.contains("--evidence-json invalido"), "stderr={err}");
}

#[test]
fn list_can_filter_by_classification() {
    let mut kb = Kb::new();
    let mut c = common(None);
    c.classification = Some("tactical".to_string());
    kb.create(decision("Decision Tactical", "R1", c)).expect("c1");
    let mut c = common(None);
    c.classification = Some("foundational".to_string());
    kb.create(decision("Decision Foundational", "R2", c)).expect("c2");

    let mut args = list_args();
    args.classification = Some("tactical".to_string());
    let rows = list_entries(&kb.index, &args).ok().expect("list");
    assert_eq!(rows.len(), 1);
    assert_eq!(rows[0].classification.as_deref(), Some("tactical"));
}

#[test]
fn create_decision_supports_advanced_ontology_fields() {
    let mut kb = Kb::new();
    let mut c = common(Some("payments"));
    c.description = Some("Descripcion desde alias body".to_string());
    c.classification = Some("tactical".to_string());
    c.related_files = vec!["src/main.rs".to_string(), "docs/adr.md".to_string()];
    c.evidence_json = vec![JsonArg::Decoded(Evidence {
        evidence_type: "issue".to_string(),
        reference: "#42".to_string(),
        date: None,
        excerpt: None,
        recorded_by: None,
    })];
    c.outcomes_json = vec![JsonArg::Decoded(Outcome {
        status: "success".to_string(),
        notes: Some("ok".to_string()),
        duration: None,
        agent: None,
        recorded_at: None,
    })];
    c.provenance_json = Some(JsonArg::Decoded(Provenance {
        source_tool: Some("knowledge-cli".to_string()),
        recorded_via: Some("manual".to_string()),
        recorded_by: None,
    }));
    kb.create(decision("Decision Ontology", "Necesitamos trazabilidad", c)).expect("create");
    let id = kb.id_by_title("Decision Ontology");
    let record = kb.doc(&kb.path_of(&id));
    assert!(validate_record_json(record).is_ok());
    assert_eq!(text(record, "domain"), Some("payments"));
    assert_eq!(text(record, "description"), Some("Descripcion desde alias body"));
    assert_eq!(text(record, "classification"), Some("tactical"));
    assert_eq!(record.get_array("related_files").expect("related_files").len(), 2);
    let evidence = record.get_array("evidence").expect("evidence");
    assert_eq!(text(&evidence[0], "type"), Some("issue"));
    assert_eq!(text(&evidence[0], "reference"), Some("#42"));
    let outcomes = record.get_array("outcomes").expect("outcomes array");
    assert_eq!(text(&outcomes[0], "status"), Some("success"));
    let provenance = record.get("provenance").expect("provenance object");
    assert_eq!(text(provenance, "source_tool"), Some("knowledge-cli"));
}

#[test]
fn create_decision_and_validate_file() {
    let mut kb = Kb::new();
    let mut c = common(Some("payments"));
    c.status = Some("accepted".to_string());
    kb.create(decision("Adoptar Postgres", "Necesitamos ACID", c)).expect("create decision");

    assert_eq!(kb.index.len(), 1);
    let record = kb.doc(&kb.index[0].path);
    assert!(validate_record_json(record).is_ok());
}

#[test]
fn create_two_records_and_link_them() {
    let mut kb = Kb::new();
    kb.create(decision("Adoptar Postgres", "Necesitamos ACID", common(Some("payments"))))
        .expect("create decision");
    let mut c = common(Some("payments"));
    c.confidence = Some(0.95f64.to_bits());
    kb.create(fact("La cola X se saturó", c)).expect("create fact");
    assert_eq!(kb.index.len(), 2);

    let decision_id = kb.index.iter().find(|e| e.record_type == "Decision").expect("decision id").id.clone();
    let fact_id = kb.index.iter().find(|e| e.record_type == "Fact").expect("fact id").id.clone();

    kb.link(&decision_id, &fact_id, "relatesTo").expect("link");

    let decision_json = kb.doc(&kb.path_of(&decision_id));
    let links = decision_json.get_array("links").expect("links array");
    assert_eq!(links.len(), 1);
    assert_eq!(text(&links[0], "relation"), Some("relatesTo"));
    assert_eq!(text(&links[0], "target"), Some(fact_id.as_str()));
}

#[test]
fn skill_general_without_subcommand_works() {
    let stdout = knowledge_cli::guide::skill_guide("general");
    assert!(stdout.contains("GUIA GENERAL"), "stdout={stdout}");
    assert!(stdout.contains("Contraejemplos"), "stdout={stdout}");
    assert!(stdout.contains("SKILL CREATE (TODAS LAS VARIANTES)"), "stdout={stdout}");
    assert!(stdout.contains("decision"), "stdout={stdout}");
    assert!(stdout.contains("person"), "stdout={stdout}");
}

#[test]
fn skill_specific_without_subcommand_works() {
    let stdout = knowledge_cli::guide::skill_guide("payments");
    assert!(stdout.contains("GUIA SKILL: payments"), "stdout={stdout}");
    assert!(stdout.contains("--domain payments"), "stdout={stdout}");
    assert!(stdout.contains("SKILL CREATE (TODAS LAS VARIANTES)"), "stdout={stdout}");
}
