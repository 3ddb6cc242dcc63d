use orbit_protocol::governance::checks::{Issue, IssueLine, check_repository, issue_lines};
use serde_json::Value;

const COMMIT: &str = "aaaaaaaaaaaaaaaaaaaaaaaaaaaaaaaaaaaaaaaa";

fn contracts_fixture() -> String {
    format!(
        "# Contracts\n\n## Current contracts\n\n\
         | ID | Contract | Owner | Status | Accepted proof revision | Check or evidence | Gap |\n\
         | --- | --- | --- | --- | --- | --- | --- |\n\
         | `ORB-C1` | Durable session | Orbit | Proved | `{COMMIT}` | canonical contract test | None |\n"
    )
}

fn crates_fixture() -> String {
    "# Crates\n\n## Current decisions\n\n\
     | Boundary | Selected shape | Status | Credible alternatives | Why | Evidence |\n\
     | --- | --- | --- | --- | --- | --- |\n\
     | Terminal | libghostty-vt 0.2.1 | Selected for proof | owned parser | Sole authority | orb-proof |\n\
     | Renderer | Undecided | Planned | wgpu or owned code | Deferred | future Bead |\n"
        .to_string()
}

/// One issue-log line: `{"id": .., "status": .., "description": ..}` with
/// the optional fields given.
fn issue_json(status: &str, description: &str, comments: Option<&str>) -> String {
    let mut object = serde_json::Map::new();
    object.insert("id".into(), Value::String("orb-proof".into()));
    object.insert("status".into(), Value::String(status.into()));
    object.insert("issue_type".into(), Value::String("task".into()));
    object.insert("description".into(), Value::String(description.into()));
    if let Some(text) = comments {
        let mut comment = serde_json::Map::new();
        comment.insert("text".into(), Value::String(text.into()));
        object.insert("comments".into(), Value::Array(vec![Value::Object(comment)]));
    }
    serde_json::to_string(&Value::Object(object)).unwrap()
}

fn text_field(object: &serde_json::Map<String, Value>, name: &str) -> Result<String, String> {
    match object.get(name) {
        None => Ok(String::new()),
        Some(Value::String(text)) => Ok(text.clone()),
        Some(_) => Err(format!("invalid type for `{name}`")),
    }
}

/// Parse each nonblank line of the issue log as an issue.
fn load(text: &str) -> Vec<IssueLine> {
    issue_lines(text)
        .into_iter()
        .map(|(line, content)| {
            let parsed = serde_json::from_str::<Value>(&content)
                .map_err(|error| error.to_string())
                .and_then(|value| match value {
                    Value::Object(object) => {
                        let id = match object.get("id") {
                            Some(Value::String(id)) => id.clone(),
                            _ => return Err("missing field `id`".to_string()),
                        };
                        Ok(Issue {
                            id,
                            status: text_field(&object, "status")?,
                            description: text_field(&object, "description")?,
                            design: text_field(&object, "design")?,
                            acceptance_criteria: text_field(&object, "acceptance_criteria")?,
                            notes: text_field(&object, "notes")?,
                            close_reason: text_field(&object, "close_reason")?,
                        })
                    }
                    _ => Err("expected an issue object".to_string()),
                });
            match parsed {
                Ok(issue) => IssueLine::Parsed(issue),
                Err(detail) => IssueLine::Invalid { line, detail },
            }
        })
        .collect()
}

fn errors(contracts: &str, issues: &str, crates: &str) -> Vec<String> {
    check_repository(Ok(contracts.into()), Ok(load(issues)), Ok(crates.into()))
}

#[test]
fn valid_repository_accepts_docs_only_task_without_gate_markers() {
    let issue = issue_json("closed", "This docs-only task preserves ORB-C1.", None);
    let issues = format!("{issue}\n{issue}\n");
    assert!(errors(&contracts_fixture(), &issues, &crates_fixture()).is_empty());
}

#[test]
fn deferred_proposals_and_archival_comments_are_not_current_contract_claims() {
    let issue = issue_json(
        "deferred",
        "Proposed ORB-C9 requires approval.",
        Some("Historical ORB-C8 proposal."),
    );
    assert!(errors(&contracts_fixture(), &(issue + "\n"), &crates_fixture()).is_empty());

    let issue = issue_json("open", "Preserve ORB-C1.", Some("Historical ORB-C8 proposal."));
    assert!(errors(&contracts_fixture(), &(issue + "\n"), &crates_fixture()).is_empty());

    let issue = issue_json(
        "open",
        "Proposed ORB-C9 requires approval.",
        Some("Historical ORB-C8 proposal."),
    );
    assert!(
        errors(&contracts_fixture(), &(issue + "\n"), &crates_fixture())
            .join("\n")
            .contains("unknown contract reference ORB-C9")
    );
}

#[test]
fn invalid_metadata_failures_are_reported_together() {
    let contracts = format!(
        "# Contracts\n\n## Current contracts\n\n\
         | ID | Contract | Owner | Status | Accepted proof revision | Check or evidence | Gap |\n\
         | --- | --- | --- | --- | --- | --- | --- |\n\
         | `ORB-C1` | One; see ORB-C8 | Orbit | Proved | `{COMMIT}` | canonical test | None |\n\
         | `ORB-C1` | Duplicate | Orbit | Done | `{COMMIT}` | canonical test | None |\n\
         | `ORB-X` | Malformed | Orbit | Planned | — | plan | Open |\n\
         | `ORB-C2` | Bad proof | Orbit | Proved | `edge` | — | None |\n\
         | Too | Short |\n"
    );
    let issue = issue_json("closed", "Preserve ORB-C1 and unknown ORB-C9.", None);
    let issues = issue + "\n{\n";
    let crates = "# Crates\n\n## Current decisions\n\n\
         | Boundary | Selected shape | Status | Credible alternatives | Why | Evidence |\n\
         | --- | --- | --- | --- | --- | --- |\n\
         | Runtime | Owned loop | Selected | — | Small; preserves ORB-C7 | future work |\n\
         | Renderer | Maybe | Chosen | owned code | Deferred | orb-proof |\n\
         | Too | Short |\n";

    let errors = errors(&contracts, &issues, crates).join("\n");

    assert!(errors.contains("Current contracts row 5 has the wrong column count"));
    assert!(errors.contains("duplicate contract ID ORB-C1"));
    assert!(errors.contains("malformed contract ID `ORB-X`"));
    assert!(errors.contains("invalid contract status Done"));
    assert!(errors.contains("ORB-C2 requires a full 40-character proof commit"));
    assert!(errors.contains("ORB-C2 requires a named check or evidence"));
    assert!(errors.contains("unknown contract reference ORB-C9"));
    assert!(errors.contains("docs/CONTRACTS.md: unknown contract reference ORB-C8"));
    assert!(errors.contains("docs/CRATES.md: unknown contract reference ORB-C7"));
    assert!(errors.contains("invalid issue JSON"));
    assert!(errors.contains("Current decisions row 3 has the wrong column count"));
    assert!(errors.contains("selected Runtime decision lacks an exact version or commit"));
    assert!(errors.contains("selected Runtime decision lacks credible alternatives"));
    assert!(errors.contains("selected Runtime decision lacks an existing evidence Bead"));
    assert!(errors.contains("Renderer has invalid decision status Chosen"));
}

#[test]
fn complaints_come_in_document_order() {
    let contracts = "## Current contracts\n\
        | ID | Contract | Owner | Status | Accepted proof revision | Check or evidence | Gap |\n\
        |:---|---:|:---:|---|---|---|---|\n\
        | `ORB-C3` | x | y | Planned | z | w | v |\n";
    let issue = issue_json("open", "See ORB-C10, ORB-C9 and ORB-C10 again; xORB-C4 and ORB-C5a are not references.", None);
    let got = check_repository(
        Ok(contracts.into()),
        Ok(load(&(issue + "\n\n   \n{"))),
        Err("No such file or directory (os error 2)".into()),
    );
    assert_eq!(
        got,
        vec![
            ".beads/issues.jsonl:4: invalid issue JSON: EOF while parsing an object at line 1 column 1",
            "orb-proof: unknown contract reference ORB-C10",
            "orb-proof: unknown contract reference ORB-C9",
            "docs/CRATES.md: No such file or directory (os error 2)",
            "docs/CRATES.md: missing ## Current decisions table",
        ]
    );
}

#[test]
fn table_errors_name_the_table() {
    let wrong_columns = "## Current contracts\n| ID | Contract |\n| --- | --- |\n";
    let got = check_repository(Ok(wrong_columns.into()), Ok(Vec::new()), Ok(crates_fixture()));
    assert_eq!(
        got,
        vec![
            "docs/CONTRACTS.md: ## Current contracts has unexpected columns",
            "docs/CRATES.md: selected Terminal decision lacks an existing evidence Bead",
        ]
    );
    let bad_separator = "## Current contracts\n\
        | ID | Contract | Owner | Status | Accepted proof revision | Check or evidence | Gap |\n\
        | --- | -- | --- | --- | --- | --- | --- |\n";
    let got = check_repository(Ok(bad_separator.into()), Err("unreadable".into()), Ok(String::new()));
    assert_eq!(
        got,
        vec![
            "docs/CONTRACTS.md: ## Current contracts has an invalid separator row",
            ".beads/issues.jsonl: unreadable",
            "docs/CRATES.md: missing ## Current decisions table",
        ]
    );
}

#[test]
fn escaped_bars_stay_in_their_cell_and_commits_count_as_versions() {
    let crates = "## Current decisions\r\n\
        | Boundary | Selected shape | Status | Credible alternatives | Why | Evidence |\r\n\
        | --- | --- | --- | --- | --- | --- |\r\n\
        | A \\| B | pinned at 0123456789abcdef0123456789abcdef01234567 | Selected | none yet | x | orb-proof.1 |\r\n";
    let issue = "{\"id\": \"orb-proof.1\"}\n";
    let got = check_repository(Ok(contracts_fixture()), Ok(load(issue)), Ok(crates.into()));
    assert!(got.is_empty(), "{got:?}");
}
