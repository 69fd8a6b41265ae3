use codex_addons::paths::{PathBase, StorePath};
use codex_addons::workflows::handler::{
    append_record, choose_source, concurrency, load_workflow, prepare_run, run_id_for, run_program,
    CallSource, JournalHandler, LoadHandler, ToolExposure, ToolName, WorkflowArgs, WorkflowHandler,
};
use codex_addons::workflows::journal::{
    append_journal, check_journal_room, journal_text, load_journal, record_text, JournalLine,
    JournalRecord, MAX_JOURNAL_BYTES, MAX_JOURNAL_RECORD_BYTES,
};
use codex_addons::workflows::literal::Literal;
use codex_addons::workflows::meta::{read_meta, validate_meta, WorkflowMeta, WorkflowPhase};
use codex_addons::workflows::parser::{parse, LiteralParser};
use codex_addons::workflows::runtime::{build, interpolate, RuntimeInput};
use codex_addons::workflows::store::{
    check_allowed, check_source_bytes, journal_path, load_source, parse_source, run_root, saved_path,
    validate_component, write_run_script, SourceSelection, MAX_WORKFLOW_SOURCE_BYTES,
};
use codex_addons::workflows::tools::{create_journal_tool, create_load_tool, create_workflow_tool};

#[test]
fn parses_javascript_literal_meta_and_body() {
    let parsed = parse(
        r#"export const meta = {
            name: 'review',
            description: "Review code", // shown in the permission dialog
            whenToUse: 'when asked',
            phases: [
                { title: 'Scan', detail: 'Find candidates' },
                { title: 'Verify', detail: 'Check candidates' },
            ],
        };
        phase('Scan')
        "#,
    )
    .expect("valid workflow");

    assert_eq!(parsed.meta.name, "review");
    assert_eq!(parsed.meta.phases[1].title, "Verify");
    assert!(parsed.body.contains("phase('Scan')"));
    assert_eq!(parsed.meta.description, "Review code");
    assert_eq!(parsed.meta.when_to_use.as_deref(), Some("when asked"));
    assert_eq!(parsed.meta.phases.len(), 2);
}

#[test]
fn rejects_non_literal_meta_values() {
    let error = parse("export const meta = { name: makeName(), description: 'x', phases: [] };")
        .expect_err("function call must fail");
    assert!(error.contains("pure literal"));
}

#[test]
fn rejects_duplicate_phase_titles() {
    let error = parse(
        "export const meta = { name: 'x', description: 'x', phases: [{title: 'A', detail: ''}, {title: 'A', detail: ''}] };",
    )
    .expect_err("duplicate phase must fail");
    assert!(error.contains("declared more than once"));
}

fn rejected(source: &str) -> String {
    parse(source).expect_err("the source must be rejected")
}

#[test]
fn sources_that_declare_nothing_are_rejected() {
    assert_eq!(
        rejected("const meta = {}"),
        "workflow must start with `export const meta = { ... }`"
    );
    assert_eq!(
        rejected("export const meta: {}"),
        "workflow meta declaration must assign a literal object"
    );
    assert_eq!(rejected("export const meta ="), "workflow meta literal is missing");
    assert_eq!(
        rejected("export const meta = { /* name"),
        "unterminated comment in workflow meta"
    );
    assert_eq!(
        rejected("export const meta = { name: 'x"),
        "unterminated workflow meta string"
    );
    assert_eq!(
        rejected("export const meta = { name: 'a', name: 'b' }"),
        "workflow meta contains duplicate key \"name\""
    );
    assert_eq!(
        rejected("export const meta = { 1: 'a' }"),
        "workflow meta object keys must be identifiers or strings"
    );
    assert_eq!(
        rejected("export const meta = { name 'a' }"),
        "expected ':' in workflow meta literal"
    );
}

#[test]
fn declarations_of_another_form_are_rejected() {
    assert_eq!(
        rejected("export const meta = { name: 1, description: 'x', phases: [] }"),
        "invalid workflow meta: invalid type: integer `1`, expected a string"
    );
    assert_eq!(
        rejected("export const meta = { name: 1.5, description: 'x', phases: [] }"),
        "invalid workflow meta: invalid type: floating point `1.5`, expected a string"
    );
    assert_eq!(
        rejected("export const meta = { description: 'x', phases: [] }"),
        "invalid workflow meta: missing field `name`"
    );
    assert_eq!(
        rejected("export const meta = { name: 'x', description: 'x', phases: [], other: 1 }"),
        "invalid workflow meta: unknown field `other`, expected one of `name`, `description`, `whenToUse`, `phases`"
    );
    assert_eq!(
        rejected("export const meta = { name: 'x', description: 'x', phases: [{ title: 'A' }] }"),
        "invalid workflow meta: missing field `detail`"
    );
    assert_eq!(
        rejected("export const meta = { name: 'x', description: 'x', phases: {} }"),
        "invalid workflow meta: invalid type: map, expected a sequence"
    );
    assert_eq!(
        rejected("export const meta = null"),
        "invalid workflow meta: invalid type: null, expected struct WorkflowMeta"
    );
}

#[test]
fn declarations_out_of_bounds_are_rejected() {
    assert_eq!(
        rejected("export const meta = { name: ' ', description: 'x', phases: [] }"),
        "workflow meta.name must contain 1 to 100 characters"
    );
    let long = "n".repeat(101);
    assert_eq!(
        rejected(&format!("export const meta = {{ name: '{long}', description: 'x', phases: [] }}")),
        "workflow meta.name must contain 1 to 100 characters"
    );
    assert_eq!(
        rejected("export const meta = { name: 'x', description: '', phases: [] }"),
        "workflow meta.description must contain 1 to 500 characters"
    );
    assert_eq!(
        rejected("export const meta = { name: 'x', description: 'x', phases: [{ title: '', detail: '' }] }"),
        "workflow phase titles must contain 1 to 100 characters"
    );
    let detail = "d".repeat(501);
    assert_eq!(
        rejected(&format!(
            "export const meta = {{ name: 'x', description: 'x', phases: [{{ title: 'A', detail: '{detail}' }}] }}"
        )),
        "workflow phase details cannot exceed 500 characters"
    );
    let mut phases = Vec::new();
    for place in 0..101 {
        phases.push(WorkflowPhase { title: place.to_string(), detail: String::new() });
    }
    let meta = WorkflowMeta {
        name: "x".to_string(),
        description: "x".to_string(),
        when_to_use: None,
        phases,
    };
    assert_eq!(
        validate_meta(&meta),
        Err("workflow meta.phases cannot contain more than 100 phases".to_string())
    );
}

#[test]
fn strings_are_read_with_their_escapes() {
    let mut parser = LiteralParser::new(r#""a\n\t\u0041\'\"\\\/\b\f\r\u+042" rest"#);
    assert_eq!(
        parser.parse_string(),
        Ok("a\n\tA'\"\\/\u{8}\u{c}\rB".to_string())
    );
    assert_eq!(parser.peek_char(), Some(' '));
    let mut parser = LiteralParser::new(r"'\ud800'");
    assert_eq!(
        parser.parse_string(),
        Err("invalid workflow meta unicode escape".to_string())
    );
    let mut parser = LiteralParser::new(r"'\u00");
    assert_eq!(
        parser.parse_string(),
        Err("unterminated workflow meta escape".to_string())
    );
    let mut parser = LiteralParser::new(r"'\u00ä0'");
    assert_eq!(
        parser.parse_string(),
        Err("invalid workflow meta escape".to_string())
    );
    let mut parser = LiteralParser::new(r"'\u00g0'");
    assert_eq!(
        parser.parse_string(),
        Err("invalid workflow meta unicode escape".to_string())
    );
    let mut parser = LiteralParser::new(r"'\q'");
    assert_eq!(
        parser.parse_string(),
        Err("unsupported workflow meta escape \\q".to_string())
    );
}

#[test]
fn positions_count_bytes() {
    let mut parser = LiteralParser::new("äb");
    assert_eq!(parser.position(), 0);
    assert_eq!(parser.next_char(), Some('ä'));
    assert_eq!(parser.position(), 2);
    assert!(parser.consume_char('b'));
    assert_eq!(parser.position(), 3);
    assert_eq!(parser.next_char(), None);
}

#[test]
fn written_strings_are_read_back() {
    let text = "a \"quote\", 'another', a \\, \u{1}\u{8}\t\n\u{c}\r\u{1f} and \u{1f600}";
    let written = serde_json::to_string(text).unwrap();
    let source = format!("{written}, rest");
    let mut parser = LiteralParser::new(&source);
    assert_eq!(parser.parse_string(), Ok(text.to_string()));
    assert_eq!(parser.position(), written.len());
    let mut parser = LiteralParser::new(r"'it\'s \\ and \n' rest");
    assert_eq!(parser.parse_string(), Ok("it's \\ and \n".to_string()));
    assert_eq!(parser.peek_char(), Some(' '));
}

#[test]
fn comments_and_white_space_are_skipped() {
    let mut parser = LiteralParser::new(" // one\n\n x");
    parser.skip_trivia().unwrap();
    let position = parser.position();
    parser.skip_trivia().unwrap();
    assert_eq!(parser.position(), position);
    let mut parser = LiteralParser::new(" \n// one\n/* two */ x");
    assert_eq!(parser.skip_trivia(), Ok(()));
    assert_eq!(parser.parse_identifier(), "x");
    assert!(!parser.consume_keyword("true"));
    let mut parser = LiteralParser::new("trueish");
    assert!(!parser.consume_keyword("true"));
    let mut parser = LiteralParser::new("true]");
    assert!(parser.consume_keyword("true"));
    assert_eq!(parser.expect_char('}'), Err("expected '}' in workflow meta literal".to_string()));
}

#[test]
fn numbers_are_read_as_json_reads_them() {
    let mut parser = LiteralParser::new("-12.50e1,");
    let number = parser.parse_number().expect("a number");
    assert!(number.fractional);
    assert_eq!(number.text, "-125.0");
    let mut parser = LiteralParser::new("00");
    assert_eq!(parser.parse_number(), Err("invalid workflow meta number".to_string()));
    let mut parser = LiteralParser::new("42]");
    let number = parser.parse_number().expect("a number");
    assert!(!number.fractional);
    assert_eq!(number.text, "42");
    assert_eq!(parser.peek_char(), Some(']'));
}

#[test]
fn objects_are_read_in_the_order_of_their_keys() {
    let mut parser = LiteralParser::new("{ b: [true, null,], 'a': 'x', }");
    let Ok(Literal::Object(entries)) = parser.parse_value() else {
        panic!("an object");
    };
    assert_eq!(entries[0].key, "a");
    assert_eq!(entries[0].value, Literal::Text("x".to_string()));
    assert_eq!(entries[1].key, "b");
    assert_eq!(
        entries[1].value,
        Literal::Array(vec![Literal::Bool(true), Literal::Null])
    );
    let text = Literal::Text("x".to_string());
    assert_eq!(
        read_meta(&text).unwrap_err(),
        "invalid type: string \"x\", expected struct WorkflowMeta"
    );
}

fn scan_meta() -> WorkflowMeta {
    WorkflowMeta {
        name: "quoted\"name".to_string(),
        description: "description".to_string(),
        when_to_use: None,
        phases: vec![WorkflowPhase { title: "Scan".to_string(), detail: "detail".to_string() }],
    }
}

#[test]
fn embeds_inputs_as_json_without_interpreting_source() {
    let meta = scan_meta();
    let source = build(RuntimeInput {
        run_id: "run-1",
        script_path: "/tmp/run-1.js",
        body: "log(`body ${args.value}`)",
        meta: &meta,
        args: "{\"value\":\"x\"}",
        journal: &Vec::new(),
        concurrency: 7,
    })
    .expect("runtime source");

    assert!(source.contains(r#"const __workflowName = "quoted\"name";"#));
    assert!(source.contains(r#"const __workflowBody = "log(`body ${args.value}`)";"#));
    assert!(source.contains("const __workflowConcurrency = 7;"));
    assert_eq!(source.matches("__CODEX_").count(), 0);
    assert!(source.contains("{\"value\":\"x\"}"));
}

#[test]
fn inserted_values_are_never_searched_for_markers() {
    let body = "log('__CODEX_WORKFLOW_NAME__')";
    let meta = scan_meta();
    let source = build(RuntimeInput {
        run_id: "run-1",
        script_path: "/tmp/run-1.js",
        body,
        meta: &meta,
        args: "null",
        journal: &Vec::new(),
        concurrency: 1,
    })
    .expect("runtime source");
    assert!(source.contains(body));
    assert_eq!(source.matches("__CODEX_").count(), 1);
    assert!(interpolate([("no such marker", "x")]).is_ok());
}

fn record(index: u32, value: &str) -> JournalRecord {
    JournalRecord { index, key: format!("key {index}"), value: value.to_string() }
}

fn line_of(record: JournalRecord) -> JournalLine {
    let bytes = record_text(&record).expect("a record").len();
    JournalLine::Read { bytes, record: Ok(record) }
}

#[test]
fn appended_records_are_read_back() {
    let appended = append_journal(&record(2, "{\"a\":[1]}")).expect("a line");
    assert_eq!(appended, "{\"index\":2,\"key\":\"key 2\",\"value\":{\"a\":[1]}}\n");
    let value: serde_json::Value = serde_json::from_str(&appended).expect("JSON");
    assert_eq!(value["key"], "key 2");

    let journal = load_journal(
        300,
        vec![line_of(record(0, "1")), line_of(record(2, "2")), line_of(record(0, "3"))],
    )
    .expect("a journal");
    assert_eq!(journal, vec![Some(record(0, "3")), None, Some(record(2, "2"))]);
    let shown: serde_json::Value =
        serde_json::from_str(&journal_text(&journal).expect("text")).expect("JSON");
    assert_eq!(shown.as_array().map(Vec::len), Some(3));
    assert!(shown[1].is_null());
}

#[test]
fn strings_are_embedded_as_single_literals() {
    let awkward = JournalRecord {
        index: 0,
        key: "\"\\\u{8}\t\n\u{b}\u{c}\r\u{1f}\u{7f}ä\u{2028}".to_string(),
        value: "null".to_string(),
    };
    assert_eq!(
        record_text(&awkward),
        Ok("{\"index\":0,\"key\":\"\\\"\\\\\\b\\t\\n\\u000b\\f\\r\\u001f\u{7f}ä\u{2028}\",\"value\":null}"
            .to_string())
    );
}

#[test]
fn journals_out_of_bounds_are_rejected() {
    let index = "workflow journal agent index must be below 1000".to_string();
    assert_eq!(append_journal(&record(1000, "1")), Err(index.clone()));
    assert!(append_journal(&record(999, "1")).is_ok());
    assert_eq!(load_journal(10, vec![line_of(record(1000, "1"))]), Err(index));
    let room = "workflow journal exceeds the 67108864-byte limit".to_string();
    assert_eq!(load_journal(MAX_JOURNAL_BYTES + 1, Vec::new()), Err(room.clone()));
    assert_eq!(check_journal_room(MAX_JOURNAL_BYTES, 1), Err(room));
    assert_eq!(check_journal_room(MAX_JOURNAL_BYTES - 1, 1), Ok(()));
    let size = "workflow journal record exceeds the 1048576-byte limit".to_string();
    let long = format!("\"{}\"", "x".repeat(MAX_JOURNAL_RECORD_BYTES));
    assert_eq!(append_journal(&record(0, &long)), Err(size.clone()));
    assert_eq!(
        load_journal(
            10,
            vec![JournalLine::Read {
                bytes: MAX_JOURNAL_RECORD_BYTES + 1,
                record: Ok(record(0, "1")),
            }]
        ),
        Err(size)
    );
    assert_eq!(
        load_journal(
            10,
            vec![JournalLine::Read { bytes: 3, record: Err("trailing characters".to_string()) }]
        ),
        Err("workflow journal is invalid: trailing characters".to_string())
    );
}

fn home(components: &[&str]) -> StorePath {
    StorePath {
        base: PathBase::Home,
        components: components.iter().map(|part| part.to_string()).collect(),
    }
}

fn project(components: &[&str]) -> StorePath {
    StorePath { base: PathBase::Project, ..home(components) }
}

#[test]
fn files_of_a_run_stand_in_its_directory() {
    assert_eq!(run_root("thread"), home(&["workflow-runs", "thread"]));
    assert_eq!(
        write_run_script("thread", "run-1", "x"),
        Ok(home(&["workflow-runs", "thread", "run-1.js"]))
    );
    assert_eq!(
        journal_path("thread", "run-1"),
        Ok(home(&["workflow-runs", "thread", "run-1.journal.jsonl"]))
    );
    let refused = "run ID must contain only ASCII letters, digits, `_`, or `-`".to_string();
    assert_eq!(journal_path("thread", "../run"), Err(refused.clone()));
    assert_eq!(write_run_script("thread", "", "x"), Err(refused));
    assert_eq!(validate_component("a_B-9", "run ID"), Ok(()));
    assert!(validate_component(&"a".repeat(128), "run ID").is_ok());
    assert!(validate_component(&"a".repeat(129), "run ID").is_err());
}

#[test]
fn sources_are_selected_by_name_or_path() {
    assert_eq!(
        load_source("thread", Some("audit"), None),
        Ok(SourceSelection::Saved {
            project: project(&[".codex", "workflows", "audit.js"]),
            global: home(&["workflows", "audit.js"]),
        })
    );
    assert_eq!(
        load_source("thread", None, Some("/tmp/x.js")),
        Ok(SourceSelection::Path {
            path: "/tmp/x.js".to_string(),
            roots: vec![
                home(&["workflow-runs", "thread"]),
                project(&[".codex", "workflows"]),
                home(&["workflows"]),
            ],
        })
    );
    assert_eq!(
        load_source("thread", Some("a"), Some("b")),
        Err("provide only one of name or scriptPath".to_string())
    );
    assert_eq!(
        load_source("thread", None, None),
        Err("provide name or scriptPath".to_string())
    );
    assert_eq!(
        load_source("thread", Some("a/b"), None),
        Err("workflow name must contain only ASCII letters, digits, `_`, or `-`".to_string())
    );
    let global = || home(&["workflows", "a.js"]);
    let own = || project(&[".codex", "workflows", "a.js"]);
    assert_eq!(saved_path(own(), global(), true), own());
    assert_eq!(saved_path(own(), global(), false), global());
}

fn components(path: &str) -> Vec<Vec<u8>> {
    path.split('/').map(|part| part.as_bytes().to_vec()).collect()
}

#[test]
fn only_paths_below_the_roots_are_allowed() {
    let roots = vec![None, Some(components("/home/workflows"))];
    assert_eq!(check_allowed(&components("/home/workflows/a.js"), &roots), Ok(()));
    assert!(check_allowed(&components("/home/workflows2/a.js"), &roots).is_err());
    assert_eq!(
        check_allowed(&components("/etc/passwd"), &roots),
        Err("scriptPath must be a returned workflow path or live under `.codex/workflows` or `$CODEX_HOME/workflows`".to_string())
    );
}

#[test]
fn long_sources_are_rejected() {
    let refused = "workflow source exceeds the 65536-byte limit".to_string();
    assert_eq!(check_source_bytes(MAX_WORKFLOW_SOURCE_BYTES as u64), Ok(()));
    assert_eq!(check_source_bytes(MAX_WORKFLOW_SOURCE_BYTES as u64 + 1), Err(refused.clone()));
    let long = "x".repeat(65_537);
    assert_eq!(parse_source(&long).unwrap_err(), refused);
    assert_eq!(write_run_script("thread", "run", &long), Err(refused.clone()));
    assert_eq!(
        prepare_run("thread", &long, "run".to_string()).unwrap_err(),
        refused
    );
}

const SCRIPT: &str = "export const meta = {
  name: 'background-check',
  description: 'Exercise the workflow runtime',
  phases: [{ title: 'Wait', detail: 'Remain live after yielding' }],
}
phase('Wait')
await new Promise(() => {})
";

#[test]
fn workflow_tool_persists_script_and_returns_background_task_immediately() {
    let run_id = run_id_for(&None);
    let run = prepare_run("thread", SCRIPT, run_id.clone()).expect("a run");
    assert_eq!(run.meta.name, "background-check");
    assert_eq!(
        run.script,
        home(&["workflow-runs", "thread", &format!("{run_id}.js")])
    );
    let program =
        run_program(&run, "/home/run.js", &None, &Vec::new(), Some(8)).expect("a program");
    assert!(program.contains("\"background-check\""));
    assert!(program.contains("/home/run.js"));
    assert!(program.contains(&run_id));
    assert!(program.contains("const __workflowConcurrency = 6;"));
}

#[test]
fn a_call_has_one_source() {
    let call = |script: Option<&str>, name: Option<&str>| WorkflowArgs {
        script: script.map(str::to_string),
        script_path: None,
        name: name.map(str::to_string),
        args: None,
        resume_from_run_id: None,
    };
    assert_eq!(
        choose_source("thread", &call(Some("x"), None)),
        Ok(CallSource::Inline("x".to_string()))
    );
    assert!(matches!(
        choose_source("thread", &call(None, Some("audit"))),
        Ok(CallSource::Stored(SourceSelection::Saved { .. }))
    ));
    assert!(choose_source("thread", &call(Some("x"), Some("audit"))).is_err());
    assert!(choose_source("thread", &call(None, None)).is_err());
}

#[test]
fn runs_are_resumed_under_their_own_id() {
    assert_eq!(run_id_for(&Some("run-7".to_string())), "run-7");
    let fresh = run_id_for(&None);
    assert_eq!(fresh.len(), 36);
    assert_eq!(fresh.as_bytes()[14], b'4');
    assert_ne!(fresh, run_id_for(&None));
}

#[test]
fn agents_at_a_time_are_capped() {
    assert_eq!(concurrency(Some(64)), 16);
    assert_eq!(concurrency(Some(18)), 16);
    assert_eq!(concurrency(Some(10)), 8);
    assert_eq!(concurrency(Some(2)), 1);
    assert_eq!(concurrency(Some(1)), 1);
    assert_eq!(concurrency(None), 1);
}

#[test]
fn nested_workflows_are_loaded_as_json() {
    let loaded = load_workflow(SCRIPT).expect("a workflow");
    let value: serde_json::Value = serde_json::from_str(&loaded).expect("JSON");
    assert_eq!(value["meta"]["name"], "background-check");
    assert!(value["meta"]["whenToUse"].is_null());
    assert!(value["body"].as_str().is_some_and(|body| body.contains("phase('Wait')")));
    assert!(load_workflow("log('x')").is_err());
}

#[test]
fn records_are_appended_to_the_journal_of_their_run() {
    let (path, line) = append_record("thread", "run-1", &record(1, "true")).expect("a line");
    assert_eq!(path, home(&["workflow-runs", "thread", "run-1.journal.jsonl"]));
    assert_eq!(line, "{\"index\":1,\"key\":\"key 1\",\"value\":true}\n");
    assert!(append_record("thread", "a b", &record(1, "true")).is_err());
}

#[test]
fn tools_are_exposed_where_they_belong() {
    let handler = WorkflowHandler::new();
    assert_eq!(handler.tool_name().name, "workflow");
    assert_eq!(handler.exposure(), ToolExposure::DirectModelOnly);
    assert_eq!(handler.spec, create_workflow_tool());
    assert_eq!(JournalHandler.exposure(), ToolExposure::CodeModeOnly);
    assert_eq!(JournalHandler.spec(), create_journal_tool());
    assert_eq!(LoadHandler.exposure(), ToolExposure::CodeModeOnly);
    assert_eq!(LoadHandler.spec(), create_load_tool());
    assert_eq!(LoadHandler.tool_name().namespace, None);
    let nested = |namespace: Option<&str>, name: &str| {
        WorkflowHandler::supports_nested_tool(&ToolName {
            namespace: namespace.map(str::to_string),
            name: name.to_string(),
        })
    };
    assert!(nested(None, "spawn_agent"));
    assert!(nested(Some("collaboration"), "spawn_agent"));
    assert!(!nested(Some("other"), "spawn_agent"));
    assert!(!nested(None, "shell"));
}
