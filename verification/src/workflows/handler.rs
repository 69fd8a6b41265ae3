//! The calls of the workflow tools: what each asks for, and what a run is made of.

use vstd::prelude::*;
use crate::ids;
use crate::paths;
use crate::paths::{PathView, StorePath};
use crate::text;
use crate::workflows::journal;
use crate::workflows::journal::JournalRecord;
use crate::workflows::meta;
use crate::workflows::meta::{MetaView, PhaseView, WorkflowMeta, WorkflowPhase};
use crate::workflows::parser;
use crate::workflows::runtime;
use crate::workflows::runtime::RuntimeInput;
use crate::workflows::store;
use crate::workflows::store::{SelectionView, SourceSelection};
use crate::workflows::tools;
use crate::workflows::tools::ToolSpec;

verus! {

/// Who may call a tool.
#[derive(Clone, Copy, Debug, PartialEq, Eq, Structural)]
pub enum ToolExposure {
    DirectModelOnly,
    CodeModeOnly,
}

/// A tool's name, with the namespace it stands in.
#[derive(Debug, PartialEq, Eq)]
pub struct ToolName {
    pub namespace: Option<String>,
    pub name: String,
}

/// The view of a tool's name.
#[verifier::ext_equal]
pub struct ToolNameView {
    pub namespace: Option<Seq<char>>,
    pub name: Seq<char>,
}

impl View for ToolName {
    type V = ToolNameView;

    open spec fn view(&self) -> ToolNameView {
        ToolNameView { namespace: text::opt_view(self.namespace), name: self.name@ }
    }
}

/// The name of a tool in no namespace.
fn plain_name(name: &str) -> (res: ToolName)
    ensures
        res@ == (ToolNameView { namespace: None, name: name@ }),
{
    ToolName { namespace: None, name: name.to_string() }
}

/// Whether a tool may be called from a workflow.
pub open spec fn is_nested_tool(tool: ToolNameView) -> bool {
    (tool.namespace is None || tool.namespace == Some("collaboration"@)) && (tool.name
        == "spawn_agent"@ || tool.name == "list_agents"@ || tool.name == "followup_task"@
        || tool.name == tools::JOURNAL_TOOL_NAME@ || tool.name == tools::LOAD_TOOL_NAME@)
}

/// Runs workflows.
#[derive(Debug, PartialEq, Eq)]
pub struct WorkflowHandler {
    pub spec: ToolSpec,
}

impl WorkflowHandler {
    /// A handler for the public tool.
    pub fn new() -> (res: Self)
        ensures
            res.spec@ == tools::workflow_tool(),
    {
        WorkflowHandler { spec: tools::create_workflow_tool() }
    }

    /// Whether a tool may be called from a workflow.
    pub fn supports_nested_tool(tool_name: &ToolName) -> (res: bool)
        ensures
            res == is_nested_tool(tool_name@),
    {
        let in_reach = match &tool_name.namespace {
            None => true,
            Some(namespace) => text::same_text(namespace.as_str(), "collaboration"),
        };
        let name = tool_name.name.as_str();
        in_reach && (text::same_text(name, "spawn_agent") || text::same_text(name, "list_agents")
            || text::same_text(name, "followup_task") || text::same_text(
            name,
            tools::JOURNAL_TOOL_NAME,
        ) || text::same_text(name, tools::LOAD_TOOL_NAME))
    }

    pub fn tool_name(&self) -> (res: ToolName)
        ensures
            res@ == (ToolNameView { namespace: None, name: tools::PUBLIC_TOOL_NAME@ }),
    {
        plain_name(tools::PUBLIC_TOOL_NAME)
    }

    pub fn exposure(&self) -> (res: ToolExposure)
        ensures
            res == ToolExposure::DirectModelOnly,
    {
        ToolExposure::DirectModelOnly
    }
}

/// Records the results of a run's agents.
#[derive(Debug, PartialEq, Eq)]
pub struct JournalHandler;

impl JournalHandler {
    pub fn tool_name(&self) -> (res: ToolName)
        ensures
            res@ == (ToolNameView { namespace: None, name: tools::JOURNAL_TOOL_NAME@ }),
    {
        plain_name(tools::JOURNAL_TOOL_NAME)
    }

    pub fn spec(&self) -> (res: ToolSpec)
        ensures
            res@ == tools::journal_tool(),
    {
        tools::create_journal_tool()
    }

    pub fn exposure(&self) -> (res: ToolExposure)
        ensures
            res == ToolExposure::CodeModeOnly,
    {
        ToolExposure::CodeModeOnly
    }
}

/// Loads nested workflows.
#[derive(Debug, PartialEq, Eq)]
pub struct LoadHandler;

impl LoadHandler {
    pub fn tool_name(&self) -> (res: ToolName)
        ensures
            res@ == (ToolNameView { namespace: None, name: tools::LOAD_TOOL_NAME@ }),
    {
        plain_name(tools::LOAD_TOOL_NAME)
    }

    pub fn spec(&self) -> (res: ToolSpec)
        ensures
            res@ == tools::load_tool(),
    {
        tools::create_load_tool()
    }

    pub fn exposure(&self) -> (res: ToolExposure)
        ensures
            res == ToolExposure::CodeModeOnly,
    {
        ToolExposure::CodeModeOnly
    }
}

/// The arguments of a call of the public tool. `args` is a JSON value, as text.
#[derive(Debug, PartialEq, Eq)]
pub struct WorkflowArgs {
    pub script: Option<String>,
    pub script_path: Option<String>,
    pub name: Option<String>,
    pub args: Option<String>,
    pub resume_from_run_id: Option<String>,
}

/// Where the source of a call comes from.
#[derive(Debug, PartialEq, Eq)]
pub enum CallSource {
    /// The call holds it.
    Inline(String),
    /// It has to be loaded.
    Stored(SourceSelection),
}

/// The view of a call's source.
pub enum CallSourceView {
    Inline(Seq<char>),
    Stored(SelectionView),
}

impl View for CallSource {
    type V = CallSourceView;

    open spec fn view(&self) -> CallSourceView {
        match self {
            CallSource::Inline(source) => CallSourceView::Inline(source@),
            CallSource::Stored(selection) => CallSourceView::Stored(selection@),
        }
    }
}

/// How many of its three sources a call names.
pub open spec fn source_count(args: WorkflowArgs) -> int {
    (if args.script is Some { 1int } else { 0 }) + (if args.script_path is Some { 1int } else { 0 })
        + (if args.name is Some { 1int } else { 0 })
}

/// Where the source of a call comes from, or why the call is refused.
pub open spec fn call_source(thread_id: Seq<char>, args: WorkflowArgs) -> Result<
    CallSourceView,
    Seq<char>,
> {
    if source_count(args) != 1 {
        Err("provide exactly one of script, scriptPath, or name"@)
    } else {
        match args.script {
            Some(script) => Ok(CallSourceView::Inline(script@)),
            None => match store::source_selection(
                thread_id,
                text::opt_view(args.name),
                text::opt_view(args.script_path),
            ) {
                Ok(selection) => Ok(CallSourceView::Stored(selection)),
                Err(message) => Err(message),
            },
        }
    }
}

fn opt_str(text: &Option<String>) -> (res: Option<&str>)
    ensures
        store::opt_str_view(res) == text::opt_view(*text),
{
    match text {
        Some(text) => Some(text.as_str()),
        None => None,
    }
}

/// Decides where the source of a call comes from.
pub fn choose_source(thread_id: &str, args: &WorkflowArgs) -> (res: Result<CallSource, String>)
    ensures
        match res {
            Ok(source) => call_source(thread_id@, *args) == Ok::<CallSourceView, Seq<char>>(source@),
            Err(message) => call_source(thread_id@, *args) == Err::<CallSourceView, Seq<char>>(
                message@,
            ),
        },
{
    let mut count: usize = 0;
    if args.script.is_some() {
        count = count + 1;
    }
    if args.script_path.is_some() {
        count = count + 1;
    }
    if args.name.is_some() {
        count = count + 1;
    }
    if count != 1 {
        return Err("provide exactly one of script, scriptPath, or name".to_string());
    }
    match &args.script {
        Some(script) => Ok(CallSource::Inline(script.clone())),
        None => match store::load_source(
            thread_id,
            opt_str(&args.name),
            opt_str(&args.script_path),
        ) {
            Ok(selection) => Ok(CallSource::Stored(selection)),
            Err(message) => Err(message),
        },
    }
}

/// The identifier of a run: the one that is resumed, else a fresh one.
pub fn run_id_for(resume_from_run_id: &Option<String>) -> (res: String)
    ensures
        match resume_from_run_id {
            Some(run_id) => res@ == run_id@,
            None => ids::is_uuid_of_version(res@, 4) && ids::is_hyphenated_uuid(res@),
        },
{
    match resume_from_run_id {
        Some(run_id) => run_id.clone(),
        None => ids::fresh_run_id(),
    }
}

/// A run before its script is written and its journal is read.
#[derive(Debug, PartialEq, Eq)]
pub struct PreparedRun {
    pub run_id: String,
    pub meta: WorkflowMeta,
    pub body: String,
    pub script: StorePath,
    pub journal: StorePath,
}

/// The view of a prepared run.
#[verifier::ext_equal]
pub struct PreparedView {
    pub run_id: Seq<char>,
    pub meta: MetaView,
    pub body: Seq<char>,
    pub script: PathView,
    pub journal: PathView,
}

impl View for PreparedRun {
    type V = PreparedView;

    open spec fn view(&self) -> PreparedView {
        PreparedView {
            run_id: self.run_id@,
            meta: self.meta@,
            body: self.body@,
            script: self.script@,
            journal: self.journal@,
        }
    }
}

/// What a run of a source is made of, or why the source or the identifier is refused.
pub open spec fn prepared_run(thread_id: Seq<char>, source: Seq<char>, run_id: Seq<char>) -> Result<
    PreparedView,
    Seq<char>,
> {
    if text::byte_length(source) > store::MAX_WORKFLOW_SOURCE_BYTES {
        Err("workflow source exceeds the 65536-byte limit"@)
    } else {
        match parser::workflow(source) {
            Err(message) => Err(message),
            Ok((declared, body)) => if paths::is_component(run_id) {
                Ok(
                    PreparedView {
                        run_id,
                        meta: declared,
                        body,
                        script: store::run_root_path(thread_id).join(run_id + ".js"@),
                        journal: store::run_root_path(thread_id).join(run_id + ".journal.jsonl"@),
                    },
                )
            } else {
                Err(paths::component_message("run ID"@))
            },
        }
    }
}

/// Prepares the run `run_id` of a source.
pub fn prepare_run(thread_id: &str, source: &str, run_id: String) -> (res: Result<
    PreparedRun,
    String,
>)
    ensures
        match res {
            Ok(run) => prepared_run(thread_id@, source@, run_id@) == Ok::<PreparedView, Seq<char>>(
                run@,
            ),
            Err(message) => prepared_run(thread_id@, source@, run_id@) == Err::<
                PreparedView,
                Seq<char>,
            >(message@),
        },
{
    let parsed = match store::parse_source(source) {
        Ok(parsed) => parsed,
        Err(message) => {
            return Err(message);
        },
    };
    let script = match store::write_run_script(thread_id, run_id.as_str(), source) {
        Ok(script) => script,
        Err(message) => {
            return Err(message);
        },
    };
    let journal = match store::journal_path(thread_id, run_id.as_str()) {
        Ok(journal) => journal,
        Err(message) => {
            return Err(message);
        },
    };
    Ok(PreparedRun { run_id, meta: parsed.meta, body: parsed.body, script, journal })
}

/// How many agents may run at once: two fewer than the processors, at least one and at most sixteen.
/// Where the number of processors is not known, it is taken to be two.
pub open spec fn agent_limit(parallelism: Option<usize>) -> int {
    let processors = match parallelism {
        Some(processors) => processors as int,
        None => 2,
    };
    if processors - 2 < 1 {
        1
    } else if processors - 2 > 16 {
        16
    } else {
        processors - 2
    }
}

/// How many agents may run at once.
pub fn concurrency(parallelism: Option<usize>) -> (res: usize)
    ensures
        res == agent_limit(parallelism),
{
    let processors: usize = match parallelism {
        Some(processors) => processors,
        None => 2,
    };
    let free: usize = if processors >= 2 {
        processors - 2
    } else {
        0
    };
    if free < 1 {
        1
    } else if free > 16 {
        16
    } else {
        free
    }
}

/// Builds the program of a prepared run, once its script is written and its journal is read. A call
/// without arguments passes `null`.
pub fn run_program(
    run: &PreparedRun,
    script_path: &str,
    args: &Option<String>,
    journal: &Vec<Option<JournalRecord>>,
    parallelism: Option<usize>,
) -> (res: Result<String, String>)
    ensures
        res is Ok,
        res->Ok_0@ == runtime::substitute(
            runtime::WORKFLOW_RUNTIME@,
            runtime::runtime_replacements(
                run@.run_id,
                script_path@,
                run@.body,
                run@.meta,
                match args {
                    Some(args) => args@,
                    None => "null"@,
                },
                journal::journal_view(journal@),
                agent_limit(parallelism),
            ),
            0,
        ),
{
    let args = match args {
        Some(args) => args.as_str(),
        None => "null",
    };
    let limit = concurrency(parallelism);
    runtime::build(
        RuntimeInput {
            run_id: run.run_id.as_str(),
            script_path,
            body: run.body.as_str(),
            meta: &run.meta,
            args,
            journal,
            concurrency: limit,
        },
    )
}

/// A phase as a JSON object, its keys in order.
pub open spec fn phase_json(phase: PhaseView) -> Seq<char> {
    "{\"detail\":"@ + runtime::json_string(phase.detail) + ",\"title\":"@ + runtime::json_string(
        phase.title,
    ) + "}"@
}

/// A declaration as a JSON object, its keys in order.
pub open spec fn meta_json(declared: MetaView) -> Seq<char> {
    "{\"description\":"@ + runtime::json_string(declared.description) + ",\"name\":"@
        + runtime::json_string(declared.name) + ",\"phases\":["@ + text::separated(
        declared.phases.map_values(|phase: PhaseView| phase_json(phase)),
        ","@,
    ) + "],\"whenToUse\":"@ + (match declared.when_to_use {
        Some(content) => runtime::json_string(content),
        None => "null"@,
    }) + "}"@
}

/// What the load tool answers: the declaration and the body.
pub open spec fn loaded_json(declared: MetaView, body: Seq<char>) -> Seq<char> {
    "{\"body\":"@ + runtime::json_string(body) + ",\"meta\":"@ + meta_json(declared) + "}"@
}

fn phase_text(phase: &WorkflowPhase) -> (res: Result<String, String>)
    ensures
        res is Ok,
        res->Ok_0@ == phase_json(phase@),
{
    let detail = runtime::json(phase.detail.as_str())?;
    let title = runtime::json(phase.title.as_str())?;
    let mut out = text::joined3("{\"detail\":", detail.as_str(), ",\"title\":");
    out.append(title.as_str());
    out.append("}");
    Ok(out)
}

fn phase_texts(phases: &Vec<WorkflowPhase>) -> (res: Result<String, String>)
    ensures
        res is Ok,
        res->Ok_0@ == text::separated(
            meta::phase_views(phases@).map_values(|phase: PhaseView| phase_json(phase)),
            ","@,
        ),
{
    let ghost all = meta::phase_views(phases@).map_values(|phase: PhaseView| phase_json(phase));
    let mut texts: Vec<String> = Vec::new();
    let mut i: usize = 0;
    while i < phases.len()
        invariant
            i <= phases@.len(),
            all == meta::phase_views(phases@).map_values(|phase: PhaseView| phase_json(phase)),
            text::views(texts@) == all.take(i as int),
        decreases phases@.len() - i,
    {
        let content = phase_text(&phases[i])?;
        let ghost before = texts@;
        texts.push(content);
        i = i + 1;
        assert(text::views(texts@) == text::views(before).push(content@));
        assert(all.take(i as int) == all.take(i - 1).push(all[i - 1]));
    }
    assert(all.take(i as int) == all);
    Ok(text::join(&texts, ","))
}

fn meta_text(declared: &WorkflowMeta) -> (res: Result<String, String>)
    ensures
        res is Ok,
        res->Ok_0@ == meta_json(declared@),
{
    let description = runtime::json(declared.description.as_str())?;
    let name = runtime::json(declared.name.as_str())?;
    let phases = phase_texts(&declared.phases)?;
    let when_to_use = match &declared.when_to_use {
        Some(content) => runtime::json(content.as_str())?,
        None => "null".to_string(),
    };
    let mut out = text::joined3("{\"description\":", description.as_str(), ",\"name\":");
    out.append(name.as_str());
    out.append(",\"phases\":[");
    out.append(phases.as_str());
    out.append("],\"whenToUse\":");
    out.append(when_to_use.as_str());
    out.append("}");
    Ok(out)
}

/// Answers a call of the load tool with the workflow in `source`.
pub fn load_workflow(source: &str) -> (res: Result<String, String>)
    ensures
        parser::text_outcome(res) == (if text::byte_length(source@)
            > store::MAX_WORKFLOW_SOURCE_BYTES {
            Err("workflow source exceeds the 65536-byte limit"@)
        } else {
            match parser::workflow(source@) {
                Ok((declared, body)) => Ok(loaded_json(declared, body)),
                Err(message) => Err(message),
            }
        }),
{
    let parsed = match store::parse_source(source) {
        Ok(parsed) => parsed,
        Err(message) => {
            return Err(message);
        },
    };
    let body = runtime::json(parsed.body.as_str())?;
    let declared = meta_text(&parsed.meta)?;
    let mut out = text::joined3("{\"body\":", body.as_str(), ",\"meta\":");
    out.append(declared.as_str());
    out.append("}");
    Ok(out)
}

/// What a call of the journal tool appends, and where.
pub fn append_record(thread_id: &str, run_id: &str, record: &JournalRecord) -> (res: Result<
    (StorePath, String),
    String,
>)
    ensures
        match res {
            Ok((path, line)) => store::journal_location(thread_id@, run_id@) == Ok::<
                PathView,
                Seq<char>,
            >(path@) && journal::appended_line(record@) == Ok::<Seq<char>, Seq<char>>(line@),
            Err(message) => match store::journal_location(thread_id@, run_id@) {
                Err(refused) => message@ == refused,
                Ok(_) => journal::appended_line(record@) == Err::<Seq<char>, Seq<char>>(message@),
            },
        },
{
    let path = match store::journal_path(thread_id, run_id) {
        Ok(path) => path,
        Err(message) => {
            return Err(message);
        },
    };
    match journal::append_journal(record) {
        Ok(line) => Ok((path, line)),
        Err(message) => Err(message),
    }
}

} // verus!
