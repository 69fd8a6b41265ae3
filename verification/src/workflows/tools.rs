//! The tools that workflows are run through, as the model and the runtime see them.

use vstd::prelude::*;
use crate::text;

verus! {

/// The tool that runs a workflow.
pub const PUBLIC_TOOL_NAME: &'static str = "workflow";

/// The tool that the runtime records results with.
pub const JOURNAL_TOOL_NAME: &'static str = "workflow_journal_append";

/// The tool that the runtime loads a nested workflow with.
pub const LOAD_TOOL_NAME: &'static str = "workflow_load";

/// The type of a tool's parameter.
#[derive(Clone, Copy, Debug, PartialEq, Eq, Structural)]
pub enum ParameterType {
    Text,
    Integer,
    /// Any JSON value.
    Any,
}

/// A parameter of a tool.
#[derive(Debug, PartialEq, Eq)]
pub struct Parameter {
    pub name: String,
    pub kind: ParameterType,
    pub description: Option<String>,
}

/// A tool: its name, what it is for, and its parameters in the order of their names. No other
/// parameter is accepted where `additional_properties` is false.
#[derive(Debug, PartialEq, Eq)]
pub struct ToolSpec {
    pub name: String,
    pub description: String,
    pub strict: bool,
    pub parameters: Vec<Parameter>,
    pub required: Option<Vec<String>>,
    pub additional_properties: bool,
}

/// The view of a parameter.
#[verifier::ext_equal]
pub struct ParameterView {
    pub name: Seq<char>,
    pub kind: ParameterType,
    pub description: Option<Seq<char>>,
}

/// The view of a tool.
#[verifier::ext_equal]
pub struct ToolView {
    pub name: Seq<char>,
    pub description: Seq<char>,
    pub strict: bool,
    pub parameters: Seq<ParameterView>,
    pub required: Option<Seq<Seq<char>>>,
    pub additional_properties: bool,
}

impl View for Parameter {
    type V = ParameterView;

    open spec fn view(&self) -> ParameterView {
        ParameterView {
            name: self.name@,
            kind: self.kind,
            description: text::opt_view(self.description),
        }
    }
}

impl View for ToolSpec {
    type V = ToolView;

    open spec fn view(&self) -> ToolView {
        ToolView {
            name: self.name@,
            description: self.description@,
            strict: self.strict,
            parameters: self.parameters@.map_values(|parameter: Parameter| parameter@),
            required: match self.required {
                Some(required) => Some(text::views(required@)),
                None => None,
            },
            additional_properties: self.additional_properties,
        }
    }
}

fn parameter(name: &str, kind: ParameterType, description: Option<&str>) -> (res: Parameter)
    ensures
        res@.name == name@,
        res@.kind == kind,
        match description {
            Some(description) => res@.description == Some(description@),
            None => res@.description is None,
        },
{
    Parameter {
        name: name.to_string(),
        kind,
        description: match description {
            Some(description) => Some(description.to_string()),
            None => None,
        },
    }
}

/// The public tool.
pub open spec fn workflow_tool() -> ToolView {
    ToolView {
        name: PUBLIC_TOOL_NAME@,
        description: "Run a deterministic JavaScript program that coordinates Codex subagents. The call yields immediately with a task ID and script path, then posts progress and completion notifications. Use only after explicit user opt-in: a direct workflow/fan-out request or a named saved workflow."@,
        strict: false,
        parameters: seq![
            ParameterView {
                name: "args"@,
                kind: ParameterType::Any,
                description: Some("Any real JSON value passed to the workflow as `args`."@),
            },
            ParameterView {
                name: "name"@,
                kind: ParameterType::Text,
                description: Some(
                    "The name of a saved workflow in `.codex/workflows` or `$CODEX_HOME/workflows`."@,
                ),
            },
            ParameterView {
                name: "resumeFromRunId"@,
                kind: ParameterType::Text,
                description: Some(
                    "Resume a prior run. The longest unchanged prefix of `agent()` calls is restored from its journal."@,
                ),
            },
            ParameterView {
                name: "script"@,
                kind: ParameterType::Text,
                description: Some(
                    "A plain JavaScript workflow beginning with a pure-literal `export const meta = { ... }`."@,
                ),
            },
            ParameterView {
                name: "scriptPath"@,
                kind: ParameterType::Text,
                description: Some(
                    "A path returned by an earlier workflow call, or a saved workflow path under `.codex/workflows` or `$CODEX_HOME/workflows`."@,
                ),
            },
        ],
        required: None,
        additional_properties: false,
    }
}

/// Describes the tool that runs a workflow.
pub fn create_workflow_tool() -> (res: ToolSpec)
    ensures
        res@ == workflow_tool(),
{
    let parameters = vec![
        parameter(
            "args",
            ParameterType::Any,
            Some("Any real JSON value passed to the workflow as `args`."),
        ),
        parameter(
            "name",
            ParameterType::Text,
            Some("The name of a saved workflow in `.codex/workflows` or `$CODEX_HOME/workflows`."),
        ),
        parameter(
            "resumeFromRunId",
            ParameterType::Text,
            Some(
                "Resume a prior run. The longest unchanged prefix of `agent()` calls is restored from its journal.",
            ),
        ),
        parameter(
            "script",
            ParameterType::Text,
            Some(
                "A plain JavaScript workflow beginning with a pure-literal `export const meta = { ... }`.",
            ),
        ),
        parameter(
            "scriptPath",
            ParameterType::Text,
            Some(
                "A path returned by an earlier workflow call, or a saved workflow path under `.codex/workflows` or `$CODEX_HOME/workflows`.",
            ),
        ),
    ];
    let tool = ToolSpec {
        name: PUBLIC_TOOL_NAME.to_string(),
        description: "Run a deterministic JavaScript program that coordinates Codex subagents. The call yields immediately with a task ID and script path, then posts progress and completion notifications. Use only after explicit user opt-in: a direct workflow/fan-out request or a named saved workflow.".to_string(),
        strict: false,
        parameters,
        required: None,
        additional_properties: false,
    };
    assert(tool@ =~= workflow_tool());
    tool
}

/// The tool that records a result.
pub open spec fn journal_tool() -> ToolView {
    ToolView {
        name: JOURNAL_TOOL_NAME@,
        description: "Internal workflow runtime hook for persisting completed agent calls."@,
        strict: false,
        parameters: seq![
            ParameterView { name: "index"@, kind: ParameterType::Integer, description: None },
            ParameterView { name: "key"@, kind: ParameterType::Text, description: None },
            ParameterView { name: "runId"@, kind: ParameterType::Text, description: None },
            ParameterView { name: "value"@, kind: ParameterType::Any, description: None },
        ],
        required: Some(seq!["runId"@, "index"@, "key"@, "value"@]),
        additional_properties: false,
    }
}

/// Describes the tool that records a result.
pub fn create_journal_tool() -> (res: ToolSpec)
    ensures
        res@ == journal_tool(),
{
    let parameters = vec![
        parameter("index", ParameterType::Integer, None),
        parameter("key", ParameterType::Text, None),
        parameter("runId", ParameterType::Text, None),
        parameter("value", ParameterType::Any, None),
    ];
    let required = vec![
        "runId".to_string(),
        "index".to_string(),
        "key".to_string(),
        "value".to_string(),
    ];
    let tool = ToolSpec {
        name: JOURNAL_TOOL_NAME.to_string(),
        description: "Internal workflow runtime hook for persisting completed agent calls.".to_string(),
        strict: false,
        parameters,
        required: Some(required),
        additional_properties: false,
    };
    assert(text::views(required@) =~= seq!["runId"@, "index"@, "key"@, "value"@]);
    assert(tool@ =~= journal_tool());
    tool
}

/// The tool that loads a nested workflow.
pub open spec fn load_tool() -> ToolView {
    ToolView {
        name: LOAD_TOOL_NAME@,
        description: "Internal workflow runtime hook for loading one nested saved workflow."@,
        strict: false,
        parameters: seq![
            ParameterView { name: "name"@, kind: ParameterType::Text, description: None },
            ParameterView { name: "scriptPath"@, kind: ParameterType::Text, description: None },
        ],
        required: None,
        additional_properties: false,
    }
}

/// Describes the tool that loads a nested workflow.
pub fn create_load_tool() -> (res: ToolSpec)
    ensures
        res@ == load_tool(),
{
    let parameters = vec![
        parameter("name", ParameterType::Text, None),
        parameter("scriptPath", ParameterType::Text, None),
    ];
    let tool = ToolSpec {
        name: LOAD_TOOL_NAME.to_string(),
        description: "Internal workflow runtime hook for loading one nested saved workflow.".to_string(),
        strict: false,
        parameters,
        required: None,
        additional_properties: false,
    };
    assert(tool@ =~= load_tool());
    tool
}

} // verus!
