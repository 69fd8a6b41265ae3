//! Where workflows and their runs are kept, and which sources may be run.

use vstd::prelude::*;
use crate::paths;
use crate::paths::{PathBase, PathView, StorePath};
use crate::text;
use crate::workflows::parser;
use crate::workflows::parser::ParsedWorkflow;

verus! {

/// How long a workflow's source may be.
pub const MAX_WORKFLOW_SOURCE_BYTES: usize = 65536;

/// Where the runs of a thread are kept.
pub open spec fn run_root_path(thread_id: Seq<char>) -> PathView {
    PathView { base: PathBase::Home, components: seq!["workflow-runs"@, thread_id] }
}

/// Where a project keeps its workflows.
pub open spec fn project_root_path() -> PathView {
    PathView { base: PathBase::Project, components: seq![".codex"@, "workflows"@] }
}

/// Where the workflows of every project are kept.
pub open spec fn global_root_path() -> PathView {
    PathView { base: PathBase::Home, components: seq!["workflows"@] }
}

/// The directory of a thread's runs.
pub fn run_root(thread_id: &str) -> (res: StorePath)
    ensures
        res@ == run_root_path(thread_id@),
{
    StorePath::at(PathBase::Home).join("workflow-runs".to_string()).join(thread_id.to_string())
}

fn project_root() -> (res: StorePath)
    ensures
        res@ == project_root_path(),
{
    StorePath::at(PathBase::Project).join(".codex".to_string()).join("workflows".to_string())
}

fn global_root() -> (res: StorePath)
    ensures
        res@ == global_root_path(),
{
    StorePath::at(PathBase::Home).join("workflows".to_string())
}

/// Checks that a text may stand as a component of a path.
pub fn validate_component(value: &str, label: &str) -> (res: Result<(), String>)
    ensures
        match res {
            Ok(_) => paths::is_component(value@),
            Err(message) => !paths::is_component(value@) && message@ == paths::component_message(label@),
        },
{
    if paths::is_valid_component(value) {
        Ok(())
    } else {
        Err(text::joined(label, " must contain only ASCII letters, digits, `_`, or `-`"))
    }
}

/// The view of a path, or the message.
pub open spec fn path_outcome(res: Result<StorePath, String>) -> Result<PathView, Seq<char>> {
    match res {
        Ok(path) => Ok(path@),
        Err(message) => Err(message@),
    }
}

/// Where the journal of a run is kept.
pub open spec fn journal_location(thread_id: Seq<char>, run_id: Seq<char>) -> Result<
    PathView,
    Seq<char>,
> {
    if paths::is_component(run_id) {
        Ok(run_root_path(thread_id).join(run_id + ".journal.jsonl"@))
    } else {
        Err(paths::component_message("run ID"@))
    }
}

/// The path of a run's journal.
pub fn journal_path(thread_id: &str, run_id: &str) -> (res: Result<StorePath, String>)
    ensures
        path_outcome(res) == journal_location(thread_id@, run_id@),
{
    match validate_component(run_id, "run ID") {
        Ok(_) => Ok(run_root(thread_id).join(text::joined(run_id, ".journal.jsonl"))),
        Err(message) => Err(message),
    }
}

/// Checks the length of a source.
pub fn check_source_bytes(bytes: u64) -> (res: Result<(), String>)
    ensures
        match res {
            Ok(_) => bytes <= MAX_WORKFLOW_SOURCE_BYTES,
            Err(message) => bytes > MAX_WORKFLOW_SOURCE_BYTES && message@
                == "workflow source exceeds the 65536-byte limit"@,
        },
{
    if bytes > MAX_WORKFLOW_SOURCE_BYTES as u64 {
        return Err("workflow source exceeds the 65536-byte limit".to_string());
    }
    Ok(())
}

/// Where the script of a run is kept, for a source that is not too long.
pub open spec fn run_script_location(
    thread_id: Seq<char>,
    run_id: Seq<char>,
    source: Seq<char>,
) -> Result<PathView, Seq<char>> {
    if !paths::is_component(run_id) {
        Err(paths::component_message("run ID"@))
    } else if text::byte_length(source) > MAX_WORKFLOW_SOURCE_BYTES {
        Err("workflow source exceeds the 65536-byte limit"@)
    } else {
        Ok(run_root_path(thread_id).join(run_id + ".js"@))
    }
}

/// The path that a run's script is to be written to.
pub fn write_run_script(thread_id: &str, run_id: &str, source: &str) -> (res: Result<
    StorePath,
    String,
>)
    ensures
        path_outcome(res) == run_script_location(thread_id@, run_id@, source@),
{
    match validate_component(run_id, "run ID") {
        Ok(_) => {},
        Err(message) => {
            return Err(message);
        },
    }
    match check_source_bytes(text::byte_len(source) as u64) {
        Ok(_) => {},
        Err(message) => {
            return Err(message);
        },
    }
    Ok(run_root(thread_id).join(text::joined(run_id, ".js")))
}

/// Reads a workflow whose source is not too long.
pub fn parse_source(source: &str) -> (res: Result<ParsedWorkflow, String>)
    ensures
        parser::workflow_outcome(res) == (if text::byte_length(source@)
            > MAX_WORKFLOW_SOURCE_BYTES {
            Err("workflow source exceeds the 65536-byte limit"@)
        } else {
            parser::workflow(source@)
        }),
{
    match check_source_bytes(text::byte_len(source) as u64) {
        Ok(_) => parser::parse(source),
        Err(message) => Err(message),
    }
}

/// Which source is to be loaded.
#[derive(Debug, PartialEq, Eq)]
pub enum SourceSelection {
    /// A saved workflow: the project's if there is one, else the one of every project.
    Saved { project: StorePath, global: StorePath },
    /// A path, which must lie under one of the roots.
    Path { path: String, roots: Vec<StorePath> },
}

/// The view of a selection.
pub enum SelectionView {
    Saved { project: PathView, global: PathView },
    Path { path: Seq<char>, roots: Seq<PathView> },
}

/// The views of paths.
pub open spec fn path_views(paths: Seq<StorePath>) -> Seq<PathView> {
    paths.map_values(|path: StorePath| path@)
}

impl View for SourceSelection {
    type V = SelectionView;

    open spec fn view(&self) -> SelectionView {
        match self {
            SourceSelection::Saved { project, global } => SelectionView::Saved {
                project: project@,
                global: global@,
            },
            SourceSelection::Path { path, roots } => SelectionView::Path {
                path: path@,
                roots: path_views(roots@),
            },
        }
    }
}

/// The view of an optional text.
pub open spec fn opt_str_view(text: Option<&str>) -> Option<Seq<char>> {
    match text {
        Some(text) => Some(text@),
        None => None,
    }
}

/// What a name or a path selects.
pub open spec fn source_selection(
    thread_id: Seq<char>,
    name: Option<Seq<char>>,
    script_path: Option<Seq<char>>,
) -> Result<SelectionView, Seq<char>> {
    match (name, script_path) {
        (Some(name), None) => if paths::is_component(name) {
            Ok(
                SelectionView::Saved {
                    project: project_root_path().join(name + ".js"@),
                    global: global_root_path().join(name + ".js"@),
                },
            )
        } else {
            Err(paths::component_message("workflow name"@))
        },
        (None, Some(path)) => Ok(
            SelectionView::Path {
                path,
                roots: seq![run_root_path(thread_id), project_root_path(), global_root_path()],
            },
        ),
        (Some(_), Some(_)) => Err("provide only one of name or scriptPath"@),
        (None, None) => Err("provide name or scriptPath"@),
    }
}

/// Selects a source by name or by path.
pub fn load_source(thread_id: &str, name: Option<&str>, script_path: Option<&str>) -> (res: Result<
    SourceSelection,
    String,
>)
    ensures
        match res {
            Ok(selection) => source_selection(
                thread_id@,
                opt_str_view(name),
                opt_str_view(script_path),
            ) == Ok::<SelectionView, Seq<char>>(selection@),
            Err(message) => source_selection(
                thread_id@,
                opt_str_view(name),
                opt_str_view(script_path),
            ) == Err::<SelectionView, Seq<char>>(message@),
        },
{
    match (name, script_path) {
        (Some(name), None) => {
            match validate_component(name, "workflow name") {
                Ok(_) => {},
                Err(message) => {
                    return Err(message);
                },
            }
            let project = project_root().join(text::joined(name, ".js"));
            let global = global_root().join(text::joined(name, ".js"));
            Ok(SourceSelection::Saved { project, global })
        },
        (None, Some(path)) => {
            let roots = vec![run_root(thread_id), project_root(), global_root()];
            assert(path_views(roots@) == seq![
                run_root_path(thread_id@),
                project_root_path(),
                global_root_path(),
            ]);
            Ok(SourceSelection::Path { path: path.to_string(), roots })
        },
        (Some(_), Some(_)) => Err("provide only one of name or scriptPath".to_string()),
        (None, None) => Err("provide name or scriptPath".to_string()),
    }
}

/// Of a saved workflow's two places, the one to read: the project's wherever it exists.
pub fn saved_path(project: StorePath, global: StorePath, project_exists: bool) -> (res: StorePath)
    ensures
        res == (if project_exists {
            project
        } else {
            global
        }),
{
    if project_exists {
        project
    } else {
        global
    }
}

/// Whether a path, given by its components, lies at or below a root.
pub open spec fn lies_under(path: Seq<Seq<u8>>, root: Seq<Seq<u8>>) -> bool {
    root.len() <= path.len() && path.take(root.len() as int) == root
}

/// The components of a path.
pub open spec fn component_views(components: Seq<Vec<u8>>) -> Seq<Seq<u8>> {
    components.map_values(|component: Vec<u8>| component@)
}

fn same_bytes(a: &Vec<u8>, b: &Vec<u8>) -> (res: bool)
    ensures
        res == (a@ == b@),
{
    if a.len() != b.len() {
        return false;
    }
    let mut i: usize = 0;
    while i < a.len()
        invariant
            i <= a@.len(),
            a@.len() == b@.len(),
            forall|j: int| 0 <= j < i ==> a@[j] == b@[j],
        decreases a@.len() - i,
    {
        if a[i] != b[i] {
            return false;
        }
        i = i + 1;
    }
    assert(a@ == b@);
    true
}

fn starts_with(path: &Vec<Vec<u8>>, root: &Vec<Vec<u8>>) -> (res: bool)
    ensures
        res == lies_under(component_views(path@), component_views(root@)),
{
    if root.len() > path.len() {
        return false;
    }
    let mut i: usize = 0;
    while i < root.len()
        invariant
            i <= root@.len() <= path@.len(),
            forall|j: int| 0 <= j < i ==> (#[trigger] path@[j])@ == root@[j]@,
        decreases root@.len() - i,
    {
        if !same_bytes(&path[i], &root[i]) {
            assert(component_views(path@).take(root@.len() as int)[i as int] != component_views(
                root@,
            )[i as int]);
            return false;
        }
        i = i + 1;
    }
    assert(component_views(path@).take(root@.len() as int) == component_views(root@));
    true
}

/// Whether a path lies under one of the roots that could be resolved.
pub open spec fn is_allowed(path: Seq<Seq<u8>>, roots: Seq<Option<Vec<Vec<u8>>>>) -> bool {
    exists|i: int|
        0 <= i < roots.len() && (#[trigger] roots[i]) is Some && lies_under(
            path,
            component_views(roots[i]->0@),
        )
}

/// Checks that a resolved path lies under one of the resolved roots. A root that could not be
/// resolved allows nothing.
pub fn check_allowed(path: &Vec<Vec<u8>>, roots: &Vec<Option<Vec<Vec<u8>>>>) -> (res: Result<
    (),
    String,
>)
    ensures
        match res {
            Ok(_) => is_allowed(component_views(path@), roots@),
            Err(message) => !is_allowed(component_views(path@), roots@) && message@
                == "scriptPath must be a returned workflow path or live under `.codex/workflows` or `$CODEX_HOME/workflows`"@,
        },
{
    let mut i: usize = 0;
    while i < roots.len()
        invariant
            i <= roots@.len(),
            forall|j: int|
                0 <= j < i ==> !((#[trigger] roots@[j]) is Some && lies_under(
                    component_views(path@),
                    component_views(roots@[j]->0@),
                )),
        decreases roots@.len() - i,
    {
        match &roots[i] {
            Some(root) => {
                if starts_with(path, root) {
                    assert(roots@[i as int] is Some);
                    return Ok(());
                }
            },
            None => {},
        }
        i = i + 1;
    }
    Err(
        "scriptPath must be a returned workflow path or live under `.codex/workflows` or `$CODEX_HOME/workflows`".to_string(),
    )
}

/// The path of a run's script lies under a root from which a source may be loaded by its path.
pub proof fn run_scripts_may_be_loaded_again(
    thread_id: Seq<char>,
    run_id: Seq<char>,
    source: Seq<char>,
    path: Seq<char>,
)
    requires
        run_script_location(thread_id, run_id, source) is Ok,
    ensures
        source_selection(thread_id, None, Some(path)) is Ok,
        exists|i: int|
            0 <= i < source_selection(thread_id, None, Some(path))->Ok_0->roots.len()
                && run_script_location(thread_id, run_id, source)->Ok_0 == (
            #[trigger] source_selection(thread_id, None, Some(path))->Ok_0->roots[i]).join(
                run_id + ".js"@,
            ),
{
    assert(source_selection(thread_id, None, Some(path))->Ok_0->roots[0] == run_root_path(
        thread_id,
    ));
}

} // verus!
