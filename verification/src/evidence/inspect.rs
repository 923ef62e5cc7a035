//! What each tool call contributes to the three evidence categories.
//!
//! Changes come only from successful `write`, `edit`, `multiedit`, `patch` and
//! `apply_patch` calls; reads or inspections only from successful `read` calls and
//! `agentgrep` outlines; searches and browsing from successful `agentgrep`, `ls`,
//! `browser`, `open` and `webfetch` calls. An unsuccessful call records no path: it
//! only marks the categories it could have touched incomplete. Shell commands and tools
//! without a known file contract mark every category incomplete.

use vstd::prelude::*;

use crate::evidence::category::{CategoryAccumulator, CategoryModel};
use crate::evidence::outcome::{
    batch_subcall_outcome, batch_subcall_outcome_spec, OutcomeModel, ToolOutcome,
};
use crate::evidence::patch::{parsed_patch_file_paths, patch_file_paths};
use crate::model::{json_as_str, json_get, json_str_member, JsonModel, JsonValue};
use crate::text::{
    ascii_lower_seq, chars_of, concat2, concat3, eq_ignore_ascii_case, lower_chars, str_eq,
    string_from_chars, trim_chars, trim_seq,
};

verus! {

/// Deepest batch nesting that is inspected.
pub const MAX_BATCH_NESTING: usize = 8;

/// What the three categories have accumulated.
pub struct FileEvidenceModel {
    pub changed: CategoryModel,
    pub read_or_inspected: CategoryModel,
    pub searched_or_browsed: CategoryModel,
}

impl FileEvidenceModel {
    pub open spec fn empty_complete() -> FileEvidenceModel {
        FileEvidenceModel {
            changed: CategoryModel::empty_complete(),
            read_or_inspected: CategoryModel::empty_complete(),
            searched_or_browsed: CategoryModel::empty_complete(),
        }
    }

    /// Every category marked incomplete with the same warning.
    pub open spec fn mark_all(self, warning: Seq<char>) -> FileEvidenceModel {
        FileEvidenceModel {
            changed: self.changed.mark(warning),
            read_or_inspected: self.read_or_inspected.mark(warning),
            searched_or_browsed: self.searched_or_browsed.mark(warning),
        }
    }

    pub open spec fn with_changed(self, c: CategoryModel) -> FileEvidenceModel {
        FileEvidenceModel { changed: c, ..self }
    }

    pub open spec fn with_read(self, c: CategoryModel) -> FileEvidenceModel {
        FileEvidenceModel { read_or_inspected: c, ..self }
    }

    pub open spec fn with_searched(self, c: CategoryModel) -> FileEvidenceModel {
        FileEvidenceModel { searched_or_browsed: c, ..self }
    }
}

/// Tool aliases resolved to the tool that executes them.
pub open spec fn resolve_tool_alias(name: Seq<char>) -> Seq<char> {
    if name == "grep"@ {
        "agentgrep"@
    } else {
        name
    }
}

/// The canonical, lower-cased name of a tool.
pub open spec fn canonical_tool_name(name: Seq<char>) -> Seq<char> {
    ascii_lower_seq(resolve_tool_alias(name))
}

/// Tools that never operate on files.
pub open spec fn spec_known_non_file_tool(name: Seq<char>) -> bool {
    name == "bg"@ || name == "conversation_search"@ || name == "debug_socket"@ || name
        == "discover"@ || name == "gmail"@ || name == "initiative"@ || name
        == "integration_tools"@ || name == "invalid"@ || name == "jcode_docs"@ || name == "mcp"@
        || name == "memory"@ || name == "schedule"@ || name == "session_search"@ || name
        == "side_panel"@ || name == "skill_manage"@ || name == "todo"@ || name == "websearch"@
}

/// Browser actions that neither open nor upload anything.
pub open spec fn spec_non_browsing(tool: Seq<char>, input: JsonModel) -> bool {
    tool == "browser"@ && match json_str_member(input, "action"@) {
        Some(a) => a == "status"@ || a == "setup"@ || a == "list_tabs"@ || a == "select_tab"@
            || a == "get_active_tab"@ || a == "list_frames"@ || a == "wait"@ || a == "press"@,
        None => false,
    }
}

pub open spec fn spec_is_outline(input: JsonModel) -> bool {
    match json_str_member(input, "mode"@) {
        Some(m) => ascii_lower_seq(trim_seq(m)) == "outline"@,
        None => false,
    }
}

pub open spec fn is_mutating_tool(n: Seq<char>) -> bool {
    n == "write"@ || n == "edit"@ || n == "multiedit"@ || n == "patch"@ || n == "apply_patch"@
}

/// The warning for a call that did not succeed.
pub open spec fn unsuccessful_warning(n: Seq<char>, outcome: OutcomeModel) -> Seq<char> {
    let label = match outcome {
        OutcomeModel::Failed => "returned an error"@,
        OutcomeModel::Missing => "has no matching result in the selected range"@,
        _ => "has multiple matching results in the selected range"@,
    };
    n + " "@ + label + "; evidence does not claim that it succeeded"@
}

/// The effect of a call that did not succeed: no path, only incompleteness.
pub open spec fn spec_unsuccessful(
    ev: FileEvidenceModel,
    n: Seq<char>,
    input: JsonModel,
    outcome: OutcomeModel,
) -> FileEvidenceModel {
    if spec_known_non_file_tool(n) || spec_non_browsing(n, input) || outcome is Succeeded {
        ev
    } else {
        let w = unsuccessful_warning(n, outcome);
        if is_mutating_tool(n) {
            ev.with_changed(
                ev.changed.mark(
                    w + "; partial mutation effects are possible, so no changed path is claimed"@,
                ),
            )
        } else if n == "read"@ {
            ev.with_read(ev.read_or_inspected.mark(w))
        } else if n == "agentgrep"@ {
            let ev1 = ev.with_searched(ev.searched_or_browsed.mark(w));
            if spec_is_outline(input) {
                ev1.with_read(ev1.read_or_inspected.mark(w))
            } else {
                ev1
            }
        } else if n == "ls"@ || n == "browser"@ || n == "open"@ || n == "webfetch"@ {
            ev.with_searched(ev.searched_or_browsed.mark(w))
        } else {
            ev.mark_all(w)
        }
    }
}

/// The string path `key` of an input recorded in a category.
pub open spec fn spec_string_path(
    cat: CategoryModel,
    input: JsonModel,
    key: Seq<char>,
    tool: Seq<char>,
) -> CategoryModel {
    match json_str_member(input, key) {
        Some(p) => cat.insert_path(p, tool),
        None => cat.mark(
            tool + " input did not contain a string "@ + key
                + " field; evidence may be incomplete"@,
        ),
    }
}

/// Each of `paths` recorded in turn.
pub open spec fn insert_paths(cat: CategoryModel, paths: Seq<Seq<char>>, kind: Seq<char>) -> CategoryModel
    decreases paths.len(),
{
    if paths.len() == 0 {
        cat
    } else {
        insert_paths(cat, paths.drop_last(), kind).insert_path(paths.last(), kind)
    }
}

/// The changed files named by a patch.
pub open spec fn spec_patch(cat: CategoryModel, tool: Seq<char>, input: JsonModel) -> CategoryModel {
    match json_str_member(input, "patch_text"@) {
        Some(text) => {
            let paths = patch_file_paths(text);
            if paths.len() > 0 {
                insert_paths(cat, paths, tool)
            } else {
                cat.mark(
                    tool
                        + " contained no parseable file paths; changed-file evidence may be incomplete"@,
                )
            }
        },
        None => cat.mark(
            tool
                + " did not contain a string patch_text field; changed-file evidence may be incomplete"@,
        ),
    }
}

/// `file`, or `file_path` when there is no `file` member at all.
pub open spec fn agentgrep_file(input: JsonModel) -> Option<Seq<char>> {
    match json_get(input, "file"@) {
        Some(v) => json_as_str(Some(v)),
        None => json_str_member(input, "file_path"@),
    }
}

/// A search scope is searched; an outline also inspects its file.
pub open spec fn spec_agentgrep(ev: FileEvidenceModel, input: JsonModel) -> FileEvidenceModel {
    let mode = ascii_lower_seq(trim_seq(json_str_member(input, "mode"@).unwrap_or("grep"@)));
    let file = agentgrep_file(input);
    let scope = match json_str_member(input, "path"@) {
        Some(p) => p,
        None => file.unwrap_or("."@),
    };
    let ev1 = ev.with_searched(ev.searched_or_browsed.insert_path(scope, "agentgrep search scope"@));
    if mode == "outline"@ {
        match file {
            Some(f) => ev1.with_read(
                ev1.read_or_inspected.insert_path(f, "agentgrep outline inspection"@),
            ),
            None => ev1.with_read(
                ev1.read_or_inspected.mark(
                    "agentgrep outline did not identify a file; inspected-file evidence may be incomplete"@,
                ),
            ),
        }
    } else {
        ev1
    }
}

/// A browsed URL or uploaded path is recorded as browsed.
pub open spec fn spec_browser(ev: FileEvidenceModel, input: JsonModel) -> FileEvidenceModel {
    let action = ascii_lower_seq(trim_seq(json_str_member(input, "action"@).unwrap_or(""@)));
    if spec_non_browsing("browser"@, input) {
        ev
    } else {
        let s = ev.searched_or_browsed;
        match json_str_member(input, "url"@) {
            Some(url) => ev.with_searched(s.insert_locator(url, "browser URL"@)),
            None => if action == "upload"@ {
                match json_str_member(input, "path"@) {
                    Some(p) => ev.with_searched(s.insert_path(p, "browser upload path"@)),
                    None => ev.with_searched(
                        s.mark(
                            "browser upload did not identify a path; browsed-path evidence may be incomplete"@,
                        ),
                    ),
                }
            } else {
                ev.with_searched(
                    s.mark(
                        "browser "@ + action
                            + " used the current page without an explicit URL; browsed-path evidence may be incomplete"@,
                    ),
                )
            },
        }
    }
}

pub open spec fn spec_open(ev: FileEvidenceModel, input: JsonModel) -> FileEvidenceModel {
    let s = ev.searched_or_browsed;
    match json_str_member(input, "target"@) {
        Some(t) => ev.with_searched(s.insert_locator(t, "open target"@)),
        None => ev.with_searched(
            s.mark("open did not identify a target; browsed-path evidence may be incomplete"@),
        ),
    }
}

pub open spec fn spec_webfetch(ev: FileEvidenceModel, input: JsonModel) -> FileEvidenceModel {
    let s = ev.searched_or_browsed;
    match json_str_member(input, "url"@) {
        Some(u) => ev.with_searched(s.insert_locator(u, "webfetch URL"@)),
        None => ev.with_searched(
            s.mark("webfetch did not identify a URL; browsed-path evidence may be incomplete"@),
        ),
    }
}

/// Whether an entry of a batch call names the call rather than parameterizing it.
pub open spec fn is_call_key(k: Seq<char>) -> bool {
    k == "tool"@ || k == "name"@ || k == "intent"@
}

/// Object entries without the call-naming keys.
pub open spec fn strip_call_keys(entries: Seq<(Seq<char>, JsonModel)>) -> Seq<(Seq<char>, JsonModel)>
    decreases entries.len(),
{
    if entries.len() == 0 {
        Seq::empty()
    } else {
        let prev = strip_call_keys(entries.drop_last());
        if is_call_key(entries.last().0) {
            prev
        } else {
            prev.push(entries.last())
        }
    }
}

pub open spec fn object_member(call: JsonModel, key: Seq<char>) -> Option<JsonModel> {
    match json_get(call, key) {
        Some(v) => if v is Object {
            Some(v)
        } else {
            None
        },
        None => None,
    }
}

/// The parameters of a batch subcall: its first object-valued `parameters`, `arguments`,
/// `args` or `input` member, else the call itself without its naming keys.
pub open spec fn nested_params(call: JsonModel) -> JsonModel {
    if object_member(call, "parameters"@) is Some {
        object_member(call, "parameters"@)->0
    } else if object_member(call, "arguments"@) is Some {
        object_member(call, "arguments"@)->0
    } else if object_member(call, "args"@) is Some {
        object_member(call, "args"@)->0
    } else if object_member(call, "input"@) is Some {
        object_member(call, "input"@)->0
    } else {
        match call {
            JsonModel::Object(entries) => JsonModel::Object(strip_call_keys(entries)),
            other => other,
        }
    }
}

/// `tool`, or `name` when there is no `tool` member at all.
pub open spec fn batch_call_name(call: JsonModel) -> Option<Seq<char>> {
    match json_get(call, "tool"@) {
        Some(v) => json_as_str(Some(v)),
        None => json_str_member(call, "name"@),
    }
}

/// The evidence after one successful or unsuccessful tool call (see the module documentation).
pub open spec fn spec_inspect(
    ev: FileEvidenceModel,
    name: Seq<char>,
    input: JsonModel,
    outcome: OutcomeModel,
    depth: nat,
) -> FileEvidenceModel
    decreases MAX_BATCH_NESTING - depth, 1nat, 0nat,
{
    let n = canonical_tool_name(trim_seq(name));
    match outcome {
        OutcomeModel::Succeeded(content) => {
            if n == "write"@ || n == "edit"@ || n == "multiedit"@ {
                ev.with_changed(spec_string_path(ev.changed, input, "file_path"@, n))
            } else if n == "patch"@ || n == "apply_patch"@ {
                ev.with_changed(spec_patch(ev.changed, n, input))
            } else if n == "read"@ {
                ev.with_read(spec_string_path(ev.read_or_inspected, input, "file_path"@, "read"@))
            } else if n == "agentgrep"@ {
                spec_agentgrep(ev, input)
            } else if n == "ls"@ {
                ev.with_searched(
                    ev.searched_or_browsed.insert_path(
                        json_str_member(input, "path"@).unwrap_or("."@),
                        "ls directory browse"@,
                    ),
                )
            } else if n == "browser"@ {
                spec_browser(ev, input)
            } else if n == "open"@ {
                spec_open(ev, input)
            } else if n == "webfetch"@ {
                spec_webfetch(ev, input)
            } else if n == "batch"@ {
                if depth >= MAX_BATCH_NESTING {
                    ev.mark_all(
                        "batch nesting exceeded the file-evidence safety bound; evidence may be incomplete"@,
                    )
                } else {
                    match json_get(input, "tool_calls"@) {
                        Some(JsonModel::Array(calls)) => spec_batch(
                            ev,
                            calls,
                            content,
                            depth,
                            calls.len(),
                        ),
                        _ => ev.mark_all(
                            "batch input did not contain a tool_calls array; evidence may be incomplete"@,
                        ),
                    }
                }
            } else if n == "bash"@ {
                ev.mark_all(
                    "shell commands occurred in the selected range; changed, read, and searched path evidence may be incomplete"@,
                )
            } else if spec_known_non_file_tool(n) {
                ev
            } else {
                ev.mark_all(
                    "tool "@ + n
                        + " has no auditable file-access contract; changed, read, and searched path evidence may be incomplete"@,
                )
            }
        },
        _ => spec_unsuccessful(ev, n, input, outcome),
    }
}

/// The evidence after the first `k` subcalls of a batch at nesting `depth`.
pub open spec fn spec_batch(
    ev: FileEvidenceModel,
    calls: Seq<JsonModel>,
    output: Seq<char>,
    depth: nat,
    k: nat,
) -> FileEvidenceModel
    decreases MAX_BATCH_NESTING - depth, 0nat, k,
{
    if k == 0 || k > calls.len() || depth >= MAX_BATCH_NESTING {
        ev
    } else {
        let prev = spec_batch(ev, calls, output, depth, (k - 1) as nat);
        let call = calls[k - 1];
        if call is Object {
            match batch_call_name(call) {
                Some(nm) => {
                    let canonical = canonical_tool_name(nm);
                    spec_inspect(
                        prev,
                        canonical,
                        nested_params(call),
                        batch_subcall_outcome_spec(output, (k - 1) as nat, nm, canonical),
                        depth + 1,
                    )
                },
                None => prev.mark_all(
                    "batch contained a tool call without a tool name; evidence may be incomplete"@,
                ),
            }
        } else {
            prev.mark_all("batch contained a non-object tool call; evidence may be incomplete"@)
        }
    }
}

/// Accumulates the three evidence categories.
pub struct FileEvidenceAccumulator {
    pub changed: CategoryAccumulator,
    pub read_or_inspected: CategoryAccumulator,
    pub searched_or_browsed: CategoryAccumulator,
}

impl View for FileEvidenceAccumulator {
    type V = FileEvidenceModel;

    open spec fn view(&self) -> FileEvidenceModel {
        FileEvidenceModel {
            changed: self.changed@,
            read_or_inspected: self.read_or_inspected@,
            searched_or_browsed: self.searched_or_browsed@,
        }
    }
}

impl FileEvidenceAccumulator {
    pub open spec fn wf(&self) -> bool {
        self.changed.wf() && self.read_or_inspected.wf() && self.searched_or_browsed.wf()
    }

    /// Three complete, empty categories.
    pub fn complete() -> (r: FileEvidenceAccumulator)
        ensures
            r.wf(),
            r@ == FileEvidenceModel::empty_complete(),
    {
        FileEvidenceAccumulator {
            changed: CategoryAccumulator::complete(),
            read_or_inspected: CategoryAccumulator::complete(),
            searched_or_browsed: CategoryAccumulator::complete(),
        }
    }

    /// Marks every category incomplete with the same warning.
    pub fn mark_all_incomplete(&mut self, warning: &str)
        requires
            old(self).wf(),
        ensures
            final(self).wf(),
            final(self)@ == old(self)@.mark_all(warning@),
    {
        self.changed.mark_incomplete(warning);
        self.read_or_inspected.mark_incomplete(warning);
        self.searched_or_browsed.mark_incomplete(warning);
    }
}

/// Whether a tool never operates on files.
pub fn known_non_file_operating_tool(name: &str) -> (r: bool)
    ensures
        r == spec_known_non_file_tool(name@),
{
    str_eq(name, "bg") || str_eq(name, "conversation_search") || str_eq(name, "debug_socket")
        || str_eq(name, "discover") || str_eq(name, "gmail") || str_eq(name, "initiative")
        || str_eq(name, "integration_tools") || str_eq(name, "invalid") || str_eq(
        name,
        "jcode_docs",
    ) || str_eq(name, "mcp") || str_eq(name, "memory") || str_eq(name, "schedule") || str_eq(
        name,
        "session_search",
    ) || str_eq(name, "side_panel") || str_eq(name, "skill_manage") || str_eq(name, "todo")
        || str_eq(name, "websearch")
}

/// Whether a browser call only inspects or drives the browser without opening anything.
pub fn browser_action_is_non_browsing(tool_name: &str, input: &JsonValue) -> (r: bool)
    ensures
        r == spec_non_browsing(tool_name@, input@),
{
    if !str_eq(tool_name, "browser") {
        return false;
    }
    match input.get_str("action") {
        Some(a) => {
            let a = a.as_str();
            str_eq(a, "status") || str_eq(a, "setup") || str_eq(a, "list_tabs") || str_eq(
                a,
                "select_tab",
            ) || str_eq(a, "get_active_tab") || str_eq(a, "list_frames") || str_eq(a, "wait")
                || str_eq(a, "press")
        },
        None => false,
    }
}

/// Whether an `agentgrep` call is an outline (mode `outline`, any case, surrounding space ignored).
pub fn agentgrep_is_outline(input: &JsonValue) -> (r: bool)
    ensures
        r == spec_is_outline(input@),
{
    match input.get_str("mode") {
        Some(m) => {
            let c = chars_of(m.as_str());
            let t = trim_chars(&c);
            let outline = chars_of("outline");
            proof {
                reveal_strlit("outline");
            }
            assert(ascii_lower_seq(outline@) =~= outline@);
            eq_ignore_ascii_case(&t, &outline)
        },
        None => false,
    }
}

/// Whether the outcome is a success.
pub fn outcome_succeeded(outcome: &ToolOutcome) -> (r: bool)
    ensures
        r == (outcome@ is Succeeded),
{
    match outcome {
        ToolOutcome::Succeeded(_) => true,
        _ => false,
    }
}

/// The canonical, lower-cased name of a tool.
pub fn canonical_name(name: &str) -> (r: String)
    ensures
        r@ == canonical_tool_name(name@),
{
    let resolved = if str_eq(name, "grep") {
        String::from_str("agentgrep")
    } else {
        String::from_str(name)
    };
    let c = chars_of(resolved.as_str());
    let l = lower_chars(&c);
    string_from_chars(&l)
}

/// Records the string path `key` of `input`, or marks the category incomplete.
pub fn extract_string_path(
    input: &JsonValue,
    key: &str,
    tool_name: &str,
    accumulator: &mut CategoryAccumulator,
)
    requires
        old(accumulator).wf(),
    ensures
        final(accumulator).wf(),
        final(accumulator)@ == spec_string_path(old(accumulator)@, input@, key@, tool_name@),
{
    match input.get_str(key) {
        Some(path) => accumulator.insert_path(path.as_str(), tool_name),
        None => {
            let a = concat3(tool_name, " input did not contain a string ", key);
            let w = concat2(a.as_str(), " field; evidence may be incomplete");
            accumulator.mark_incomplete(w.as_str());
        },
    }
}

/// Records the changed files named by a patch, or marks the category incomplete.
pub fn inspect_patch(tool_name: &str, input: &JsonValue, accumulator: &mut CategoryAccumulator)
    requires
        old(accumulator).wf(),
    ensures
        final(accumulator).wf(),
        final(accumulator)@ == spec_patch(old(accumulator)@, tool_name@, input@),
{
    match input.get_str("patch_text") {
        Some(text) => {
            let paths = parsed_patch_file_paths(text.as_str());
            let ghost pv = paths@.map_values(|x: String| x@);
            if paths.len() > 0 {
                let mut i: usize = 0;
                let ghost start = accumulator@;
                assert(pv.take(0) =~= Seq::<Seq<char>>::empty());
                while i < paths.len()
                    invariant
                        i <= paths.len(),
                        pv == paths@.map_values(|x: String| x@),
                        accumulator.wf(),
                        accumulator@ == insert_paths(start, pv.take(i as int), tool_name@),
                    decreases paths.len() - i,
                {
                    assert(pv.take(i + 1).drop_last() =~= pv.take(i as int));
                    accumulator.insert_path(paths[i].as_str(), tool_name);
                    i += 1;
                }
                assert(pv.take(paths.len() as int) =~= pv);
            } else {
                let w = concat2(
                    tool_name,
                    " contained no parseable file paths; changed-file evidence may be incomplete",
                );
                accumulator.mark_incomplete(w.as_str());
            }
        },
        None => {
            let w = concat2(
                tool_name,
                " did not contain a string patch_text field; changed-file evidence may be incomplete",
            );
            accumulator.mark_incomplete(w.as_str());
        },
    }
}

/// Records an `agentgrep` search scope, and for an outline its inspected file.
pub fn inspect_agentgrep(input: &JsonValue, accumulator: &mut FileEvidenceAccumulator)
    requires
        old(accumulator).wf(),
    ensures
        final(accumulator).wf(),
        final(accumulator)@ == spec_agentgrep(old(accumulator)@, input@),
{
    let mode_raw: String = match input.get_str("mode") {
        Some(m) => m.clone(),
        None => String::from_str("grep"),
    };
    let mc = chars_of(mode_raw.as_str());
    let mt = trim_chars(&mc);
    let mode = lower_chars(&mt);
    let file: Option<&String> = match input.get("file") {
        Some(JsonValue::Str(s)) => Some(s),
        Some(_) => None,
        None => input.get_str("file_path"),
    };
    let scope: &str = match input.get_str("path") {
        Some(p) => p.as_str(),
        None => match file {
            Some(f) => f.as_str(),
            None => ".",
        },
    };
    accumulator.searched_or_browsed.insert_path(scope, "agentgrep search scope");
    let outline = chars_of("outline");
    if crate::text::chars_eq(&mode, &outline) {
        match file {
            Some(f) => accumulator.read_or_inspected.insert_path(
                f.as_str(),
                "agentgrep outline inspection",
            ),
            None => accumulator.read_or_inspected.mark_incomplete(
                "agentgrep outline did not identify a file; inspected-file evidence may be incomplete",
            ),
        }
    }
}

/// Records a browsed URL or uploaded path, or marks browsing evidence incomplete.
pub fn inspect_browser(input: &JsonValue, accumulator: &mut FileEvidenceAccumulator)
    requires
        old(accumulator).wf(),
    ensures
        final(accumulator).wf(),
        final(accumulator)@ == spec_browser(old(accumulator)@, input@),
{
    let action_raw: String = match input.get_str("action") {
        Some(a) => a.clone(),
        None => String::new(),
    };
    proof {
        reveal_strlit("");
    }
    let ac = chars_of(action_raw.as_str());
    let at = trim_chars(&ac);
    let action_chars = lower_chars(&at);
    let action = string_from_chars(&action_chars);
    assert(action_raw@ == json_str_member(input@, "action"@).unwrap_or(""@));
    assert(action@ == ascii_lower_seq(trim_seq(json_str_member(input@, "action"@).unwrap_or(""@))));
    if browser_action_is_non_browsing("browser", input) {
        return ;
    }
    match input.get_str("url") {
        Some(url) => accumulator.searched_or_browsed.insert_locator(url.as_str(), "browser URL"),
        None => {
            if str_eq(action.as_str(), "upload") {
                match input.get_str("path") {
                    Some(p) => accumulator.searched_or_browsed.insert_path(
                        p.as_str(),
                        "browser upload path",
                    ),
                    None => accumulator.searched_or_browsed.mark_incomplete(
                        "browser upload did not identify a path; browsed-path evidence may be incomplete",
                    ),
                }
            } else {
                let w = concat3(
                    "browser ",
                    action.as_str(),
                    " used the current page without an explicit URL; browsed-path evidence may be incomplete",
                );
                accumulator.searched_or_browsed.mark_incomplete(w.as_str());
            }
        },
    }
}

/// Records an `open` target, or marks browsing evidence incomplete.
pub fn inspect_open(input: &JsonValue, accumulator: &mut FileEvidenceAccumulator)
    requires
        old(accumulator).wf(),
    ensures
        final(accumulator).wf(),
        final(accumulator)@ == spec_open(old(accumulator)@, input@),
{
    match input.get_str("target") {
        Some(t) => accumulator.searched_or_browsed.insert_locator(t.as_str(), "open target"),
        None => accumulator.searched_or_browsed.mark_incomplete(
            "open did not identify a target; browsed-path evidence may be incomplete",
        ),
    }
}

/// Records a `webfetch` URL, or marks browsing evidence incomplete.
pub fn inspect_webfetch(input: &JsonValue, accumulator: &mut FileEvidenceAccumulator)
    requires
        old(accumulator).wf(),
    ensures
        final(accumulator).wf(),
        final(accumulator)@ == spec_webfetch(old(accumulator)@, input@),
{
    match input.get_str("url") {
        Some(u) => accumulator.searched_or_browsed.insert_locator(u.as_str(), "webfetch URL"),
        None => accumulator.searched_or_browsed.mark_incomplete(
            "webfetch did not identify a URL; browsed-path evidence may be incomplete",
        ),
    }
}

/// Records what an unsuccessful call leaves uncertain; it never records a path.
pub fn mark_unsuccessful_tool(
    tool_name: &str,
    input: &JsonValue,
    outcome: &ToolOutcome,
    accumulator: &mut FileEvidenceAccumulator,
)
    requires
        old(accumulator).wf(),
    ensures
        final(accumulator).wf(),
        final(accumulator)@ == spec_unsuccessful(old(accumulator)@, tool_name@, input@, outcome@),
{
    if known_non_file_operating_tool(tool_name) || browser_action_is_non_browsing(
        tool_name,
        input,
    ) {
        return ;
    }
    let label = match outcome {
        ToolOutcome::Failed => "returned an error",
        ToolOutcome::Missing => "has no matching result in the selected range",
        ToolOutcome::Ambiguous => "has multiple matching results in the selected range",
        ToolOutcome::Succeeded(_) => {
            return ;
        },
    };
    let head = concat3(tool_name, " ", label);
    let warning = concat2(head.as_str(), "; evidence does not claim that it succeeded");
    let w = warning.as_str();
    if str_eq(tool_name, "write") || str_eq(tool_name, "edit") || str_eq(tool_name, "multiedit")
        || str_eq(tool_name, "patch") || str_eq(tool_name, "apply_patch") {
        let m = concat2(
            w,
            "; partial mutation effects are possible, so no changed path is claimed",
        );
        accumulator.changed.mark_incomplete(m.as_str());
    } else if str_eq(tool_name, "read") {
        accumulator.read_or_inspected.mark_incomplete(w);
    } else if str_eq(tool_name, "agentgrep") {
        accumulator.searched_or_browsed.mark_incomplete(w);
        if agentgrep_is_outline(input) {
            accumulator.read_or_inspected.mark_incomplete(w);
        }
    } else if str_eq(tool_name, "ls") || str_eq(tool_name, "browser") || str_eq(tool_name, "open")
        || str_eq(tool_name, "webfetch") {
        accumulator.searched_or_browsed.mark_incomplete(w);
    } else {
        accumulator.mark_all_incomplete(w);
    }
}

/// The parameters of a batch subcall (see [`nested_params`]).
pub fn nested_batch_parameters(call: &JsonValue) -> (r: JsonValue)
    ensures
        r@ == nested_params(call@),
{
    match call.get("parameters") {
        Some(v) => {
            if v.is_object() {
                return v.deep_clone();
            }
        },
        None => {},
    }
    match call.get("arguments") {
        Some(v) => {
            if v.is_object() {
                return v.deep_clone();
            }
        },
        None => {},
    }
    match call.get("args") {
        Some(v) => {
            if v.is_object() {
                return v.deep_clone();
            }
        },
        None => {},
    }
    match call.get("input") {
        Some(v) => {
            if v.is_object() {
                return v.deep_clone();
            }
        },
        None => {},
    }
    match call {
        JsonValue::Object(entries) => {
            let ghost ev = call@->Object_0;
            let mut out: Vec<(String, JsonValue)> = Vec::new();
            let mut i: usize = 0;
            assert(ev.take(0) =~= Seq::<(Seq<char>, JsonModel)>::empty());
            while i < entries.len()
                invariant
                    i <= entries.len(),
                    *call == JsonValue::Object(*entries),
                    ev == call@->Object_0,
                    ev.len() == entries@.len(),
                    out@.map_values(|e: (String, JsonValue)| (e.0@, e.1@)) == strip_call_keys(
                        ev.take(i as int),
                    ),
                decreases entries.len() - i,
            {
                let ghost before = out@.map_values(|e: (String, JsonValue)| (e.0@, e.1@));
                assert(ev[i as int] == (entries@[i as int].0@, entries@[i as int].1@));
                assert(ev.take(i + 1).drop_last() =~= ev.take(i as int));
                let k = entries[i].0.as_str();
                if !(str_eq(k, "tool") || str_eq(k, "name") || str_eq(k, "intent")) {
                    let v = entries[i].1.deep_clone();
                    out.push((entries[i].0.clone(), v));
                    assert(out@.map_values(|e: (String, JsonValue)| (e.0@, e.1@)) =~= before.push(
                        ev[i as int],
                    ));
                }
                i += 1;
            }
            assert(ev.take(entries.len() as int) =~= ev);
            let r = JsonValue::Object(out);
            assert(r@->Object_0 =~= out@.map_values(|e: (String, JsonValue)| (e.0@, e.1@)));
            r
        },
        other => other.deep_clone(),
    }
}

/// Applies one tool call to the evidence (see [`spec_inspect`]).
pub fn inspect_tool_call(
    tool_name: &str,
    input: &JsonValue,
    outcome: ToolOutcome,
    depth: usize,
    accumulator: &mut FileEvidenceAccumulator,
)
    requires
        old(accumulator).wf(),
        depth <= MAX_BATCH_NESTING,
    ensures
        final(accumulator).wf(),
        final(accumulator)@ == spec_inspect(
            old(accumulator)@,
            tool_name@,
            input@,
            outcome@,
            depth as nat,
        ),
    decreases MAX_BATCH_NESTING - depth, 1nat, 0nat,
{
    let tc = chars_of(tool_name);
    let trimmed = trim_chars(&tc);
    let trimmed_name = string_from_chars(&trimmed);
    let normalized = canonical_name(trimmed_name.as_str());
    let n = normalized.as_str();
    if !outcome_succeeded(&outcome) {
        mark_unsuccessful_tool(n, input, &outcome, accumulator);
        return ;
    }
    let content = match outcome {
        ToolOutcome::Succeeded(c) => c,
        _ => String::new(),
    };
    if str_eq(n, "write") || str_eq(n, "edit") || str_eq(n, "multiedit") {
        extract_string_path(input, "file_path", n, &mut accumulator.changed);
    } else if str_eq(n, "patch") || str_eq(n, "apply_patch") {
        inspect_patch(n, input, &mut accumulator.changed);
    } else if str_eq(n, "read") {
        extract_string_path(input, "file_path", "read", &mut accumulator.read_or_inspected);
    } else if str_eq(n, "agentgrep") {
        inspect_agentgrep(input, accumulator);
    } else if str_eq(n, "ls") {
        let path: &str = match input.get_str("path") {
            Some(p) => p.as_str(),
            None => ".",
        };
        accumulator.searched_or_browsed.insert_path(path, "ls directory browse");
    } else if str_eq(n, "browser") {
        inspect_browser(input, accumulator);
    } else if str_eq(n, "open") {
        inspect_open(input, accumulator);
    } else if str_eq(n, "webfetch") {
        inspect_webfetch(input, accumulator);
    } else if str_eq(n, "batch") {
        inspect_batch(input, content.as_str(), depth, accumulator);
    } else if str_eq(n, "bash") {
        accumulator.mark_all_incomplete(
            "shell commands occurred in the selected range; changed, read, and searched path evidence may be incomplete",
        );
    } else if known_non_file_operating_tool(n) {
    } else {
        let w = concat3(
            "tool ",
            n,
            " has no auditable file-access contract; changed, read, and searched path evidence may be incomplete",
        );
        accumulator.mark_all_incomplete(w.as_str());
    }
}

/// Applies each subcall of a batch, judging each by its own section of the batch output.
pub fn inspect_batch(
    input: &JsonValue,
    output: &str,
    depth: usize,
    accumulator: &mut FileEvidenceAccumulator,
)
    requires
        old(accumulator).wf(),
        depth <= MAX_BATCH_NESTING,
    ensures
        final(accumulator).wf(),
        final(accumulator)@ == (if depth >= MAX_BATCH_NESTING {
            old(accumulator)@.mark_all(
                "batch nesting exceeded the file-evidence safety bound; evidence may be incomplete"@,
            )
        } else {
            match json_get(input@, "tool_calls"@) {
                Some(JsonModel::Array(calls)) => spec_batch(
                    old(accumulator)@,
                    calls,
                    output@,
                    depth as nat,
                    calls.len(),
                ),
                _ => old(accumulator)@.mark_all(
                    "batch input did not contain a tool_calls array; evidence may be incomplete"@,
                ),
            }
        }),
    decreases MAX_BATCH_NESTING - depth, 0nat, 0nat,
{
    if depth >= MAX_BATCH_NESTING {
        accumulator.mark_all_incomplete(
            "batch nesting exceeded the file-evidence safety bound; evidence may be incomplete",
        );
        return ;
    }
    let calls = match input.get("tool_calls") {
        Some(JsonValue::Array(calls)) => calls,
        _ => {
            accumulator.mark_all_incomplete(
                "batch input did not contain a tool_calls array; evidence may be incomplete",
            );
            return ;
        },
    };
    let ghost cv = json_get(input@, "tool_calls"@)->0->Array_0;
    assert(cv.len() == calls@.len());
    let ghost start = accumulator@;
    let mut index: usize = 0;
    while index < calls.len()
        invariant
            index <= calls.len(),
            depth < MAX_BATCH_NESTING,
            cv.len() == calls@.len(),
            forall|k: int| 0 <= k < cv.len() ==> #[trigger] cv[k] == calls@[k]@,
            accumulator.wf(),
            accumulator@ == spec_batch(start, cv, output@, depth as nat, index as nat),
        decreases calls.len() - index,
    {
        let call = &calls[index];
        assert(cv[index as int] == call@);
        if !call.is_object() {
            accumulator.mark_all_incomplete(
                "batch contained a non-object tool call; evidence may be incomplete",
            );
        } else {
            let name: Option<&String> = match call.get("tool") {
                Some(JsonValue::Str(s)) => Some(s),
                Some(_) => None,
                None => call.get_str("name"),
            };
            match name {
                None => {
                    accumulator.mark_all_incomplete(
                        "batch contained a tool call without a tool name; evidence may be incomplete",
                    );
                },
                Some(nm) => {
                    let canonical = canonical_name(nm.as_str());
                    let parameters = nested_batch_parameters(call);
                    let outcome = batch_subcall_outcome(
                        output,
                        index,
                        nm.as_str(),
                        canonical.as_str(),
                    );
                    inspect_tool_call(
                        canonical.as_str(),
                        &parameters,
                        outcome,
                        depth + 1,
                        accumulator,
                    );
                },
            }
        }
        index += 1;
    }
}

} // verus!
