//! Properties that hold of every evidence extraction.

use vstd::prelude::*;

use crate::evidence::category::{CategoryModel, PathEvidence};
use crate::evidence::extract::{
    extracted_from, finished, range_evidence, same_path_evidence, FileEvidence,
};
use crate::evidence::inspect::{
    canonical_tool_name, insert_paths, spec_agentgrep, spec_batch, spec_browser, spec_inspect,
    spec_is_outline, spec_open, spec_patch, spec_string_path, spec_unsuccessful, spec_webfetch,
    FileEvidenceModel, MAX_BATCH_NESTING,
};
use crate::evidence::outcome::{range_of, OutcomeModel};
use crate::model::{JsonModel, StoredMessage};
use crate::text::{lemma_strictly_sorted_unique, lemma_trim_len, trim_seq, views};

verus! {

/// `after` keeps everything `before` recorded: its paths, its warnings, its omission counts,
/// and its incompleteness.
pub open spec fn category_grows(before: CategoryModel, after: CategoryModel) -> bool {
    &&& before.paths.subset_of(after.paths)
    &&& before.warnings.subset_of(after.warnings)
    &&& after.complete ==> before.complete
    &&& before.omitted_paths <= after.omitted_paths
    &&& before.omitted_warnings <= after.omitted_warnings
}

/// Each of the three categories grows.
pub open spec fn evidence_grows(before: FileEvidenceModel, after: FileEvidenceModel) -> bool {
    &&& category_grows(before.changed, after.changed)
    &&& category_grows(before.read_or_inspected, after.read_or_inspected)
    &&& category_grows(before.searched_or_browsed, after.searched_or_browsed)
}

/// The same paths in each of the three categories.
pub open spec fn same_paths(a: FileEvidenceModel, b: FileEvidenceModel) -> bool {
    &&& a.changed.paths == b.changed.paths
    &&& a.read_or_inspected.paths == b.read_or_inspected.paths
    &&& a.searched_or_browsed.paths == b.searched_or_browsed.paths
}

/// Tools that search or browse and never read or change a file.
pub open spec fn is_search_only(n: Seq<char>, input: JsonModel) -> bool {
    ||| n == "ls"@
    ||| n == "browser"@
    ||| n == "open"@
    ||| n == "webfetch"@
    ||| (n == "agentgrep"@ && !spec_is_outline(input))
}

proof fn lemma_category_grows_trans(a: CategoryModel, b: CategoryModel, c: CategoryModel)
    requires
        category_grows(a, b),
        category_grows(b, c),
    ensures
        category_grows(a, c),
{
}

proof fn lemma_evidence_grows_trans(a: FileEvidenceModel, b: FileEvidenceModel, c: FileEvidenceModel)
    requires
        evidence_grows(a, b),
        evidence_grows(b, c),
    ensures
        evidence_grows(a, c),
{
    lemma_category_grows_trans(a.changed, b.changed, c.changed);
    lemma_category_grows_trans(a.read_or_inspected, b.read_or_inspected, c.read_or_inspected);
    lemma_category_grows_trans(
        a.searched_or_browsed,
        b.searched_or_browsed,
        c.searched_or_browsed,
    );
}

proof fn lemma_mark_grows(c: CategoryModel, w: Seq<char>)
    ensures
        category_grows(c, c.mark(w)),
        c.mark(w).paths == c.paths,
{
}

proof fn lemma_insert_path_grows(c: CategoryModel, raw: Seq<char>, kind: Seq<char>)
    ensures
        category_grows(c, c.insert_path(raw, kind)),
        category_grows(c, c.insert_locator(raw, kind)),
        category_grows(c, c.insert_normalized(raw, kind)),
{
}

proof fn lemma_insert_paths_grows(c: CategoryModel, paths: Seq<Seq<char>>, kind: Seq<char>)
    ensures
        category_grows(c, insert_paths(c, paths, kind)),
    decreases paths.len(),
{
    if paths.len() > 0 {
        let prev = insert_paths(c, paths.drop_last(), kind);
        lemma_insert_paths_grows(c, paths.drop_last(), kind);
        lemma_insert_path_grows(prev, paths.last(), kind);
        lemma_category_grows_trans(c, prev, prev.insert_path(paths.last(), kind));
    }
}

proof fn lemma_mark_all_grows(ev: FileEvidenceModel, w: Seq<char>)
    ensures
        evidence_grows(ev, ev.mark_all(w)),
        same_paths(ev, ev.mark_all(w)),
{
}

proof fn lemma_unsuccessful_claims_nothing(
    ev: FileEvidenceModel,
    n: Seq<char>,
    input: JsonModel,
    outcome: OutcomeModel,
)
    ensures
        evidence_grows(ev, spec_unsuccessful(ev, n, input, outcome)),
        same_paths(ev, spec_unsuccessful(ev, n, input, outcome)),
{
}

proof fn lemma_success_steps_grow(ev: FileEvidenceModel, n: Seq<char>, input: JsonModel)
    ensures
        category_grows(ev.changed, spec_string_path(ev.changed, input, "file_path"@, n)),
        category_grows(
            ev.read_or_inspected,
            spec_string_path(ev.read_or_inspected, input, "file_path"@, "read"@),
        ),
        category_grows(ev.changed, spec_patch(ev.changed, n, input)),
        evidence_grows(ev, spec_agentgrep(ev, input)),
        evidence_grows(ev, spec_browser(ev, input)),
        evidence_grows(ev, spec_open(ev, input)),
        evidence_grows(ev, spec_webfetch(ev, input)),
{
    match crate::model::json_str_member(input, "patch_text"@) {
        Some(text) => {
            lemma_insert_paths_grows(
                ev.changed,
                crate::evidence::patch::patch_file_paths(text),
                n,
            );
        },
        None => {},
    }
}

/// Evidence only accumulates: a tool call, at any batch depth, never removes a recorded path,
/// warning or omission count, and never makes an incomplete category complete again.
pub proof fn law_inspection_only_accumulates(
    ev: FileEvidenceModel,
    name: Seq<char>,
    input: JsonModel,
    outcome: OutcomeModel,
    depth: nat,
)
    ensures
        evidence_grows(ev, spec_inspect(ev, name, input, outcome, depth)),
    decreases MAX_BATCH_NESTING - depth, 1nat, 0nat,
{
    let n = canonical_tool_name(trim_seq(name));
    lemma_success_steps_grow(ev, n, input);
    lemma_unsuccessful_claims_nothing(ev, n, input, outcome);
    lemma_mark_all_grows(
        ev,
        "batch nesting exceeded the file-evidence safety bound; evidence may be incomplete"@,
    );
    lemma_mark_all_grows(
        ev,
        "batch input did not contain a tool_calls array; evidence may be incomplete"@,
    );
    lemma_mark_all_grows(
        ev,
        "shell commands occurred in the selected range; changed, read, and searched path evidence may be incomplete"@,
    );
    lemma_mark_all_grows(
        ev,
        "tool "@ + n
            + " has no auditable file-access contract; changed, read, and searched path evidence may be incomplete"@,
    );
    lemma_insert_path_grows(
        ev.searched_or_browsed,
        crate::model::json_str_member(input, "path"@).unwrap_or("."@),
        "ls directory browse"@,
    );
    if outcome is Succeeded && n == "batch"@ && depth < MAX_BATCH_NESTING {
        match crate::model::json_get(input, "tool_calls"@) {
            Some(JsonModel::Array(calls)) => {
                law_batch_only_accumulates(ev, calls, outcome->0, depth, calls.len());
            },
            _ => {},
        }
    }
}

/// A batch accumulates like the calls it holds.
pub proof fn law_batch_only_accumulates(
    ev: FileEvidenceModel,
    calls: Seq<JsonModel>,
    output: Seq<char>,
    depth: nat,
    k: nat,
)
    ensures
        evidence_grows(ev, spec_batch(ev, calls, output, depth, k)),
    decreases MAX_BATCH_NESTING - depth, 0nat, k,
{
    if k == 0 || k > calls.len() || depth >= MAX_BATCH_NESTING {
    } else {
        let prev = spec_batch(ev, calls, output, depth, (k - 1) as nat);
        law_batch_only_accumulates(ev, calls, output, depth, (k - 1) as nat);
        let call = calls[k - 1];
        let next = spec_batch(ev, calls, output, depth, k);
        if call is Object {
            match crate::evidence::inspect::batch_call_name(call) {
                Some(nm) => {
                    let canonical = canonical_tool_name(nm);
                    law_inspection_only_accumulates(
                        prev,
                        canonical,
                        crate::evidence::inspect::nested_params(call),
                        crate::evidence::outcome::batch_subcall_outcome_spec(
                            output,
                            (k - 1) as nat,
                            nm,
                            canonical,
                        ),
                        depth + 1,
                    );
                },
                None => {
                    lemma_mark_all_grows(
                        prev,
                        "batch contained a tool call without a tool name; evidence may be incomplete"@,
                    );
                },
            }
        } else {
            lemma_mark_all_grows(
                prev,
                "batch contained a non-object tool call; evidence may be incomplete"@,
            );
        }
        lemma_evidence_grows_trans(ev, prev, next);
    }
}

/// A call that failed, has no result, or has several results records no path in any category:
/// it only marks categories incomplete.
pub proof fn law_unsuccessful_call_records_no_path(
    ev: FileEvidenceModel,
    name: Seq<char>,
    input: JsonModel,
    outcome: OutcomeModel,
    depth: nat,
)
    requires
        !(outcome is Succeeded),
    ensures
        same_paths(ev, spec_inspect(ev, name, input, outcome, depth)),
        evidence_grows(ev, spec_inspect(ev, name, input, outcome, depth)),
{
    lemma_unsuccessful_claims_nothing(ev, canonical_tool_name(trim_seq(name)), input, outcome);
}

/// The tool names the inspection distinguishes differ in length or in their first character.
proof fn lemma_tool_name_literals()
    ensures
        "write"@.len() == 5 && "write"@[0] == 'w',
        "edit"@.len() == 4 && "edit"@[0] == 'e',
        "multiedit"@.len() == 9 && "multiedit"@[0] == 'm',
        "patch"@.len() == 5 && "patch"@[0] == 'p',
        "apply_patch"@.len() == 11 && "apply_patch"@[0] == 'a',
        "read"@.len() == 4 && "read"@[0] == 'r',
        "agentgrep"@.len() == 9 && "agentgrep"@[0] == 'a',
        "ls"@.len() == 2 && "ls"@[0] == 'l',
        "browser"@.len() == 7 && "browser"@[0] == 'b',
        "open"@.len() == 4 && "open"@[0] == 'o',
        "webfetch"@.len() == 8 && "webfetch"@[0] == 'w',
        "batch"@.len() == 5 && "batch"@[0] == 'b',
        "bash"@.len() == 4 && "bash"@[0] == 'b',
{
    reveal_strlit("write");
    reveal_strlit("edit");
    reveal_strlit("multiedit");
    reveal_strlit("patch");
    reveal_strlit("apply_patch");
    reveal_strlit("read");
    reveal_strlit("agentgrep");
    reveal_strlit("ls");
    reveal_strlit("browser");
    reveal_strlit("open");
    reveal_strlit("webfetch");
    reveal_strlit("batch");
    reveal_strlit("bash");
}

/// A search or browse (`ls`, `browser`, `open`, `webfetch`, or an `agentgrep` that is not an
/// outline) never implies a read or a change, whatever its outcome.
pub proof fn law_search_never_implies_read(
    ev: FileEvidenceModel,
    name: Seq<char>,
    input: JsonModel,
    outcome: OutcomeModel,
    depth: nat,
)
    requires
        is_search_only(canonical_tool_name(trim_seq(name)), input),
    ensures
        spec_inspect(ev, name, input, outcome, depth).read_or_inspected == ev.read_or_inspected,
        spec_inspect(ev, name, input, outcome, depth).changed == ev.changed,
{
    lemma_tool_name_literals();
    if canonical_tool_name(trim_seq(name)) == "agentgrep"@ {
        let default_mode = crate::text::ascii_lower_seq(trim_seq("grep"@));
        assert(default_mode != "outline"@) by {
            lemma_trim_len("grep"@);
            reveal_strlit("grep");
            reveal_strlit("outline");
            assert("grep"@.len() == 4);
            assert("outline"@.len() == 7);
        }
    }
}

/// A successful `write`, `edit` or `multiedit` only ever touches the changed category, and a
/// successful `read` only the read-or-inspected one.
pub proof fn law_changes_and_reads_stay_distinct(
    ev: FileEvidenceModel,
    name: Seq<char>,
    input: JsonModel,
    content: Seq<char>,
    depth: nat,
)
    ensures
        ({
            let n = canonical_tool_name(trim_seq(name));
            let after = spec_inspect(ev, name, input, OutcomeModel::Succeeded(content), depth);
            &&& (n == "write"@ || n == "edit"@ || n == "multiedit"@ || n == "patch"@ || n
                == "apply_patch"@) ==> after.read_or_inspected == ev.read_or_inspected
                && after.searched_or_browsed == ev.searched_or_browsed
            &&& n == "read"@ ==> after.changed == ev.changed && after.searched_or_browsed
                == ev.searched_or_browsed
        }),
{
    lemma_tool_name_literals();
}

/// Evidence is a function of the selected messages alone: ranges holding the same messages
/// give the same evidence, whatever surrounds them.
pub proof fn law_evidence_depends_only_on_range(
    a: Seq<StoredMessage>,
    a_start: int,
    a_end: int,
    b: Seq<StoredMessage>,
    b_start: int,
    b_end: int,
)
    requires
        range_of(a, a_start, a_end) == range_of(b, b_start, b_end),
    ensures
        range_evidence(a, a_start, a_end) == range_evidence(b, b_start, b_end),
{
}

/// The persisted evidence of a range is a function of the selected messages alone: two
/// extractions over ranges holding the same messages give the same paths, warnings and
/// completeness in every category, whatever surrounds the ranges.
pub proof fn law_extracted_evidence_depends_only_on_range(
    a: Seq<StoredMessage>,
    a_start: int,
    a_end: int,
    ra: FileEvidence,
    b: Seq<StoredMessage>,
    b_start: int,
    b_end: int,
    rb: FileEvidence,
)
    requires
        extracted_from(ra, a, a_start, a_end),
        extracted_from(rb, b, b_start, b_end),
        range_of(a, a_start, a_end) == range_of(b, b_start, b_end),
    ensures
        same_path_evidence(ra.changed, rb.changed),
        same_path_evidence(ra.read_or_inspected, rb.read_or_inspected),
        same_path_evidence(ra.searched_or_browsed, rb.searched_or_browsed),
{
    law_evidence_depends_only_on_range(a, a_start, a_end, b, b_start, b_end);
    lemma_finished_unique(ra.changed, rb.changed, range_evidence(a, a_start, a_end).changed);
    lemma_finished_unique(
        ra.read_or_inspected,
        rb.read_or_inspected,
        range_evidence(a, a_start, a_end).read_or_inspected,
    );
    lemma_finished_unique(
        ra.searched_or_browsed,
        rb.searched_or_browsed,
        range_evidence(a, a_start, a_end).searched_or_browsed,
    );
}

/// A category has one finished form.
proof fn lemma_finished_unique(p: PathEvidence, q: PathEvidence, m: CategoryModel)
    requires
        finished(p, m),
        finished(q, m),
    ensures
        same_path_evidence(p, q),
{
    lemma_strictly_sorted_unique(views(p.paths@), views(q.paths@));
    lemma_strictly_sorted_unique(views(p.warnings@), views(q.warnings@));
}

} // verus!
