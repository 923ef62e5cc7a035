//! Outcomes of tool calls: top-level calls matched with their stored results, and batch
//! subcalls matched with their sections of the batch output.

use vstd::prelude::*;

use crate::model::{ContentBlock, StoredMessage};
use crate::text::{
    ascii_lower_seq, chars_of, chars_eq, decimal, decimal_chars, eq_ignore_ascii_case,
    find_chars, first_occurrence, has_prefix, slice_chars, starts_with_chars, string_from_chars,
    trim_bounds, trim_seq,
};

verus! {

/// What is known of a tool call's outcome.
pub enum OutcomeModel {
    Succeeded(Seq<char>),
    Failed,
    Missing,
    Ambiguous,
}

/// The outcome of one tool call within the selected range.
pub enum ToolOutcome {
    /// Exactly one non-error result, with its content.
    Succeeded(String),
    /// Exactly one result, flagged as an error.
    Failed,
    /// No result in the selected range.
    Missing,
    /// More than one result in the selected range.
    Ambiguous,
}

impl View for ToolOutcome {
    type V = OutcomeModel;

    open spec fn view(&self) -> OutcomeModel {
        match self {
            ToolOutcome::Succeeded(c) => OutcomeModel::Succeeded(c@),
            ToolOutcome::Failed => OutcomeModel::Failed,
            ToolOutcome::Missing => OutcomeModel::Missing,
            ToolOutcome::Ambiguous => OutcomeModel::Ambiguous,
        }
    }
}

/// The content blocks of `msgs`, in order.
pub open spec fn flat_blocks(msgs: Seq<StoredMessage>) -> Seq<ContentBlock>
    decreases msgs.len(),
{
    if msgs.len() == 0 {
        Seq::empty()
    } else {
        flat_blocks(msgs.drop_last()) + msgs.last().content@
    }
}

/// The results (content, error flag) that answer tool call `id`, in order.
pub open spec fn results_for(blocks: Seq<ContentBlock>, id: Seq<char>) -> Seq<(Seq<char>, bool)>
    decreases blocks.len(),
{
    if blocks.len() == 0 {
        Seq::empty()
    } else {
        let prev = results_for(blocks.drop_last(), id);
        match blocks.last() {
            ContentBlock::ToolResult { tool_use_id, content, is_error } => {
                if tool_use_id@ == id {
                    prev.push((content@, is_error.unwrap_or(false)))
                } else {
                    prev
                }
            },
            _ => prev,
        }
    }
}

/// The outcome implied by the matching results of a call.
pub open spec fn outcome_from_results(r: Seq<(Seq<char>, bool)>) -> OutcomeModel {
    if r.len() == 0 {
        OutcomeModel::Missing
    } else if r.len() != 1 {
        OutcomeModel::Ambiguous
    } else if r[0].1 {
        OutcomeModel::Failed
    } else {
        OutcomeModel::Succeeded(r[0].0)
    }
}

/// The messages `start..=end`.
pub open spec fn range_of(msgs: Seq<StoredMessage>, start: int, end: int) -> Seq<StoredMessage> {
    msgs.subrange(start, end + 1)
}

proof fn lemma_flat_step(msgs: Seq<StoredMessage>, k: int)
    requires
        0 <= k < msgs.len(),
    ensures
        flat_blocks(msgs.take(k + 1)) == flat_blocks(msgs.take(k)) + msgs[k].content@,
{
    assert(msgs.take(k + 1).drop_last() =~= msgs.take(k));
}

/// The outcome of tool call `id` judged by the results in messages `start..=end`.
pub fn top_level_tool_outcome(messages: &Vec<StoredMessage>, start: usize, end: usize, id: &str) -> (r:
    ToolOutcome)
    requires
        start <= end < messages.len(),
    ensures
        r@ == outcome_from_results(
            results_for(flat_blocks(range_of(messages@, start as int, end as int)), id@),
        ),
{
    let ghost range = range_of(messages@, start as int, end as int);
    let idc = chars_of(id);
    let mut count: usize = 0;
    let mut first_content: String = String::new();
    let mut first_error: bool = false;
    let mut k: usize = start;
    let ghost mut prefix: Seq<ContentBlock> = Seq::empty();
    assert(range.take(0) =~= Seq::<StoredMessage>::empty());
    while k <= end
        invariant
            start <= k <= end + 1,
            end < messages.len(),
            range == range_of(messages@, start as int, end as int),
            idc@ == id@,
            prefix == flat_blocks(range.take(k - start)),
            count == (if results_for(prefix, id@).len() < 2 {
                results_for(prefix, id@).len()
            } else {
                2
            }),
            count > 0 ==> results_for(prefix, id@)[0] == (first_content@, first_error),
        decreases end + 1 - k,
    {
        let msg = &messages[k];
        let mut j: usize = 0;
        let ghost base = prefix;
        assert(range[k - start] == messages@[k as int]);
        while j < msg.content.len()
            invariant
                j <= msg.content.len(),
                idc@ == id@,
                prefix == base + msg.content@.take(j as int),
                count == (if results_for(prefix, id@).len() < 2 {
                    results_for(prefix, id@).len()
                } else {
                    2
                }),
                count > 0 ==> results_for(prefix, id@)[0] == (first_content@, first_error),
            decreases msg.content.len() - j,
        {
            let ghost next = base + msg.content@.take(j + 1);
            assert(next =~= prefix.push(msg.content@[j as int]));
            assert(next.drop_last() =~= prefix);
            match &msg.content[j] {
                ContentBlock::ToolResult { tool_use_id, content, is_error } => {
                    let tc = chars_of(tool_use_id.as_str());
                    if chars_eq(&tc, &idc) {
                        if count == 0 {
                            first_content = content.clone();
                            first_error = match is_error {
                                Some(e) => *e,
                                None => false,
                            };
                        }
                        if count < 2 {
                            count = count + 1;
                        }
                    }
                },
                _ => {},
            }
            proof {
                prefix = next;
            }
            j += 1;
        }
        assert(msg.content@.take(msg.content.len() as int) =~= msg.content@);
        proof {
            lemma_flat_step(range, k - start);
        }
        k += 1;
    }
    assert(range.take(end + 1 - start) =~= range);
    if count == 0 {
        ToolOutcome::Missing
    } else if count != 1 {
        ToolOutcome::Ambiguous
    } else if first_error {
        ToolOutcome::Failed
    } else {
        ToolOutcome::Succeeded(first_content)
    }
}

// ---------------------------------------------------------------------------
// Batch output sections
// ---------------------------------------------------------------------------

/// The position just past the line that starts at `i` (after its `\n`, or the end of `s`).
pub open spec fn line_end(s: Seq<char>, i: int) -> int
    decreases s.len() - i,
{
    if i < 0 || i >= s.len() {
        s.len() as int
    } else if s[i] == '\n' {
        i + 1
    } else {
        line_end(s, i + 1)
    }
}

pub open spec fn is_crlf(c: char) -> bool {
    c == '\r' || c == '\n'
}

/// `trim_end_matches(['\r', '\n'])`.
pub open spec fn trim_end_crlf(s: Seq<char>) -> Seq<char>
    decreases s.len(),
{
    if s.len() > 0 && is_crlf(s.last()) {
        trim_end_crlf(s.drop_last())
    } else {
        s
    }
}

/// `trim_start_matches(['\r', '\n'])`.
pub open spec fn trim_start_crlf(s: Seq<char>) -> Seq<char>
    decreases s.len(),
{
    if s.len() > 0 && is_crlf(s[0]) {
        trim_start_crlf(s.drop_first())
    } else {
        s
    }
}

pub proof fn lemma_line_end_bounds(s: Seq<char>, i: int)
    requires
        0 <= i < s.len(),
    ensures
        i < line_end(s, i) <= s.len(),
    decreases s.len() - i,
{
    if s[i] == '\n' {
        assert(line_end(s, i) == i + 1);
    } else if i + 1 < s.len() {
        lemma_line_end_bounds(s, i + 1);
        assert(line_end(s, i) == line_end(s, i + 1));
    } else {
        assert(line_end(s, i) == line_end(s, i + 1));
        assert(line_end(s, i + 1) == s.len());
    }
}

/// Positions just after each line, from position `i` on, whose text (line break removed) is
/// one of `headers`.
pub open spec fn matching_body_starts(s: Seq<char>, headers: Seq<Seq<char>>, i: int) -> Seq<int>
    decreases s.len() - i,
{
    if i < 0 || i >= s.len() {
        Seq::empty()
    } else {
        let e = line_end(s, i);
        proof {
            lemma_line_end_bounds(s, i);
        }
        let rest = matching_body_starts(s, headers, e);
        if headers.contains(trim_end_crlf(s.subrange(i, e))) {
            seq![e] + rest
        } else {
            rest
        }
    }
}

/// The header that introduces section `index + 1` of a batch output.
pub open spec fn header_prefix(index: nat) -> Seq<char> {
    "--- ["@ + decimal(index + 1) + "] "@
}

/// The accepted headers for a subcall: by its canonical name, and also by its original name
/// when the two differ beyond ASCII case.
pub open spec fn batch_headers(index: nat, original: Seq<char>, canonical: Seq<char>) -> Seq<
    Seq<char>,
> {
    let p = header_prefix(index);
    if ascii_lower_seq(original) == ascii_lower_seq(canonical) {
        seq![p + canonical + " ---"@]
    } else {
        seq![p + original + " ---"@, p + canonical + " ---"@]
    }
}

/// The text of the section whose body starts at `start`: up to the next section header or the
/// completion summary, trimmed.
pub open spec fn section_body(output: Seq<char>, start: int) -> Seq<char> {
    let body = trim_start_crlf(output.subrange(start, output.len() as int));
    let end = match first_occurrence(body, "\n--- ["@) {
        Some(e) => e,
        None => match first_occurrence(body, "\nCompleted:"@) {
            Some(e) => e,
            None => body.len() as int,
        },
    };
    trim_seq(body.take(end))
}

/// The outcome of subcall `index` of a batch, judged by the batch output.
pub open spec fn batch_subcall_outcome_spec(
    output: Seq<char>,
    index: nat,
    original: Seq<char>,
    canonical: Seq<char>,
) -> OutcomeModel {
    let starts = matching_body_starts(output, batch_headers(index, original, canonical), 0);
    if starts.len() == 0 {
        OutcomeModel::Missing
    } else if starts.len() != 1 {
        OutcomeModel::Ambiguous
    } else {
        let body = section_body(output, starts[0]);
        if has_prefix(body, "Error: "@) {
            OutcomeModel::Failed
        } else {
            OutcomeModel::Succeeded(body)
        }
    }
}

fn line_end_exec(s: &Vec<char>, i: usize) -> (e: usize)
    requires
        i < s.len(),
    ensures
        e as int == line_end(s@, i as int),
{
    let mut k: usize = i;
    while k < s.len() && s[k] != '\n'
        invariant
            i <= k <= s.len(),
            line_end(s@, i as int) == line_end(s@, k as int),
        decreases s.len() - k,
    {
        k += 1;
    }
    if k < s.len() {
        k + 1
    } else {
        k
    }
}

proof fn lemma_trim_end_crlf(s: Seq<char>, j: int)
    requires
        0 <= j <= s.len(),
        forall|k: int| j <= k < s.len() ==> is_crlf(#[trigger] s[k]),
        j == 0 || !is_crlf(s[j - 1]),
    ensures
        trim_end_crlf(s) == s.subrange(0, j),
    decreases s.len() - j,
{
    if j == s.len() {
        assert(s.subrange(0, j) =~= s);
    } else {
        let t = s.drop_last();
        assert forall|k: int| j <= k < t.len() implies is_crlf(#[trigger] t[k]) by {
            assert(t[k] == s[k]);
        }
        assert(s[s.len() - 1] == s.last());
        assert(j == 0 || t[j - 1] == s[j - 1]);
        lemma_trim_end_crlf(t, j);
        assert(t.subrange(0, j) =~= s.subrange(0, j));
    }
}

proof fn lemma_trim_start_crlf(s: Seq<char>, i: int)
    requires
        0 <= i <= s.len(),
        forall|k: int| 0 <= k < i ==> is_crlf(#[trigger] s[k]),
        i == s.len() || !is_crlf(s[i]),
    ensures
        trim_start_crlf(s) == s.subrange(i, s.len() as int),
    decreases i,
{
    if i == 0 {
        assert(s.subrange(0, s.len() as int) =~= s);
    } else {
        let t = s.drop_first();
        assert forall|k: int| 0 <= k < i - 1 implies is_crlf(#[trigger] t[k]) by {
            assert(t[k] == s[k + 1]);
        }
        assert(i - 1 == t.len() || t[i - 1] == s[i]);
        lemma_trim_start_crlf(t, i - 1);
        assert(t.subrange(i - 1, t.len() as int) =~= s.subrange(i, s.len() as int));
    }
}

/// The text of line `i..e` without its trailing line-break characters.
fn line_text(s: &Vec<char>, i: usize, e: usize) -> (r: Vec<char>)
    requires
        i <= e <= s.len(),
    ensures
        r@ == trim_end_crlf(s@.subrange(i as int, e as int)),
{
    let line = slice_chars(s, i, e);
    let mut j: usize = line.len();
    while j > 0 && (line[j - 1] == '\r' || line[j - 1] == '\n')
        invariant
            j <= line.len(),
            forall|k: int| j <= k < line.len() ==> is_crlf(#[trigger] line@[k]),
        decreases j,
    {
        j -= 1;
    }
    proof {
        lemma_trim_end_crlf(line@, j as int);
    }
    slice_chars(&line, 0, j)
}

fn is_header(line: &Vec<char>, headers: &Vec<Vec<char>>) -> (r: bool)
    ensures
        r == headers@.map_values(|h: Vec<char>| h@).contains(line@),
{
    let ghost hv = headers@.map_values(|h: Vec<char>| h@);
    let mut k: usize = 0;
    while k < headers.len()
        invariant
            k <= headers.len(),
            hv == headers@.map_values(|h: Vec<char>| h@),
            forall|m: int| 0 <= m < k ==> #[trigger] hv[m] != line@,
        decreases headers.len() - k,
    {
        if chars_eq(&headers[k], line) {
            assert(hv[k as int] == line@);
            return true;
        }
        k += 1;
    }
    false
}

fn header_chars(prefix: &Vec<char>, name: &Vec<char>) -> (r: Vec<char>)
    ensures
        r@ == prefix@ + name@ + " ---"@,
{
    let mut v = prefix.clone();
    let mut n = name.clone();
    v.append(&mut n);
    let mut tail = chars_of(" ---");
    let ghost before = v@;
    v.append(&mut tail);
    v
}

/// The outcome of subcall `index` (zero-based) of a batch whose combined output is `output`.
pub fn batch_subcall_outcome(
    output: &str,
    zero_based_index: usize,
    original_name: &str,
    canonical_name: &str,
) -> (r: ToolOutcome)
    requires
        zero_based_index < usize::MAX,
    ensures
        r@ == batch_subcall_outcome_spec(
            output@,
            zero_based_index as nat,
            original_name@,
            canonical_name@,
        ),
{
    let out = chars_of(output);
    let orig = chars_of(original_name);
    let canon = chars_of(canonical_name);
    let mut prefix = chars_of("--- [");
    let mut num = decimal_chars((zero_based_index + 1) as u64);
    prefix.append(&mut num);
    let mut close = chars_of("] ");
    prefix.append(&mut close);
    assert(prefix@ =~= header_prefix(zero_based_index as nat));
    let mut headers: Vec<Vec<char>> = Vec::new();
    if eq_ignore_ascii_case(&orig, &canon) {
        headers.push(header_chars(&prefix, &canon));
    } else {
        headers.push(header_chars(&prefix, &orig));
        headers.push(header_chars(&prefix, &canon));
    }
    let ghost hs = batch_headers(zero_based_index as nat, original_name@, canonical_name@);
    assert(headers@.map_values(|h: Vec<char>| h@) =~= hs);
    let mut i: usize = 0;
    let mut count: usize = 0;
    let mut first: usize = 0;
    let ghost mut acc: Seq<int> = Seq::empty();
    while i < out.len()
        invariant
            i <= out.len(),
            headers@.map_values(|h: Vec<char>| h@) == hs,
            matching_body_starts(out@, hs, 0) == acc + matching_body_starts(out@, hs, i as int),
            count == acc.len(),
            count <= i,
            count > 0 ==> acc[0] == first as int,
            count > 0 ==> first <= out.len(),
        decreases out.len() - i,
    {
        let e = line_end_exec(&out, i);
        proof {
            lemma_line_end_bounds(out@, i as int);
        }
        let line = line_text(&out, i, e);
        if is_header(&line, &headers) {
            proof {
                assert(matching_body_starts(out@, hs, i as int) =~= seq![e as int]
                    + matching_body_starts(out@, hs, e as int));
                assert(acc + matching_body_starts(out@, hs, i as int) =~= acc.push(e as int)
                    + matching_body_starts(out@, hs, e as int));
                acc = acc.push(e as int);
            }
            if count == 0 {
                first = e;
            }
            count = count + 1;
        }
        i = e;
    }
    assert(acc + matching_body_starts(out@, hs, i as int) =~= acc);
    if count == 0 {
        return ToolOutcome::Missing;
    }
    if count != 1 {
        return ToolOutcome::Ambiguous;
    }
    let rest = slice_chars(&out, first, out.len());
    let mut b: usize = 0;
    while b < rest.len() && (rest[b] == '\r' || rest[b] == '\n')
        invariant
            b <= rest.len(),
            forall|k: int| 0 <= k < b ==> is_crlf(#[trigger] rest@[k]),
        decreases rest.len() - b,
    {
        b += 1;
    }
    proof {
        lemma_trim_start_crlf(rest@, b as int);
    }
    let body = slice_chars(&rest, b, rest.len());
    let next_header = chars_of("\n--- [");
    let completed = chars_of("\nCompleted:");
    let end = match find_chars(&body, &next_header) {
        Some(e) => e,
        None => match find_chars(&body, &completed) {
            Some(e) => e,
            None => body.len(),
        },
    };
    proof {
        if end < body.len() {
        }
    }
    assert(end <= body.len()) by {
        if first_occurrence(body@, "\n--- ["@) is Some {
        }
    }
    let head = slice_chars(&body, 0, end);
    assert(head@ =~= body@.take(end as int));
    let (ts, te) = trim_bounds(&head);
    let text = slice_chars(&head, ts, te);
    let err = chars_of("Error: ");
    if starts_with_chars(&text, &err) {
        ToolOutcome::Failed
    } else {
        ToolOutcome::Succeeded(string_from_chars(&text))
    }
}

} // verus!
