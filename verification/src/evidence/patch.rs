//! File paths named by a patch: unified-diff headers and `apply_patch` file operations.
//!
//! A unified-diff file is named by a `--- old` line immediately followed by a `+++ new`
//! line; both sides count except `/dev/null`, and a leading `a/` or `b/` is dropped. An
//! `apply_patch` document names files with `*** Add File:`, `*** Update File:`,
//! `*** Delete File:` and `*** Move to:` lines. An unpaired `---` line names nothing.

use vstd::prelude::*;

use crate::text::{
    chars_eq, chars_of, has_prefix, slice_chars, starts_with_chars, string_from_chars, trim_chars,
    trim_seq,
};

verus! {

/// `s.split('\n')`.
pub open spec fn split_lines_raw(s: Seq<char>) -> Seq<Seq<char>>
    decreases s.len(),
{
    if s.len() == 0 {
        seq![Seq::<char>::empty()]
    } else {
        let prev = split_lines_raw(s.drop_last());
        if s.last() == '\n' {
            prev.push(Seq::<char>::empty())
        } else {
            prev.update(prev.len() - 1, prev.last().push(s.last()))
        }
    }
}

/// `str::lines` without carriage-return handling (paths are trimmed afterwards, which removes
/// a trailing carriage return): the pieces between line feeds, the final line feed optional.
pub open spec fn text_lines(s: Seq<char>) -> Seq<Seq<char>> {
    let parts = split_lines_raw(s);
    if s.len() == 0 || s.last() == '\n' {
        parts.drop_last()
    } else {
        parts
    }
}

pub open spec fn after(line: Seq<char>, prefix: Seq<char>) -> Seq<char> {
    line.subrange(prefix.len() as int, line.len() as int)
}

/// A diff header path without its `a/` or `b/` side marker.
pub open spec fn strip_side(p: Seq<char>) -> Seq<char> {
    if has_prefix(p, "a/"@) || has_prefix(p, "b/"@) {
        p.subrange(2, p.len() as int)
    } else {
        p
    }
}

/// The path named by a `--- ` or `+++ ` header line, unless it is `/dev/null`.
pub open spec fn unified_path(line: Seq<char>) -> Seq<Seq<char>> {
    let p = trim_seq(line.subrange(4, line.len() as int));
    if p == "/dev/null"@ {
        Seq::empty()
    } else {
        seq![strip_side(p)]
    }
}

/// The path named by an `apply_patch` file-operation line.
pub open spec fn codex_path(line: Seq<char>) -> Seq<Seq<char>> {
    if has_prefix(line, "*** Add File: "@) {
        seq![trim_seq(after(line, "*** Add File: "@))]
    } else if has_prefix(line, "*** Update File: "@) {
        seq![trim_seq(after(line, "*** Update File: "@))]
    } else if has_prefix(line, "*** Delete File: "@) {
        seq![trim_seq(after(line, "*** Delete File: "@))]
    } else if has_prefix(line, "*** Move to: "@) {
        seq![trim_seq(after(line, "*** Move to: "@))]
    } else {
        Seq::empty()
    }
}

/// The paths named by `lines[i..]`, in order.
pub open spec fn patch_paths_from(lines: Seq<Seq<char>>, i: int) -> Seq<Seq<char>>
    decreases lines.len() - i,
{
    if i < 0 || i >= lines.len() {
        Seq::empty()
    } else if has_prefix(lines[i], "--- "@) && i + 1 < lines.len() && has_prefix(
        lines[i + 1],
        "+++ "@,
    ) {
        unified_path(lines[i]) + unified_path(lines[i + 1]) + patch_paths_from(lines, i + 2)
    } else {
        codex_path(lines[i]) + patch_paths_from(lines, i + 1)
    }
}

/// The file paths named by a patch, in order of appearance.
pub open spec fn patch_file_paths(text: Seq<char>) -> Seq<Seq<char>> {
    patch_paths_from(text_lines(text), 0)
}

spec fn cviews(v: Seq<Vec<char>>) -> Seq<Seq<char>> {
    v.map_values(|x: Vec<char>| x@)
}

fn lines_of(s: &Vec<char>) -> (r: Vec<Vec<char>>)
    ensures
        cviews(r@) == text_lines(s@),
{
    let mut parts: Vec<Vec<char>> = Vec::new();
    let mut cur: Vec<char> = Vec::new();
    let mut i: usize = 0;
    assert(s@.take(0) =~= Seq::<char>::empty());
    assert(cviews(parts@).push(cur@) =~= split_lines_raw(s@.take(0)));
    while i < s.len()
        invariant
            i <= s.len(),
            cviews(parts@).push(cur@) == split_lines_raw(s@.take(i as int)),
        decreases s.len() - i,
    {
        let ghost t1 = s@.take(i + 1);
        let ghost sp = split_lines_raw(s@.take(i as int));
        assert(t1.drop_last() =~= s@.take(i as int));
        assert(t1.last() == s@[i as int]);
        if s[i] == '\n' {
            let c = cur;
            let ghost cv = c@;
            parts.push(c);
            cur = Vec::new();
            assert(cviews(parts@).push(cur@) =~= sp.push(Seq::<char>::empty()));
        } else {
            let ghost pv = cviews(parts@);
            cur.push(s[i]);
            assert(cviews(parts@).push(cur@) =~= sp.update(sp.len() - 1, sp.last().push(s@[i as int])));
        }
        i += 1;
    }
    assert(s@.take(s.len() as int) =~= s@);
    if s.len() == 0 || s[s.len() - 1] == '\n' {
        assert(cviews(parts@) =~= split_lines_raw(s@).drop_last());
        parts
    } else {
        let ghost pv = cviews(parts@);
        parts.push(cur);
        assert(cviews(parts@) =~= split_lines_raw(s@));
        parts
    }
}

fn push_trimmed_after(out: &mut Vec<String>, line: &Vec<char>, prefix_len: usize)
    requires
        prefix_len <= line.len(),
    ensures
        final(out)@.map_values(|x: String| x@) == old(out)@.map_values(|x: String| x@).push(
            trim_seq(line@.subrange(prefix_len as int, line.len() as int)),
        ),
{
    let rest = slice_chars(line, prefix_len, line.len());
    let t = trim_chars(&rest);
    let ghost before = old(out)@.map_values(|x: String| x@);
    out.push(string_from_chars(&t));
    assert(out@.map_values(|x: String| x@) =~= before.push(t@));
}

fn push_unified(out: &mut Vec<String>, line: &Vec<char>)
    requires
        line.len() >= 4,
    ensures
        final(out)@.map_values(|x: String| x@) == old(out)@.map_values(|x: String| x@) + unified_path(
            line@,
        ),
{
    let rest = slice_chars(line, 4, line.len());
    let p = trim_chars(&rest);
    let dev_null = chars_of("/dev/null");
    let ghost before = old(out)@.map_values(|x: String| x@);
    if chars_eq(&p, &dev_null) {
        assert(before + unified_path(line@) =~= before);
        return ;
    }
    let a = chars_of("a/");
    let b = chars_of("b/");
    proof {
        reveal_strlit("a/");
        reveal_strlit("b/");
    }
    let stripped = if starts_with_chars(&p, &a) || starts_with_chars(&p, &b) {
        slice_chars(&p, 2, p.len())
    } else {
        p
    };
    out.push(string_from_chars(&stripped));
    assert(out@.map_values(|x: String| x@) =~= before + unified_path(line@));
}

fn push_codex(out: &mut Vec<String>, line: &Vec<char>)
    ensures
        final(out)@.map_values(|x: String| x@) == old(out)@.map_values(|x: String| x@) + codex_path(
            line@,
        ),
{
    let ghost before = old(out)@.map_values(|x: String| x@);
    let add = chars_of("*** Add File: ");
    let update = chars_of("*** Update File: ");
    let delete = chars_of("*** Delete File: ");
    let moved = chars_of("*** Move to: ");
    if starts_with_chars(line, &add) {
        push_trimmed_after(out, line, add.len());
    } else if starts_with_chars(line, &update) {
        push_trimmed_after(out, line, update.len());
    } else if starts_with_chars(line, &delete) {
        push_trimmed_after(out, line, delete.len());
    } else if starts_with_chars(line, &moved) {
        push_trimmed_after(out, line, moved.len());
    }
    assert(out@.map_values(|x: String| x@) =~= before + codex_path(line@));
}

/// The file paths named by a patch (see the module documentation), in order of appearance.
pub fn parsed_patch_file_paths(patch_text: &str) -> (r: Vec<String>)
    ensures
        r@.map_values(|x: String| x@) == patch_file_paths(patch_text@),
{
    let text = chars_of(patch_text);
    let lines = lines_of(&text);
    let ghost lv = text_lines(patch_text@);
    let minus = chars_of("--- ");
    let plus = chars_of("+++ ");
    proof {
        reveal_strlit("--- ");
        reveal_strlit("+++ ");
    }
    let mut out: Vec<String> = Vec::new();
    let mut i: usize = 0;
    while i < lines.len()
        invariant
            i <= lines.len(),
            cviews(lines@) == lv,
            minus@ == "--- "@,
            plus@ == "+++ "@,
            minus@.len() == 4,
            plus@.len() == 4,
            out@.map_values(|x: String| x@) + patch_paths_from(lv, i as int) == patch_paths_from(
                lv,
                0,
            ),
        decreases lines.len() - i,
    {
        let ghost before = out@.map_values(|x: String| x@);
        assert(lv[i as int] == lines@[i as int]@);
        if starts_with_chars(&lines[i], &minus) && i + 1 < lines.len() && starts_with_chars(
            &lines[i + 1],
            &plus,
        ) {
            assert(lv[i + 1] == lines@[i + 1]@);
            push_unified(&mut out, &lines[i]);
            push_unified(&mut out, &lines[i + 1]);
            assert(out@.map_values(|x: String| x@) + patch_paths_from(lv, i + 2) =~= before
                + patch_paths_from(lv, i as int));
            i += 2;
        } else {
            push_codex(&mut out, &lines[i]);
            assert(out@.map_values(|x: String| x@) + patch_paths_from(lv, i + 1) =~= before
                + patch_paths_from(lv, i as int));
            i += 1;
        }
    }
    assert(out@.map_values(|x: String| x@) + patch_paths_from(lv, i as int) =~= out@.map_values(
        |x: String| x@,
    ));
    out
}

} // verus!
