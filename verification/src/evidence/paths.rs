//! Lexical normalization of file paths named in tool inputs.
//!
//! Normalization never touches the filesystem. It trims the text, turns
//! backslashes into slashes, keeps the root kind (relative, Unix root, UNC
//! share, Windows drive), drops empty and `.` components, and resolves `..`
//! against preceding ordinary components. A rooted path never climbs above its
//! root, and a UNC path never climbs above its server and share.

use vstd::prelude::*;

use crate::text::{chars_of, is_ascii_alpha, slice_chars, string_from_chars, trim_chars, trim_seq};

verus! {

pub open spec fn dot() -> Seq<char> {
    seq!['.']
}

pub open spec fn dot_dot() -> Seq<char> {
    seq!['.', '.']
}

/// Every backslash replaced by a slash.
pub open spec fn replace_backslashes(s: Seq<char>) -> Seq<char> {
    s.map_values(|c: char| if c == '\\' { '/' } else { c })
}

/// `s.split('/')`: the components between slashes, empty ones included.
pub open spec fn split_slash(s: Seq<char>) -> Seq<Seq<char>>
    decreases s.len(),
{
    if s.len() == 0 {
        seq![Seq::<char>::empty()]
    } else {
        let prev = split_slash(s.drop_last());
        if s.last() == '/' {
            prev.push(Seq::<char>::empty())
        } else {
            prev.update(prev.len() - 1, prev.last().push(s.last()))
        }
    }
}

/// The effect of one component on the resolved component stack.
pub open spec fn step_component(
    acc: Seq<Seq<char>>,
    c: Seq<char>,
    protected: nat,
    rooted: bool,
) -> Seq<Seq<char>> {
    if c.len() == 0 || c == dot() {
        acc
    } else if c == dot_dot() {
        if acc.len() > protected && acc.last() != dot_dot() {
            acc.drop_last()
        } else if !rooted {
            acc.push(dot_dot())
        } else {
            acc
        }
    } else {
        acc.push(c)
    }
}

/// The resolved components after processing `comps` in order.
pub open spec fn fold_components(comps: Seq<Seq<char>>, protected: nat, rooted: bool) -> Seq<
    Seq<char>,
>
    decreases comps.len(),
{
    if comps.len() == 0 {
        Seq::empty()
    } else {
        step_component(
            fold_components(comps.drop_last(), protected, rooted),
            comps.last(),
            protected,
            rooted,
        )
    }
}

/// Components joined with `/`.
pub open spec fn join_slash(parts: Seq<Seq<char>>) -> Seq<char>
    decreases parts.len(),
{
    if parts.len() == 0 {
        Seq::empty()
    } else if parts.len() == 1 {
        parts[0]
    } else {
        join_slash(parts.drop_last()) + seq!['/'] + parts.last()
    }
}

/// The resolved, slash-joined components of `s`.
pub open spec fn resolved(s: Seq<char>, protected: nat, rooted: bool) -> Seq<char> {
    join_slash(fold_components(split_slash(s), protected, rooted))
}

/// Whether a (slash-converted) path starts with a Windows drive such as `C:`.
pub open spec fn has_drive(r: Seq<char>) -> bool {
    r.len() >= 2 && is_ascii_alpha(r[0]) && r[1] == ':'
}

/// The normalized form of a path, or `None` when it is empty or resolves to nothing.
pub open spec fn spec_normalize_path(raw: Seq<char>) -> Option<Seq<char>> {
    let t = trim_seq(raw);
    if t.len() == 0 {
        None
    } else {
        let r = replace_backslashes(t);
        if has_drive(r) {
            let rest = r.subrange(2, r.len() as int);
            let rooted = rest.len() > 0 && rest[0] == '/';
            if rooted {
                Some(r.take(2).push('/') + resolved(rest, 0, true))
            } else {
                Some(r.take(2) + resolved(rest, 0, false))
            }
        } else if r.len() >= 2 && r[0] == '/' && r[1] == '/' {
            Some(seq!['/', '/'] + resolved(r, 2, true))
        } else if r.len() >= 1 && r[0] == '/' {
            Some(seq!['/'] + resolved(r, 0, true))
        } else {
            let joined = resolved(r, 0, false);
            if joined.len() == 0 {
                None
            } else {
                Some(joined)
            }
        }
    }
}

spec fn cviews(v: Seq<Vec<char>>) -> Seq<Seq<char>> {
    v.map_values(|x: Vec<char>| x@)
}

proof fn lemma_split_nonempty(s: Seq<char>)
    ensures
        split_slash(s).len() >= 1,
    decreases s.len(),
{
    if s.len() > 0 {
        lemma_split_nonempty(s.drop_last());
    }
}

fn is_dot_dot(c: &Vec<char>) -> (r: bool)
    ensures
        r == (c@ == dot_dot()),
{
    let r = c.len() == 2 && c[0] == '.' && c[1] == '.';
    if r {
        assert(c@ =~= dot_dot());
    }
    r
}

fn apply_component(stack: &mut Vec<Vec<char>>, c: Vec<char>, protected: usize, rooted: bool)
    ensures
        cviews(final(stack)@) == step_component(
            cviews(old(stack)@),
            c@,
            protected as nat,
            rooted,
        ),
{
    let ghost old_views = cviews(stack@);
    if c.len() == 0 || (c.len() == 1 && c[0] == '.') {
        proof {
            if c.len() == 1 {
                assert(c@ =~= dot());
            }
        }
        return ;
    }
    assert(c@ != dot()) by {
        if c@ == dot() {
            assert(c@.len() == 1);
        }
    }
    if is_dot_dot(&c) {
        let n = stack.len();
        if n > protected && !is_dot_dot(&stack[n - 1]) {
            assert(old_views.last() == stack@[n - 1]@);
            stack.pop();
            assert(cviews(stack@) =~= old_views.drop_last());
        } else if !rooted {
            proof {
                if n > protected {
                    assert(old_views.last() == stack@[n - 1]@);
                }
            }
            stack.push(c);
            assert(cviews(stack@) =~= old_views.push(dot_dot()));
        } else {
            proof {
                if n > protected {
                    assert(old_views.last() == stack@[n - 1]@);
                }
            }
        }
    } else {
        let ghost cv = c@;
        stack.push(c);
        assert(cviews(stack@) =~= old_views.push(cv));
    }
}

/// The resolved components of `s`, as character vectors.
fn resolve_components(s: &Vec<char>, protected: usize, rooted: bool) -> (r: Vec<Vec<char>>)
    ensures
        cviews(r@) == fold_components(split_slash(s@), protected as nat, rooted),
{
    let mut stack: Vec<Vec<char>> = Vec::new();
    let mut cur: Vec<char> = Vec::new();
    let mut i: usize = 0;
    assert(s@.take(0) =~= Seq::<char>::empty());
    while i < s.len()
        invariant
            i <= s.len(),
            split_slash(s@.take(i as int)).len() >= 1,
            cviews(stack@) == fold_components(
                split_slash(s@.take(i as int)).drop_last(),
                protected as nat,
                rooted,
            ),
            cur@ == split_slash(s@.take(i as int)).last(),
        decreases s.len() - i,
    {
        let ghost sp = split_slash(s@.take(i as int));
        let ghost t1 = s@.take(i + 1);
        assert(t1.drop_last() =~= s@.take(i as int));
        assert(t1.last() == s@[i as int]);
        if s[i] == '/' {
            let c = cur;
            proof {
                assert(sp.drop_last().push(sp.last()) =~= sp);
            }
            apply_component(&mut stack, c, protected, rooted);
            cur = Vec::new();
            proof {
                assert(split_slash(t1) == sp.push(Seq::<char>::empty()));
                assert(split_slash(t1).drop_last() =~= sp);
                assert(split_slash(t1).last() =~= cur@);
            }
        } else {
            cur.push(s[i]);
            proof {
                let nsp = split_slash(t1);
                assert(nsp == sp.update(sp.len() - 1, sp.last().push(s@[i as int])));
                assert(nsp.drop_last() =~= sp.drop_last());
            }
        }
        i += 1;
    }
    assert(s@.take(s.len() as int) =~= s@);
    let ghost sp = split_slash(s@);
    assert(sp.drop_last().push(sp.last()) =~= sp);
    apply_component(&mut stack, cur, protected, rooted);
    stack
}

/// The components joined with `/`.
fn join_components(parts: &Vec<Vec<char>>) -> (r: Vec<char>)
    ensures
        r@ == join_slash(cviews(parts@)),
{
    let mut r: Vec<char> = Vec::new();
    let mut k: usize = 0;
    while k < parts.len()
        invariant
            k <= parts.len(),
            r@ == join_slash(cviews(parts@).take(k as int)),
        decreases parts.len() - k,
    {
        let ghost pre = cviews(parts@).take(k as int);
        let ghost next = cviews(parts@).take(k + 1);
        assert(next.drop_last() =~= pre);
        assert(next.last() == parts@[k as int]@);
        if k > 0 {
            r.push('/');
        }
        let mut m: usize = 0;
        let ghost base = r@;
        while m < parts[k].len()
            invariant
                k < parts.len(),
                m <= parts@[k as int].len(),
                r@ == base + parts@[k as int]@.take(m as int),
            decreases parts@[k as int].len() - m,
        {
            r.push(parts[k][m]);
            assert(parts@[k as int]@.take(m + 1) == parts@[k as int]@.take(m as int).push(
                parts@[k as int]@[m as int],
            ));
            m += 1;
        }
        assert(parts@[k as int]@.take(parts@[k as int].len() as int) =~= parts@[k as int]@);
        proof {
            if k == 0 {
                assert(next.len() == 1);
                assert(r@ =~= next[0]);
            } else {
                assert(r@ =~= join_slash(pre) + seq!['/'] + next.last());
            }
        }
        k += 1;
    }
    assert(cviews(parts@).take(parts.len() as int) =~= cviews(parts@));
    r
}

fn resolved_chars(s: &Vec<char>, protected: usize, rooted: bool) -> (r: Vec<char>)
    ensures
        r@ == resolved(s@, protected as nat, rooted),
{
    let comps = resolve_components(s, protected, rooted);
    join_components(&comps)
}

/// Lexically normalizes a path named in a tool input (see the module documentation).
/// Returns `None` for an empty path and for a relative path that resolves to nothing.
pub fn normalize_path(raw: &str) -> (r: Option<String>)
    ensures
        match r {
            Some(p) => spec_normalize_path(raw@) == Some(p@),
            None => spec_normalize_path(raw@) is None,
        },
{
    let c = chars_of(raw);
    let t = trim_chars(&c);
    if t.len() == 0 {
        return None;
    }
    let mut rep: Vec<char> = Vec::new();
    let mut i: usize = 0;
    while i < t.len()
        invariant
            i <= t.len(),
            rep@ == replace_backslashes(t@.take(i as int)),
        decreases t.len() - i,
    {
        let ch = if t[i] == '\\' {
            '/'
        } else {
            t[i]
        };
        rep.push(ch);
        assert(replace_backslashes(t@.take(i + 1)) =~= replace_backslashes(t@.take(i as int)).push(
            ch,
        ));
        i += 1;
    }
    assert(t@.take(t.len() as int) =~= t@);
    let r = rep;
    let drive = r.len() >= 2 && ((r[0] >= 'A' && r[0] <= 'Z') || (r[0] >= 'a' && r[0] <= 'z'))
        && r[1] == ':';
    if drive {
        let rest = slice_chars(&r, 2, r.len());
        let rooted = rest.len() > 0 && rest[0] == '/';
        let joined = resolved_chars(&rest, 0, rooted);
        let mut out = slice_chars(&r, 0, 2);
        assert(out@ =~= r@.take(2));
        if rooted {
            out.push('/');
        }
        let ghost before = out@;
        let mut joined_mut = joined;
        out.append(&mut joined_mut);
        assert(out@ =~= before + joined@);
        Some(string_from_chars(&out))
    } else if r.len() >= 2 && r[0] == '/' && r[1] == '/' {
        let joined = resolved_chars(&r, 2, true);
        let mut out: Vec<char> = Vec::new();
        out.push('/');
        out.push('/');
        let mut joined_mut = joined;
        out.append(&mut joined_mut);
        assert(out@ =~= seq!['/', '/'] + joined@);
        Some(string_from_chars(&out))
    } else if r.len() >= 1 && r[0] == '/' {
        let joined = resolved_chars(&r, 0, true);
        let mut out: Vec<char> = Vec::new();
        out.push('/');
        let mut joined_mut = joined;
        out.append(&mut joined_mut);
        assert(out@ =~= seq!['/'] + joined@);
        Some(string_from_chars(&out))
    } else {
        let joined = resolved_chars(&r, 0, false);
        if joined.len() == 0 {
            None
        } else {
            Some(string_from_chars(&joined))
        }
    }
}

} // verus!
