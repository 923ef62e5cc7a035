//! Bounded accumulation of one evidence category: paths, warnings and completeness.

use vstd::prelude::*;

use crate::evidence::paths::normalize_path;
use crate::evidence::paths::spec_normalize_path;
use crate::text::{
    chars_of, concat2, contains_chars, contains_seq, decimal, decimal_string, insert_sorted,
    lemma_lt_irreflexive, sorted_contains, strictly_sorted, trim_chars, trim_seq, truncate_chars,
    truncated, views, string_from_chars,
};

verus! {

/// Longest persisted path or locator, in characters.
pub const STORED_CONTEXT_EVIDENCE_MAX_PATH_CHARS: usize = 1024;

/// Most paths persisted per category.
pub const STORED_CONTEXT_EVIDENCE_MAX_PATHS_PER_CATEGORY: usize = 256;

/// Longest persisted warning, in characters.
pub const STORED_CONTEXT_EVIDENCE_MAX_WARNING_CHARS: usize = 512;

/// Most warnings persisted per category, the two omission summaries included.
pub const STORED_CONTEXT_EVIDENCE_MAX_WARNINGS_PER_CATEGORY: usize = 32;

/// Warnings kept while accumulating; two slots stay free for the omission summaries.
pub open spec fn accumulating_warning_capacity() -> nat {
    (STORED_CONTEXT_EVIDENCE_MAX_WARNINGS_PER_CATEGORY - 2) as nat
}

/// `n + 1`, saturating at `usize::MAX`.
pub open spec fn sat_inc(n: nat) -> nat {
    if n < usize::MAX {
        n + 1
    } else {
        n
    }
}

/// What one category has accumulated.
pub struct CategoryModel {
    pub paths: Set<Seq<char>>,
    pub warnings: Set<Seq<char>>,
    pub complete: bool,
    pub omitted_paths: nat,
    pub omitted_warnings: nat,
}

pub open spec fn unusable_path_warning(kind: Seq<char>) -> Seq<char> {
    kind + " contained an empty or unusable path; evidence may be incomplete"@
}

pub open spec fn overlong_path_warning(kind: Seq<char>) -> Seq<char> {
    kind
        + " contained a path or locator longer than the persisted evidence limit; it was omitted"@
}

pub open spec fn omitted_paths_warning(n: nat) -> Seq<char> {
    decimal(n) + " additional evidence path(s) were omitted from persisted provenance"@
}

pub open spec fn omitted_warnings_warning(n: nat) -> Seq<char> {
    decimal(n) + " additional evidence warning(s) were omitted from persisted provenance"@
}

impl CategoryModel {
    /// A complete, empty category.
    pub open spec fn empty_complete() -> CategoryModel {
        CategoryModel {
            paths: Set::empty(),
            warnings: Set::empty(),
            complete: true,
            omitted_paths: 0,
            omitted_warnings: 0,
        }
    }

    /// The category marked incomplete, with the (truncated) warning recorded while room remains.
    pub open spec fn mark(self, warning: Seq<char>) -> CategoryModel {
        let w = truncated(warning, STORED_CONTEXT_EVIDENCE_MAX_WARNING_CHARS as nat);
        let base = CategoryModel { complete: false, ..self };
        if self.warnings.contains(w) {
            base
        } else if self.warnings.len() < accumulating_warning_capacity() {
            CategoryModel { warnings: self.warnings.insert(w), ..base }
        } else {
            CategoryModel { omitted_warnings: sat_inc(self.omitted_warnings), ..base }
        }
    }

    /// The category with an already-normalized path or locator recorded while room remains.
    pub open spec fn insert_normalized(self, value: Seq<char>, kind: Seq<char>) -> CategoryModel {
        if value.len() > STORED_CONTEXT_EVIDENCE_MAX_PATH_CHARS {
            self.mark(overlong_path_warning(kind))
        } else if self.paths.contains(value) {
            self
        } else if self.paths.len() < STORED_CONTEXT_EVIDENCE_MAX_PATHS_PER_CATEGORY {
            CategoryModel { paths: self.paths.insert(value), ..self }
        } else {
            CategoryModel { complete: false, omitted_paths: sat_inc(self.omitted_paths), ..self }
        }
    }

    /// The category with a raw file path recorded in normalized form.
    pub open spec fn insert_path(self, raw: Seq<char>, kind: Seq<char>) -> CategoryModel {
        match spec_normalize_path(raw) {
            Some(p) => self.insert_normalized(p, kind),
            None => self.mark(unusable_path_warning(kind)),
        }
    }

    /// The category with a URL (kept verbatim, trimmed) or a file path recorded.
    pub open spec fn insert_locator(self, raw: Seq<char>, kind: Seq<char>) -> CategoryModel {
        let t = trim_seq(raw);
        if contains_seq(t, "://"@) {
            self.insert_normalized(t, kind)
        } else {
            self.insert_path(t, kind)
        }
    }
}

/// One persisted evidence category.
#[derive(Debug)]
pub struct PathEvidence {
    /// Normalized paths and locators, sorted and distinct.
    pub paths: Vec<String>,
    /// Whether the category is known to be complete.
    pub complete: bool,
    /// Reasons for incompleteness, sorted and distinct.
    pub warnings: Vec<String>,
}

/// Accumulates one evidence category.
pub struct CategoryAccumulator {
    paths: Vec<String>,
    warnings: Vec<String>,
    complete: bool,
    omitted_path_count: usize,
    omitted_warning_count: usize,
}

impl View for CategoryAccumulator {
    type V = CategoryModel;

    closed spec fn view(&self) -> CategoryModel {
        CategoryModel {
            paths: views(self.paths@).to_set(),
            warnings: views(self.warnings@).to_set(),
            complete: self.complete,
            omitted_paths: self.omitted_path_count as nat,
            omitted_warnings: self.omitted_warning_count as nat,
        }
    }
}

proof fn lemma_sorted_no_duplicates(s: Seq<Seq<char>>)
    requires
        strictly_sorted(s),
    ensures
        s.no_duplicates(),
        s.to_set().len() == s.len(),
{
    assert forall|i: int, j: int| 0 <= i < s.len() && 0 <= j < s.len() && i != j implies s[i]
        != s[j] by {
        if s[i] == s[j] {
            lemma_lt_irreflexive(s[i]);
            if i < j {
                assert(crate::text::seq_lt(s[i], s[j]));
            } else {
                assert(crate::text::seq_lt(s[j], s[i]));
            }
        }
    }
    s.unique_seq_to_set();
}

impl CategoryAccumulator {
    /// The internal invariant: sorted distinct paths and warnings within their bounds.
    pub closed spec fn wf(&self) -> bool {
        &&& strictly_sorted(views(self.paths@))
        &&& strictly_sorted(views(self.warnings@))
        &&& self.paths@.len() <= STORED_CONTEXT_EVIDENCE_MAX_PATHS_PER_CATEGORY
        &&& self.warnings@.len() <= accumulating_warning_capacity()
    }

    /// A complete category with nothing recorded.
    pub fn complete() -> (r: CategoryAccumulator)
        ensures
            r.wf(),
            r@ == CategoryModel::empty_complete(),
    {
        let r = CategoryAccumulator {
            paths: Vec::new(),
            warnings: Vec::new(),
            complete: true,
            omitted_path_count: 0,
            omitted_warning_count: 0,
        };
        assert(views(r.paths@).to_set() =~= Set::empty());
        assert(views(r.warnings@).to_set() =~= Set::empty());
        r
    }

    /// Marks the category incomplete and records the warning (truncated to the persisted limit)
    /// unless it is already recorded; once the warning slots are full it only counts it.
    pub fn mark_incomplete(&mut self, warning: &str)
        requires
            old(self).wf(),
        ensures
            final(self).wf(),
            final(self)@ == old(self)@.mark(warning@),
    {
        proof {
            lemma_sorted_no_duplicates(views(self.warnings@));
        }
        self.complete = false;
        let w = truncate_chars(warning, STORED_CONTEXT_EVIDENCE_MAX_WARNING_CHARS);
        if sorted_contains(&self.warnings, w.as_str()) {
            return ;
        }
        if self.warnings.len() < STORED_CONTEXT_EVIDENCE_MAX_WARNINGS_PER_CATEGORY - 2 {
            insert_sorted(&mut self.warnings, w);
        } else {
            self.omitted_warning_count = self.omitted_warning_count.saturating_add(1);
        }
    }

    /// Records an already-normalized path or locator (see [`CategoryModel::insert_normalized`]).
    pub fn insert_normalized(&mut self, value: String, kind: &str)
        requires
            old(self).wf(),
        ensures
            final(self).wf(),
            final(self)@ == old(self)@.insert_normalized(value@, kind@),
    {
        proof {
            lemma_sorted_no_duplicates(views(self.paths@));
        }
        let chars = chars_of(value.as_str());
        if chars.len() > STORED_CONTEXT_EVIDENCE_MAX_PATH_CHARS {
            let w = concat2(
                kind,
                " contained a path or locator longer than the persisted evidence limit; it was omitted",
            );
            self.mark_incomplete(w.as_str());
            return ;
        }
        if sorted_contains(&self.paths, value.as_str()) {
            return ;
        }
        if self.paths.len() < STORED_CONTEXT_EVIDENCE_MAX_PATHS_PER_CATEGORY {
            insert_sorted(&mut self.paths, value);
        } else {
            self.complete = false;
            self.omitted_path_count = self.omitted_path_count.saturating_add(1);
        }
    }

    /// Records a raw file path in normalized form, or marks the category incomplete when the
    /// path is empty or unusable.
    pub fn insert_path(&mut self, raw: &str, kind: &str)
        requires
            old(self).wf(),
        ensures
            final(self).wf(),
            final(self)@ == old(self)@.insert_path(raw@, kind@),
    {
        match normalize_path(raw) {
            Some(path) => self.insert_normalized(path, kind),
            None => {
                let w = concat2(
                    kind,
                    " contained an empty or unusable path; evidence may be incomplete",
                );
                self.mark_incomplete(w.as_str());
            },
        }
    }

    /// Records a URL verbatim (trimmed) or, for anything without `://`, a file path.
    pub fn insert_locator(&mut self, raw: &str, kind: &str)
        requires
            old(self).wf(),
        ensures
            final(self).wf(),
            final(self)@ == old(self)@.insert_locator(raw@, kind@),
    {
        let c = chars_of(raw);
        let t = trim_chars(&c);
        let sep = chars_of("://");
        let trimmed = string_from_chars(&t);
        if contains_chars(&t, &sep) {
            self.insert_normalized(trimmed, kind);
        } else {
            self.insert_path(trimmed.as_str(), kind);
        }
    }

    /// The persisted category: paths and warnings in sorted order, with a summary warning for
    /// each kind of omission.
    pub fn finish(self) -> (r: PathEvidence)
        requires
            self.wf(),
        ensures
            strictly_sorted(views(r.paths@)),
            strictly_sorted(views(r.warnings@)),
            views(r.paths@).to_set() == self@.paths,
            r.complete == self@.complete,
            views(r.warnings@).to_set() == self@.warnings.union(
                if self@.omitted_paths > 0 {
                    set![omitted_paths_warning(self@.omitted_paths)]
                } else {
                    Set::empty()
                },
            ).union(
                if self@.omitted_warnings > 0 {
                    set![omitted_warnings_warning(self@.omitted_warnings)]
                } else {
                    Set::empty()
                },
            ),
            r.paths@.len() <= STORED_CONTEXT_EVIDENCE_MAX_PATHS_PER_CATEGORY,
            r.warnings@.len() <= STORED_CONTEXT_EVIDENCE_MAX_WARNINGS_PER_CATEGORY,
    {
        let mut warnings = self.warnings;
        let ghost w0 = views(warnings@).to_set();
        if self.omitted_path_count > 0 {
            let n = decimal_string(self.omitted_path_count as u64);
            let w = concat2(
                n.as_str(),
                " additional evidence path(s) were omitted from persisted provenance",
            );
            insert_sorted(&mut warnings, w);
        }
        let ghost w1 = views(warnings@).to_set();
        if self.omitted_warning_count > 0 {
            let n = decimal_string(self.omitted_warning_count as u64);
            let w = concat2(
                n.as_str(),
                " additional evidence warning(s) were omitted from persisted provenance",
            );
            insert_sorted(&mut warnings, w);
        }
        proof {
            let a = if self@.omitted_paths > 0 {
                set![omitted_paths_warning(self@.omitted_paths)]
            } else {
                Set::empty()
            };
            let b = if self@.omitted_warnings > 0 {
                set![omitted_warnings_warning(self@.omitted_warnings)]
            } else {
                Set::empty()
            };
            assert(w1 =~= w0.union(a));
            assert(views(warnings@).to_set() =~= w1.union(b));
        }
        PathEvidence { paths: self.paths, complete: self.complete, warnings }
    }
}

} // verus!
