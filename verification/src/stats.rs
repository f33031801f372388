//! Count records and their merge operation.
//!
//! `LineCounts` holds the classification of one file; `LanguageStats` is the
//! per-language accumulator. Merging is saturating element-wise addition,
//! which keeps the operation total, commutative and associative, so files may
//! be folded in any order or partition.

use vstd::prelude::*;

verus! {

/// Saturating addition on `usize`, stated over mathematical integers.
pub open spec fn sat_add_spec(a: int, b: int) -> int {
    if a + b > usize::MAX {
        usize::MAX as int
    } else {
        a + b
    }
}

/// Saturating addition: commutative.
pub proof fn lemma_sat_add_comm(a: int, b: int)
    ensures
        sat_add_spec(a, b) == sat_add_spec(b, a),
{
}

/// Saturating addition: associative on non-negative operands.
pub proof fn lemma_sat_add_assoc(a: int, b: int, c: int)
    requires
        0 <= a,
        0 <= b,
        0 <= c,
    ensures
        sat_add_spec(sat_add_spec(a, b), c) == sat_add_spec(a, sat_add_spec(b, c)),
{
}

/// Executable saturating addition.
pub fn sat_add(a: usize, b: usize) -> (r: usize)
    ensures
        r == sat_add_spec(a as int, b as int),
{
    if a <= usize::MAX - b {
        a + b
    } else {
        usize::MAX
    }
}

/// Blank/comment/code totals for a single file.
#[derive(Clone, Copy, PartialEq, Eq, Structural, Debug)]
pub struct LineCounts {
    pub blank: usize,
    pub comment: usize,
    pub code: usize,
}

impl LineCounts {
    /// The number of physical lines these counts cover.
    pub open spec fn total(self) -> int {
        self.blank + self.comment + self.code
    }

}

/// Per-language accumulator: file count plus line totals.
#[derive(Clone, Copy, PartialEq, Eq, Structural, Debug)]
pub struct LanguageStats {
    pub n_files: usize,
    pub blank: usize,
    pub comment: usize,
    pub code: usize,
}

impl LanguageStats {
    pub open spec fn zero_spec() -> LanguageStats {
        LanguageStats { n_files: 0, blank: 0, comment: 0, code: 0 }
    }

    /// Element-wise saturating sum of two accumulators.
    pub open spec fn merge_spec(self, o: LanguageStats) -> LanguageStats {
        LanguageStats {
            n_files: sat_add_spec(self.n_files as int, o.n_files as int) as usize,
            blank: sat_add_spec(self.blank as int, o.blank as int) as usize,
            comment: sat_add_spec(self.comment as int, o.comment as int) as usize,
            code: sat_add_spec(self.code as int, o.code as int) as usize,
        }
    }

    /// Accumulating one more file: bump the file count, add its line counts.
    pub open spec fn add_file_spec(self, c: LineCounts) -> LanguageStats {
        self.merge_spec(
            LanguageStats { n_files: 1, blank: c.blank, comment: c.comment, code: c.code },
        )
    }

    pub fn zero() -> (r: LanguageStats)
        ensures
            r == LanguageStats::zero_spec(),
    {
        LanguageStats { n_files: 0, blank: 0, comment: 0, code: 0 }
    }

    /// Merge another accumulator into this one.
    pub fn merge(&mut self, o: &LanguageStats)
        ensures
            *final(self) == old(self).merge_spec(*o),
    {
        self.n_files = sat_add(self.n_files, o.n_files);
        self.blank = sat_add(self.blank, o.blank);
        self.comment = sat_add(self.comment, o.comment);
        self.code = sat_add(self.code, o.code);
    }

    /// Accumulate one file's counts.
    pub fn add_file(&mut self, c: &LineCounts)
        ensures
            *final(self) == old(self).add_file_spec(*c),
    {
        self.n_files = sat_add(self.n_files, 1);
        self.blank = sat_add(self.blank, c.blank);
        self.comment = sat_add(self.comment, c.comment);
        self.code = sat_add(self.code, c.code);
    }
}

/// Merging accumulators is commutative: the two operands may swap.
pub proof fn lemma_merge_comm(a: LanguageStats, b: LanguageStats)
    ensures
        a.merge_spec(b) == b.merge_spec(a),
{
}

/// Merging accumulators is associative: grouping does not matter.
pub proof fn lemma_merge_assoc(a: LanguageStats, b: LanguageStats, c: LanguageStats)
    ensures
        a.merge_spec(b).merge_spec(c) == a.merge_spec(b.merge_spec(c)),
{
    lemma_sat_add_assoc(a.n_files as int, b.n_files as int, c.n_files as int);
    lemma_sat_add_assoc(a.blank as int, b.blank as int, c.blank as int);
    lemma_sat_add_assoc(a.comment as int, b.comment as int, c.comment as int);
    lemma_sat_add_assoc(a.code as int, b.code as int, c.code as int);
}

/// The zero accumulator is the merge identity.
pub proof fn lemma_merge_zero(a: LanguageStats)
    ensures
        a.merge_spec(LanguageStats::zero_spec()) == a,
        LanguageStats::zero_spec().merge_spec(a) == a,
{
}

} // verus!
