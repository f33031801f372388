//! Aggregation of per-file counts into a per-language report.
//!
//! One file contributes to at most one language bucket: nothing when its
//! path is excluded, its name matches no language, or its bytes are not
//! valid UTF-8; otherwise its line counts and one file tick. Buckets merge
//! by saturating addition, so files may be folded in any order or split
//! across partial aggregates that are merged afterwards.

use vstd::prelude::*;

use crate::classify::{classify_lines, classify_spec};
use crate::grammar::LanguageDef;
use crate::matcher::{lookup, lookup_spec};
use crate::paths::{path_excluded, seg_excluded};
use crate::stats::{LanguageStats, LineCounts};
use crate::utf8::{is_utf8, is_valid_utf8};

verus! {

/// Every grammar in the registry is well-formed.
pub open spec fn registry_wf(reg: Seq<LanguageDef>) -> bool {
    forall|i: int| 0 <= i < reg.len() ==> (#[trigger] reg[i]).wf()
}

/// One file of work: its path and its raw bytes.
pub struct FileInput {
    pub path: Vec<u8>,
    pub content: Vec<u8>,
}

/// The classifier's counts, as a count record.
pub open spec fn counts_of(d: LanguageDef, s: Seq<u8>) -> LineCounts {
    let (b, c, cd) = classify_spec(d, s);
    LineCounts { blank: b as usize, comment: c as usize, code: cd as usize }
}

/// All-zero buckets, one per language.
pub open spec fn zero_stats(n: int) -> Seq<LanguageStats> {
    Seq::new(n as nat, |i: int| LanguageStats::zero_spec())
}

/// What one file adds to the buckets: nothing when excluded, unmatched or
/// not UTF-8; otherwise its counts, in its language's bucket.
pub open spec fn contribute(
    reg: Seq<LanguageDef>,
    excl: Seq<Vec<u8>>,
    a: Seq<LanguageStats>,
    p: Seq<u8>,
    c: Seq<u8>,
) -> Seq<LanguageStats> {
    if seg_excluded(p, excl) {
        a
    } else {
        match lookup_spec(reg, p) {
            Some(li) => if is_utf8(c) {
                a.update(li, a[li].add_file_spec(counts_of(reg[li], c)))
            } else {
                a
            },
            None => a,
        }
    }
}

/// The buckets after folding the first `k` files, in order.
pub open spec fn agg_spec(
    reg: Seq<LanguageDef>,
    excl: Seq<Vec<u8>>,
    files: Seq<FileInput>,
    k: int,
) -> Seq<LanguageStats>
    decreases k,
{
    if k <= 0 {
        zero_stats(reg.len() as int)
    } else {
        contribute(
            reg,
            excl,
            agg_spec(reg, excl, files, k - 1),
            files[k - 1].path@,
            files[k - 1].content@,
        )
    }
}

/// Element-wise merge of two bucket rows.
pub open spec fn merge_stats_seq(a: Seq<LanguageStats>, b: Seq<LanguageStats>) -> Seq<
    LanguageStats,
> {
    Seq::new(a.len(), |i: int| a[i].merge_spec(b[i]))
}

/// Per-language accumulator rows, one bucket per registry entry.
pub struct Aggregate {
    pub stats: Vec<LanguageStats>,
}

impl Aggregate {
    /// Fresh all-zero buckets for a registry.
    pub fn new(reg: &Vec<LanguageDef>) -> (r: Aggregate)
        ensures
            r.stats@ == zero_stats(reg@.len() as int),
    {
        let mut v: Vec<LanguageStats> = Vec::new();
        let n = reg.len();
        let mut i: usize = 0;
        while i < n
            invariant
                i <= n,
                v@.len() == i,
                forall|j: int| 0 <= j < i ==> v@[j] == LanguageStats::zero_spec(),
            decreases n - i,
        {
            v.push(LanguageStats::zero());
            i += 1;
        }
        proof {
            assert(v@ =~= zero_stats(reg@.len() as int));
        }
        Aggregate { stats: v }
    }

    /// Fold one file in: match, check, classify, and add to its bucket.
    pub fn add_file(
        &mut self,
        reg: &Vec<LanguageDef>,
        excl: &Vec<Vec<u8>>,
        path: &[u8],
        content: &[u8],
    )
        requires
            registry_wf(reg@),
            old(self).stats@.len() == reg@.len(),
        ensures
            final(self).stats@ == contribute(reg@, excl@, old(self).stats@, path@, content@),
            final(self).stats@.len() == old(self).stats@.len(),
    {
        if path_excluded(path, excl) {
            return ;
        }
        match lookup(reg, path) {
            None => {},
            Some(li) => {
                if is_valid_utf8(content) {
                    let c = classify_lines(&reg[li], content);
                    proof {
                        assert(c == counts_of(reg@[li as int], content@));
                    }
                    let mut bucket = self.stats[li];
                    bucket.add_file(&c);
                    self.stats[li] = bucket;
                }
            },
        }
    }

    /// Merge another row of buckets into this one, element-wise.
    pub fn merge_with(&mut self, other: &Aggregate)
        requires
            old(self).stats@.len() == other.stats@.len(),
        ensures
            final(self).stats@ == merge_stats_seq(old(self).stats@, other.stats@),
    {
        let n = self.stats.len();
        let mut i: usize = 0;
        while i < n
            invariant
                i <= n,
                n == self.stats@.len(),
                self.stats@.len() == old(self).stats@.len(),
                other.stats@.len() == old(self).stats@.len(),
                forall|j: int| 0 <= j < i ==> self.stats@[j] == old(self).stats@[j].merge_spec(
                    other.stats@[j],
                ),
                forall|j: int| i <= j < n ==> self.stats@[j] == old(self).stats@[j],
            decreases n - i,
        {
            let mut bucket = self.stats[i];
            bucket.merge(&other.stats[i]);
            self.stats[i] = bucket;
            i += 1;
        }
        proof {
            assert(self.stats@ =~= merge_stats_seq(old(self).stats@, other.stats@));
        }
    }
}

/// A language's index found for a path lies inside the registry.
pub proof fn lemma_lookup_in_range(reg: Seq<LanguageDef>, p: Seq<u8>)
    ensures
        lookup_spec(reg, p) is Some ==> 0 <= lookup_spec(reg, p)->Some_0 < reg.len(),
{
    let f = crate::paths::file_name_spec(p);
    lemma_first_name_in_range(reg, f, 0);
    lemma_first_ext_in_range(reg, f, 0);
}

proof fn lemma_first_name_in_range(reg: Seq<LanguageDef>, f: Seq<u8>, j: int)
    ensures
        crate::matcher::first_name_match(reg, f, j) is Some ==> j <= crate::matcher::first_name_match(
            reg,
            f,
            j,
        )->Some_0 < reg.len(),
    decreases reg.len() - j,
{
    if 0 <= j < reg.len() && !crate::matcher::name_matches(reg[j], f) {
        lemma_first_name_in_range(reg, f, j + 1);
    }
}

proof fn lemma_first_ext_in_range(reg: Seq<LanguageDef>, f: Seq<u8>, j: int)
    ensures
        crate::matcher::first_ext_match(reg, f, j) is Some ==> j <= crate::matcher::first_ext_match(
            reg,
            f,
            j,
        )->Some_0 < reg.len(),
    decreases reg.len() - j,
{
    if 0 <= j < reg.len() && !crate::matcher::ext_matches(reg[j], f) {
        lemma_first_ext_in_range(reg, f, j + 1);
    }
}

/// A file whose path carries an excluded segment changes no bucket at all.
pub proof fn lemma_excluded_file_no_effect(
    reg: Seq<LanguageDef>,
    excl: Seq<Vec<u8>>,
    a: Seq<LanguageStats>,
    p: Seq<u8>,
    c: Seq<u8>,
)
    requires
        seg_excluded(p, excl),
    ensures
        contribute(reg, excl, a, p, c) == a,
{
}

/// The files of a batch whose paths carry no excluded segment.
pub open spec fn kept_files(files: Seq<FileInput>, excl: Seq<Vec<u8>>) -> Seq<FileInput> {
    files.filter(|f: FileInput| !seg_excluded(f.path@, excl))
}

/// Exclusion is complete: aggregating a batch equals aggregating only its
/// non-excluded files, so no file under an excluded directory segment is
/// reflected in any bucket.
pub proof fn lemma_only_kept_files_count(
    reg: Seq<LanguageDef>,
    excl: Seq<Vec<u8>>,
    files: Seq<FileInput>,
)
    ensures
        agg_spec(reg, excl, files, files.len() as int) == agg_spec(
            reg,
            excl,
            kept_files(files, excl),
            kept_files(files, excl).len() as int,
        ),
    decreases files.len(),
{
    reveal(Seq::filter);
    let n = files.len() as int;
    if n > 0 {
        let last = files.last();
        let rest = files.drop_last();
        lemma_only_kept_files_count(reg, excl, rest);
        lemma_agg_congruent(reg, excl, files, rest, n - 1);
        assert(files[n - 1] == last);
        if !seg_excluded(last.path@, excl) {
            let kf = kept_files(rest, excl);
            assert(kept_files(files, excl) == kf.push(last));
            let m = kf.len() as int;
            lemma_agg_congruent(reg, excl, kf.push(last), kf, m);
            assert(kf.push(last)[m] == last);
        } else {
            assert(kept_files(files, excl) == kept_files(rest, excl));
        }
    }
}

/// Appending a file whose path carries an excluded segment leaves the
/// whole fold unchanged: no count anywhere reflects such a file.
pub proof fn lemma_excluded_file_dropped(
    reg: Seq<LanguageDef>,
    excl: Seq<Vec<u8>>,
    files: Seq<FileInput>,
    f: FileInput,
)
    requires
        seg_excluded(f.path@, excl),
    ensures
        agg_spec(reg, excl, files.push(f), files.len() as int + 1) == agg_spec(
            reg,
            excl,
            files,
            files.len() as int,
        ),
{
    lemma_agg_congruent(reg, excl, files.push(f), files, files.len() as int);
    assert(files.push(f)[files.len() as int] == f);
}

/// Merging distributes over one contribution: folding a file into the
/// right-hand row and then merging equals merging first and folding after.
pub proof fn lemma_contribute_merge(
    reg: Seq<LanguageDef>,
    excl: Seq<Vec<u8>>,
    a: Seq<LanguageStats>,
    b: Seq<LanguageStats>,
    p: Seq<u8>,
    c: Seq<u8>,
)
    requires
        a.len() == reg.len(),
        b.len() == reg.len(),
    ensures
        merge_stats_seq(a, contribute(reg, excl, b, p, c)) == contribute(
            reg,
            excl,
            merge_stats_seq(a, b),
            p,
            c,
        ),
{
    lemma_lookup_in_range(reg, p);
    if !seg_excluded(p, excl) && lookup_spec(reg, p) is Some && is_utf8(c) {
        let li = lookup_spec(reg, p)->Some_0;
        let k = counts_of(reg[li], c);
        crate::stats::lemma_merge_assoc(
            a[li],
            b[li],
            LanguageStats { n_files: 1, blank: k.blank, comment: k.comment, code: k.code },
        );
        assert(merge_stats_seq(a, contribute(reg, excl, b, p, c)) =~= contribute(
            reg,
            excl,
            merge_stats_seq(a, b),
            p,
            c,
        ));
    } else {
        assert(merge_stats_seq(a, contribute(reg, excl, b, p, c)) =~= contribute(
            reg,
            excl,
            merge_stats_seq(a, b),
            p,
            c,
        ));
    }
}

/// Folding two file batches separately and merging the rows equals folding
/// the concatenation: aggregation may be partitioned freely.
pub proof fn lemma_partition(
    reg: Seq<LanguageDef>,
    excl: Seq<Vec<u8>>,
    files1: Seq<FileInput>,
    files2: Seq<FileInput>,
    k: int,
)
    requires
        0 <= k <= files2.len(),
    ensures
        merge_stats_seq(
            agg_spec(reg, excl, files1, files1.len() as int),
            agg_spec(reg, excl, files2, k),
        ) == agg_spec(reg, excl, files1 + files2, files1.len() + k),
    decreases k,
{
    let n1 = files1.len() as int;
    lemma_agg_len(reg, excl, files1, n1);
    if k == 0 {
        lemma_agg_prefix(reg, excl, files1, files2, n1);
        assert forall|j: int| 0 <= j < reg.len() implies merge_stats_seq(
            agg_spec(reg, excl, files1, n1),
            zero_stats(reg.len() as int),
        )[j] == agg_spec(reg, excl, files1, n1)[j] by {
            crate::stats::lemma_merge_zero(agg_spec(reg, excl, files1, n1)[j]);
        }
        assert(merge_stats_seq(agg_spec(reg, excl, files1, n1), agg_spec(reg, excl, files2, 0))
            =~= agg_spec(reg, excl, files1 + files2, n1));
    } else {
        lemma_partition(reg, excl, files1, files2, k - 1);
        lemma_agg_len(reg, excl, files2, k - 1);
        assert((files1 + files2)[n1 + k - 1] == files2[k - 1]);
        lemma_contribute_merge(
            reg,
            excl,
            agg_spec(reg, excl, files1, n1),
            agg_spec(reg, excl, files2, k - 1),
            files2[k - 1].path@,
            files2[k - 1].content@,
        );
    }
}

/// The bucket row always has one bucket per registry entry.
pub proof fn lemma_agg_len(
    reg: Seq<LanguageDef>,
    excl: Seq<Vec<u8>>,
    files: Seq<FileInput>,
    k: int,
)
    ensures
        agg_spec(reg, excl, files, k).len() == reg.len(),
    decreases k,
{
    if k > 0 {
        lemma_agg_len(reg, excl, files, k - 1);
        lemma_lookup_in_range(reg, files[k - 1].path@);
    }
}

/// Folding a prefix that lies wholly in the first batch ignores the second.
proof fn lemma_agg_prefix(
    reg: Seq<LanguageDef>,
    excl: Seq<Vec<u8>>,
    files1: Seq<FileInput>,
    files2: Seq<FileInput>,
    j: int,
)
    requires
        0 <= j <= files1.len(),
    ensures
        agg_spec(reg, excl, files1 + files2, j) == agg_spec(reg, excl, files1, j),
    decreases j,
{
    if j > 0 {
        lemma_agg_prefix(reg, excl, files1, files2, j - 1);
        assert((files1 + files2)[j - 1] == files1[j - 1]);
    }
}

/// Folds over pointwise-equal prefixes agree.
proof fn lemma_agg_congruent(
    reg: Seq<LanguageDef>,
    excl: Seq<Vec<u8>>,
    f1: Seq<FileInput>,
    f2: Seq<FileInput>,
    k: int,
)
    requires
        0 <= k <= f1.len(),
        k <= f2.len(),
        forall|t: int| 0 <= t < k ==> f1[t] == f2[t],
    ensures
        agg_spec(reg, excl, f1, k) == agg_spec(reg, excl, f2, k),
    decreases k,
{
    if k > 0 {
        lemma_agg_congruent(reg, excl, f1, f2, k - 1);
    }
}

/// A file anywhere in the fold may be taken out and contributed last.
proof fn lemma_agg_remove(
    reg: Seq<LanguageDef>,
    excl: Seq<Vec<u8>>,
    files: Seq<FileInput>,
    j: int,
    k: int,
)
    requires
        0 <= j < k <= files.len(),
    ensures
        agg_spec(reg, excl, files, k) == contribute(
            reg,
            excl,
            agg_spec(reg, excl, files.remove(j), k - 1),
            files[j].path@,
            files[j].content@,
        ),
    decreases k,
{
    if j == k - 1 {
        lemma_agg_congruent(reg, excl, files, files.remove(j), k - 1);
    } else {
        lemma_agg_remove(reg, excl, files, j, k - 1);
        lemma_agg_len(reg, excl, files.remove(j), k - 2);
        lemma_contribute_comm(
            reg,
            excl,
            agg_spec(reg, excl, files.remove(j), k - 2),
            files[j].path@,
            files[j].content@,
            files[k - 1].path@,
            files[k - 1].content@,
        );
        assert(files.remove(j)[k - 2] == files[k - 1]);
    }
}

/// Aggregation is order-independent: two file batches that hold the same
/// files, as a multiset, fold to identical bucket rows, whatever the order
/// or interleaving.
pub proof fn lemma_agg_permutation(
    reg: Seq<LanguageDef>,
    excl: Seq<Vec<u8>>,
    f1: Seq<FileInput>,
    f2: Seq<FileInput>,
)
    requires
        f1.to_multiset() == f2.to_multiset(),
    ensures
        agg_spec(reg, excl, f1, f1.len() as int) == agg_spec(reg, excl, f2, f2.len() as int),
    decreases f1.len(),
{
    broadcast use vstd::seq_lib::group_to_multiset_ensures;

    let n1 = f1.len() as int;
    let n2 = f2.len() as int;
    if n1 == 0 {
        assert(f1.to_multiset().len() == f1.len());
        assert(f2.to_multiset().len() == f2.len());
    } else {
        let x = f1[n1 - 1];
        assert(f1.contains(x));
        assert(f2.to_multiset().count(x) > 0);
        assert(f2.contains(x));
        let j = choose|j: int| 0 <= j < n2 && f2[j] == x;
        assert(f1.remove(n1 - 1).to_multiset() =~= f1.to_multiset().remove(x));
        assert(f2.remove(j).to_multiset() =~= f2.to_multiset().remove(x));
        lemma_agg_permutation(reg, excl, f1.remove(n1 - 1), f2.remove(j));
        lemma_agg_remove(reg, excl, f1, n1 - 1, n1);
        lemma_agg_remove(reg, excl, f2, j, n2);
    }
}

/// Two files may swap places in the fold: one contribution commutes with
/// the next, so the bucket row is independent of file order.
pub proof fn lemma_contribute_comm(
    reg: Seq<LanguageDef>,
    excl: Seq<Vec<u8>>,
    a: Seq<LanguageStats>,
    p1: Seq<u8>,
    c1: Seq<u8>,
    p2: Seq<u8>,
    c2: Seq<u8>,
)
    requires
        a.len() == reg.len(),
    ensures
        contribute(reg, excl, contribute(reg, excl, a, p1, c1), p2, c2) == contribute(
            reg,
            excl,
            contribute(reg, excl, a, p2, c2),
            p1,
            c1,
        ),
{
    lemma_lookup_in_range(reg, p1);
    lemma_lookup_in_range(reg, p2);
    if !seg_excluded(p1, excl) && lookup_spec(reg, p1) is Some && is_utf8(c1) && !seg_excluded(
        p2,
        excl,
    ) && lookup_spec(reg, p2) is Some && is_utf8(c2) {
        let l1 = lookup_spec(reg, p1)->Some_0;
        let l2 = lookup_spec(reg, p2)->Some_0;
        let k1 = counts_of(reg[l1], c1);
        let k2 = counts_of(reg[l2], c2);
        let d1 = LanguageStats { n_files: 1, blank: k1.blank, comment: k1.comment, code: k1.code };
        let d2 = LanguageStats { n_files: 1, blank: k2.blank, comment: k2.comment, code: k2.code };
        if l1 == l2 {
            crate::stats::lemma_merge_assoc(a[l1], d1, d2);
            crate::stats::lemma_merge_assoc(a[l1], d2, d1);
            crate::stats::lemma_merge_comm(d1, d2);
        }
        assert(contribute(reg, excl, contribute(reg, excl, a, p1, c1), p2, c2) =~= contribute(
            reg,
            excl,
            contribute(reg, excl, a, p2, c2),
            p1,
            c1,
        ));
    } else {
        assert(contribute(reg, excl, contribute(reg, excl, a, p1, c1), p2, c2) =~= contribute(
            reg,
            excl,
            contribute(reg, excl, a, p2, c2),
            p1,
            c1,
        ));
    }
}

} // verus!
