//! The final report: one entry per language with code, plus a grand total.
//!
//! A language appears in the report only when its code count is positive; a
//! language with only blank and comment lines is dropped. The synthetic
//! total is the element-wise sum of exactly the entries kept.

use vstd::prelude::*;

use crate::aggregate::{agg_spec, registry_wf, Aggregate, FileInput};
use crate::grammar::LanguageDef;
use crate::stats::LanguageStats;

verus! {

/// One report line: a language name and its totals.
pub struct ReportEntry {
    pub name: String,
    pub stats: LanguageStats,
}

/// The finished report: kept entries in registry order, and their sum.
pub struct Report {
    pub entries: Vec<ReportEntry>,
    pub sum: LanguageStats,
}

/// The entries kept from bucket `k` on: languages whose code count is
/// positive, with their names, in registry order.
pub open spec fn kept_from(
    reg: Seq<LanguageDef>,
    stats: Seq<LanguageStats>,
    k: int,
) -> Seq<(Seq<char>, LanguageStats)>
    decreases stats.len() - k,
{
    if k < 0 || k >= stats.len() {
        Seq::empty()
    } else if stats[k].code > 0 {
        seq![(reg[k].name@, stats[k])] + kept_from(reg, stats, k + 1)
    } else {
        kept_from(reg, stats, k + 1)
    }
}

/// Element-wise sum of the entries' totals.
pub open spec fn sum_entries(es: Seq<(Seq<char>, LanguageStats)>) -> LanguageStats
    decreases es.len(),
{
    if es.len() == 0 {
        LanguageStats::zero_spec()
    } else {
        sum_entries(es.drop_last()).merge_spec(es.last().1)
    }
}

/// The view of a report's entry list: names and totals.
pub open spec fn entries_view(es: Seq<ReportEntry>) -> Seq<(Seq<char>, LanguageStats)> {
    es.map_values(|e: ReportEntry| (e.name@, e.stats))
}

/// `r` reports exactly the bucket row `stats` under registry `reg`: the
/// entries are the kept languages in order, and the sum is their fold.
pub open spec fn report_matches(
    r: Report,
    reg: Seq<LanguageDef>,
    stats: Seq<LanguageStats>,
) -> bool {
    &&& entries_view(r.entries@) == kept_from(reg, stats, 0)
    &&& r.sum == sum_entries(entries_view(r.entries@))
}

impl Aggregate {
    /// Build the report: keep the languages with code, and total them.
    ///
    /// The sum is stated over the returned entries themselves: the grand
    /// total equals the element-wise fold of exactly what is reported.
    pub fn finalize(&self, reg: &Vec<LanguageDef>) -> (r: Report)
        requires
            self.stats@.len() == reg@.len(),
        ensures
            report_matches(r, reg@, self.stats@),
    {
        let n = reg.len();
        let mut out: Vec<ReportEntry> = Vec::new();
        let mut acc = LanguageStats::zero();
        let mut k: usize = 0;
        proof {
            assert(entries_view(out@) =~= Seq::<(Seq<char>, LanguageStats)>::empty());
            assert(Seq::<(Seq<char>, LanguageStats)>::empty() + kept_from(reg@, self.stats@, 0)
                =~= kept_from(reg@, self.stats@, 0));
        }
        while k < n
            invariant
                k <= n,
                n == reg@.len(),
                self.stats@.len() == n,
                kept_from(reg@, self.stats@, 0) == entries_view(out@) + kept_from(
                    reg@,
                    self.stats@,
                    k as int,
                ),
                acc == sum_entries(entries_view(out@)),
            decreases n - k,
        {
            let st = self.stats[k];
            if st.code > 0 {
                let e = ReportEntry { name: reg[k].name.as_str().to_owned(), stats: st };
                let ghost before = entries_view(out@);
                out.push(e);
                acc.merge(&st);
                proof {
                    assert(entries_view(out@) =~= before.push((reg@[k as int].name@, st)));
                    assert(entries_view(out@).drop_last() =~= before);
                    assert(kept_from(reg@, self.stats@, k as int) == seq![
                        (reg@[k as int].name@, st),
                    ] + kept_from(reg@, self.stats@, k + 1));
                    assert(before + (seq![(reg@[k as int].name@, st)] + kept_from(
                        reg@,
                        self.stats@,
                        k + 1,
                    )) =~= entries_view(out@) + kept_from(reg@, self.stats@, k + 1));
                }
            }
            k += 1;
        }
        proof {
            assert(kept_from(reg@, self.stats@, n as int) =~= Seq::<
                (Seq<char>, LanguageStats),
            >::empty());
            assert(entries_view(out@) + Seq::<(Seq<char>, LanguageStats)>::empty() =~= entries_view(
                out@,
            ));
        }
        Report { entries: out, sum: acc }
    }
}

/// A report is determined by the bucket row it matches: two reports over
/// the same registry and buckets carry the same entries and the same sum.
/// With the aggregation's order-independence, two runs over the same files
/// in any order or partition therefore report identically.
pub proof fn lemma_report_determined(
    r1: Report,
    r2: Report,
    reg: Seq<LanguageDef>,
    stats: Seq<LanguageStats>,
)
    requires
        report_matches(r1, reg, stats),
        report_matches(r2, reg, stats),
    ensures
        entries_view(r1.entries@) == entries_view(r2.entries@),
        r1.sum == r2.sum,
{
}

/// Classify a batch of in-memory files and report the totals: each file is
/// skipped when its path carries an excluded segment, matches no language,
/// or is not valid UTF-8, and contributes its line counts otherwise.
pub fn run_on_files(reg: &Vec<LanguageDef>, excl: &Vec<Vec<u8>>, files: &Vec<FileInput>) -> (r:
    Report)
    requires
        registry_wf(reg@),
    ensures
        report_matches(r, reg@, agg_spec(reg@, excl@, files@, files@.len() as int)),
{
    let mut agg = Aggregate::new(reg);
    let n = files.len();
    let mut k: usize = 0;
    while k < n
        invariant
            k <= n,
            n == files@.len(),
            registry_wf(reg@),
            agg.stats@.len() == reg@.len(),
            agg.stats@ == agg_spec(reg@, excl@, files@, k as int),
        decreases n - k,
    {
        agg.add_file(reg, excl, files[k].path.as_slice(), files[k].content.as_slice());
        k += 1;
    }
    agg.finalize(reg)
}

} // verus!
