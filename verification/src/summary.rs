//! Summary statistics over the counted files.

use vstd::prelude::*;
use vstd::relations::{sorted_by, total_ordering};
use crate::stat::{FileStat, FileStatView, stat_views, token_counts, total_tokens};

verus! {

/// The values of `counts` in ascending order.
pub open spec fn ascending(counts: Seq<nat>) -> Seq<nat> {
    counts.sort_by(|a: nat, b: nat| a <= b)
}

/// The nearest rank of the percentile `percent` among `n` values, counted
/// from one: `percent * n / 100` rounded up, and brought into `1..=n`.
pub open spec fn nearest_rank(n: nat, percent: nat) -> nat {
    let raw = (percent * n + 99) / 100;
    if raw < 1 {
        1
    } else if raw > n {
        n
    } else {
        raw
    }
}

/// The percentile `percent` of the values `sorted`, which are taken to be in
/// ascending order: the value at the nearest rank, and zero where there is
/// no value.
pub open spec fn percentile_of(sorted: Seq<nat>, percent: nat) -> nat {
    if sorted.len() == 0 {
        0
    } else {
        sorted[nearest_rank(sorted.len(), percent) - 1]
    }
}

/// The mean of `files` counts that sum to `total`, in hundredths, rounded
/// to the nearest hundredth and to the even one where two are equally near;
/// zero where there is no file.
pub open spec fn mean_hundredths(total: nat, files: nat) -> nat {
    if files == 0 {
        0
    } else {
        let quotient = (total * 100) / files;
        let rest = (total * 100) % files;
        if 2 * rest > files || (2 * rest == files && quotient % 2 == 1) {
            quotient + 1
        } else {
            quotient
        }
    }
}

/// The values of a sequence of counts as natural numbers.
pub open spec fn count_values(counts: Seq<u64>) -> Seq<nat> {
    counts.map_values(|count: u64| count as nat)
}

/// A mean with two decimal places.
#[derive(Clone, Copy, Debug, PartialEq, Eq)]
pub struct Average {
    whole: u64,
    hundredths: u8,
}

impl View for Average {
    type V = nat;

    /// The mean in hundredths.
    closed spec fn view(&self) -> nat {
        (self.whole * 100 + self.hundredths) as nat
    }
}

impl Average {
    #[verifier::type_invariant]
    spec fn fraction_in_range(self) -> bool {
        self.hundredths < 100
    }

    /// The mean of `files` counts that sum to `total`.
    pub fn of(total: u64, files: u64) -> (average: Average)
        ensures
            average@ == mean_hundredths(total as nat, files as nat),
    {
        if files == 0 {
            return Average { whole: 0, hundredths: 0 };
        }
        let scaled: u128 = (total as u128) * 100;
        let count: u128 = files as u128;
        let quotient: u128 = scaled / count;
        let rest: u128 = scaled % count;
        let up: bool = 2 * rest > count || (2 * rest == count && quotient % 2 == 1);
        proof {
            vstd::arithmetic::div_mod::lemma_div_basics(scaled as int);
            vstd::arithmetic::div_mod::lemma_div_is_ordered_by_denominator(
                scaled as int,
                1,
                count as int,
            );
            if up {
                assert(count >= 2);
                vstd::arithmetic::div_mod::lemma_div_is_ordered_by_denominator(
                    scaled as int,
                    2,
                    count as int,
                );
            }
        }
        let rounded: u128 = if up {
            quotient + 1
        } else {
            quotient
        };
        Average { whole: (rounded / 100) as u64, hundredths: (rounded % 100) as u8 }
    }

    /// The whole part of the mean.
    pub fn whole(&self) -> (whole: u64)
        ensures
            whole == self@ / 100,
    {
        proof {
            use_type_invariant(self);
        }
        self.whole
    }

    /// The two decimal places of the mean, as a number below one hundred.
    pub fn hundredths(&self) -> (hundredths: u8)
        ensures
            hundredths == self@ % 100,
            hundredths < 100,
    {
        proof {
            use_type_invariant(self);
        }
        self.hundredths
    }
}

/// The summary of one run.
#[derive(Clone, Debug, PartialEq, Eq)]
pub struct Summary {
    /// How many files were counted.
    pub files: u64,
    /// The sum of their token counts.
    pub total: u64,
    /// The mean token count of a file.
    pub average: Average,
    /// The median token count.
    pub p50: u64,
    /// The 90th percentile of the token counts.
    pub p90: u64,
    /// The 99th percentile of the token counts.
    pub p99: u64,
    /// The files with the most tokens, where a limit was asked for.
    pub top: Option<Vec<FileStat>>,
}

/// The mathematical value of a [`Summary`]; `average` is in hundredths.
pub struct SummaryView {
    pub files: nat,
    pub total: nat,
    pub average: nat,
    pub p50: nat,
    pub p90: nat,
    pub p99: nat,
    pub top: Option<Seq<FileStatView>>,
}

/// The value of an optional list of statistics.
pub open spec fn top_view(top: Option<Vec<FileStat>>) -> Option<Seq<FileStatView>> {
    match top {
        Some(list) => Some(stat_views(list@)),
        None => None,
    }
}

impl View for Summary {
    type V = SummaryView;

    open spec fn view(&self) -> SummaryView {
        SummaryView {
            files: self.files as nat,
            total: self.total as nat,
            average: self.average@,
            p50: self.p50 as nat,
            p90: self.p90 as nat,
            p99: self.p99 as nat,
            top: top_view(self.top),
        }
    }
}

impl Summary {
    /// A second summary with the same values.
    pub fn copied(&self) -> (summary: Summary)
        ensures
            summary@ == self@,
    {
        let top: Option<Vec<FileStat>> = match &self.top {
            Some(list) => Some(crate::stat::copy_stats(list)),
            None => None,
        };
        Summary {
            files: self.files,
            total: self.total,
            average: self.average,
            p50: self.p50,
            p90: self.p90,
            p99: self.p99,
            top,
        }
    }
}

/// The summary of the rows `rows`, with `top` as its list of largest files.
pub open spec fn summary_of(rows: Seq<FileStatView>, top: Option<Seq<FileStatView>>) -> SummaryView {
    let sorted = ascending(token_counts(rows));
    SummaryView {
        files: rows.len(),
        total: total_tokens(rows),
        average: mean_hundredths(total_tokens(rows), rows.len()),
        p50: percentile_of(sorted, 50),
        p90: percentile_of(sorted, 90),
        p99: percentile_of(sorted, 99),
        top,
    }
}

/// Where nothing was counted, every field of the summary is zero.
pub proof fn lemma_empty_summary(top: Option<Seq<FileStatView>>)
    ensures
        summary_of(Seq::empty(), top) == (SummaryView {
            files: 0,
            total: 0,
            average: 0,
            p50: 0,
            p90: 0,
            p99: 0,
            top,
        }),
{
    let counts = token_counts(Seq::<FileStatView>::empty());
    let leq = |a: nat, b: nat| a <= b;
    assert(counts =~= Seq::<nat>::empty());
    counts.lemma_sort_by_ensures(leq);
    vstd::seq_lib::to_multiset_len(counts);
    vstd::seq_lib::to_multiset_len(counts.sort_by(leq));
}

/// The sum over a front part of the rows is at most the sum over all.
pub proof fn lemma_total_tokens_grows(rows: Seq<FileStatView>, n: int)
    requires
        0 <= n <= rows.len(),
    ensures
        total_tokens(rows.take(n)) <= total_tokens(rows),
    decreases rows.len() - n,
{
    if n < rows.len() {
        lemma_total_tokens_grows(rows, n + 1);
        assert(rows.take(n + 1).drop_last() =~= rows.take(n));
    } else {
        assert(rows.take(n) =~= rows);
    }
}

/// The sum of the token counts of `stats`, where it fits in 64 bits.
pub fn checked_total(stats: &Vec<FileStat>) -> (total: Option<u64>)
    ensures
        total is Some <==> total_tokens(stat_views(stats@)) <= u64::MAX,
        total matches Some(sum) ==> sum == total_tokens(stat_views(stats@)),
{
    let ghost rows = stat_views(stats@);
    let mut sum: u64 = 0;
    let mut i: usize = 0;
    while i < stats.len()
        invariant
            i <= stats.len(),
            rows == stat_views(stats@),
            sum == total_tokens(rows.take(i as int)),
        decreases stats.len() - i,
    {
        proof {
            assert(rows.take(i as int + 1).drop_last() =~= rows.take(i as int));
            assert(rows.take(i as int + 1).last() == stats[i as int]@);
            lemma_total_tokens_grows(rows, i as int + 1);
        }
        match sum.checked_add(stats[i].tokens) {
            Some(next) => {
                sum = next;
            },
            None => {
                return None;
            },
        }
        i = i + 1;
    }
    assert(rows.take(i as int) =~= rows);
    Some(sum)
}

/// The token counts of `stats` in ascending order.
pub fn sorted_counts(stats: &Vec<FileStat>) -> (out: Vec<u64>)
    ensures
        count_values(out@) == ascending(token_counts(stat_views(stats@))),
{
    let ghost given = token_counts(stat_views(stats@));
    let ghost leq = |a: nat, b: nat| a <= b;
    let mut out: Vec<u64> = Vec::new();
    let mut i: usize = 0;
    assert(count_values(out@).to_multiset() =~= given.take(0).to_multiset()) by {
        assert(count_values(out@) =~= given.take(0));
    }
    while i < stats.len()
        invariant
            i <= stats.len(),
            given == token_counts(stat_views(stats@)),
            forall|a: int, b: int| 0 <= a < b < out.len() ==> out[a] <= out[b],
            count_values(out@).to_multiset() == given.take(i as int).to_multiset(),
        decreases stats.len() - i,
    {
        let count: u64 = stats[i].tokens;
        let mut pos: usize = out.len();
        while pos > 0 && out[pos - 1] > count
            invariant
                pos <= out.len(),
                forall|j: int| pos <= j < out.len() ==> out[j] > count,
            decreases pos,
        {
            pos = pos - 1;
        }
        let ghost before = count_values(out@);
        out.insert(pos, count);
        proof {
            assert(count_values(out@) =~= before.insert(pos as int, count as nat));
            vstd::seq_lib::to_multiset_insert(before, pos as int, count as nat);
            assert(given.take(i as int + 1) =~= given.take(i as int).push(count as nat));
            vstd::seq_lib::to_multiset_build(given.take(i as int), count as nat);
        }
        i = i + 1;
    }
    proof {
        assert(given.take(i as int) =~= given);
        assert(total_ordering(leq));
        assert(sorted_by(count_values(out@), leq));
        given.lemma_sort_by_ensures(leq);
        vstd::seq_lib::lemma_sorted_unique(count_values(out@), given.sort_by(leq), leq);
    }
    out
}

/// The percentile `percent` of `sorted`, which is taken to be in ascending
/// order: the value at the nearest rank, and zero for an empty `sorted`.
pub fn percentile(sorted: &Vec<u64>, percent: u64) -> (value: u64)
    ensures
        value == percentile_of(count_values(sorted@), percent as nat),
{
    let n: usize = sorted.len();
    if n == 0 {
        return 0;
    }
    assert((percent as int) * (n as int) <= 0xffff_ffff_ffff_ffff * 0xffff_ffff_ffff_ffff)
        by (nonlinear_arith)
        requires
            0 <= percent as int <= 0xffff_ffff_ffff_ffff,
            0 <= n as int <= 0xffff_ffff_ffff_ffff,
    ;
    let scaled: u128 = (percent as u128) * (n as u128);
    let raw: u128 = (scaled + 99) / 100;
    let rank: usize = if raw < 1 {
        1
    } else if raw > n as u128 {
        n
    } else {
        raw as usize
    };
    sorted[rank - 1]
}

/// The summary of `all_stats`, with `top` as its list of largest files.
pub fn build_summary(all_stats: &Vec<FileStat>, top: Option<Vec<FileStat>>) -> (summary: Summary)
    requires
        total_tokens(stat_views(all_stats@)) <= u64::MAX,
    ensures
        summary@ == summary_of(stat_views(all_stats@), top_view(top)),
{
    let files: u64 = all_stats.len() as u64;
    let total: u64 = match checked_total(all_stats) {
        Some(sum) => sum,
        None => 0,
    };
    let counts = sorted_counts(all_stats);
    Summary {
        files,
        total,
        average: Average::of(total, files),
        p50: percentile(&counts, 50),
        p90: percentile(&counts, 90),
        p99: percentile(&counts, 99),
        top,
    }
}

} // verus!
