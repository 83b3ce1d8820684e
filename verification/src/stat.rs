//! The statistic of one counted file.

use vstd::prelude::*;

verus! {

/// What was counted for one file: its display path and its number of tokens.
#[derive(Clone, Debug, PartialEq, Eq)]
pub struct FileStat {
    pub path: String,
    pub tokens: u64,
}

/// The mathematical value of a [`FileStat`].
pub struct FileStatView {
    pub path: Seq<char>,
    pub tokens: nat,
}

impl View for FileStat {
    type V = FileStatView;

    open spec fn view(&self) -> FileStatView {
        FileStatView { path: self.path@, tokens: self.tokens as nat }
    }
}

impl FileStat {
    /// A statistic with the given path and count.
    pub fn new(path: String, tokens: u64) -> (stat: FileStat)
        ensures
            stat@ == (FileStatView { path: path@, tokens: tokens as nat }),
    {
        FileStat { path, tokens }
    }

    /// A second statistic with the same path and count.
    pub fn copied(&self) -> (stat: FileStat)
        ensures
            stat@ == self@,
    {
        FileStat { path: self.path.clone(), tokens: self.tokens }
    }
}

/// The values of a sequence of statistics, in order.
pub open spec fn stat_views(stats: Seq<FileStat>) -> Seq<FileStatView> {
    stats.map_values(|stat: FileStat| stat@)
}

/// The token counts of a sequence of statistics, in order.
pub open spec fn token_counts(rows: Seq<FileStatView>) -> Seq<nat> {
    rows.map_values(|row: FileStatView| row.tokens)
}

/// The sum of the token counts of `rows`.
pub open spec fn total_tokens(rows: Seq<FileStatView>) -> nat
    decreases rows.len(),
{
    if rows.len() == 0 {
        0
    } else {
        total_tokens(rows.drop_last()) + rows.last().tokens
    }
}

/// Copies every statistic of `stats`, in order.
pub fn copy_stats(stats: &Vec<FileStat>) -> (out: Vec<FileStat>)
    ensures
        stat_views(out@) == stat_views(stats@),
{
    let mut out: Vec<FileStat> = Vec::new();
    let mut i: usize = 0;
    while i < stats.len()
        invariant
            i <= stats.len(),
            out.len() == i,
            forall|k: int| 0 <= k < i ==> out[k]@ == stats[k]@,
        decreases stats.len() - i,
    {
        out.push(stats[i].copied());
        i = i + 1;
    }
    assert(stat_views(out@) =~= stat_views(stats@));
    out
}

} // verus!
