//! Which rows are shown, in which order, and the forms of the output.

use vstd::prelude::*;
use crate::options::{Args, OutputFormat};
use crate::order::{
    SortBy, comes_before, is_ordered, lemma_sorted_stats_of_ordered, lemma_sorted_stats_ordered,
    lemma_sorted_stats_permutes, sort_stats, sorted_stats,
};
use crate::stat::{FileStat, FileStatView, copy_stats, stat_views, total_tokens};
use crate::summary::{Summary, SummaryView, build_summary, checked_total, summary_of};
use crate::text::{
    decimal, digit_count, lemma_text_before_total, num_digits, push_decimal, push_right_aligned,
    push_two_digits, right_aligned, text_before, two_digits,
};

verus! {

/// The rows in the order of their token counts, largest first.
pub open spec fn ranked(rows: Seq<FileStatView>) -> Seq<FileStatView> {
    sorted_stats(rows, SortBy::Tokens)
}

/// The `n` rows with the most tokens, largest first and rows with the same
/// count by ascending path; all rows where there are no more than `n`.
pub open spec fn top_rows(rows: Seq<FileStatView>, n: nat) -> Seq<FileStatView> {
    if n < rows.len() {
        ranked(rows).take(n as int)
    } else {
        ranked(rows)
    }
}

/// The rows that `top_rows` leaves out, in the same order.
pub open spec fn rows_below_top(rows: Seq<FileStatView>, n: nat) -> Seq<FileStatView> {
    if n < rows.len() {
        ranked(rows).skip(n as int)
    } else {
        Seq::empty()
    }
}

/// The value of an optional limit.
pub open spec fn count_view(top: Option<usize>) -> Option<nat> {
    match top {
        Some(n) => Some(n as nat),
        None => None,
    }
}

/// The rows that are shown: with a limit, the rows with the most tokens,
/// put into the order of `sort`; without one, all rows in that order.
pub open spec fn display_rows(rows: Seq<FileStatView>, top: Option<nat>, sort: SortBy) -> Seq<
    FileStatView,
> {
    match top {
        Some(n) => sorted_stats(top_rows(rows, n), sort),
        None => sorted_stats(rows, sort),
    }
}

/// The list of largest files that the summary carries: with a limit, the
/// rows with the most tokens, largest first.
pub open spec fn summary_top(rows: Seq<FileStatView>, top: Option<nat>) -> Option<
    Seq<FileStatView>,
> {
    match top {
        Some(n) => Some(top_rows(rows, n)),
        None => None,
    }
}

/// Whatever the order of display, a limit shows the rows with the most
/// tokens: the rows shown are those of `top_rows`, each as often as there,
/// and in the order of token counts they are shown just as `top_rows` has
/// them; there are `n` of them, or all where there are fewer; together
/// with the rows left out they are the given rows; and no row left out has
/// to come before a row shown in the order of token counts.
pub proof fn lemma_top_shows_largest(rows: Seq<FileStatView>, n: nat, sort: SortBy)
    ensures
        display_rows(rows, Some(n), sort).to_multiset() == top_rows(rows, n).to_multiset(),
        display_rows(rows, Some(n), SortBy::Tokens) == top_rows(rows, n),
        top_rows(rows, n).len() == if n < rows.len() {
            n
        } else {
            rows.len()
        },
        (top_rows(rows, n) + rows_below_top(rows, n)).to_multiset() == rows.to_multiset(),
        forall|i: int, j: int|
            0 <= i < top_rows(rows, n).len() && 0 <= j < rows_below_top(rows, n).len()
                ==> !comes_before(
                SortBy::Tokens,
                #[trigger] rows_below_top(rows, n)[j],
                #[trigger] top_rows(rows, n)[i],
            ),
{
    let all = ranked(rows);
    lemma_sorted_stats_ordered(rows, SortBy::Tokens);
    lemma_sorted_stats_permutes(rows, SortBy::Tokens);
    lemma_sorted_stats_permutes(top_rows(rows, n), sort);
    assert(is_ordered(top_rows(rows, n), SortBy::Tokens)) by {
        let top = top_rows(rows, n);
        assert forall|i: int, j: int| 0 <= i < j < top.len() implies !comes_before(
            SortBy::Tokens,
            #[trigger] top[j],
            #[trigger] top[i],
        ) by {
            assert(top[i] == all[i]);
            assert(top[j] == all[j]);
        }
    }
    lemma_sorted_stats_of_ordered(top_rows(rows, n), SortBy::Tokens);
    if n < rows.len() {
        assert(all.take(n as int) + all.skip(n as int) =~= all);
        assert forall|i: int, j: int|
            0 <= i < top_rows(rows, n).len() && 0 <= j < rows_below_top(rows, n).len()
                implies !comes_before(
            SortBy::Tokens,
            #[trigger] rows_below_top(rows, n)[j],
            #[trigger] top_rows(rows, n)[i],
        ) by {
            assert(top_rows(rows, n)[i] == all[i]);
            assert(rows_below_top(rows, n)[j] == all[n + j]);
        }
    } else {
        assert(all + Seq::<FileStatView>::empty() =~= all);
    }
}

/// With a limit the rows shown are the largest, whatever the order of
/// display: there are `n` of them, or all where there are fewer; each is
/// one of the given rows; each has more tokens than any given row that is
/// not shown, or as many and the path that comes first; and both orders of
/// display show the same rows.
pub proof fn lemma_limit_shows_largest(rows: Seq<FileStatView>, n: nat, sort: SortBy)
    ensures
        display_rows(rows, Some(n), sort).len() == if n < rows.len() {
            n
        } else {
            rows.len()
        },
        forall|d: FileStatView| #[trigger]
            display_rows(rows, Some(n), sort).contains(d) ==> rows.contains(d),
        forall|d: FileStatView, u: FileStatView|
            #![trigger display_rows(rows, Some(n), sort).contains(d), rows.contains(u)]
            display_rows(rows, Some(n), sort).contains(d) && rows.contains(u) && !display_rows(
                rows,
                Some(n),
                sort,
            ).contains(u) ==> d.tokens > u.tokens || (d.tokens == u.tokens && text_before(
                d.path,
                u.path,
            )),
        display_rows(rows, Some(n), SortBy::Path).to_multiset() == display_rows(
            rows,
            Some(n),
            SortBy::Tokens,
        ).to_multiset(),
{
    let shown = display_rows(rows, Some(n), sort);
    let top = top_rows(rows, n);
    let below = rows_below_top(rows, n);
    lemma_top_shows_largest(rows, n, sort);
    lemma_top_shows_largest(rows, n, SortBy::Path);
    lemma_top_shows_largest(rows, n, SortBy::Tokens);
    vstd::seq_lib::to_multiset_len(shown);
    vstd::seq_lib::to_multiset_len(top);
    assert forall|x: FileStatView| shown.contains(x) == top.contains(x) by {
        vstd::seq_lib::to_multiset_contains(shown, x);
        vstd::seq_lib::to_multiset_contains(top, x);
    }
    assert forall|x: FileStatView| rows.contains(x) == (top.contains(x) || below.contains(x)) by {
        vstd::seq_lib::to_multiset_contains(rows, x);
        vstd::seq_lib::to_multiset_contains(top + below, x);
        if top.contains(x) {
            let i = choose|i: int| 0 <= i < top.len() && top[i] == x;
            assert((top + below)[i] == x);
        }
        if below.contains(x) {
            let j = choose|j: int| 0 <= j < below.len() && below[j] == x;
            assert((top + below)[top.len() + j] == x);
        }
        if (top + below).contains(x) {
            let k = choose|k: int| 0 <= k < (top + below).len() && (top + below)[k] == x;
            if k < top.len() {
                assert(top[k] == x);
            } else {
                assert(below[k - top.len()] == x);
            }
        }
    }
    assert forall|d: FileStatView, u: FileStatView|
        #![trigger shown.contains(d), rows.contains(u)]
        shown.contains(d) && rows.contains(u) && !shown.contains(u) implies d.tokens > u.tokens
        || (d.tokens == u.tokens && text_before(d.path, u.path)) by {
        assert(top.contains(d));
        assert(below.contains(u));
        let i = choose|i: int| 0 <= i < top.len() && top[i] == d;
        let j = choose|j: int| 0 <= j < below.len() && below[j] == u;
        assert(!comes_before(SortBy::Tokens, below[j], top[i]));
        lemma_text_before_total(d.path, u.path);
    }
}

/// The `n` statistics with the most tokens, largest first and those with
/// the same count by ascending path.
pub fn select_top(stats: &Vec<FileStat>, n: usize) -> (top: Vec<FileStat>)
    ensures
        stat_views(top@) == top_rows(stat_views(stats@), n as nat),
{
    let mut ranked_stats = sort_stats(stats, SortBy::Tokens);
    proof {
        lemma_sorted_stats_ordered(stat_views(stats@), SortBy::Tokens);
    }
    if n < ranked_stats.len() {
        let ghost before = stat_views(ranked_stats@);
        ranked_stats.truncate(n);
        assert(stat_views(ranked_stats@) =~= before.take(n as int));
    }
    ranked_stats
}

/// The statistics that are shown, in the order in which they are shown.
/// With a limit the choice is by token count, whatever `sort` is; `sort`
/// then orders what was chosen.
pub fn order_for_display(stats: &Vec<FileStat>, top: Option<usize>, sort: SortBy) -> (shown: Vec<
    FileStat,
>)
    ensures
        stat_views(shown@) == display_rows(stat_views(stats@), count_view(top), sort),
{
    match top {
        Some(n) => {
            let chosen = select_top(stats, n);
            sort_stats(&chosen, sort)
        },
        None => sort_stats(stats, sort),
    }
}

/// One element of the JSON forms of the output.
#[derive(Clone, Debug, PartialEq, Eq)]
pub enum OutputRow {
    /// The object of one file, with its path and its tokens.
    File(FileStat),
    /// The object whose one key, `summary`, holds the summary.
    Summary(Summary),
}

/// The mathematical value of an [`OutputRow`].
pub enum OutputRowView {
    File(FileStatView),
    Summary(SummaryView),
}

impl View for OutputRow {
    type V = OutputRowView;

    open spec fn view(&self) -> OutputRowView {
        match *self {
            OutputRow::File(stat) => OutputRowView::File(stat@),
            OutputRow::Summary(summary) => OutputRowView::Summary(summary@),
        }
    }
}

/// The values of a sequence of output rows, in order.
pub open spec fn row_views(rows: Seq<OutputRow>) -> Seq<OutputRowView> {
    rows.map_values(|row: OutputRow| row@)
}

/// One file object for each row, in order.
pub open spec fn file_rows(rows: Seq<FileStatView>) -> Seq<OutputRowView> {
    rows.map_values(|row: FileStatView| OutputRowView::File(row))
}

/// The elements of the JSON array: the file objects, and the summary
/// object as the last element.
pub open spec fn json_document(rows: Seq<FileStatView>, summary: SummaryView) -> Seq<
    OutputRowView,
> {
    file_rows(rows).push(OutputRowView::Summary(summary))
}

/// The lines of the line-wise JSON form: the file objects, and behind them
/// the summary object unless it is left out.
pub open spec fn ndjson_lines(rows: Seq<FileStatView>, summary: SummaryView, with_summary: bool) -> Seq<
    OutputRowView,
> {
    if with_summary {
        json_document(rows, summary)
    } else {
        file_rows(rows)
    }
}

/// The JSON array always ends with the summary object, and in front of it
/// stands one file object for each row, in order.
pub proof fn lemma_json_ends_with_summary(rows: Seq<FileStatView>, summary: SummaryView)
    ensures
        json_document(rows, summary).len() == rows.len() + 1,
        json_document(rows, summary).last() == OutputRowView::Summary(summary),
        forall|i: int|
            0 <= i < rows.len() ==> #[trigger] json_document(rows, summary)[i]
                == OutputRowView::File(rows[i]),
{
}

/// The file objects of `stats`, in order.
fn file_row_list(stats: &Vec<FileStat>) -> (rows: Vec<OutputRow>)
    ensures
        row_views(rows@) == file_rows(stat_views(stats@)),
{
    let mut rows: Vec<OutputRow> = Vec::new();
    let mut i: usize = 0;
    while i < stats.len()
        invariant
            i <= stats.len(),
            rows.len() == i,
            forall|k: int| 0 <= k < i ==> (#[trigger] rows[k])@ == OutputRowView::File(stats[k]@),
        decreases stats.len() - i,
    {
        rows.push(OutputRow::File(stats[i].copied()));
        i = i + 1;
    }
    assert(row_views(rows@) =~= file_rows(stat_views(stats@)));
    rows
}

/// The elements of the JSON array for the rows `stats` and the summary.
pub fn json_rows(stats: &Vec<FileStat>, summary: &Summary) -> (rows: Vec<OutputRow>)
    ensures
        row_views(rows@) == json_document(stat_views(stats@), summary@),
        rows@.len() == stats@.len() + 1,
        rows@.last()@ == OutputRowView::Summary(summary@),
{
    let mut rows = file_row_list(stats);
    let ghost before = row_views(rows@);
    rows.push(OutputRow::Summary(summary.copied()));
    assert(row_views(rows@) =~= before.push(OutputRowView::Summary(summary@)));
    rows
}

/// The lines of the line-wise JSON form for the rows `stats`, with the
/// summary as the last line unless `with_summary` is unset.
pub fn ndjson_rows(stats: &Vec<FileStat>, summary: &Summary, with_summary: bool) -> (rows: Vec<
    OutputRow,
>)
    ensures
        row_views(rows@) == ndjson_lines(stat_views(stats@), summary@, with_summary),
{
    if with_summary {
        json_rows(stats, summary)
    } else {
        file_row_list(stats)
    }
}

/// The width of the column of token counts: that of the longest numeral
/// among the rows, and one where there is no row.
pub open spec fn column_width(rows: Seq<FileStatView>) -> nat
    decreases rows.len(),
{
    if rows.len() == 0 {
        1
    } else {
        let width = column_width(rows.drop_last());
        let digits = digit_count(rows.last().tokens);
        if digits > width {
            digits
        } else {
            width
        }
    }
}

/// The line of one row: its token count aligned to the right in a column
/// of `width`, two spaces, its path.
pub open spec fn table_line(row: FileStatView, width: nat) -> Seq<char> {
    right_aligned(row.tokens, width) + "  "@ + row.path + "\n"@
}

/// The lines of the rows, in order.
pub open spec fn table_lines(rows: Seq<FileStatView>, width: nat) -> Seq<char>
    decreases rows.len(),
{
    if rows.len() == 0 {
        Seq::empty()
    } else {
        table_lines(rows.drop_last(), width) + table_line(rows.last(), width)
    }
}

/// The line of one of the largest files: its path, and its token count in
/// brackets.
pub open spec fn top_line(row: FileStatView) -> Seq<char> {
    "  "@ + row.path + " ("@ + decimal(row.tokens) + ")\n"@
}

/// The lines of the largest files, in order.
pub open spec fn top_lines(rows: Seq<FileStatView>) -> Seq<char>
    decreases rows.len(),
{
    if rows.len() == 0 {
        Seq::empty()
    } else {
        top_lines(rows.drop_last()) + top_line(rows.last())
    }
}

/// A line that names a number.
pub open spec fn number_line(label: Seq<char>, n: nat) -> Seq<char> {
    label + decimal(n) + "\n"@
}

/// A mean given in hundredths, with two decimal places.
pub open spec fn average_text(hundredths: nat) -> Seq<char> {
    decimal(hundredths / 100) + "."@ + two_digits(hundredths % 100)
}

/// The block of the largest files, where the summary carries them.
pub open spec fn top_block(top: Option<Seq<FileStatView>>) -> Seq<char> {
    match top {
        Some(rows) => "top files:\n"@ + top_lines(rows),
        None => Seq::empty(),
    }
}

/// The foot of the table: an empty line, a separator, and the fields of
/// the summary, one on each line.
pub open spec fn summary_text(summary: SummaryView) -> Seq<char> {
    "\n---\n"@ + number_line("total files: "@, summary.files) + number_line(
        "total tokens: "@,
        summary.total,
    ) + "average/file: "@ + average_text(summary.average) + "\n"@ + number_line(
        "p50: "@,
        summary.p50,
    ) + number_line("p90: "@, summary.p90) + number_line("p99: "@, summary.p99) + top_block(
        summary.top,
    )
}

/// The table: the lines of the rows, then the foot.
pub open spec fn table_text(rows: Seq<FileStatView>, summary: SummaryView) -> Seq<char> {
    table_lines(rows, column_width(rows)) + summary_text(summary)
}

/// The width of the column of token counts for `stats`.
pub fn table_width(stats: &Vec<FileStat>) -> (width: usize)
    ensures
        width == column_width(stat_views(stats@)),
        1 <= width <= 20,
{
    let ghost rows = stat_views(stats@);
    let mut width: usize = 1;
    let mut i: usize = 0;
    assert(rows.take(0) =~= Seq::<FileStatView>::empty());
    while i < stats.len()
        invariant
            i <= stats.len(),
            rows == stat_views(stats@),
            width == column_width(rows.take(i as int)),
            1 <= width <= 20,
        decreases stats.len() - i,
    {
        proof {
            assert(rows.take(i as int + 1).drop_last() =~= rows.take(i as int));
            assert(rows.take(i as int + 1).last() == stats[i as int]@);
        }
        let digits: usize = num_digits(stats[i].tokens);
        if digits > width {
            width = digits;
        }
        i = i + 1;
    }
    assert(rows.take(i as int) =~= rows);
    width
}

/// Appends a line that names a number.
fn push_number_line(out: &mut String, label: &str, n: u64)
    ensures
        final(out)@ == old(out)@ + number_line(label@, n as nat),
{
    out.append(label);
    push_decimal(out, n);
    out.append("\n");
    assert(out@ =~= old(out)@ + number_line(label@, n as nat));
}

/// Appends the lines of the largest files.
fn push_top_lines(out: &mut String, top: &Vec<FileStat>)
    ensures
        final(out)@ == old(out)@ + top_lines(stat_views(top@)),
{
    let ghost rows = stat_views(top@);
    let mut i: usize = 0;
    proof {
        assert(rows.take(0) =~= Seq::<FileStatView>::empty());
        assert(out@ =~= old(out)@ + top_lines(rows.take(0)));
    }
    while i < top.len()
        invariant
            i <= top.len(),
            rows == stat_views(top@),
            out@ == old(out)@ + top_lines(rows.take(i as int)),
        decreases top.len() - i,
    {
        proof {
            assert(rows.take(i as int + 1).drop_last() =~= rows.take(i as int));
            assert(rows.take(i as int + 1).last() == top[i as int]@);
        }
        let ghost before = out@;
        out.append("  ");
        out.append(top[i].path.as_str());
        out.append(" (");
        push_decimal(out, top[i].tokens);
        out.append(")\n");
        assert(out@ =~= before + top_line(top[i as int]@));
        assert(out@ =~= old(out)@ + top_lines(rows.take(i as int + 1)));
        i = i + 1;
    }
    assert(rows.take(i as int) =~= rows);
}

/// The table for the rows `stats`, in the order given, and the summary.
pub fn render_table(stats: &Vec<FileStat>, summary: &Summary) -> (text: String)
    ensures
        text@ == table_text(stat_views(stats@), summary@),
{
    let ghost rows = stat_views(stats@);
    let width: usize = table_width(stats);
    let mut out = String::new();
    let mut i: usize = 0;
    proof {
        assert(rows.take(0) =~= Seq::<FileStatView>::empty());
        assert(out@ =~= table_lines(rows.take(0), width as nat));
    }
    while i < stats.len()
        invariant
            i <= stats.len(),
            rows == stat_views(stats@),
            out@ == table_lines(rows.take(i as int), width as nat),
        decreases stats.len() - i,
    {
        proof {
            assert(rows.take(i as int + 1).drop_last() =~= rows.take(i as int));
            assert(rows.take(i as int + 1).last() == stats[i as int]@);
        }
        let ghost before = out@;
        push_right_aligned(&mut out, stats[i].tokens, width);
        out.append("  ");
        out.append(stats[i].path.as_str());
        out.append("\n");
        assert(out@ =~= before + table_line(stats[i as int]@, width as nat));
        i = i + 1;
    }
    assert(rows.take(i as int) =~= rows);
    let ghost lines = out@;
    out.append("\n---\n");
    push_number_line(&mut out, "total files: ", summary.files);
    push_number_line(&mut out, "total tokens: ", summary.total);
    out.append("average/file: ");
    push_decimal(&mut out, summary.average.whole());
    out.append(".");
    push_two_digits(&mut out, summary.average.hundredths());
    out.append("\n");
    push_number_line(&mut out, "p50: ", summary.p50);
    push_number_line(&mut out, "p90: ", summary.p90);
    push_number_line(&mut out, "p99: ", summary.p99);
    let ghost body = out@;
    match &summary.top {
        Some(top) => {
            out.append("top files:\n");
            push_top_lines(&mut out, top);
            assert(out@ =~= body + top_block(summary@.top));
        },
        None => {
            assert(out@ =~= body + top_block(summary@.top));
        },
    }
    assert(out@ =~= lines + summary_text(summary@));
    out
}

/// The result of a run in the form that was asked for.
#[derive(Clone, Debug, PartialEq, Eq)]
pub enum Output {
    /// The text of the table.
    Table(String),
    /// The elements of the JSON array.
    Json(Vec<OutputRow>),
    /// The lines of the line-wise JSON form.
    Ndjson(Vec<OutputRow>),
}

/// The mathematical value of an [`Output`].
pub enum OutputView {
    Table(Seq<char>),
    Json(Seq<OutputRowView>),
    Ndjson(Seq<OutputRowView>),
}

impl View for Output {
    type V = OutputView;

    open spec fn view(&self) -> OutputView {
        match *self {
            Output::Table(text) => OutputView::Table(text@),
            Output::Json(rows) => OutputView::Json(row_views(rows@)),
            Output::Ndjson(rows) => OutputView::Ndjson(row_views(rows@)),
        }
    }
}

/// The output for the rows `rows`: the rows shown are chosen and ordered by
/// `top` and `sort`, the summary is that of all rows, and it carries the
/// largest files where there is a limit.
pub open spec fn results_of(
    rows: Seq<FileStatView>,
    top: Option<nat>,
    sort: SortBy,
    format: OutputFormat,
    with_summary: bool,
) -> OutputView {
    let shown = display_rows(rows, top, sort);
    let summary = summary_of(rows, summary_top(rows, top));
    match format {
        OutputFormat::Table => OutputView::Table(table_text(shown, summary)),
        OutputFormat::Json => OutputView::Json(json_document(shown, summary)),
        OutputFormat::Ndjson => OutputView::Ndjson(ndjson_lines(shown, summary, with_summary)),
    }
}

/// The rows shown and the summary of a run in the form in which they are
/// put out.
pub fn render(ordered: &Vec<FileStat>, summary: &Summary, format: OutputFormat, with_summary: bool) -> (output:
    Output)
    ensures
        output@ == match format {
            OutputFormat::Table => OutputView::Table(table_text(stat_views(ordered@), summary@)),
            OutputFormat::Json => OutputView::Json(
                json_document(stat_views(ordered@), summary@),
            ),
            OutputFormat::Ndjson => OutputView::Ndjson(
                ndjson_lines(stat_views(ordered@), summary@, with_summary),
            ),
        },
{
    match format {
        OutputFormat::Table => Output::Table(render_table(ordered, summary)),
        OutputFormat::Json => Output::Json(json_rows(ordered, summary)),
        OutputFormat::Ndjson => Output::Ndjson(ndjson_rows(ordered, summary, with_summary)),
    }
}

/// The output of a run over the statistics `stats` under the options
/// `args`.
pub fn output_results(stats: &Vec<FileStat>, args: &Args) -> (output: Output)
    requires
        total_tokens(stat_views(stats@)) <= u64::MAX,
    ensures
        output@ == results_of(
            stat_views(stats@),
            count_view(args.top),
            args.sort,
            args.format,
            !args.no_summary_flag,
        ),
{
    let ordered = order_for_display(stats, args.top, args.sort);
    let top: Option<Vec<FileStat>> = match args.top {
        Some(n) => Some(select_top(stats, n)),
        None => None,
    };
    let summary = build_summary(stats, top);
    render(&ordered, &summary, args.format, args.with_summary())
}

/// The output of a run, where the sum of the token counts fits in 64
/// bits; `None` where it does not.
pub fn checked_output_results(stats: &Vec<FileStat>, args: &Args) -> (output: Option<Output>)
    ensures
        output is Some <==> total_tokens(stat_views(stats@)) <= u64::MAX,
        output matches Some(made) ==> made@ == results_of(
            stat_views(stats@),
            count_view(args.top),
            args.sort,
            args.format,
            !args.no_summary_flag,
        ),
{
    match checked_total(stats) {
        Some(_) => Some(output_results(stats, args)),
        None => None,
    }
}

} // verus!
