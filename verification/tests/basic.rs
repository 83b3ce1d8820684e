use tiktoken_rs::cl100k_base;
use tokencount::extensions::include_extensions;
use tokencount::filter::build_exclude_globset;
use tokencount::options::{Args, OutputFormat};
use tokencount::process::{count_tokens, process_file};
use tokencount::report::{output_results, Output, OutputRow};
use tokencount::stat::FileStat;
use tokencount::tokenizer::Encoding;
use tokencount::walk::{collect_files, WalkEntry, WalkEvent};

fn file_entry(path: &str) -> WalkEvent {
    WalkEvent::Entry(WalkEntry { path: path.to_string(), depth: 1, is_dir: false, is_file: true })
}

fn root_entry() -> WalkEvent {
    WalkEvent::Entry(WalkEntry { path: ".".to_string(), depth: 0, is_dir: true, is_file: false })
}

fn scan(events: &Vec<WalkEvent>, args: &Args) -> Vec<String> {
    let excludes = build_exclude_globset(args.exclude.clone()).expect("default globs");
    let allowed = args.include_extensions();
    let mut files = Vec::new();
    let reports = collect_files(events, args.quiet, &excludes, &allowed, &mut files);
    assert!(reports.is_empty());
    files
}

fn count_all(files: &[(&str, &str)], args: &Args) -> Vec<FileStat> {
    let tokenizer = args.encoding.load().expect("vocabulary");
    let outcomes = files
        .iter()
        .map(|(path, text)| {
            process_file(
                path,
                &Ok(text.len() as u64),
                &Ok(text.to_string()),
                args.max_bytes,
                &tokenizer,
            )
        })
        .collect::<Vec<_>>();
    let (stats, reports) = count_tokens(&outcomes, args.quiet);
    assert!(reports.is_empty());
    stats
}

#[test]
fn counts_tokens_for_known_input() {
    let mut args = Args::new();
    args.format = OutputFormat::Json;
    let events = vec![root_entry(), file_entry("Main.elm")];
    let files = scan(&events, &args);
    assert_eq!(files, vec!["Main.elm".to_string()]);

    let stats = count_all(&[("Main.elm", "hello world\n")], &args);
    let rows = match output_results(&stats, &args) {
        Output::Json(rows) => rows,
        other => panic!("expected a JSON array, got {:?}", other),
    };
    let file_row = rows
        .iter()
        .find_map(|row| match row {
            OutputRow::File(stat) => Some(stat),
            OutputRow::Summary(_) => None,
        })
        .expect("expected file row");
    let tokens = file_row.tokens;

    let bpe = cl100k_base().expect("vocabulary");
    let expected = bpe.encode_ordinary("hello world\n").len() as u64;
    assert_eq!(tokens, expected);
}

#[test]
fn include_extension_filtering() {
    let events = vec![root_entry(), file_entry("Only.elm"), file_entry("Extra.ts")];

    let mut args = Args::new();
    args.format = OutputFormat::Json;
    let files = scan(&events, &args);
    assert_eq!(files, vec!["Only.elm"]);

    args.include_ext = vec!["elm".to_string(), "ts".to_string()];
    let mut files = scan(&events, &args);
    files.sort();
    assert_eq!(files, vec!["Extra.ts", "Only.elm"]);

    let set = include_extensions(&args.include_ext);
    assert!(set.contains("elm"));
    assert!(set.contains("ts"));
}

#[test]
fn json_summary_contains_stats() {
    let mut args = Args::new();
    args.format = OutputFormat::Json;
    let stats = count_all(&[("A.elm", "alpha"), ("B.elm", "beta")], &args);
    let rows = match output_results(&stats, &args) {
        Output::Json(rows) => rows,
        other => panic!("expected a JSON array, got {:?}", other),
    };
    let summary = match rows.last() {
        Some(OutputRow::Summary(summary)) => summary,
        other => panic!("summary row, got {:?}", other),
    };
    assert_eq!(summary.files, 2);
    assert_eq!(summary.total, stats[0].tokens + stats[1].tokens);
    assert_eq!(
        summary.average.whole() * 100 + summary.average.hundredths() as u64,
        (summary.total * 100 + 1) / 2
    );
    assert!(summary.p50 <= summary.p90);
    assert!(summary.p90 <= summary.p99);
    assert!(summary.top.is_none());
    assert_eq!(Encoding::Cl100kBase, args.encoding);
}
