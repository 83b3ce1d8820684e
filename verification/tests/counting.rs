use tiktoken_rs::{cl100k_base, o200k_base};
use tokencount::diagnostic::{Diagnostic, LogLevel};
use tokencount::options::Args;
use tokencount::process::{admit_file, classify_file, count_tokens, process_file, ProcessError};
use tokencount::report::{output_results, Output};
use tokencount::stat::FileStat;
use tokencount::tokenizer::{Encoding, LoadError};

fn text(s: &str) -> Result<String, String> {
    Ok(s.to_string())
}

fn failed(s: &str) -> Result<String, String> {
    Err(s.to_string())
}

#[test]
fn counting_twice_gives_the_same_count() {
    let tokenizer = Encoding::Cl100kBase.load().expect("vocabulary");
    let content = "module Main exposing (main)\n\nmain = text \"hello\"\n";
    let first = process_file("Main.elm", &Ok(49), &text(content), None, &tokenizer);
    let second = process_file("Main.elm", &Ok(49), &text(content), None, &tokenizer);
    assert_eq!(first, second);
    let again = Encoding::Cl100kBase.load().expect("vocabulary");
    assert_eq!(again.count(content), tokenizer.count(content));
    assert_eq!(Some(first.expect("a statistic").tokens), tokenizer.count(content));
}

#[test]
fn counts_are_those_of_the_encoding() {
    let cl100k = Encoding::Cl100kBase.load().expect("vocabulary");
    let o200k = Encoding::O200kBase.load().expect("vocabulary");
    assert_eq!(Encoding::Cl100kBase.name(), "cl100k_base");
    assert_eq!(Encoding::O200kBase.name(), "o200k_base");
    assert_eq!(cl100k.encoding(), Encoding::Cl100kBase);
    assert_eq!(o200k.encoding(), Encoding::O200kBase);
    assert_eq!(cl100k.count(""), Some(0));
    assert_eq!(cl100k.count("hello world"), Some(2));
    assert_eq!(o200k.count("hello world"), Some(2));
    let sample = "The quick brown fox, naïve café — 日本語 <|endoftext|> 12345";
    let by_cl100k = cl100k_base().expect("vocabulary").encode_ordinary(sample).len() as u64;
    let by_o200k = o200k_base().expect("vocabulary").encode_ordinary(sample).len() as u64;
    assert_eq!(cl100k.count(sample), Some(by_cl100k));
    assert_eq!(o200k.count(sample), Some(by_o200k));
    assert!(by_cl100k > 7);
    let korean = "안녕하세요 세계";
    assert_ne!(cl100k.count(korean), o200k.count(korean));
}

#[test]
fn file_without_metadata_fails() {
    let tokenizer = Encoding::Cl100kBase.load().expect("vocabulary");
    let outcome =
        process_file("gone.elm", &Err("not found".to_string()), &text("x"), Some(1), &tokenizer);
    let failure = outcome.expect_err("no metadata");
    assert_eq!(
        failure,
        ProcessError::Metadata { path: "gone.elm".to_string(), source: "not found".to_string() }
    );
    assert_eq!(failure.message(), "failed to read metadata for gone.elm");
    assert_eq!(failure.level(), LogLevel::Warn);
}

#[test]
fn file_over_the_limit_is_too_large() {
    let tokenizer = Encoding::Cl100kBase.load().expect("vocabulary");
    let outcome = process_file("big.elm", &Ok(11), &text("hello world"), Some(10), &tokenizer);
    let failure = outcome.expect_err("over the limit");
    assert_eq!(failure, ProcessError::TooLarge { path: "big.elm".to_string(), size: 11, limit: 10 });
    assert_eq!(failure.message(), "skipping big.elm: file size 11 exceeds max 10");
    assert_eq!(failure.level(), LogLevel::Info);

    let at_limit = process_file("fits.elm", &Ok(11), &text("hello world"), Some(11), &tokenizer);
    assert_eq!(at_limit, Ok(FileStat::new("fits.elm".to_string(), 2)));
    let unlimited = process_file("any.elm", &Ok(u64::MAX), &text("hello world"), None, &tokenizer);
    assert_eq!(unlimited, Ok(FileStat::new("any.elm".to_string(), 2)));
    let unread = process_file("big.elm", &Ok(11), &failed("unreadable"), Some(10), &tokenizer);
    assert_eq!(
        unread,
        Err(ProcessError::TooLarge { path: "big.elm".to_string(), size: 11, limit: 10 })
    );
}

#[test]
fn unreadable_content_fails() {
    let tokenizer = Encoding::Cl100kBase.load().expect("vocabulary");
    let outcome = process_file(
        "latin1.elm",
        &Ok(3),
        &failed("stream did not contain valid UTF-8"),
        Some(10),
        &tokenizer,
    );
    let failure = outcome.expect_err("no content");
    assert_eq!(
        failure,
        ProcessError::Read {
            path: "latin1.elm".to_string(),
            source: "stream did not contain valid UTF-8".to_string()
        }
    );
    assert_eq!(failure.message(), "skipping latin1.elm: stream did not contain valid UTF-8");
    assert_eq!(failure.level(), LogLevel::Warn);
}

#[test]
fn admission_comes_before_reading() {
    assert_eq!(admit_file("a", &Ok(5), None), Ok(()));
    assert_eq!(admit_file("a", &Ok(5), Some(5)), Ok(()));
    assert_eq!(admit_file("a", &Ok(0), Some(0)), Ok(()));
    assert_eq!(
        admit_file("a", &Ok(6), Some(5)),
        Err(ProcessError::TooLarge { path: "a".to_string(), size: 6, limit: 5 })
    );
    assert_eq!(
        admit_file("a", &Err("denied".to_string()), None),
        Err(ProcessError::Metadata { path: "a".to_string(), source: "denied".to_string() })
    );
}

#[test]
fn outcome_follows_from_what_was_read() {
    assert_eq!(
        classify_file("a", &Ok(5), Ok(Some(3)), Some(9)),
        Ok(FileStat::new("a".to_string(), 3))
    );
    assert_eq!(
        classify_file("a", &Ok(5), Ok(Some(0)), None),
        Ok(FileStat::new("a".to_string(), 0))
    );
    let unencoded = classify_file("a", &Ok(5), Ok(None), None);
    assert_eq!(unencoded, Err(ProcessError::Encode { path: "a".to_string() }));
    let failure = unencoded.expect_err("no count");
    assert_eq!(failure.message(), "skipping a: content could not be split into tokens");
    assert_eq!(failure.level(), LogLevel::Warn);
    assert_eq!(
        classify_file("a", &Ok(50), Ok(None), Some(9)),
        Err(ProcessError::TooLarge { path: "a".to_string(), size: 50, limit: 9 })
    );
    assert_eq!(
        classify_file("a", &Ok(5), Err("bad".to_string()), None),
        Err(ProcessError::Read { path: "a".to_string(), source: "bad".to_string() })
    );
    assert_eq!(
        classify_file("a", &Ok(50), Ok(Some(3)), Some(9)),
        Err(ProcessError::TooLarge { path: "a".to_string(), size: 50, limit: 9 })
    );
    assert_eq!(
        classify_file("a", &Err("gone".to_string()), Ok(Some(3)), Some(9)),
        Err(ProcessError::Metadata { path: "a".to_string(), source: "gone".to_string() })
    );
}

#[test]
fn failures_are_dropped_and_reported() {
    let outcomes = vec![
        Ok(FileStat::new("a.elm".to_string(), 4)),
        Err(ProcessError::TooLarge { path: "big.elm".to_string(), size: 2000, limit: 1000 }),
        Ok(FileStat::new("b.elm".to_string(), 6)),
        Err(ProcessError::Read { path: "bad.elm".to_string(), source: "invalid".to_string() }),
        Err(ProcessError::Metadata { path: "gone.elm".to_string(), source: "x".to_string() }),
    ];
    let (stats, reports) = count_tokens(&outcomes, false);
    assert_eq!(
        stats,
        vec![FileStat::new("a.elm".to_string(), 4), FileStat::new("b.elm".to_string(), 6)]
    );
    assert_eq!(
        reports,
        vec![
            Diagnostic {
                level: LogLevel::Info,
                message: "skipping big.elm: file size 2000 exceeds max 1000".to_string()
            },
            Diagnostic { level: LogLevel::Warn, message: "skipping bad.elm: invalid".to_string() },
            Diagnostic {
                level: LogLevel::Warn,
                message: "failed to read metadata for gone.elm".to_string()
            },
        ]
    );
    let (stats, reports) = count_tokens(&outcomes, true);
    assert_eq!(stats.len(), 2);
    assert!(reports.is_empty());
    let (stats, reports) = count_tokens(&Vec::new(), false);
    assert!(stats.is_empty());
    assert!(reports.is_empty());
}

#[test]
fn oversized_file_is_absent_from_output_and_summary() {
    let tokenizer = Encoding::Cl100kBase.load().expect("vocabulary");
    let mut args = Args::new();
    args.max_bytes = Some(8);
    let outcomes = vec![
        process_file("small.elm", &Ok(5), &text("hello"), args.max_bytes, &tokenizer),
        process_file(
            "large.elm",
            &Ok(23),
            &text("hello world hello world"),
            args.max_bytes,
            &tokenizer,
        ),
    ];
    let (stats, reports) = count_tokens(&outcomes, args.quiet);
    assert_eq!(stats, vec![FileStat::new("small.elm".to_string(), 1)]);
    assert_eq!(reports.len(), 1);
    assert_eq!(reports[0].level, LogLevel::Info);
    let output = output_results(&stats, &args);
    let expected = "1  small.elm\n\n---\ntotal files: 1\ntotal tokens: 1\naverage/file: 1.00\n\
                    p50: 1\np90: 1\np99: 1\n";
    assert_eq!(output, Output::Table(expected.to_string()));
}

#[test]
fn load_error_names_the_cause() {
    let error = LoadError { reason: "bad vocabulary".to_string() };
    assert_eq!(error.message(), "failed to load encoding: bad vocabulary");
}
