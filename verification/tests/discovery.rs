use tokencount::diagnostic::{log_level, Diagnostic, LogLevel};
use tokencount::extensions::{
    file_extension, include_extensions, normalize_extension, strip_leading_dot, ExtensionSet,
};
use tokencount::filter::{build_exclude_globset, build_globset, FilterError};
use tokencount::options::{Args, OutputFormat};
use tokencount::order::SortBy;
use tokencount::paths::{choose_display_path, normalize_display_path};
use tokencount::tokenizer::Encoding;
use tokencount::walk::{
    collect_files, counts_file, is_candidate, keep_entry, keeps, WalkEntry, WalkEvent,
};

fn strings(items: &[&str]) -> Vec<String> {
    items.iter().map(|s| s.to_string()).collect()
}

fn entry(path: &str, depth: usize, is_dir: bool) -> WalkEntry {
    WalkEntry { path: path.to_string(), depth, is_dir, is_file: !is_dir }
}

#[test]
fn default_extension_is_elm() {
    let set = include_extensions(&Vec::new());
    assert!(set.contains("elm"));
    assert!(!set.contains("ts"));
    assert!(!set.contains(""));
    assert!(!set.contains("Elm"));
}

#[test]
fn configured_extensions_are_normalized() {
    let set = include_extensions(&strings(&[".TS", "Elm", "x.y", "..rs", ""]));
    assert!(set.contains("ts"));
    assert!(set.contains("elm"));
    assert!(set.contains("x.y"));
    assert!(set.contains(".rs"));
    assert!(set.contains(""));
    assert!(!set.contains(".ts"));
    assert!(!set.contains("TS"));
    assert!(!set.contains("rs"));

    let given = include_extensions(&strings(&["ts"]));
    assert!(given.contains("ts"));
    assert!(!given.contains("elm"));
}

#[test]
fn leading_dot_is_stripped_once() {
    assert_eq!(strip_leading_dot(".elm"), "elm");
    assert_eq!(strip_leading_dot("elm"), "elm");
    assert_eq!(strip_leading_dot("..elm"), ".elm");
    assert_eq!(strip_leading_dot("."), "");
    assert_eq!(strip_leading_dot(""), "");
    assert_eq!(strip_leading_dot("é.x"), "é.x");
    assert_eq!(strip_leading_dot(".éx"), "éx");
    assert_eq!(normalize_extension(".ELM"), "elm");
    assert_eq!(normalize_extension("Ts"), "ts");
    assert_eq!(normalize_extension(".ÄB"), "äb");
}

#[test]
fn extension_sets_hold_each_extension_once() {
    let set = ExtensionSet::new();
    assert!(!set.contains("a"));
    let set = set.with("a".to_string()).with("b".to_string()).with("a".to_string());
    assert!(set.contains("a"));
    assert!(set.contains("b"));
    assert!(!set.contains("c"));
    assert_eq!(format!("{:?}", set), "ExtensionSet { items: [\"a\", \"b\"] }");
}

#[test]
fn extension_matching_ignores_case() {
    let set = include_extensions(&Vec::new());
    assert!(set.allows(Some("elm")));
    assert!(set.allows(Some("ELM")));
    assert!(set.allows(Some("Elm")));
    assert!(!set.allows(Some("elm2")));
    assert!(!set.allows(Some("el")));
    assert!(!set.allows(Some("")));
    assert!(!set.allows(None));

    assert!(set.allows_path("Only.elm"));
    assert!(set.allows_path("src/deep/Main.ELM"));
    assert!(set.allows_path("a.b.elm"));
    assert!(!set.allows_path("Extra.ts"));
    assert!(!set.allows_path("elm"));
    assert!(!set.allows_path(".elm"));
    assert!(!set.allows_path("dir.elm/readme"));
    assert!(!set.allows_path("Makefile"));
    assert!(!set.allows_path(""));

    let umlaut = include_extensions(&strings(&["ä"]));
    assert!(umlaut.allows(Some("ä")));
    assert!(umlaut.allows(Some("Ä")));
    assert!(!umlaut.allows(Some("a")));

    let accented = include_extensions(&strings(&["ÉLM"]));
    assert!(accented.contains("élm"));
    assert!(accented.allows(Some("ÉLM")));
    assert!(accented.allows(Some("élm")));
    assert!(accented.allows(Some("Élm")));
    assert!(accented.allows_path("a.ÉLM"));
    assert!(!accented.allows(Some("elm")));
}

#[test]
fn file_with_upper_case_extension_outside_ascii_is_collected() {
    let filter = build_exclude_globset(Vec::new()).expect("default globs");
    let allowed = include_extensions(&strings(&["ÉLM"]));
    let events = vec![
        WalkEvent::Entry(entry("root", 0, true)),
        WalkEvent::Entry(entry("root/a.ÉLM", 1, false)),
        WalkEvent::Entry(entry("root/b.élm", 1, false)),
        WalkEvent::Entry(entry("root/c.elm", 1, false)),
    ];
    let mut files = Vec::new();
    let reports = collect_files(&events, false, &filter, &allowed, &mut files);
    assert_eq!(files, vec!["root/a.ÉLM", "root/b.élm"]);
    assert!(reports.is_empty());
}

#[test]
fn extension_of_a_path() {
    assert_eq!(file_extension("Only.elm"), Some("elm".to_string()));
    assert_eq!(file_extension("src/a.b.TS"), Some("TS".to_string()));
    assert_eq!(file_extension("src.d/Makefile"), None);
    assert_eq!(file_extension(".gitignore"), None);
    assert_eq!(file_extension("dir/"), None);
    assert_eq!(file_extension(""), None);
}

#[test]
fn default_globs_exclude_tool_directories() {
    let filter = build_exclude_globset(Vec::new()).expect("default globs");
    assert!(filter.matches("./.git"));
    assert!(filter.matches("./.git/config"));
    assert!(filter.matches("a/target"));
    assert!(filter.matches("a/target/debug/x.elm"));
    assert!(filter.matches("web/node_modules/left-pad/index.elm"));
    assert!(filter.matches("node_modules"));
    assert!(!filter.matches("src/Main.elm"));
    assert!(!filter.matches("targets/x.elm"));
    assert!(!filter.matches(".gitignore"));
}

#[test]
fn user_globs_are_added_to_the_defaults() {
    let filter = build_exclude_globset(strings(&["**/generated/**", "*.min.elm"]))
        .expect("valid globs");
    assert!(filter.matches("src/generated/Api.elm"));
    assert!(filter.matches("dist/app.min.elm"));
    assert!(filter.matches("x/node_modules/y"));
    assert!(!filter.matches("src/Api.elm"));

    let bare = build_globset(&strings(&["*.tmp"])).expect("valid glob");
    assert!(bare.matches("a.tmp"));
    assert!(!bare.matches("x/node_modules/y"));
    let none = build_globset(&Vec::new()).expect("no glob");
    assert!(!none.matches("anything"));
}

#[test]
fn invalid_glob_is_reported_with_its_pattern() {
    let outcome = build_exclude_globset(strings(&["ok/**", "a{b", "[z-a]"]));
    match outcome {
        Err(FilterError::InvalidGlob { pattern, reason }) => {
            assert_eq!(pattern, "a{b");
            assert!(!reason.is_empty());
            let error = FilterError::InvalidGlob { pattern, reason: reason.clone() };
            assert_eq!(error.message(), format!("invalid glob pattern: a{{b: {}", reason));
        }
        Err(other) => panic!("unexpected error {:?}", other),
        Ok(_) => panic!("an unclosed alternate is no glob"),
    }
    let failed = FilterError::BuildFailed { reason: "too big".to_string() };
    assert_eq!(failed.message(), "failed to build glob set: too big");
}

#[test]
fn walk_keeps_the_root_and_prunes_excluded_directories() {
    let filter = build_exclude_globset(Vec::new()).expect("default globs");
    assert!(keep_entry(&filter, 0, "node_modules", true));
    assert!(!keep_entry(&filter, 1, "./node_modules", true));
    assert!(keep_entry(&filter, 1, "./node_modules", false));
    assert!(keep_entry(&filter, 2, "./src/lib", true));
    assert!(keep_entry(&filter, 2, "./src/Main.elm", false));

    assert!(keeps(0, true, true));
    assert!(!keeps(1, true, true));
    assert!(keeps(1, true, false));
    assert!(keeps(1, false, true));
    assert!(keeps(7, false, false));
}

#[test]
fn candidates_are_files_with_allowed_extensions() {
    let filter = build_exclude_globset(Vec::new()).expect("default globs");
    let allowed = include_extensions(&Vec::new());
    assert!(is_candidate(&entry("src/Main.elm", 2, false), &filter, &allowed));
    assert!(is_candidate(&entry("Main.elm", 0, false), &filter, &allowed));
    assert!(!is_candidate(&entry("src.elm", 1, true), &filter, &allowed));
    assert!(!is_candidate(&entry("src/Main.ts", 2, false), &filter, &allowed));
    assert!(!is_candidate(&entry("src/README", 2, false), &filter, &allowed));
    assert!(!is_candidate(&entry("x/target/Main.elm", 3, false), &filter, &allowed));
    let neither = WalkEntry { path: "odd.elm".to_string(), depth: 1, is_dir: false, is_file: false };
    assert!(!is_candidate(&neither, &filter, &allowed));

    assert!(counts_file(false, true, Some("elm"), &allowed));
    assert!(counts_file(false, true, Some("ELM"), &allowed));
    assert!(!counts_file(true, true, Some("elm"), &allowed));
    assert!(!counts_file(false, false, Some("elm"), &allowed));
    assert!(!counts_file(false, true, Some("ts"), &allowed));
    assert!(!counts_file(false, true, None, &allowed));
}

#[test]
fn collecting_keeps_order_and_reports_walk_errors() {
    let filter = build_exclude_globset(strings(&["**/skip/**"])).expect("valid globs");
    let allowed = include_extensions(&strings(&["elm", ".TS"]));
    let events = vec![
        WalkEvent::Entry(entry(".", 0, true)),
        WalkEvent::Entry(entry("./b.elm", 1, false)),
        WalkEvent::Error("permission denied: ./locked".to_string()),
        WalkEvent::Entry(entry("./src", 1, true)),
        WalkEvent::Entry(entry("./src/a.TS", 2, false)),
        WalkEvent::Entry(entry("./src/skip/c.elm", 3, false)),
        WalkEvent::Entry(entry("./src/notes.md", 2, false)),
        WalkEvent::Error("loop".to_string()),
        WalkEvent::Entry(entry("./a.elm", 1, false)),
    ];
    let mut files = vec!["earlier.elm".to_string()];
    let reports = collect_files(&events, false, &filter, &allowed, &mut files);
    assert_eq!(files, vec!["earlier.elm", "./b.elm", "./src/a.TS", "./a.elm"]);
    assert_eq!(
        reports,
        vec![
            Diagnostic {
                level: LogLevel::Warn,
                message: "walk error: permission denied: ./locked".to_string()
            },
            Diagnostic { level: LogLevel::Warn, message: "walk error: loop".to_string() },
        ]
    );

    let mut files = Vec::new();
    let reports = collect_files(&events, true, &filter, &allowed, &mut files);
    assert_eq!(files, vec!["./b.elm", "./src/a.TS", "./a.elm"]);
    assert!(reports.is_empty());
}

#[test]
fn display_path_is_relative_where_possible() {
    assert_eq!(normalize_display_path("/work/src/A.elm", Some("/work")), "src/A.elm");
    assert_eq!(normalize_display_path("/work", Some("/work")), ".");
    assert_eq!(normalize_display_path("./src/A.elm", Some("/work")), "src/A.elm");
    assert_eq!(normalize_display_path("./src/A.elm", None), "src/A.elm");
    assert_eq!(normalize_display_path(".", Some("/work")), ".");
    assert_eq!(normalize_display_path("src/A.elm", Some("/work")), "src/A.elm");
    assert_eq!(normalize_display_path("/other/A.elm", Some("/work")), "/other/A.elm");
    assert_eq!(normalize_display_path("/workshop/A.elm", Some("/work")), "/workshop/A.elm");
    assert_eq!(normalize_display_path("/work/src/A.elm", None), "/work/src/A.elm");
}

#[test]
fn display_path_prefers_the_working_directory() {
    let some = |s: &str| Some(s.to_string());
    assert_eq!(choose_display_path("p", some("a"), some("b")), "a");
    assert_eq!(choose_display_path("p", some(""), some("b")), ".");
    assert_eq!(choose_display_path("p", None, some("b")), "b");
    assert_eq!(choose_display_path("p", None, some("")), ".");
    assert_eq!(choose_display_path("p", None, None), "p");
}

#[test]
fn default_options() {
    let args = Args::new();
    assert!(args.paths.is_empty());
    assert!(args.include_ext.is_empty());
    assert!(args.exclude.is_empty());
    assert_eq!(args.encoding, Encoding::Cl100kBase);
    assert_eq!(args.format, OutputFormat::Table);
    assert_eq!(args.sort, SortBy::Path);
    assert_eq!(args.top, None);
    assert_eq!(args.max_bytes, None);
    assert_eq!(args.threads, None);
    assert!(args.respect_gitignore());
    assert!(!args.follow_symlinks);
    assert!(args.with_summary());
    assert_eq!(args.roots(), vec!["."]);
    assert_eq!(args.log_level(), LogLevel::Warn);
}

#[test]
fn options_decide_flags() {
    let mut args = Args::new();
    args.no_respect_gitignore = true;
    assert!(!args.respect_gitignore());
    args.with_summary_flag = true;
    assert!(args.with_summary());
    args.no_summary_flag = true;
    assert!(!args.with_summary());
    args.with_summary_flag = false;
    assert!(!args.with_summary());
    args.paths = strings(&["a", "b"]);
    assert_eq!(args.roots(), vec!["a", "b"]);
    args.include_ext = strings(&[".Ts"]);
    let set = args.include_extensions();
    assert!(set.contains("ts"));
    assert!(!set.contains("elm"));
    args.verbosity = 1;
    assert_eq!(args.log_level(), LogLevel::Info);
    args.quiet = true;
    assert_eq!(args.log_level(), LogLevel::Off);
}

#[test]
fn log_level_follows_verbosity() {
    assert_eq!(log_level(false, 0), LogLevel::Warn);
    assert_eq!(log_level(false, 1), LogLevel::Info);
    assert_eq!(log_level(false, 2), LogLevel::Debug);
    assert_eq!(log_level(false, 255), LogLevel::Debug);
    assert_eq!(log_level(true, 0), LogLevel::Off);
    assert_eq!(log_level(true, 3), LogLevel::Off);
}
