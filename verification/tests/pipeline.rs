use git_summary::aggregate::{aggregate, counts_are_valid, sort_by_commit_count, SummaryError};
use git_summary::area::extract_area;
use git_summary::cli::{Args, OutputFormat};
use git_summary::model::{AreaStats, Commit, FileChange};
use git_summary::parse::{parse_log, parse_log_line, parse_numstat, parse_numstat_line, split_lines};
use git_summary::render::format_timestamp;
use git_summary::repo::{build_date_range, trim, GitRepo};

fn change(path: &str, additions: i32, deletions: i32) -> FileChange {
    FileChange { path: path.to_string(), additions, deletions }
}

fn commit(hash: &str, files: Vec<FileChange>) -> Commit {
    Commit {
        hash: hash.to_string(),
        short_hash: hash.to_string(),
        message: format!("commit {}", hash),
        timestamp: "2025-01-27T10:30:45-05:00".to_string(),
        files_changed: files,
    }
}

fn area(path: &str, commit_count: usize) -> AreaStats {
    AreaStats { path: path.to_string(), commit_count, additions: 0, deletions: 0 }
}

fn as_tuples(stats: &Vec<AreaStats>) -> Vec<(String, usize, i32, i32)> {
    stats.iter().map(|a| (a.path.clone(), a.commit_count, a.additions, a.deletions)).collect()
}

#[test]
fn area_of_nested_path_is_first_segment() {
    assert_eq!(extract_area("src/lib/x.rs"), "src/");
    assert_eq!(extract_area("src/foo.rs"), "src/");
}

#[test]
fn area_of_root_file_is_sentinel() {
    assert_eq!(extract_area("README.md"), "(root)");
    assert_eq!(extract_area(""), "(root)");
}

#[test]
fn area_of_leading_slash_is_slash() {
    assert_eq!(extract_area("/etc/passwd"), "/");
}

#[test]
fn date_range_label_with_both_bounds() {
    assert_eq!(build_date_range(Some("2025-01-01"), Some("2025-01-31")), "2025-01-01 to 2025-01-31");
}

#[test]
fn date_range_label_with_since_only() {
    assert_eq!(build_date_range(Some("2025-01-01"), None), "since 2025-01-01");
}

#[test]
fn date_range_label_with_until_only() {
    assert_eq!(build_date_range(None, Some("2025-01-31")), "until 2025-01-31");
}

#[test]
fn date_range_label_without_bounds() {
    assert_eq!(build_date_range(None, None), "all time");
}

#[test]
fn lines_end_at_line_feeds() {
    assert_eq!(split_lines("a\nb\r\n\nc"), vec!["a", "b", "", "c"]);
    assert_eq!(split_lines("a\n"), vec!["a"]);
    assert_eq!(split_lines("\n"), vec![""]);
    assert_eq!(split_lines("a\r"), vec!["a\r"]);
    assert!(split_lines("").is_empty());
}

#[test]
fn lines_match_the_standard_library() {
    for text in ["", "x", "x\n", "\r\n", "a\r\nb\r", "\n\n", "é|ü\nß", "a\r\r\nb"] {
        let expected: Vec<String> = text.lines().map(|l| l.to_string()).collect();
        assert_eq!(split_lines(text), expected);
    }
}

#[test]
fn log_line_with_four_fields_is_a_commit() {
    let c = parse_log_line("abc123|abc|Fix bug|2025-01-27T10:30:45-05:00").unwrap();
    assert_eq!(c.hash, "abc123");
    assert_eq!(c.short_hash, "abc");
    assert_eq!(c.message, "Fix bug");
    assert_eq!(c.timestamp, "2025-01-27T10:30:45-05:00");
    assert!(c.files_changed.is_empty());
}

#[test]
fn log_line_keeps_bars_after_the_third() {
    let c = parse_log_line("h|s|subject|with|bars").unwrap();
    assert_eq!(c.message, "subject");
    assert_eq!(c.timestamp, "with|bars");
}

#[test]
fn log_line_with_three_fields_is_dropped() {
    assert!(parse_log_line("h|s|subject").is_none());
    assert!(parse_log_line("h|s").is_none());
    assert!(parse_log_line("h").is_none());
    assert!(parse_log_line("").is_none());
}

#[test]
fn log_line_may_have_empty_fields() {
    let c = parse_log_line("|||").unwrap();
    assert_eq!(c.hash, "");
    assert_eq!(c.timestamp, "");
}

#[test]
fn short_log_line_does_not_disturb_the_next() {
    let commits = parse_log("a1|a|first|t1\nbroken|line\n\nb2|b|second|t2\n");
    assert_eq!(commits.len(), 2);
    assert_eq!(commits[0].hash, "a1");
    assert_eq!(commits[0].message, "first");
    assert_eq!(commits[1].hash, "b2");
    assert_eq!(commits[1].timestamp, "t2");
}

#[test]
fn log_with_unicode_subject() {
    let commits = parse_log("a1|a|Füge Übersicht hinzu|t1\n");
    assert_eq!(commits.len(), 1);
    assert_eq!(commits[0].message, "Füge Übersicht hinzu");
}

#[test]
fn numstat_line_is_a_file_change() {
    let f = parse_numstat_line("10\t2\tsrc/a.rs").unwrap();
    assert_eq!((f.path.as_str(), f.additions, f.deletions), ("src/a.rs", 10, 2));
}

#[test]
fn numstat_placeholder_counts_as_zero() {
    let f = parse_numstat_line("-\t-\tassets/logo.png").unwrap();
    assert_eq!((f.path.as_str(), f.additions, f.deletions), ("assets/logo.png", 0, 0));
    let g = parse_numstat_line("-\t7\tx").unwrap();
    assert_eq!((g.additions, g.deletions), (0, 7));
}

#[test]
fn numstat_line_with_two_fields_is_dropped() {
    assert!(parse_numstat_line("10\t2").is_none());
    assert!(parse_numstat_line("10").is_none());
    assert!(parse_numstat_line("").is_none());
}

#[test]
fn numstat_counts_at_the_edges() {
    let count = |field: &str| parse_numstat_line(&format!("{}\t0\tp", field)).unwrap().additions;
    assert_eq!(count("0"), 0);
    assert_eq!(count("007"), 7);
    assert_eq!(count("+5"), 5);
    assert_eq!(count("2147483647"), 2147483647);
    assert_eq!(count("2147483648"), 0);
    assert_eq!(count("99999999999999999999999"), 0);
    assert_eq!(count(""), 0);
    assert_eq!(count("+"), 0);
    assert_eq!(count("12a"), 0);
    assert_eq!(count("-5"), 0);
    assert_eq!(count(" 5"), 0);
}

#[test]
fn numstat_path_ends_at_a_fourth_tab() {
    let f = parse_numstat_line("1\t2\tpath\trest").unwrap();
    assert_eq!(f.path, "path");
}

#[test]
fn numstat_text_keeps_file_order() {
    let files = parse_numstat("10\t2\tsrc/a.rs\n\nbad line\n-\t-\timg.png\n3\t1\tsrc/b.rs\n");
    let got: Vec<(&str, i32, i32)> =
        files.iter().map(|f| (f.path.as_str(), f.additions, f.deletions)).collect();
    assert_eq!(got, vec![("src/a.rs", 10, 2), ("img.png", 0, 0), ("src/b.rs", 3, 1)]);
}

#[test]
fn end_to_end_two_commits() {
    let repo = GitRepo::new(".");
    let log = "1111|11|Add a and b|2025-01-02T10:00:00+00:00\n2222|22|Add readme|2025-01-01T09:00:00+00:00\n";
    let stats = vec!["10\t2\tsrc/a.rs\n3\t1\tsrc/b.rs\n".to_string(), "5\t0\tdocs/readme.md\n".to_string()];
    let commits = repo.get_commits(log, &stats).unwrap();
    assert_eq!(commits.len(), 2);
    assert_eq!(commits[0].files_changed.len(), 2);
    assert_eq!(commits[1].files_changed.len(), 1);
    let data = repo
        .collect_summary("main", Some("2025-01-01"), Some("2025-01-31"), log, &stats, None)
        .unwrap();
    assert_eq!(data.branch, "main");
    assert_eq!(data.date_range, "2025-01-01 to 2025-01-31");
    assert_eq!(
        as_tuples(&data.area_stats),
        vec![("src/".to_string(), 1, 13, 3), ("docs/".to_string(), 1, 5, 0)]
    );
    assert_eq!(data.total_additions, 18);
    assert_eq!(data.total_deletions, 3);
    assert_eq!(data.commits.len(), 2);
    assert_eq!(data.commits[0].hash, "1111");
    assert_eq!(data.commits[1].hash, "2222");
}

#[test]
fn get_commits_wants_one_text_per_commit() {
    let repo = GitRepo::new(".");
    let log = "1111|11|one|t\n2222|22|two|t\n";
    assert!(repo.get_commits(log, &vec!["1\t1\ta".to_string()]).is_none());
    assert!(repo.get_commits(log, &vec![]).is_none());
    assert!(repo.get_commits("", &vec![]).unwrap().is_empty());
}

#[test]
fn commit_is_counted_once_per_area() {
    let commits = vec![
        commit("a", vec![change("src/a.rs", 1, 0), change("src/b.rs", 2, 0), change("src/c/d.rs", 4, 1)]),
        commit("b", vec![change("docs/x.md", 8, 8)]),
        commit("c", vec![change("docs/y.md", 1, 1), change("src/a.rs", 16, 2), change("Makefile", 1, 0)]),
    ];
    let (stats, adds, dels) = aggregate(&commits).unwrap();
    assert_eq!(
        as_tuples(&stats),
        vec![
            ("src/".to_string(), 2, 23, 3),
            ("docs/".to_string(), 2, 9, 9),
            ("(root)".to_string(), 1, 1, 0)
        ]
    );
    assert_eq!((adds, dels), (33, 12));
}

#[test]
fn totals_are_the_sums_over_areas() {
    let commits = vec![
        commit("a", vec![change("x/1", 5, 1), change("y/1", 7, 2), change("z", 11, 3)]),
        commit("b", vec![change("y/2", 13, 4), change("x/2", 17, 5)]),
    ];
    let (stats, adds, dels) = aggregate(&commits).unwrap();
    assert_eq!(adds, 53);
    assert_eq!(dels, 15);
    assert_eq!(stats.iter().map(|a| a.additions).sum::<i32>(), adds);
    assert_eq!(stats.iter().map(|a| a.deletions).sum::<i32>(), dels);
}

#[test]
fn commit_without_files_counts_nowhere() {
    let with_empty = vec![
        commit("a", vec![change("src/a.rs", 1, 1)]),
        commit("merge", vec![]),
        commit("b", vec![change("src/b.rs", 2, 2)]),
    ];
    let without = vec![
        commit("a", vec![change("src/a.rs", 1, 1)]),
        commit("b", vec![change("src/b.rs", 2, 2)]),
    ];
    let first = aggregate(&with_empty).unwrap();
    let second = aggregate(&without).unwrap();
    assert_eq!(as_tuples(&first.0), vec![("src/".to_string(), 2, 3, 3)]);
    assert_eq!(as_tuples(&first.0), as_tuples(&second.0));
    assert_eq!((first.1, first.2), (second.1, second.2));
    let only_empty = aggregate(&vec![commit("m", vec![])]).unwrap();
    assert!(only_empty.0.is_empty());
    assert_eq!((only_empty.1, only_empty.2), (0, 0));
}

#[test]
fn no_commits_give_an_empty_summary() {
    let data = GitRepo::new(".").collect_summary("dev", None, None, "", &vec![], None).unwrap();
    assert!(data.commits.is_empty());
    assert!(data.area_stats.is_empty());
    assert_eq!((data.total_additions, data.total_deletions), (0, 0));
    assert_eq!(data.date_range, "all time");
    assert_eq!(data.branch, "dev");
}

#[test]
fn areas_are_ordered_by_falling_count() {
    let commits = vec![
        commit("a", vec![change("one/a", 1, 0)]),
        commit("b", vec![change("two/a", 1, 0), change("three/a", 1, 0)]),
        commit("c", vec![change("two/b", 1, 0), change("three/b", 1, 0)]),
        commit("d", vec![change("three/c", 1, 0)]),
    ];
    let (stats, _, _) = aggregate(&commits).unwrap();
    assert_eq!(
        as_tuples(&stats),
        vec![
            ("three/".to_string(), 3, 3, 0),
            ("two/".to_string(), 2, 2, 0),
            ("one/".to_string(), 1, 1, 0)
        ]
    );
}

#[test]
fn sort_keeps_the_order_of_equal_counts() {
    let stats = vec![area("a/", 1), area("b/", 3), area("c/", 1), area("d/", 3), area("e/", 2)];
    let sorted = sort_by_commit_count(&stats);
    let paths: Vec<&str> = sorted.iter().map(|a| a.path.as_str()).collect();
    assert_eq!(paths, vec!["b/", "d/", "e/", "a/", "c/"]);
}

#[test]
fn totals_out_of_range_are_an_error() {
    let commits = vec![commit("a", vec![change("a/x", i32::MAX, 0), change("b/x", 1, 0)])];
    assert!(matches!(aggregate(&commits), Err(SummaryError::TotalsOutOfRange)));
    let deletions = vec![
        commit("a", vec![change("a/x", 0, i32::MAX)]),
        commit("b", vec![change("a/x", 0, i32::MAX)]),
    ];
    assert!(matches!(
        GitRepo::summarize_commits("main", None, None, deletions, None),
        Err(SummaryError::TotalsOutOfRange)
    ));
    let log = "1|1|a|t\n2|2|b|t\n";
    let stats = vec!["2147483647\t0\tx\n".to_string(), "1\t0\ty\n".to_string()];
    assert!(matches!(
        GitRepo::new(".").collect_summary("main", None, None, log, &stats, None),
        Err(SummaryError::TotalsOutOfRange)
    ));
    let fits = vec![commit("a", vec![change("a/x", i32::MAX - 1, 0), change("b/x", 1, 0)])];
    assert_eq!(aggregate(&fits).unwrap().1, i32::MAX);
}

#[test]
fn aggregation_twice_gives_the_same() {
    let log = "1|1|a|t\n2|2|b|t\n3|3|c|t\n";
    let stats = vec![
        "1\t1\tx/a\n2\t2\ty/a\n".to_string(),
        "4\t4\tz/a\n".to_string(),
        "8\t8\ty/b\n-\t-\tw.bin\n".to_string(),
    ];
    let repo = GitRepo::new("/tmp/repo");
    let run = || {
        repo.collect_summary("HEAD", Some("yesterday"), None, log, &stats, Some("main".to_string()))
            .unwrap()
    };
    assert_eq!(format!("{:?}", run()), format!("{:?}", run()));
}

#[test]
fn symbolic_branch_shows_what_it_resolved_to() {
    let repo = GitRepo::new(".");
    let named =
        repo.collect_summary("HEAD", None, None, "", &vec![], Some("main".to_string())).unwrap();
    assert_eq!(named.branch, "main");
    let unresolved = repo.collect_summary("HEAD", None, None, "", &vec![], None).unwrap();
    assert_eq!(unresolved.branch, "HEAD");
    let other =
        repo.collect_summary("dev", None, None, "", &vec![], Some("main".to_string())).unwrap();
    assert_eq!(other.branch, "dev");
    let read = GitRepo::summarize_commits("HEAD", None, None, vec![], Some("x".to_string())).unwrap();
    assert_eq!(read.branch, "x");
    assert!(GitRepo::is_symbolic("HEAD"));
    assert!(!GitRepo::is_symbolic("head"));
}

#[test]
fn current_branch_is_the_trimmed_output() {
    let repo = GitRepo::new("some/path");
    assert_eq!(repo.path(), "some/path");
    assert_eq!(repo.get_current_branch("main\n"), "main");
    assert_eq!(repo.get_current_branch("  feature/x \r\n"), "feature/x");
    assert_eq!(repo.get_current_branch(" \n\t"), "");
    assert_eq!(repo.get_current_branch(""), "");
}

#[test]
fn trim_matches_the_standard_library() {
    for text in ["", " ", "a", " a b ", "\u{3000}x\u{2003}", "\u{85}y\u{a0}", "\u{200b}z\u{200b}", "\t\n\u{b}\u{c}\r q"] {
        assert_eq!(trim(text), text.trim());
    }
}

#[test]
fn commit_stats_of_one_commit() {
    let files = GitRepo::new(".").get_commit_stats("1\t2\ta/b\n");
    assert_eq!(files.len(), 1);
    assert_eq!((files[0].path.as_str(), files[0].additions, files[0].deletions), ("a/b", 1, 2));
}

#[test]
fn timestamp_is_shortened_to_minutes() {
    assert_eq!(format_timestamp("2025-01-27T10:30:45-05:00"), "2025-01-27 10:30");
    assert_eq!(format_timestamp("2025-01-27"), "2025-01-27");
    assert_eq!(format_timestamp("2025T1"), "2025 1");
    assert_eq!(format_timestamp("T"), " ");
    assert_eq!(format_timestamp("dTHH:MMT"), "d HH:MM");
}

fn args(date: Option<&str>, since: Option<&str>, until: Option<&str>) -> Args {
    Args {
        date: date.map(|s| s.to_string()),
        since: since.map(|s| s.to_string()),
        until: until.map(|s| s.to_string()),
        branch: "HEAD".to_string(),
        format: OutputFormat::Pretty,
        verbose: false,
        quiet: false,
        repo: ".".to_string(),
        no_llm: false,
    }
}

#[test]
fn one_day_becomes_its_first_and_last_second() {
    let (since, until) = args(Some("2025-01-27"), Some("ignored"), None).resolve_date_range();
    assert_eq!(since.as_deref(), Some("2025-01-27 00:00:00"));
    assert_eq!(until.as_deref(), Some("2025-01-27 23:59:59"));
}

#[test]
fn bounds_pass_through_without_a_day() {
    let (since, until) = args(None, Some("3 days ago"), None).resolve_date_range();
    assert_eq!(since.as_deref(), Some("3 days ago"));
    assert_eq!(until, None);
    let (since, until) = args(None, None, Some("yesterday")).resolve_date_range();
    assert_eq!(since, None);
    assert_eq!(until.as_deref(), Some("yesterday"));
}

#[test]
fn queries_name_what_is_asked() {
    assert_eq!(
        GitRepo::log_query("main", Some("2025-01-01"), Some("2025-01-31")),
        vec!["log", "main", "--format=%H|%h|%s|%aI", "--since=2025-01-01", "--until=2025-01-31"]
    );
    assert_eq!(GitRepo::log_query("HEAD", None, None), vec!["log", "HEAD", "--format=%H|%h|%s|%aI"]);
    assert_eq!(
        GitRepo::log_query("HEAD", None, Some("yesterday")),
        vec!["log", "HEAD", "--format=%H|%h|%s|%aI", "--until=yesterday"]
    );
    assert_eq!(GitRepo::stats_query("abc"), vec!["show", "abc", "--numstat", "--format="]);
    assert_eq!(GitRepo::branch_query(), vec!["rev-parse", "--abbrev-ref", "HEAD"]);
}

#[test]
fn negative_counts_are_found() {
    assert!(counts_are_valid(&vec![commit("a", vec![change("x", 0, 0)]), commit("b", vec![])]));
    assert!(!counts_are_valid(&vec![commit("a", vec![change("x", 1, 1), change("y", 1, -1)])]));
    assert!(!counts_are_valid(&vec![commit("a", vec![]), commit("b", vec![change("y", -1, 0)])]));
}

#[test]
fn summary_wants_one_text_per_commit() {
    let repo = GitRepo::new(".");
    let log = "1111|11|one|t\n2222|22|two|t\n";
    assert!(matches!(
        repo.collect_summary("main", None, None, log, &vec!["1\t1\ta".to_string()], None),
        Err(SummaryError::StatsMismatch)
    ));
    assert!(matches!(
        repo.collect_summary("main", None, None, "not a commit\n", &vec!["1\t1\ta".to_string()], None),
        Err(SummaryError::StatsMismatch)
    ));
}
