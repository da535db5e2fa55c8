use git_summary::decimal::{decimal_string, signed_string};
use git_summary::model::{AreaStats, Commit, FileChange, GitSummaryData};
use git_summary::pretty::{
    area_row, commit_line, counts, file_line, pad_end, pad_start, plus_string, render_painted,
    repeat, title, Painted, PrettyFormatter,
};
use git_summary::render::{Formatter, MarkdownFormatter};
use git_summary::summarizer::Summarizer;

fn sample() -> GitSummaryData {
    GitSummaryData {
        branch: "main".to_string(),
        date_range: "since 2025-01-01".to_string(),
        commits: vec![
            Commit {
                hash: "1111111".to_string(),
                short_hash: "111".to_string(),
                message: "Add parser".to_string(),
                timestamp: "2025-01-27T10:30:45-05:00".to_string(),
                files_changed: vec![
                    FileChange { path: "src/a.rs".to_string(), additions: 10, deletions: 2 },
                    FileChange { path: "src/b.rs".to_string(), additions: 3, deletions: 1 },
                ],
            },
            Commit {
                hash: "2222222".to_string(),
                short_hash: "222".to_string(),
                message: "Write readme".to_string(),
                timestamp: "2025-01-26".to_string(),
                files_changed: vec![FileChange {
                    path: "docs/readme.md".to_string(),
                    additions: 5,
                    deletions: 0,
                }],
            },
        ],
        area_stats: vec![
            AreaStats { path: "src/".to_string(), commit_count: 1, additions: 13, deletions: 3 },
            AreaStats { path: "docs/".to_string(), commit_count: 1, additions: 5, deletions: 0 },
        ],
        total_additions: 18,
        total_deletions: 3,
    }
}

fn empty() -> GitSummaryData {
    GitSummaryData {
        branch: "dev".to_string(),
        date_range: "all time".to_string(),
        commits: vec![],
        area_stats: vec![],
        total_additions: 0,
        total_deletions: 0,
    }
}

#[test]
fn decimals_match_the_standard_library() {
    for n in [0u64, 1, 9, 10, 11, 99, 100, 101, 1234567890, u64::MAX] {
        assert_eq!(decimal_string(n), n.to_string());
    }
    for n in [0i32, 1, -1, 10, -10, 2147483647, -2147483647, i32::MIN] {
        assert_eq!(signed_string(n), n.to_string());
        assert_eq!(plus_string(n), format!("{:+}", n));
    }
}

#[test]
fn padding_matches_the_standard_library() {
    for text in ["", "a", "abc", "abcd", "abcde", "äöü", "src/"] {
        assert_eq!(pad_start(text, 4), format!("{:>4}", text));
        assert_eq!(pad_end(text, 4), format!("{:4}", text));
        assert_eq!(pad_end(text, 0), text);
    }
    assert_eq!(repeat("ab", 3), "ababab");
    assert_eq!(repeat("x", 0), "");
}

#[test]
fn pretty_lines_are_set_in_columns() {
    let a = AreaStats { path: "src/".to_string(), commit_count: 7, additions: 13, deletions: 3 };
    assert_eq!(
        area_row(&a),
        format!("  {:20} {:3} commits, {:>+5}/-{:<5} lines\n", "src/", 7usize, 13, 3)
    );
    assert_eq!(area_row(&a), "  src/                   7 commits,   +13/-3     lines\n");
    let wide = AreaStats {
        path: "a-very-long-directory-name/".to_string(),
        commit_count: 1234,
        additions: 123456,
        deletions: 1234567,
    };
    assert_eq!(
        area_row(&wide),
        "  a-very-long-directory-name/ 1234 commits, +123456/-1234567 lines\n"
    );
    assert_eq!(file_line(10, 2, "src/a.rs"), format!("              {:>+4}/-{:<4} {}\n", 10, 2, "src/a.rs"));
    assert_eq!(file_line(0, 0, "x"), "                +0/-0    x\n");
    assert_eq!(commit_line("2025-01-27 10:30", "111", "Add parser", true), "  2025-01-27 10:30 111 Add parser\n");
    assert_eq!(commit_line("2025-01-27 10:30", "111", "Add parser", false), "  2025-01-27 10:30 Add parser\n");
    assert_eq!(title(&sample()), "  Git Summary: since 2025-01-01 (main)");
    assert_eq!(counts(&sample()), "  2 commits | +18 -3 lines");
}

#[test]
fn quiet_output_is_the_synopsis() {
    assert_eq!(PrettyFormatter.format(&sample(), "- did things", true, true), "- did things\n");
    assert_eq!(MarkdownFormatter.format(&sample(), "- did things", false, true), "- did things\n");
}

#[test]
fn pretty_output_holds_every_part() {
    let out = PrettyFormatter.format(&sample(), "- did things", true, false);
    assert!(out.contains("Git Summary: since 2025-01-01 (main)"));
    assert!(out.contains("2 commits | +18 -3 lines"));
    assert!(out.contains("- did things\n\n"));
    assert!(out.contains("  src/                   1 commits,   +13/-3     lines\n"));
    assert!(out.contains("Add parser\n"));
    assert!(out.contains(" +10/-2    "));
    assert!(out.contains("src/a.rs"));
    let brief = PrettyFormatter.format(&empty(), "none", false, false);
    assert!(!brief.contains("By Area"));
    assert!(brief.contains("## Commits"));
}

#[test]
fn markdown_output_in_brief() {
    let out = MarkdownFormatter.format(&sample(), "- did things", false, false);
    let expected = "# Git Summary: since 2025-01-01 (main)\n\n\
**2 commits** | **+18 -3** lines\n\n\
## Summary\n\n\
- did things\n\n\
## By Area\n\n\
| Path | Commits | Lines |\n\
|------|---------|-------|\n\
| src/ | 1 | +13/-3 |\n\
| docs/ | 1 | +5/-0 |\n\
\n\
## Commits\n\n\
- `2025-01-27 10:30` Add parser\n\
- `2025-01-26` Write readme\n";
    assert_eq!(out, expected);
}

#[test]
fn markdown_output_in_detail() {
    let out = MarkdownFormatter.format(&sample(), "- did things", true, false);
    assert!(out.ends_with(
        "## Commits\n\n\
- `2025-01-27 10:30` `111` Add parser\n  - `src/a.rs` (+10/-2)\n  - `src/b.rs` (+3/-1)\n\
- `2025-01-26` `222` Write readme\n  - `docs/readme.md` (+5/-0)\n"
    ));
}

#[test]
fn markdown_output_without_areas() {
    let out = MarkdownFormatter.format(&empty(), "nothing", true, false);
    assert_eq!(
        out,
        "# Git Summary: all time (dev)\n\n**0 commits** | **+0 -0** lines\n\n## Summary\n\nnothing\n\n## Commits\n\n"
    );
}

#[test]
fn prompt_lists_areas_and_subjects() {
    let summarizer = Summarizer::new("key".to_string(), "some-model".to_string());
    assert_eq!(summarizer.api_key(), "key");
    assert_eq!(summarizer.model(), "some-model");
    let prompt = summarizer.build_prompt(&sample());
    let expected = "Summarize the following git commits as a bulleted list. \
Each bullet should describe a theme or area of work. \
Group related changes together conceptually. \
Use simple '- ' for bullets. Keep each bullet to 1-2 sentences. \
Do not list individual commits or mention specific authors.\n\n\
Branch: main\nDate range: since 2025-01-01\nTotal commits: 2\n\n\
Areas changed:\n  src/ - 1 commits, +13/-3 lines\n  docs/ - 1 commits, +5/-0 lines\n\
\nCommit messages:\n  - Add parser\n  - Write readme\n";
    assert_eq!(prompt, expected);
}

fn painted(dates: Vec<&str>, short_hashes: Vec<&str>, paths: Vec<Vec<&str>>) -> Painted {
    Painted {
        rule: "<rule>".to_string(),
        title: "<title>".to_string(),
        counts: "<counts>".to_string(),
        summary_heading: "<summary>\n".to_string(),
        area_heading: "<areas>\n".to_string(),
        commits_heading: "<commits>\n".to_string(),
        dates: dates.into_iter().map(|s| s.to_string()).collect(),
        short_hashes: short_hashes.into_iter().map(|s| s.to_string()).collect(),
        paths: paths
            .into_iter()
            .map(|list| list.into_iter().map(|s| s.to_string()).collect())
            .collect(),
    }
}

#[test]
fn painted_parts_stand_in_their_places() {
    let parts = painted(vec!["<d1>", "<d2>"], vec!["<h1>", "<h2>"], vec![vec!["<a>", "<b>"], vec!["<r>"]]);
    let out = render_painted(&sample(), "- did things", true, false, &parts);
    let expected = "<rule>\n<title>\n<counts>\n<rule>\n\n\
<summary>\n- did things\n\n\
<areas>\n\
\x20 src/                   1 commits,   +13/-3     lines\n\
\x20 docs/                  1 commits,    +5/-0     lines\n\
\n\
<commits>\n\
\x20 <d1> <h1> Add parser\n\
\x20              +10/-2    <a>\n\
\x20               +3/-1    <b>\n\
\x20 <d2> <h2> Write readme\n\
\x20               +5/-0    <r>\n";
    assert_eq!(out, expected);
}

#[test]
fn painted_parts_in_brief() {
    let parts = painted(vec!["<d1>", "<d2>"], vec![], vec![]);
    let out = render_painted(&sample(), "s", false, false, &parts);
    assert!(out.ends_with("<commits>\n  <d1> Add parser\n  <d2> Write readme\n"));
    assert_eq!(render_painted(&sample(), "s", false, true, &parts), "s\n");
}

#[test]
fn plain_text_stands_in_for_missing_paint() {
    let parts = painted(vec!["<d1>"], vec![], vec![vec!["<a>"]]);
    let out = render_painted(&sample(), "s", true, false, &parts);
    assert!(out.ends_with(
        "<commits>\n  <d1> 111 Add parser\n               +10/-2    <a>\n                +3/-1    src/b.rs\n  2025-01-26 222 Write readme\n                +5/-0    docs/readme.md\n"
    ));
    let bare = render_painted(&empty(), "s", true, false, &painted(vec![], vec![], vec![]));
    assert_eq!(bare, "<rule>\n<title>\n<counts>\n<rule>\n\n<summary>\ns\n\n<commits>\n");
}
