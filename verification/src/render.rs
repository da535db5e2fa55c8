use vstd::prelude::*;
use vstd::string::*;
use crate::decimal::{decimal_string, decimal_text, signed_string, signed_text};
use crate::model::{
    AreaStats, AreaStatsModel, Commit, CommitModel, FileChange, FileChangeModel, GitSummaryData,
    SummaryModel, commits_view, files_view, stats_view,
};
use crate::text::{chars_of, find_char, find_from};

verus! {

/// A timestamp in short: the date, a space, and the first five characters of
/// the time, where a `T` parts date and time; else the text as it is.
pub open spec fn short_timestamp(iso: Seq<char>) -> Seq<char> {
    let t = find_from(iso, 'T', 0);
    if t < iso.len() {
        let time = iso.subrange(t + 1, iso.len() as int);
        iso.subrange(0, t) + " "@ + if time.len() >= 5 {
            time.subrange(0, 5)
        } else {
            time
        }
    } else {
        iso
    }
}

/// Shortens a timestamp such as `2025-01-27T10:30:45-05:00` to
/// `2025-01-27 10:30`.
pub fn format_timestamp(iso: &str) -> (short: String)
    ensures
        short@ == short_timestamp(iso@),
{
    let chars = chars_of(iso);
    let n = chars.len();
    let t = find_char(&chars, 'T', 0);
    if t < n {
        let stop = if n - (t + 1) >= 5 {
            t + 6
        } else {
            n
        };
        let mut short = String::from_str(iso.substring_char(0, t));
        short.append(" ");
        short.append(iso.substring_char(t + 1, stop));
        proof {
            let time = iso@.subrange(t + 1, n as int);
            if time.len() >= 5 {
                assert(time.subrange(0, 5) =~= iso@.subrange(t + 1, stop as int));
            }
        }
        short
    } else {
        String::from_str(iso)
    }
}

/// Renders a summary and its synopsis for reading.
pub trait Formatter {
    fn format(&self, data: &GitSummaryData, summary: &str, verbose: bool, quiet: bool) -> String;
}

/// Renders a summary as Markdown.
pub struct MarkdownFormatter;

/// The row of the area table for one area.
pub open spec fn markdown_area_row(a: AreaStatsModel) -> Seq<char> {
    "| "@ + a.path + " | "@ + decimal_text(a.commit_count as nat) + " | +"@ + signed_text(
        a.additions,
    ) + "/-"@ + signed_text(a.deletions) + " |\n"@
}

/// The rows of the area table.
pub open spec fn markdown_area_rows(stats: Seq<AreaStatsModel>) -> Seq<char>
    decreases stats.len(),
{
    if stats.len() == 0 {
        Seq::empty()
    } else {
        markdown_area_rows(stats.drop_last()) + markdown_area_row(stats.last())
    }
}

/// The area table, which is left out where there is no area.
pub open spec fn markdown_area_section(stats: Seq<AreaStatsModel>) -> Seq<char> {
    if stats.len() == 0 {
        Seq::empty()
    } else {
        "## By Area\n\n"@ + "| Path | Commits | Lines |\n"@ + "|------|---------|-------|\n"@
            + markdown_area_rows(stats) + "\n"@
    }
}

/// The list item for one changed file.
pub open spec fn markdown_file_line(f: FileChangeModel) -> Seq<char> {
    "  - `"@ + f.path + "` (+"@ + signed_text(f.additions) + "/-"@ + signed_text(f.deletions)
        + ")\n"@
}

/// The list items for the files of one commit.
pub open spec fn markdown_file_lines(files: Seq<FileChangeModel>) -> Seq<char>
    decreases files.len(),
{
    if files.len() == 0 {
        Seq::empty()
    } else {
        markdown_file_lines(files.drop_last()) + markdown_file_line(files.last())
    }
}

/// The list item for one commit: with its short hash and its files where
/// details are asked for.
pub open spec fn markdown_commit_entry(c: CommitModel, verbose: bool) -> Seq<char> {
    if verbose {
        "- `"@ + short_timestamp(c.timestamp) + "` `"@ + c.short_hash + "` "@ + c.message + "\n"@
            + markdown_file_lines(c.files)
    } else {
        "- `"@ + short_timestamp(c.timestamp) + "` "@ + c.message + "\n"@
    }
}

/// The list items for the commits, in order.
pub open spec fn markdown_commit_entries(commits: Seq<CommitModel>, verbose: bool) -> Seq<char>
    decreases commits.len(),
{
    if commits.len() == 0 {
        Seq::empty()
    } else {
        markdown_commit_entries(commits.drop_last(), verbose) + markdown_commit_entry(
            commits.last(),
            verbose,
        )
    }
}

/// A summary as Markdown: the synopsis alone where little is asked for;
/// else heading, counts, synopsis, area table and commit list.
pub open spec fn markdown_text(data: SummaryModel, summary: Seq<char>, verbose: bool, quiet: bool)
    -> Seq<char> {
    if quiet {
        summary + "\n"@
    } else {
        "# Git Summary: "@ + data.date_range + " ("@ + data.branch + ")\n\n"@ + "**"@
            + decimal_text(data.commits.len()) + " commits** | **+"@ + signed_text(
            data.total_additions,
        ) + " -"@ + signed_text(data.total_deletions) + "** lines\n\n"@ + "## Summary\n\n"@
            + summary + "\n\n"@ + markdown_area_section(data.area_stats) + "## Commits\n\n"@
            + markdown_commit_entries(data.commits, verbose)
    }
}

fn area_row(a: &AreaStats) -> (row: String)
    ensures
        row@ == markdown_area_row(a@),
{
    let mut row = String::from_str("| ");
    row.append(a.path.as_str());
    row.append(" | ");
    row.append(decimal_string(a.commit_count as u64).as_str());
    row.append(" | +");
    row.append(signed_string(a.additions).as_str());
    row.append("/-");
    row.append(signed_string(a.deletions).as_str());
    row.append(" |\n");
    row
}

fn area_section(stats: &Vec<AreaStats>) -> (section: String)
    ensures
        section@ == markdown_area_section(stats_view(stats@)),
{
    if stats.len() == 0 {
        return String::new();
    }
    let mut rows = String::new();
    let mut i: usize = 0;
    while i < stats.len()
        invariant
            i <= stats.len(),
            rows@ == markdown_area_rows(stats_view(stats@).take(i as int)),
        decreases stats.len() - i,
    {
        let row = area_row(&stats[i]);
        proof {
            let all = stats_view(stats@);
            assert(all.take(i + 1).drop_last() =~= all.take(i as int));
            assert(all.take(i + 1).last() == stats[i as int]@);
        }
        rows.append(row.as_str());
        i += 1;
    }
    proof {
        let all = stats_view(stats@);
        assert(all.take(stats.len() as int) =~= all);
    }
    let mut section = String::from_str("## By Area\n\n");
    section.append("| Path | Commits | Lines |\n");
    section.append("|------|---------|-------|\n");
    section.append(rows.as_str());
    section.append("\n");
    section
}

fn file_lines(files: &Vec<FileChange>) -> (lines: String)
    ensures
        lines@ == markdown_file_lines(files_view(files@)),
{
    let mut lines = String::new();
    let mut i: usize = 0;
    while i < files.len()
        invariant
            i <= files.len(),
            lines@ == markdown_file_lines(files_view(files@).take(i as int)),
        decreases files.len() - i,
    {
        let mut line = String::from_str("  - `");
        line.append(files[i].path.as_str());
        line.append("` (+");
        line.append(signed_string(files[i].additions).as_str());
        line.append("/-");
        line.append(signed_string(files[i].deletions).as_str());
        line.append(")\n");
        proof {
            let all = files_view(files@);
            assert(all.take(i + 1).drop_last() =~= all.take(i as int));
            assert(all.take(i + 1).last() == files[i as int]@);
        }
        lines.append(line.as_str());
        i += 1;
    }
    proof {
        let all = files_view(files@);
        assert(all.take(files.len() as int) =~= all);
    }
    lines
}

fn commit_entry(c: &Commit, verbose: bool) -> (entry: String)
    ensures
        entry@ == markdown_commit_entry(c@, verbose),
{
    let mut entry = String::from_str("- `");
    entry.append(format_timestamp(c.timestamp.as_str()).as_str());
    if verbose {
        entry.append("` `");
        entry.append(c.short_hash.as_str());
        entry.append("` ");
        entry.append(c.message.as_str());
        entry.append("\n");
        entry.append(file_lines(&c.files_changed).as_str());
    } else {
        entry.append("` ");
        entry.append(c.message.as_str());
        entry.append("\n");
    }
    entry
}

fn commit_entries(commits: &Vec<Commit>, verbose: bool) -> (entries: String)
    ensures
        entries@ == markdown_commit_entries(commits_view(commits@), verbose),
{
    let mut entries = String::new();
    let mut i: usize = 0;
    while i < commits.len()
        invariant
            i <= commits.len(),
            entries@ == markdown_commit_entries(commits_view(commits@).take(i as int), verbose),
        decreases commits.len() - i,
    {
        let entry = commit_entry(&commits[i], verbose);
        proof {
            let all = commits_view(commits@);
            assert(all.take(i + 1).drop_last() =~= all.take(i as int));
            assert(all.take(i + 1).last() == commits[i as int]@);
        }
        entries.append(entry.as_str());
        i += 1;
    }
    proof {
        let all = commits_view(commits@);
        assert(all.take(commits.len() as int) =~= all);
    }
    entries
}

impl Formatter for MarkdownFormatter {
    fn format(&self, data: &GitSummaryData, summary: &str, verbose: bool, quiet: bool) -> (out:
        String)
        ensures
            out@ == markdown_text(data@, summary@, verbose, quiet),
    {
        if quiet {
            let mut out = String::from_str(summary);
            out.append("\n");
            return out;
        }
        let mut out = String::from_str("# Git Summary: ");
        out.append(data.date_range.as_str());
        out.append(" (");
        out.append(data.branch.as_str());
        out.append(")\n\n");
        out.append("**");
        out.append(decimal_string(data.commits.len() as u64).as_str());
        out.append(" commits** | **+");
        out.append(signed_string(data.total_additions).as_str());
        out.append(" -");
        out.append(signed_string(data.total_deletions).as_str());
        out.append("** lines\n\n");
        out.append("## Summary\n\n");
        out.append(summary);
        out.append("\n\n");
        out.append(area_section(&data.area_stats).as_str());
        out.append("## Commits\n\n");
        out.append(commit_entries(&data.commits, verbose).as_str());
        out
    }
}

} // verus!
