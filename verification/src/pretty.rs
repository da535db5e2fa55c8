use colored::{ColoredString, Colorize};
use vstd::prelude::*;
use vstd::string::*;
use crate::decimal::{decimal_string, decimal_text, signed_string, signed_text};
use crate::model::{
    AreaStats, AreaStatsModel, Commit, CommitModel, FileChange, FileChangeModel, GitSummaryData,
    SummaryModel, commits_view, files_view, stats_view, strings_view,
};
use crate::render::{Formatter, format_timestamp, short_timestamp};

verus! {

/// A text with the colours and styles it is to be shown in. What is in it
/// is not known to the proofs.
#[verifier::external_type_specification]
#[verifier::external_body]
pub struct ExColoredString(colored::ColoredString);

/// `Colorize::cyan` on a string slice. Nothing is claimed of the result.
#[verifier::external_body]
fn cyan(text: &str) -> ColoredString {
    text.cyan()
}

/// `Colorize::yellow` on a string slice. Nothing is claimed of the result.
#[verifier::external_body]
fn yellow(text: &str) -> ColoredString {
    text.yellow()
}

/// `Colorize::dimmed` on a string slice. Nothing is claimed of the result.
#[verifier::external_body]
fn dimmed(text: &str) -> ColoredString {
    text.dimmed()
}

/// `Colorize::bold` on a coloured text. Nothing is claimed of the result.
#[verifier::external_body]
fn bold(text: ColoredString) -> ColoredString {
    text.bold()
}

/// The text that a coloured text is displayed as (`ToString::to_string`
/// through its `Display`). Whether it holds escape sequences depends on the
/// terminal and on variables of the process, so nothing is claimed of the
/// result.
#[verifier::external_body]
fn shown(text: &ColoredString) -> String {
    text.to_string()
}

/// `piece`, `n` times over.
pub open spec fn repeated(piece: Seq<char>, n: nat) -> Seq<char>
    decreases n,
{
    if n == 0 {
        Seq::empty()
    } else {
        repeated(piece, (n - 1) as nat) + piece
    }
}

/// `text` behind as many spaces as it lacks to `width` characters.
pub open spec fn padded_start(text: Seq<char>, width: nat) -> Seq<char> {
    if text.len() >= width {
        text
    } else {
        repeated(" "@, (width - text.len()) as nat) + text
    }
}

/// `text` before as many spaces as it lacks to `width` characters.
pub open spec fn padded_end(text: Seq<char>, width: nat) -> Seq<char> {
    if text.len() >= width {
        text
    } else {
        text + repeated(" "@, (width - text.len()) as nat)
    }
}

/// An integer in decimal, with its sign in any case.
pub open spec fn plus_text(n: int) -> Seq<char> {
    if n < 0 {
        signed_text(n)
    } else {
        "+"@ + decimal_text(n as nat)
    }
}

/// The line of the area list for one area, in columns.
pub open spec fn pretty_area_row(a: AreaStatsModel) -> Seq<char> {
    "  "@ + padded_end(a.path, 20) + " "@ + padded_start(decimal_text(a.commit_count as nat), 3)
        + " commits, "@ + padded_start(plus_text(a.additions), 5) + "/-"@ + padded_end(
        signed_text(a.deletions),
        5,
    ) + " lines\n"@
}

/// The line for one changed file, behind the path as it is to be shown.
pub open spec fn pretty_file_line(additions: int, deletions: int, path: Seq<char>) -> Seq<char> {
    "              "@ + padded_start(plus_text(additions), 4) + "/-"@ + padded_end(
        signed_text(deletions),
        4,
    ) + " "@ + path + "\n"@
}

/// The line for one commit, from its date and short hash as they are to be
/// shown; the short hash only where details are asked for.
pub open spec fn pretty_commit_line(
    date: Seq<char>,
    short_hash: Seq<char>,
    message: Seq<char>,
    verbose: bool,
) -> Seq<char> {
    if verbose {
        "  "@ + date + " "@ + short_hash + " "@ + message + "\n"@
    } else {
        "  "@ + date + " "@ + message + "\n"@
    }
}

/// The title line, before it is coloured.
pub open spec fn pretty_title(data: SummaryModel) -> Seq<char> {
    "  Git Summary: "@ + data.date_range + " ("@ + data.branch + ")"@
}

/// The line of counts, before it is coloured.
pub open spec fn pretty_counts(data: SummaryModel) -> Seq<char> {
    "  "@ + decimal_text(data.commits.len()) + " commits | +"@ + signed_text(data.total_additions)
        + " -"@ + signed_text(data.total_deletions) + " lines"@
}

/// Writes `piece` `n` times over.
pub fn repeat(piece: &str, n: usize) -> (r: String)
    ensures
        r@ == repeated(piece@, n as nat),
{
    let mut r = String::new();
    let mut i: usize = 0;
    while i < n
        invariant
            i <= n,
            r@ == repeated(piece@, i as nat),
        decreases n - i,
    {
        r.append(piece);
        i += 1;
    }
    r
}

/// Pads a text with spaces in front, to `width` characters.
pub fn pad_start(text: &str, width: usize) -> (r: String)
    ensures
        r@ == padded_start(text@, width as nat),
{
    let len = text.unicode_len();
    if len >= width {
        String::from_str(text)
    } else {
        let mut r = repeat(" ", width - len);
        r.append(text);
        r
    }
}

/// Pads a text with spaces behind, to `width` characters.
pub fn pad_end(text: &str, width: usize) -> (r: String)
    ensures
        r@ == padded_end(text@, width as nat),
{
    let len = text.unicode_len();
    let mut r = String::from_str(text);
    if len < width {
        r.append(repeat(" ", width - len).as_str());
    }
    r
}

/// Writes an integer in decimal, with its sign in any case.
pub fn plus_string(n: i32) -> (r: String)
    ensures
        r@ == plus_text(n as int),
{
    if n < 0 {
        signed_string(n)
    } else {
        let mut r = String::from_str("+");
        r.append(decimal_string(n as u64).as_str());
        r
    }
}

/// Writes the line of the area list for one area.
pub fn area_row(a: &AreaStats) -> (row: String)
    ensures
        row@ == pretty_area_row(a@),
{
    let mut row = String::from_str("  ");
    row.append(pad_end(a.path.as_str(), 20).as_str());
    row.append(" ");
    row.append(pad_start(decimal_string(a.commit_count as u64).as_str(), 3).as_str());
    row.append(" commits, ");
    row.append(pad_start(plus_string(a.additions).as_str(), 5).as_str());
    row.append("/-");
    row.append(pad_end(signed_string(a.deletions).as_str(), 5).as_str());
    row.append(" lines\n");
    row
}

/// Writes the line for one changed file, behind the path as it is to be
/// shown.
pub fn file_line(additions: i32, deletions: i32, path: &str) -> (line: String)
    ensures
        line@ == pretty_file_line(additions as int, deletions as int, path@),
{
    let mut line = String::from_str("              ");
    line.append(pad_start(plus_string(additions).as_str(), 4).as_str());
    line.append("/-");
    line.append(pad_end(signed_string(deletions).as_str(), 4).as_str());
    line.append(" ");
    line.append(path);
    line.append("\n");
    line
}

/// Writes the line for one commit, from its date and short hash as they are
/// to be shown.
pub fn commit_line(date: &str, short_hash: &str, message: &str, verbose: bool) -> (line: String)
    ensures
        line@ == pretty_commit_line(date@, short_hash@, message@, verbose),
{
    let mut line = String::from_str("  ");
    line.append(date);
    line.append(" ");
    if verbose {
        line.append(short_hash);
        line.append(" ");
    }
    line.append(message);
    line.append("\n");
    line
}

/// Writes the title line, before it is coloured.
pub fn title(data: &GitSummaryData) -> (line: String)
    ensures
        line@ == pretty_title(data@),
{
    let mut line = String::from_str("  Git Summary: ");
    line.append(data.date_range.as_str());
    line.append(" (");
    line.append(data.branch.as_str());
    line.append(")");
    line
}

/// Writes the line of counts, before it is coloured.
pub fn counts(data: &GitSummaryData) -> (line: String)
    ensures
        line@ == pretty_counts(data@),
{
    let mut line = String::from_str("  ");
    line.append(decimal_string(data.commits.len() as u64).as_str());
    line.append(" commits | +");
    line.append(signed_string(data.total_additions).as_str());
    line.append(" -");
    line.append(signed_string(data.total_deletions).as_str());
    line.append(" lines");
    line
}

/// The parts of a terminal rendering that are shown in colours, as they came
/// back from the colouring: the rule, the title, the counts and the three
/// headings, and for each commit, by its position, its date, its short hash
/// and the paths of its files.
pub struct Painted {
    pub rule: String,
    pub title: String,
    pub counts: String,
    pub summary_heading: String,
    pub area_heading: String,
    pub commits_heading: String,
    pub dates: Vec<String>,
    pub short_hashes: Vec<String>,
    pub paths: Vec<Vec<String>>,
}

/// The painted parts as the contracts see them.
pub ghost struct PaintedModel {
    pub rule: Seq<char>,
    pub title: Seq<char>,
    pub counts: Seq<char>,
    pub summary_heading: Seq<char>,
    pub area_heading: Seq<char>,
    pub commits_heading: Seq<char>,
    pub dates: Seq<Seq<char>>,
    pub short_hashes: Seq<Seq<char>>,
    pub paths: Seq<Seq<Seq<char>>>,
}

impl View for Painted {
    type V = PaintedModel;

    open spec fn view(&self) -> PaintedModel {
        PaintedModel {
            rule: self.rule@,
            title: self.title@,
            counts: self.counts@,
            summary_heading: self.summary_heading@,
            area_heading: self.area_heading@,
            commits_heading: self.commits_heading@,
            dates: strings_view(self.dates@),
            short_hashes: strings_view(self.short_hashes@),
            paths: self.paths@.map_values(|list: Vec<String>| strings_view(list@)),
        }
    }
}

/// The piece at a position, or the plain text where there is no such piece.
pub open spec fn piece_at(pieces: Seq<Seq<char>>, i: int, plain: Seq<char>) -> Seq<char> {
    if 0 <= i < pieces.len() {
        pieces[i]
    } else {
        plain
    }
}

/// The list at a position, or the empty list where there is none.
pub open spec fn pieces_at(lists: Seq<Seq<Seq<char>>>, i: int) -> Seq<Seq<char>> {
    if 0 <= i < lists.len() {
        lists[i]
    } else {
        Seq::empty()
    }
}

/// The lines of the area list.
pub open spec fn pretty_area_rows(stats: Seq<AreaStatsModel>) -> Seq<char>
    decreases stats.len(),
{
    if stats.len() == 0 {
        Seq::empty()
    } else {
        pretty_area_rows(stats.drop_last()) + pretty_area_row(stats.last())
    }
}

/// The area list under its heading, which is left out where there is no area.
pub open spec fn pretty_area_section(stats: Seq<AreaStatsModel>, heading: Seq<char>) -> Seq<char> {
    if stats.len() == 0 {
        Seq::empty()
    } else {
        heading + pretty_area_rows(stats) + "\n"@
    }
}

/// The lines for the files of one commit, each behind its painted path.
pub open spec fn pretty_file_lines(files: Seq<FileChangeModel>, paths: Seq<Seq<char>>) -> Seq<
    char,
>
    decreases files.len(),
{
    if files.len() == 0 {
        Seq::empty()
    } else {
        pretty_file_lines(files.drop_last(), paths) + pretty_file_line(
            files.last().additions,
            files.last().deletions,
            piece_at(paths, files.len() - 1, files.last().path),
        )
    }
}

/// What is shown for the commit at position `i`: its line, and the lines of
/// its files where details are asked for.
pub open spec fn pretty_commit_entry(c: CommitModel, i: int, painted: PaintedModel, verbose: bool)
    -> Seq<char> {
    pretty_commit_line(
        piece_at(painted.dates, i, short_timestamp(c.timestamp)),
        piece_at(painted.short_hashes, i, c.short_hash),
        c.message,
        verbose,
    ) + if verbose {
        pretty_file_lines(c.files, pieces_at(painted.paths, i))
    } else {
        Seq::empty()
    }
}

/// What is shown for the commits, in order.
pub open spec fn pretty_commit_entries(
    commits: Seq<CommitModel>,
    painted: PaintedModel,
    verbose: bool,
) -> Seq<char>
    decreases commits.len(),
{
    if commits.len() == 0 {
        Seq::empty()
    } else {
        pretty_commit_entries(commits.drop_last(), painted, verbose) + pretty_commit_entry(
            commits.last(),
            commits.len() - 1,
            painted,
            verbose,
        )
    }
}

/// A summary for a terminal: the synopsis alone where little is asked for;
/// else title and counts between two rules, the synopsis, the area list and
/// the commits, with the painted parts in their places.
pub open spec fn pretty_text(
    data: SummaryModel,
    summary: Seq<char>,
    verbose: bool,
    quiet: bool,
    painted: PaintedModel,
) -> Seq<char> {
    if quiet {
        summary + "\n"@
    } else {
        painted.rule + "\n"@ + painted.title + "\n"@ + painted.counts + "\n"@ + painted.rule
            + "\n\n"@ + painted.summary_heading + summary + "\n\n"@ + pretty_area_section(
            data.area_stats,
            painted.area_heading,
        ) + painted.commits_heading + pretty_commit_entries(data.commits, painted, verbose)
    }
}

fn area_section(stats: &Vec<AreaStats>, heading: &str) -> (section: String)
    ensures
        section@ == pretty_area_section(stats_view(stats@), heading@),
{
    if stats.len() == 0 {
        return String::new();
    }
    let mut rows = String::new();
    let mut i: usize = 0;
    while i < stats.len()
        invariant
            i <= stats.len(),
            rows@ == pretty_area_rows(stats_view(stats@).take(i as int)),
        decreases stats.len() - i,
    {
        let row = area_row(&stats[i]);
        proof {
            let all = stats_view(stats@);
            assert(all.take(i + 1).drop_last() =~= all.take(i as int));
            assert(all.take(i + 1).last() == stats[i as int]@);
        }
        rows.append(row.as_str());
        i += 1;
    }
    proof {
        let all = stats_view(stats@);
        assert(all.take(stats.len() as int) =~= all);
    }
    let mut section = String::from_str(heading);
    section.append(rows.as_str());
    section.append("\n");
    section
}

fn file_lines(files: &Vec<FileChange>, paths: &Vec<String>) -> (lines: String)
    ensures
        lines@ == pretty_file_lines(files_view(files@), strings_view(paths@)),
{
    let mut lines = String::new();
    let mut i: usize = 0;
    while i < files.len()
        invariant
            i <= files.len(),
            lines@ == pretty_file_lines(files_view(files@).take(i as int), strings_view(paths@)),
        decreases files.len() - i,
    {
        let path = if i < paths.len() {
            paths[i].as_str()
        } else {
            files[i].path.as_str()
        };
        let line = file_line(files[i].additions, files[i].deletions, path);
        proof {
            let all = files_view(files@);
            assert(all.take(i + 1).drop_last() =~= all.take(i as int));
            assert(all.take(i + 1).last() == files[i as int]@);
            assert(path@ == piece_at(strings_view(paths@), i as int, files[i as int]@.path));
        }
        lines.append(line.as_str());
        i += 1;
    }
    proof {
        let all = files_view(files@);
        assert(all.take(files.len() as int) =~= all);
    }
    lines
}

fn commit_entry(c: &Commit, i: usize, painted: &Painted, verbose: bool) -> (entry: String)
    ensures
        entry@ == pretty_commit_entry(c@, i as int, painted@, verbose),
{
    let plain_date = format_timestamp(c.timestamp.as_str());
    let date = if i < painted.dates.len() {
        painted.dates[i].as_str()
    } else {
        plain_date.as_str()
    };
    let short_hash = if i < painted.short_hashes.len() {
        painted.short_hashes[i].as_str()
    } else {
        c.short_hash.as_str()
    };
    let mut entry = commit_line(date, short_hash, c.message.as_str(), verbose);
    if verbose {
        let none: Vec<String> = Vec::new();
        let paths = if i < painted.paths.len() {
            &painted.paths[i]
        } else {
            &none
        };
        proof {
            assert(strings_view(paths@) =~= pieces_at(painted@.paths, i as int));
        }
        entry.append(file_lines(&c.files_changed, paths).as_str());
    } else {
        proof {
            assert(entry@ + Seq::<char>::empty() =~= entry@);
        }
    }
    entry
}

fn commit_entries(commits: &Vec<Commit>, painted: &Painted, verbose: bool) -> (entries: String)
    ensures
        entries@ == pretty_commit_entries(commits_view(commits@), painted@, verbose),
{
    let mut entries = String::new();
    let mut i: usize = 0;
    while i < commits.len()
        invariant
            i <= commits.len(),
            entries@ == pretty_commit_entries(
                commits_view(commits@).take(i as int),
                painted@,
                verbose,
            ),
        decreases commits.len() - i,
    {
        let entry = commit_entry(&commits[i], i, painted, verbose);
        proof {
            let all = commits_view(commits@);
            assert(all.take(i + 1).drop_last() =~= all.take(i as int));
            assert(all.take(i + 1).last() == commits[i as int]@);
        }
        entries.append(entry.as_str());
        i += 1;
    }
    proof {
        let all = commits_view(commits@);
        assert(all.take(commits.len() as int) =~= all);
    }
    entries
}

/// Sets a summary for a terminal, with the painted parts in their places.
/// Where a commit or a file has no painted part, its plain text stands in.
pub fn render_painted(
    data: &GitSummaryData,
    summary: &str,
    verbose: bool,
    quiet: bool,
    painted: &Painted,
) -> (out: String)
    ensures
        out@ == pretty_text(data@, summary@, verbose, quiet, painted@),
{
    if quiet {
        let mut out = String::from_str(summary);
        out.append("\n");
        return out;
    }
    let mut out = String::from_str(painted.rule.as_str());
    out.append("\n");
    out.append(painted.title.as_str());
    out.append("\n");
    out.append(painted.counts.as_str());
    out.append("\n");
    out.append(painted.rule.as_str());
    out.append("\n\n");
    out.append(painted.summary_heading.as_str());
    out.append(summary);
    out.append("\n\n");
    out.append(area_section(&data.area_stats, painted.area_heading.as_str()).as_str());
    out.append(painted.commits_heading.as_str());
    out.append(commit_entries(&data.commits, painted, verbose).as_str());
    out
}

/// Every commit has its painted date, and where details are asked for its
/// painted short hash and a painted path for each of its files.
pub open spec fn painted_fits(painted: PaintedModel, data: SummaryModel, verbose: bool) -> bool {
    &&& painted.dates.len() == data.commits.len()
    &&& painted.paths.len() == data.commits.len()
    &&& verbose ==> painted.short_hashes.len() == data.commits.len()
    &&& verbose ==> forall|k: int|
        0 <= k < data.commits.len() ==> (#[trigger] painted.paths[k]).len()
            == data.commits[k].files.len()
}

/// `out` is the summary set for a terminal around the given painted parts,
/// one for every place that takes one.
pub open spec fn is_pretty_text(
    out: Seq<char>,
    data: SummaryModel,
    summary: Seq<char>,
    verbose: bool,
    quiet: bool,
    painted: PaintedModel,
) -> bool {
    &&& out == pretty_text(data, summary, verbose, quiet, painted)
    &&& !quiet ==> painted_fits(painted, data, verbose)
}

/// Colours the parts of a rendering that are shown in colours.
fn paint(data: &GitSummaryData, verbose: bool) -> (painted: Painted)
    ensures
        painted_fits(painted@, data@, verbose),
{
    let mut dates: Vec<String> = Vec::new();
    let mut short_hashes: Vec<String> = Vec::new();
    let mut paths: Vec<Vec<String>> = Vec::new();
    let mut k: usize = 0;
    while k < data.commits.len()
        invariant
            k <= data.commits.len(),
            dates.len() == k,
            paths.len() == k,
            verbose ==> short_hashes.len() == k,
            verbose ==> forall|j: int|
                0 <= j < k ==> (#[trigger] paths[j]).len() == data.commits[j].files_changed.len(),
        decreases data.commits.len() - k,
    {
        let commit = &data.commits[k];
        dates.push(shown(&dimmed(format_timestamp(commit.timestamp.as_str()).as_str())));
        let mut commit_paths: Vec<String> = Vec::new();
        if verbose {
            short_hashes.push(shown(&dimmed(commit.short_hash.as_str())));
            let mut m: usize = 0;
            while m < commit.files_changed.len()
                invariant
                    m <= commit.files_changed.len(),
                    commit_paths.len() == m,
                decreases commit.files_changed.len() - m,
            {
                commit_paths.push(shown(&dimmed(commit.files_changed[m].path.as_str())));
                m += 1;
            }
        }
        paths.push(commit_paths);
        k += 1;
    }
    let painted = Painted {
        rule: shown(&cyan(repeat("═", 60).as_str())),
        title: shown(&bold(cyan(title(data).as_str()))),
        counts: shown(&cyan(counts(data).as_str())),
        summary_heading: shown(&bold(yellow("## Summary\n"))),
        area_heading: shown(&bold(yellow("## By Area\n"))),
        commits_heading: shown(&bold(yellow("## Commits\n"))),
        dates,
        short_hashes,
        paths,
    };
    proof {
        if verbose {
            assert forall|k: int| 0 <= k < data@.commits.len() implies (
            #[trigger] painted@.paths[k]).len() == data@.commits[k].files.len() by {
                assert(painted@.paths[k] == strings_view(painted.paths[k]@));
                assert(data@.commits[k] == data.commits[k]@);
            }
        }
    }
    painted
}

/// Renders a summary for a terminal, in colours.
pub struct PrettyFormatter;

impl Formatter for PrettyFormatter {
    /// The result is set as `pretty_text` says, around parts painted in the
    /// colours that the terminal takes, one for every place that takes one;
    /// where little is asked for it is the synopsis and a line feed, and
    /// nothing is painted.
    fn format(&self, data: &GitSummaryData, summary: &str, verbose: bool, quiet: bool) -> (out:
        String)
        ensures
            quiet ==> out@ == summary@ + "\n"@,
            exists|painted: PaintedModel|
                is_pretty_text(out@, data@, summary@, verbose, quiet, painted),
    {
        if quiet {
            let mut out = String::from_str(summary);
            out.append("\n");
            proof {
                let any = PaintedModel {
                    rule: Seq::empty(),
                    title: Seq::empty(),
                    counts: Seq::empty(),
                    summary_heading: Seq::empty(),
                    area_heading: Seq::empty(),
                    commits_heading: Seq::empty(),
                    dates: Seq::empty(),
                    short_hashes: Seq::empty(),
                    paths: Seq::empty(),
                };
                assert(is_pretty_text(out@, data@, summary@, verbose, quiet, any));
            }
            return out;
        }
        let painted = paint(data, verbose);
        let out = render_painted(data, summary, verbose, quiet, &painted);
        proof {
            assert(is_pretty_text(out@, data@, summary@, verbose, quiet, painted@));
        }
        out
    }
}

} // verus!
