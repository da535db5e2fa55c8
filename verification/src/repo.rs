use vstd::prelude::*;
use vstd::string::*;
use crate::aggregate::{SummaryError, aggregate, sort_by_count};
use crate::area::{all_files, stats_in_order_seen, sum_additions, sum_deletions};
use crate::model::{
    Commit, CommitModel, FileChange, GitSummaryData, SummaryModel, commits_view, commits_wf,
    files_view, files_wf, strings_view,
};
use crate::parse::{log_commits, numstat_changes, parse_log, parse_numstat};
use crate::text::chars_of;

verus! {

/// The text of an optional string slice.
pub open spec fn opt_view(o: Option<&str>) -> Option<Seq<char>> {
    match o {
        Some(s) => Some(s@),
        None => None,
    }
}

/// The text of an optional string.
pub open spec fn opt_string_view(o: Option<String>) -> Option<Seq<char>> {
    match o {
        Some(s) => Some(s@),
        None => None,
    }
}

/// The characters that count as white space at the ends of a text.
pub open spec fn is_whitespace(c: char) -> bool {
    let u = c as u32;
    (9 <= u <= 13) || u == 32 || u == 0x85 || u == 0xA0 || u == 0x1680 || (0x2000 <= u <= 0x200A)
        || u == 0x2028 || u == 0x2029 || u == 0x202F || u == 0x205F || u == 0x3000
}

/// Position of the first character at or after `from` that is no white
/// space, or the length of `s`.
pub open spec fn skip_whitespace(s: Seq<char>, from: int) -> int
    decreases s.len() - from,
{
    if from < 0 || from >= s.len() {
        s.len() as int
    } else if !is_whitespace(s[from]) {
        from
    } else {
        skip_whitespace(s, from + 1)
    }
}

/// Position just behind the last character before `to` that is no white
/// space, or zero.
pub open spec fn skip_whitespace_back(s: Seq<char>, to: int) -> int
    decreases to,
{
    if to <= 0 || to > s.len() {
        0
    } else if !is_whitespace(s[to - 1]) {
        to
    } else {
        skip_whitespace_back(s, to - 1)
    }
}

/// A text without the white space at its two ends.
pub open spec fn trimmed(s: Seq<char>) -> Seq<char> {
    let start = skip_whitespace(s, 0);
    if start >= s.len() {
        Seq::empty()
    } else {
        s.subrange(start, skip_whitespace_back(s, s.len() as int))
    }
}

fn is_space(c: char) -> (r: bool)
    ensures
        r == is_whitespace(c),
{
    let u: u32 = c as u32;
    (9 <= u && u <= 13) || u == 32 || u == 0x85 || u == 0xA0 || u == 0x1680 || (0x2000 <= u && u
        <= 0x200A) || u == 0x2028 || u == 0x2029 || u == 0x202F || u == 0x205F || u == 0x3000
}

/// Removes the white space at the two ends of a text.
pub fn trim(text: &str) -> (r: String)
    ensures
        r@ == trimmed(text@),
{
    let chars = chars_of(text);
    let n = chars.len();
    let mut start: usize = 0;
    while start < n && is_space(chars[start])
        invariant
            start <= n,
            n == chars.len(),
            chars@ == text@,
            skip_whitespace(chars@, 0) == skip_whitespace(chars@, start as int),
        decreases n - start,
    {
        start += 1;
    }
    if start >= n {
        return String::new();
    }
    let mut end: usize = n;
    while end > start && is_space(chars[end - 1])
        invariant
            start < end <= n,
            n == chars.len(),
            chars@ == text@,
            skip_whitespace(chars@, 0) == start,
            !is_whitespace(chars@[start as int]),
            skip_whitespace_back(chars@, n as int) == skip_whitespace_back(chars@, end as int),
        decreases end,
    {
        end -= 1;
    }
    String::from_str(text.substring_char(start, end))
}

/// The label of a time window, from its two optional bounds.
pub open spec fn date_range_label(since: Option<Seq<char>>, until: Option<Seq<char>>) -> Seq<
    char,
> {
    match (since, until) {
        (Some(s), Some(u)) => s + " to "@ + u,
        (Some(s), None) => "since "@ + s,
        (None, Some(u)) => "until "@ + u,
        (None, None) => "all time"@,
    }
}

/// Builds the label of a time window.
pub fn build_date_range(since: Option<&str>, until: Option<&str>) -> (label: String)
    ensures
        label@ == date_range_label(opt_view(since), opt_view(until)),
{
    match (since, until) {
        (Some(s), Some(u)) => {
            let mut label = String::from_str(s);
            label.append(" to ");
            label.append(u);
            label
        },
        (Some(s), None) => {
            let mut label = String::from_str("since ");
            label.append(s);
            label
        },
        (None, Some(u)) => {
            let mut label = String::from_str("until ");
            label.append(u);
            label
        },
        (None, None) => String::from_str("all time"),
    }
}

/// The branch name to show: the name asked for, but for the symbolic `HEAD`,
/// which gives way to the name it resolved to, where it did resolve.
pub open spec fn displayed_branch(branch: Seq<char>, resolved: Option<Seq<char>>) -> Seq<char> {
    if branch == "HEAD"@ {
        match resolved {
            Some(name) => name,
            None => branch,
        }
    } else {
        branch
    }
}

/// The commits of a log, each with the file changes that its diff-stat text
/// lists: the text at a commit's position is the one that belongs to it.
pub open spec fn with_changes(headers: Seq<CommitModel>, texts: Seq<Seq<char>>) -> Seq<
    CommitModel,
> {
    Seq::new(
        headers.len(),
        |i: int|
            CommitModel {
                hash: headers[i].hash,
                short_hash: headers[i].short_hash,
                message: headers[i].message,
                timestamp: headers[i].timestamp,
                files: numstat_changes(texts[i]),
            },
    )
}

/// The summary of a history.
pub open spec fn summary_of(
    branch: Seq<char>,
    since: Option<Seq<char>>,
    until: Option<Seq<char>>,
    commits: Seq<CommitModel>,
    resolved: Option<Seq<char>>,
) -> SummaryModel {
    SummaryModel {
        branch: displayed_branch(branch, resolved),
        date_range: date_range_label(since, until),
        commits: commits,
        area_stats: sort_by_count(stats_in_order_seen(commits)),
        total_additions: sum_additions(all_files(commits)),
        total_deletions: sum_deletions(all_files(commits)),
    }
}

/// The words of the query that lists the commits of a branch, one per line
/// as hash, short hash, subject and timestamp parted by bars, within the
/// bounds of the time window that are given.
pub open spec fn log_query_words(
    branch: Seq<char>,
    since: Option<Seq<char>>,
    until: Option<Seq<char>>,
) -> Seq<Seq<char>> {
    seq!["log"@, branch, "--format=%H|%h|%s|%aI"@] + match since {
        Some(s) => seq!["--since="@ + s],
        None => Seq::empty(),
    } + match until {
        Some(u) => seq!["--until="@ + u],
        None => Seq::empty(),
    }
}

/// The words of the query that lists the diff-stats of one commit, without
/// any line about the commit itself.
pub open spec fn stats_query_words(hash: Seq<char>) -> Seq<Seq<char>> {
    seq!["show"@, hash, "--numstat"@, "--format="@]
}

/// The words of the query for the name of the current branch.
pub open spec fn branch_query_words() -> Seq<Seq<char>> {
    seq!["rev-parse"@, "--abbrev-ref"@, "HEAD"@]
}

/// A working copy, known by its path.
pub struct GitRepo {
    path: String,
}

impl View for GitRepo {
    type V = Seq<char>;

    closed spec fn view(&self) -> Seq<char> {
        self.path@
    }
}

impl GitRepo {
    /// The working copy at `path`.
    pub fn new(path: &str) -> (repo: GitRepo)
        ensures
            repo@ == path@,
    {
        GitRepo { path: String::from_str(path) }
    }

    /// The path of the working copy.
    pub fn path(&self) -> (p: &str)
        ensures
            p@ == self@,
    {
        self.path.as_str()
    }

    /// The query for the commits of a branch within a time window.
    pub fn log_query(branch: &str, since: Option<&str>, until: Option<&str>) -> (words: Vec<String>)
        ensures
            strings_view(words@) == log_query_words(branch@, opt_view(since), opt_view(until)),
    {
        let mut words: Vec<String> = Vec::new();
        words.push(String::from_str("log"));
        words.push(String::from_str(branch));
        words.push(String::from_str("--format=%H|%h|%s|%aI"));
        match since {
            Some(s) => {
                let mut word = String::from_str("--since=");
                word.append(s);
                words.push(word);
            },
            None => {},
        }
        match until {
            Some(u) => {
                let mut word = String::from_str("--until=");
                word.append(u);
                words.push(word);
            },
            None => {},
        }
        proof {
            assert(strings_view(words@) =~= log_query_words(
                branch@,
                opt_view(since),
                opt_view(until),
            ));
        }
        words
    }

    /// The query for the diff-stats of one commit.
    pub fn stats_query(hash: &str) -> (words: Vec<String>)
        ensures
            strings_view(words@) == stats_query_words(hash@),
    {
        let mut words: Vec<String> = Vec::new();
        words.push(String::from_str("show"));
        words.push(String::from_str(hash));
        words.push(String::from_str("--numstat"));
        words.push(String::from_str("--format="));
        proof {
            assert(strings_view(words@) =~= stats_query_words(hash@));
        }
        words
    }

    /// The query for the name of the current branch.
    pub fn branch_query() -> (words: Vec<String>)
        ensures
            strings_view(words@) == branch_query_words(),
    {
        let mut words: Vec<String> = Vec::new();
        words.push(String::from_str("rev-parse"));
        words.push(String::from_str("--abbrev-ref"));
        words.push(String::from_str("HEAD"));
        proof {
            assert(strings_view(words@) =~= branch_query_words());
        }
        words
    }

    /// Whether the branch asked for is the symbolic one, whose name has to
    /// be looked up before it is shown.
    pub fn is_symbolic(branch: &str) -> (r: bool)
        ensures
            r == (branch@ == "HEAD"@),
    {
        String::from_str(branch) == String::from_str("HEAD")
    }

    /// The name of the current branch, from what the query for it printed.
    pub fn get_current_branch(&self, output: &str) -> (name: String)
        ensures
            name@ == trimmed(output@),
    {
        trim(output)
    }

    /// The file changes of one commit, from its diff-stat text.
    pub fn get_commit_stats(&self, output: &str) -> (changes: Vec<FileChange>)
        ensures
            files_view(changes@) == numstat_changes(output@),
            files_wf(files_view(changes@)),
    {
        parse_numstat(output)
    }

    /// The commits of a log listing, each with its file changes. `stats`
    /// holds one diff-stat text per commit of the listing, in its order;
    /// with another number of texts there is no result.
    pub fn get_commits(&self, log: &str, stats: &Vec<String>) -> (r: Option<Vec<Commit>>)
        ensures
            r is Some <==> stats@.len() == log_commits(log@).len(),
            r is Some ==> commits_view(r->0@) == with_changes(
                log_commits(log@),
                strings_view(stats@),
            ),
            r is Some ==> commits_wf(commits_view(r->0@)),
    {
        let headers = parse_log(log);
        if headers.len() != stats.len() {
            return None;
        }
        let ghost target = with_changes(log_commits(log@), strings_view(stats@));
        let mut commits: Vec<Commit> = Vec::new();
        let mut i: usize = 0;
        while i < headers.len()
            invariant
                i <= headers.len(),
                headers.len() == stats.len(),
                commits_view(headers@) == log_commits(log@),
                target == with_changes(log_commits(log@), strings_view(stats@)),
                commits_view(commits@) == target.take(i as int),
                commits_wf(commits_view(commits@)),
            decreases headers.len() - i,
        {
            let files = parse_numstat(stats[i].as_str());
            let commit = Commit {
                hash: headers[i].hash.clone(),
                short_hash: headers[i].short_hash.clone(),
                message: headers[i].message.clone(),
                timestamp: headers[i].timestamp.clone(),
                files_changed: files,
            };
            proof {
                assert(commits_view(headers@)[i as int] == headers[i as int]@);
                assert(strings_view(stats@)[i as int] == stats[i as int]@);
                assert(commit@ == target[i as int]);
                assert(target.take(i + 1) =~= target.take(i as int).push(commit@));
                assert(commits_view(commits@.push(commit)) =~= commits_view(commits@).push(
                    commit@,
                ));
            }
            commits.push(commit);
            i += 1;
        }
        proof {
            assert(target.take(headers.len() as int) =~= target);
        }
        Some(commits)
    }

    /// Builds the summary of a history that is already read. `resolved` is
    /// the name that the symbolic branch resolved to, if it was looked up and
    /// found. Fails where a total of lines does not fit in `i32`.
    pub fn summarize_commits(
        branch: &str,
        since: Option<&str>,
        until: Option<&str>,
        commits: Vec<Commit>,
        resolved: Option<String>,
    ) -> (r: Result<GitSummaryData, SummaryError>)
        requires
            commits_wf(commits_view(commits@)),
        ensures
            r is Err <==> sum_additions(all_files(commits_view(commits@))) > i32::MAX
                || sum_deletions(all_files(commits_view(commits@))) > i32::MAX,
            r is Err ==> r->Err_0 is TotalsOutOfRange,
            r is Ok ==> r->Ok_0@ == summary_of(
                branch@,
                opt_view(since),
                opt_view(until),
                commits_view(commits@),
                opt_string_view(resolved),
            ),
    {
        match aggregate(&commits) {
            Err(e) => Err(e),
            Ok((area_stats, total_additions, total_deletions)) => {
                let date_range = build_date_range(since, until);
                let shown = if GitRepo::is_symbolic(branch) {
                    match resolved {
                        Some(name) => name,
                        None => String::from_str(branch),
                    }
                } else {
                    String::from_str(branch)
                };
                Ok(
                    GitSummaryData {
                        branch: shown,
                        date_range,
                        commits,
                        area_stats,
                        total_additions,
                        total_deletions,
                    },
                )
            },
        }
    }

    /// Builds the summary of a history from what the queries printed: the
    /// log listing, and one diff-stat text per commit of the listing, in its
    /// order. `resolved` is the name that the symbolic branch resolved to,
    /// if it was looked up and found. Fails where the number of diff-stat
    /// texts is not the number of commits, and where a total of lines does
    /// not fit in `i32`.
    pub fn collect_summary(
        &self,
        branch: &str,
        since: Option<&str>,
        until: Option<&str>,
        log: &str,
        stats: &Vec<String>,
        resolved: Option<String>,
    ) -> (r: Result<GitSummaryData, SummaryError>)
        ensures
            (r is Err && r->Err_0 is StatsMismatch) <==> stats@.len() != log_commits(log@).len(),
            (r is Err && r->Err_0 is TotalsOutOfRange) <==> stats@.len() == log_commits(log@).len()
                && ({
                let commits = with_changes(log_commits(log@), strings_view(stats@));
                sum_additions(all_files(commits)) > i32::MAX || sum_deletions(all_files(commits))
                    > i32::MAX
            }),
            r is Ok ==> r->Ok_0@ == summary_of(
                branch@,
                opt_view(since),
                opt_view(until),
                with_changes(log_commits(log@), strings_view(stats@)),
                opt_string_view(resolved),
            ),
    {
        match self.get_commits(log, stats) {
            None => Err(SummaryError::StatsMismatch),
            Some(commits) => GitRepo::summarize_commits(branch, since, until, commits, resolved),
        }
    }
}

} // verus!
