use vstd::prelude::*;
use vstd::string::*;
use crate::model::{Commit, CommitModel, FileChange, FileChangeModel, commits_view, files_view, files_wf, strings_view};
use crate::text::{chars_of, find_char, find_from, lemma_find_from_bounds};

verus! {

/// The line of `s` that starts at `from`: up to the next line feed, and
/// without the carriage return that may stand before that line feed.
pub open spec fn line_at(s: Seq<char>, from: int) -> Seq<char> {
    let end = find_from(s, '\n', from);
    let raw = s.subrange(from, end);
    if end < s.len() && raw.len() > 0 && raw.last() == '\r' {
        raw.drop_last()
    } else {
        raw
    }
}

/// The lines of `s` from position `from` on. A line feed ends a line; the
/// last line need not have one.
pub open spec fn lines_from(s: Seq<char>, from: int) -> Seq<Seq<char>>
    decreases s.len() - from,
    via lines_from_decreases
{
    if from < 0 || from >= s.len() {
        Seq::empty()
    } else if find_from(s, '\n', from) >= s.len() {
        seq![line_at(s, from)]
    } else {
        seq![line_at(s, from)] + lines_from(s, find_from(s, '\n', from) + 1)
    }
}

#[via_fn]
proof fn lines_from_decreases(s: Seq<char>, from: int) {
    assert(0 <= from < s.len() ==> from <= find_from(s, '\n', from)) by {
        if 0 <= from < s.len() {
            lemma_find_from_bounds(s, '\n', from);
        }
    }
}

/// The lines of a text.
pub open spec fn lines_of(s: Seq<char>) -> Seq<Seq<char>> {
    lines_from(s, 0)
}

/// Splits a text into its lines.
pub fn split_lines(text: &str) -> (lines: Vec<String>)
    ensures
        strings_view(lines@) == lines_of(text@),
{
    let chars = chars_of(text);
    let n = chars.len();
    let mut lines: Vec<String> = Vec::new();
    let mut start: usize = 0;
    while start < n
        invariant
            chars@ == text@,
            n == chars.len(),
            start <= n,
            strings_view(lines@) + lines_from(text@, start as int) == lines_of(text@),
        decreases n - start,
    {
        let end = find_char(&chars, '\n', start);
        let stop = if end < n && end > start && chars[end - 1] == '\r' {
            end - 1
        } else {
            end
        };
        let line = String::from_str(text.substring_char(start, stop));
        proof {
            assert(line@ == line_at(text@, start as int)) by {
                let raw = text@.subrange(start as int, end as int);
                if end < n && raw.len() > 0 && raw.last() == '\r' {
                    assert(raw.drop_last() =~= text@.subrange(start as int, stop as int));
                }
            }
            let rest = if end < n {
                lines_from(text@, end + 1)
            } else {
                Seq::empty()
            };
            assert(lines_from(text@, start as int) =~= seq![line@] + rest);
            assert(strings_view(lines@.push(line)) =~= strings_view(lines@).push(line@));
            assert(strings_view(lines@).push(line@) + rest =~= strings_view(lines@) + (seq![
                line@,
            ] + rest));
        }
        lines.push(line);
        start = if end < n {
            end + 1
        } else {
            n
        };
    }
    proof {
        assert(strings_view(lines@) + Seq::<Seq<char>>::empty() =~= strings_view(lines@));
    }
    lines
}

/// The commit that one line of the log stands for: four fields parted by the
/// first three bars, so that bars in the subject stay in the subject. A line
/// with fewer bars stands for none.
pub open spec fn log_line_commit(line: Seq<char>) -> Option<CommitModel> {
    let a = find_from(line, '|', 0);
    let b = find_from(line, '|', a + 1);
    let c = find_from(line, '|', b + 1);
    if c < line.len() {
        Some(
            CommitModel {
                hash: line.subrange(0, a),
                short_hash: line.subrange(a + 1, b),
                message: line.subrange(b + 1, c),
                timestamp: line.subrange(c + 1, line.len() as int),
                files: Seq::empty(),
            },
        )
    } else {
        None
    }
}

/// Reads one line of the log.
pub fn parse_log_line(line: &str) -> (r: Option<Commit>)
    ensures
        match r {
            Some(c) => log_line_commit(line@) == Some(c@),
            None => log_line_commit(line@) is None,
        },
{
    let chars = chars_of(line);
    let n = chars.len();
    let a = find_char(&chars, '|', 0);
    if a >= n {
        return None;
    }
    let b = find_char(&chars, '|', a + 1);
    if b >= n {
        return None;
    }
    let c = find_char(&chars, '|', b + 1);
    if c >= n {
        return None;
    }
    let commit = Commit {
        hash: String::from_str(line.substring_char(0, a)),
        short_hash: String::from_str(line.substring_char(a + 1, b)),
        message: String::from_str(line.substring_char(b + 1, c)),
        timestamp: String::from_str(line.substring_char(c + 1, n)),
        files_changed: Vec::new(),
    };
    proof {
        assert(commit@.files =~= Seq::empty());
    }
    Some(commit)
}

/// The commits that a sequence of log lines stands for, in the order of the
/// lines; a line that stands for none is passed over.
pub open spec fn commits_of_lines(lines: Seq<Seq<char>>) -> Seq<CommitModel>
    decreases lines.len(),
{
    if lines.len() == 0 {
        Seq::empty()
    } else {
        let before = commits_of_lines(lines.drop_last());
        match log_line_commit(lines.last()) {
            Some(c) => before.push(c),
            None => before,
        }
    }
}

/// The commits listed in a log text, none of them with file changes yet.
pub open spec fn log_commits(text: Seq<char>) -> Seq<CommitModel> {
    commits_of_lines(lines_of(text))
}

/// Reads a log listing: one commit per line, in the order of the listing.
pub fn parse_log(text: &str) -> (commits: Vec<Commit>)
    ensures
        commits_view(commits@) == log_commits(text@),
{
    let lines = split_lines(text);
    let mut commits: Vec<Commit> = Vec::new();
    let mut i: usize = 0;
    while i < lines.len()
        invariant
            i <= lines.len(),
            commits_view(commits@) == commits_of_lines(strings_view(lines@).take(i as int)),
        decreases lines.len() - i,
    {
        proof {
            let ls = strings_view(lines@);
            assert(ls.take(i + 1).drop_last() =~= ls.take(i as int));
            assert(ls.take(i + 1).last() == lines@[i as int]@);
        }
        match parse_log_line(lines[i].as_str()) {
            Some(c) => {
                proof {
                    assert(commits_view(commits@.push(c)) =~= commits_view(commits@).push(c@));
                }
                commits.push(c);
            },
            None => {},
        }
        i += 1;
    }
    proof {
        let ls = strings_view(lines@);
        assert(ls.take(lines.len() as int) =~= ls);
    }
    commits
}

/// A decimal digit.
pub open spec fn is_digit(c: char) -> bool {
    48 <= c as u32 <= 57
}

/// The number that a run of decimal digits writes.
pub open spec fn decimal_value(digits: Seq<char>) -> int
    decreases digits.len(),
{
    if digits.len() == 0 {
        0
    } else {
        decimal_value(digits.drop_last()) * 10 + (digits.last() as u32 - 48)
    }
}

/// A field without the plus sign that may lead it.
pub open spec fn unsigned_part(field: Seq<char>) -> Seq<char> {
    if field.len() > 0 && field[0] == '+' {
        field.subrange(1, field.len() as int)
    } else {
        field
    }
}

/// The line count that a field of a diff-stat line holds: the number it
/// writes, where it is one or more decimal digits and the number fits in
/// `i32`; zero for anything else, such as the dash that marks a binary file.
pub open spec fn count_of(field: Seq<char>) -> int {
    let digits = unsigned_part(field);
    if digits.len() > 0 && (forall|i: int| 0 <= i < digits.len() ==> is_digit(digits[i]))
        && decimal_value(digits) <= i32::MAX {
        decimal_value(digits)
    } else {
        0
    }
}

/// Reads the line count in `v[from..to]`.
pub fn parse_count(v: &Vec<char>, from: usize, to: usize) -> (n: i32)
    requires
        from <= to <= v.len(),
    ensures
        n == count_of(v@.subrange(from as int, to as int)),
        n >= 0,
{
    let ghost field = v@.subrange(from as int, to as int);
    let mut i: usize = from;
    if i < to && v[i] == '+' {
        i += 1;
    }
    let start: usize = i;
    let ghost digits = v@.subrange(start as int, to as int);
    proof {
        assert(unsigned_part(field) =~= digits);
    }
    if start == to {
        return 0;
    }
    let mut acc: u64 = 0;
    while i < to
        invariant
            start <= i <= to <= v.len(),
            digits == v@.subrange(start as int, to as int),
            digits == unsigned_part(v@.subrange(from as int, to as int)),
            forall|k: int| 0 <= k < i - start ==> is_digit(digits[k]),
            acc <= 2147483648,
            acc == if decimal_value(digits.take(i - start)) < 2147483648 {
                decimal_value(digits.take(i - start))
            } else {
                2147483648
            },
        decreases to - i,
    {
        let u: u32 = v[i] as u32;
        if u < 48 || u > 57 {
            proof {
                assert(!is_digit(digits[i - start]));
            }
            return 0;
        }
        proof {
            assert(digits.take(i + 1 - start).drop_last() =~= digits.take(i - start));
            assert(digits.take(i + 1 - start).last() == v@[i as int]);
        }
        acc = acc * 10 + (u - 48) as u64;
        if acc > 2147483648 {
            acc = 2147483648;
        }
        i += 1;
    }
    proof {
        assert(digits.take(to - start) =~= digits);
    }
    if acc > 2147483647 {
        0
    } else {
        acc as i32
    }
}

/// The file change that one diff-stat line stands for: additions, deletions
/// and path, parted by tabs. A line with fewer than three fields stands for
/// none; a count that is no number counts as zero.
pub open spec fn numstat_line_change(line: Seq<char>) -> Option<FileChangeModel> {
    let a = find_from(line, '\t', 0);
    let b = find_from(line, '\t', a + 1);
    let c = find_from(line, '\t', b + 1);
    if b < line.len() {
        Some(
            FileChangeModel {
                path: line.subrange(b + 1, c),
                additions: count_of(line.subrange(0, a)),
                deletions: count_of(line.subrange(a + 1, b)),
            },
        )
    } else {
        None
    }
}

/// Reads one diff-stat line.
pub fn parse_numstat_line(line: &str) -> (r: Option<FileChange>)
    ensures
        match r {
            Some(f) => numstat_line_change(line@) == Some(f@),
            None => numstat_line_change(line@) is None,
        },
        r is Some ==> r->0.additions >= 0 && r->0.deletions >= 0,
{
    let chars = chars_of(line);
    let n = chars.len();
    let a = find_char(&chars, '\t', 0);
    if a >= n {
        return None;
    }
    let b = find_char(&chars, '\t', a + 1);
    if b >= n {
        return None;
    }
    let c = find_char(&chars, '\t', b + 1);
    let change = FileChange {
        path: String::from_str(line.substring_char(b + 1, c)),
        additions: parse_count(&chars, 0, a),
        deletions: parse_count(&chars, a + 1, b),
    };
    Some(change)
}

/// The file changes that a sequence of diff-stat lines stands for, in order.
pub open spec fn changes_of_lines(lines: Seq<Seq<char>>) -> Seq<FileChangeModel>
    decreases lines.len(),
{
    if lines.len() == 0 {
        Seq::empty()
    } else {
        let before = changes_of_lines(lines.drop_last());
        match numstat_line_change(lines.last()) {
            Some(f) => before.push(f),
            None => before,
        }
    }
}

/// The file changes listed in the diff-stat text of one commit.
pub open spec fn numstat_changes(text: Seq<char>) -> Seq<FileChangeModel> {
    changes_of_lines(lines_of(text))
}

/// Reads the diff-stat text of one commit, one file change per line.
pub fn parse_numstat(text: &str) -> (changes: Vec<FileChange>)
    ensures
        files_view(changes@) == numstat_changes(text@),
        files_wf(files_view(changes@)),
{
    let lines = split_lines(text);
    let mut changes: Vec<FileChange> = Vec::new();
    let mut i: usize = 0;
    while i < lines.len()
        invariant
            i <= lines.len(),
            files_view(changes@) == changes_of_lines(strings_view(lines@).take(i as int)),
            files_wf(files_view(changes@)),
        decreases lines.len() - i,
    {
        proof {
            let ls = strings_view(lines@);
            assert(ls.take(i + 1).drop_last() =~= ls.take(i as int));
            assert(ls.take(i + 1).last() == lines@[i as int]@);
        }
        match parse_numstat_line(lines[i].as_str()) {
            Some(f) => {
                proof {
                    assert(files_view(changes@.push(f)) =~= files_view(changes@).push(f@));
                }
                changes.push(f);
            },
            None => {},
        }
        i += 1;
    }
    proof {
        let ls = strings_view(lines@);
        assert(ls.take(lines.len() as int) =~= ls);
    }
    changes
}

} // verus!
