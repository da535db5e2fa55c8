use vstd::prelude::*;
use crate::aggregate::{insert_by_count, sort_by_count};
use crate::area::{
    additions_in, all_files, area_of, area_stats_of, areas_seen, commits_touching, deletions_in,
    lemma_commits_touching_bound, lemma_seen_iff_touched, lemma_touches_concat,
    lemma_untouched_is_empty, stats_in_order_seen, sum_additions, sum_deletions, touches,
};
use crate::model::{AreaStatsModel, CommitModel, FileChangeModel, SummaryModel};
use crate::parse::{
    commits_of_lines, is_digit, log_line_commit, numstat_line_change, unsigned_part,
};
use crate::repo::summary_of;
use crate::text::find_from;

verus! {

/// Lines added over all entries of a list of area statistics.
pub open spec fn stats_additions(stats: Seq<AreaStatsModel>) -> int
    decreases stats.len(),
{
    if stats.len() == 0 {
        0
    } else {
        stats_additions(stats.drop_last()) + stats.last().additions
    }
}

/// Lines removed over all entries of a list of area statistics.
pub open spec fn stats_deletions(stats: Seq<AreaStatsModel>) -> int
    decreases stats.len(),
{
    if stats.len() == 0 {
        0
    } else {
        stats_deletions(stats.drop_last()) + stats.last().deletions
    }
}

/// The entries are in the order of falling commit count.
pub open spec fn falling_counts(stats: Seq<AreaStatsModel>) -> bool {
    forall|i: int, j: int|
        0 <= i < j < stats.len() ==> (#[trigger] stats[i]).commit_count >= (
        #[trigger] stats[j]).commit_count
}

proof fn lemma_insert(s: Seq<AreaStatsModel>, x: AreaStatsModel)
    ensures
        insert_by_count(s, x).len() == s.len() + 1,
        stats_additions(insert_by_count(s, x)) == stats_additions(s) + x.additions,
        stats_deletions(insert_by_count(s, x)) == stats_deletions(s) + x.deletions,
        insert_by_count(s, x).contains(x),
        forall|j: int| 0 <= j < s.len() ==> insert_by_count(s, x).contains(#[trigger] s[j]),
        forall|k: int|
            0 <= k < insert_by_count(s, x).len() ==> (#[trigger] insert_by_count(s, x)[k]) == x
                || s.contains(insert_by_count(s, x)[k]),
        falling_counts(s) ==> falling_counts(insert_by_count(s, x)),
    decreases s.len(),
{
    let r = insert_by_count(s, x);
    if s.len() == 0 {
        assert(r.drop_last() =~= s);
        assert(r.last() == x);
        assert(r[0] == x);
    } else if s.last().commit_count >= x.commit_count {
        assert(r.drop_last() =~= s);
        assert(r.last() == x);
        assert(r[s.len() as int] == x);
        assert forall|j: int| 0 <= j < s.len() implies r.contains(#[trigger] s[j]) by {
            assert(r[j] == s[j]);
        }
        assert forall|k: int| 0 <= k < r.len() implies (#[trigger] r[k]) == x || s.contains(
            r[k],
        ) by {
            if k < s.len() {
                assert(s[k] == r[k]);
            }
        }
        if falling_counts(s) {
            assert forall|i: int, j: int| 0 <= i < j < r.len() implies (#[trigger] r[i]).commit_count
                >= (#[trigger] r[j]).commit_count by {
                if j == s.len() {
                    assert(s[i].commit_count >= s[s.len() - 1].commit_count || i == s.len() - 1);
                }
            }
        }
    } else {
        let head = s.drop_last();
        let t = insert_by_count(head, x);
        lemma_insert(head, x);
        assert(r.drop_last() =~= t);
        assert(r.last() == s.last());
        let w = choose|w: int| 0 <= w < t.len() && t[w] == x;
        assert(r[w] == x);
        assert(r[t.len() as int] == s.last());
        assert forall|j: int| 0 <= j < s.len() implies r.contains(#[trigger] s[j]) by {
            if j < head.len() {
                assert(t.contains(head[j]));
                let k = choose|k: int| 0 <= k < t.len() && t[k] == head[j];
                assert(r[k] == s[j]);
            }
        }
        assert forall|k: int| 0 <= k < r.len() implies (#[trigger] r[k]) == x || s.contains(
            r[k],
        ) by {
            if k < t.len() {
                assert(r[k] == t[k]);
                if t[k] != x {
                    let j = choose|j: int| 0 <= j < head.len() && head[j] == t[k];
                    assert(s[j] == r[k]);
                }
            } else {
                assert(s[s.len() - 1] == r[k]);
            }
        }
        if falling_counts(s) {
            assert(falling_counts(head)) by {
                assert forall|i: int, j: int| 0 <= i < j < head.len() implies (
                #[trigger] head[i]).commit_count >= (#[trigger] head[j]).commit_count by {
                    assert(head[i] == s[i] && head[j] == s[j]);
                }
            }
            assert forall|i: int, j: int| 0 <= i < j < r.len() implies (#[trigger] r[i]).commit_count
                >= (#[trigger] r[j]).commit_count by {
                assert(r[i] == t[i]);
                if j < t.len() {
                    assert(r[j] == t[j]);
                } else {
                    if t[i] != x {
                        let q = choose|q: int| 0 <= q < head.len() && head[q] == t[i];
                        assert(s[q].commit_count >= s[s.len() - 1].commit_count);
                    }
                }
            }
        }
    }
}

proof fn lemma_sort(s: Seq<AreaStatsModel>)
    ensures
        sort_by_count(s).len() == s.len(),
        stats_additions(sort_by_count(s)) == stats_additions(s),
        stats_deletions(sort_by_count(s)) == stats_deletions(s),
        forall|j: int| 0 <= j < s.len() ==> sort_by_count(s).contains(#[trigger] s[j]),
        forall|k: int| 0 <= k < s.len() ==> s.contains(#[trigger] sort_by_count(s)[k]),
        falling_counts(sort_by_count(s)),
    decreases s.len(),
{
    if s.len() > 0 {
        let head = s.drop_last();
        let t = sort_by_count(head);
        let r = sort_by_count(s);
        lemma_sort(head);
        lemma_insert(t, s.last());
        assert forall|j: int| 0 <= j < s.len() implies r.contains(#[trigger] s[j]) by {
            if j < head.len() {
                assert(t.contains(head[j]));
                let k = choose|k: int| 0 <= k < t.len() && t[k] == head[j];
                assert(r.contains(t[k]));
            }
        }
        assert forall|k: int| 0 <= k < s.len() implies s.contains(#[trigger] r[k]) by {
            if r[k] == s.last() {
                assert(s[s.len() - 1] == r[k]);
            } else {
                let q = choose|q: int| 0 <= q < t.len() && t[q] == r[k];
                assert(head.contains(t[q]));
                let j = choose|j: int| 0 <= j < head.len() && head[j] == t[q];
                assert(s[j] == r[k]);
            }
        }
    }
}

/// The area statistics of a summary are in the order of falling commit count.
pub proof fn law_counts_fall(commits: Seq<CommitModel>)
    ensures
        falling_counts(sort_by_count(stats_in_order_seen(commits))),
{
    lemma_sort(stats_in_order_seen(commits));
}

proof fn lemma_touched_is_counted(commits: Seq<CommitModel>, area: Seq<char>)
    requires
        touches(all_files(commits), area),
    ensures
        commits_touching(commits, area) >= 1,
    decreases commits.len(),
{
    if commits.len() > 0 {
        lemma_touches_concat(all_files(commits.drop_last()), commits.last().files, area);
        lemma_commits_touching_bound(commits.drop_last(), area);
        if !touches(commits.last().files, area) {
            lemma_touched_is_counted(commits.drop_last(), area);
        }
    } else {
        assert(all_files(commits) =~= Seq::empty());
    }
}

/// The commit count of an area is the number of commits that hold at least
/// one file change in the area.
pub proof fn law_count_is_number_of_commits(commits: Seq<CommitModel>, area: Seq<char>)
    ensures
        commits_touching(commits, area) == commits.filter(
            |c: CommitModel| touches(c.files, area),
        ).len(),
    decreases commits.len(),
{
    reveal(Seq::filter);
    if commits.len() > 0 {
        law_count_is_number_of_commits(commits.drop_last(), area);
    }
}

/// Every entry of the area statistics stands for an area that some file
/// change lies in. Its commit count is the number of commits that touched
/// the area, each counted once however many of its files lie there; its
/// lines are the sums over the file changes in the area.
pub proof fn law_entries_are_exact(commits: Seq<CommitModel>, i: int)
    requires
        0 <= i < sort_by_count(stats_in_order_seen(commits)).len(),
    ensures
        ({
            let entry = sort_by_count(stats_in_order_seen(commits))[i];
            &&& touches(all_files(commits), entry.path)
            &&& entry.commit_count == commits_touching(commits, entry.path)
            &&& 1 <= entry.commit_count <= commits.len()
            &&& entry.additions == additions_in(all_files(commits), entry.path)
            &&& entry.deletions == deletions_in(all_files(commits), entry.path)
        }),
{
    let unsorted = stats_in_order_seen(commits);
    let entry = sort_by_count(unsorted)[i];
    lemma_sort(unsorted);
    assert(unsorted.contains(entry));
    let j = choose|j: int| 0 <= j < unsorted.len() && unsorted[j] == entry;
    let area = areas_seen(all_files(commits))[j];
    assert(entry == area_stats_of(commits, area));
    assert(areas_seen(all_files(commits)).contains(area));
    lemma_seen_iff_touched(all_files(commits), area);
    lemma_touched_is_counted(commits, area);
    lemma_commits_touching_bound(commits, area);
}

/// Every area that some file change lies in has an entry in the statistics.
pub proof fn law_touched_areas_are_listed(commits: Seq<CommitModel>, area: Seq<char>)
    requires
        touches(all_files(commits), area),
    ensures
        sort_by_count(stats_in_order_seen(commits)).contains(area_stats_of(commits, area)),
{
    let unsorted = stats_in_order_seen(commits);
    let areas = areas_seen(all_files(commits));
    lemma_seen_iff_touched(all_files(commits), area);
    let j = choose|j: int| 0 <= j < areas.len() && areas[j] == area;
    assert(unsorted[j] == area_stats_of(commits, area));
    lemma_sort(unsorted);
}

/// No two entries stand for the same area.
pub open spec fn distinct_paths(stats: Seq<AreaStatsModel>) -> bool {
    forall|i: int, j: int|
        0 <= i < j < stats.len() ==> (#[trigger] stats[i]).path != (#[trigger] stats[j]).path
}

proof fn lemma_insert_at(s: Seq<AreaStatsModel>, x: AreaStatsModel)
    ensures
        exists|p: int| 0 <= p <= s.len() && insert_by_count(s, x) == s.insert(p, x),
    decreases s.len(),
{
    if s.len() == 0 {
        assert(insert_by_count(s, x) =~= s.insert(0, x));
    } else if s.last().commit_count >= x.commit_count {
        assert(insert_by_count(s, x) =~= s.insert(s.len() as int, x));
    } else {
        let head = s.drop_last();
        lemma_insert_at(head, x);
        let p = choose|p: int| 0 <= p <= head.len() && insert_by_count(head, x) == head.insert(p, x);
        assert(head.insert(p, x).push(s.last()) =~= s.insert(p, x));
    }
}

proof fn lemma_sort_keeps_distinct(s: Seq<AreaStatsModel>)
    requires
        distinct_paths(s),
    ensures
        distinct_paths(sort_by_count(s)),
    decreases s.len(),
{
    if s.len() > 0 {
        let head = s.drop_last();
        let x = s.last();
        assert(distinct_paths(head)) by {
            assert forall|i: int, j: int| 0 <= i < j < head.len() implies (#[trigger] head[i]).path
                != (#[trigger] head[j]).path by {
                assert(head[i] == s[i] && head[j] == s[j]);
            }
        }
        lemma_sort_keeps_distinct(head);
        lemma_sort(head);
        let t = sort_by_count(head);
        lemma_insert_at(t, x);
        let p = choose|p: int| 0 <= p <= t.len() && insert_by_count(t, x) == t.insert(p, x);
        let r = t.insert(p, x);
        assert forall|k: int| 0 <= k < t.len() implies (#[trigger] t[k]).path != x.path by {
            assert(head.contains(t[k]));
            let q = choose|q: int| 0 <= q < head.len() && head[q] == t[k];
            assert(s[q].path != s[s.len() - 1].path);
        }
        assert forall|i: int, j: int| 0 <= i < j < r.len() implies (#[trigger] r[i]).path != (
        #[trigger] r[j]).path by {
            if i == p {
                assert(r[j] == t[j - 1]);
            } else if j == p {
                assert(r[i] == t[i]);
            } else {
                let a = if i < p {
                    i
                } else {
                    i - 1
                };
                let b = if j < p {
                    j
                } else {
                    j - 1
                };
                assert(r[i] == t[a] && r[j] == t[b]);
            }
        }
    }
}

/// The area statistics hold one entry for each area, never two.
pub proof fn law_one_entry_per_area(commits: Seq<CommitModel>)
    ensures
        distinct_paths(sort_by_count(stats_in_order_seen(commits))),
        sort_by_count(stats_in_order_seen(commits)).len() == areas_seen(all_files(commits)).len(),
{
    let unsorted = stats_in_order_seen(commits);
    let areas = areas_seen(all_files(commits));
    lemma_seen_sums(all_files(commits));
    assert forall|i: int, j: int| 0 <= i < j < unsorted.len() implies (#[trigger] unsorted[i]).path
        != (#[trigger] unsorted[j]).path by {
        assert(unsorted[i].path == areas[i] && unsorted[j].path == areas[j]);
    }
    lemma_sort_keeps_distinct(unsorted);
    lemma_sort(unsorted);
}

/// Lines added in the given areas, area by area.
pub open spec fn additions_over(areas: Seq<Seq<char>>, files: Seq<FileChangeModel>) -> int
    decreases areas.len(),
{
    if areas.len() == 0 {
        0
    } else {
        additions_over(areas.drop_last(), files) + additions_in(files, areas.last())
    }
}

/// Lines removed in the given areas, area by area.
pub open spec fn deletions_over(areas: Seq<Seq<char>>, files: Seq<FileChangeModel>) -> int
    decreases areas.len(),
{
    if areas.len() == 0 {
        0
    } else {
        deletions_over(areas.drop_last(), files) + deletions_in(files, areas.last())
    }
}

/// No area occurs twice.
pub open spec fn distinct(areas: Seq<Seq<char>>) -> bool {
    forall|i: int, j: int| 0 <= i < j < areas.len() ==> areas[i] != areas[j]
}

proof fn lemma_over_push(areas: Seq<Seq<char>>, files: Seq<FileChangeModel>, f: FileChangeModel)
    requires
        distinct(areas),
    ensures
        additions_over(areas, files.push(f)) == additions_over(areas, files) + if areas.contains(
            area_of(f.path),
        ) {
            f.additions
        } else {
            0
        },
        deletions_over(areas, files.push(f)) == deletions_over(areas, files) + if areas.contains(
            area_of(f.path),
        ) {
            f.deletions
        } else {
            0
        },
    decreases areas.len(),
{
    let a0 = area_of(f.path);
    if areas.len() > 0 {
        let head = areas.drop_last();
        let a = areas.last();
        assert(distinct(head)) by {
            assert forall|i: int, j: int| 0 <= i < j < head.len() implies head[i] != head[j] by {
                assert(head[i] == areas[i] && head[j] == areas[j]);
            }
        }
        lemma_over_push(head, files, f);
        assert(files.push(f).drop_last() =~= files);
        assert(files.push(f).last() == f);
        if head.contains(a0) {
            let i = choose|i: int| 0 <= i < head.len() && head[i] == a0;
            assert(areas[i] == a0);
            assert(areas[i] != areas[areas.len() - 1]);
        } else if a == a0 {
            assert(areas[areas.len() - 1] == a0);
        } else {
            if areas.contains(a0) {
                let i = choose|i: int| 0 <= i < areas.len() && areas[i] == a0;
                assert(head[i] == a0);
            }
        }
    }
}

proof fn lemma_seen_sums(files: Seq<FileChangeModel>)
    ensures
        distinct(areas_seen(files)),
        additions_over(areas_seen(files), files) == sum_additions(files),
        deletions_over(areas_seen(files), files) == sum_deletions(files),
    decreases files.len(),
{
    if files.len() > 0 {
        let before = files.drop_last();
        let f = files.last();
        let seen = areas_seen(before);
        let a0 = area_of(f.path);
        lemma_seen_sums(before);
        assert(before.push(f) =~= files);
        lemma_over_push(seen, before, f);
        if !seen.contains(a0) {
            let grown = seen.push(a0);
            assert(grown.drop_last() =~= seen);
            assert(grown.last() == a0);
            lemma_seen_iff_touched(before, a0);
            lemma_untouched_is_empty(before, a0);
            assert(distinct(grown)) by {
                assert forall|i: int, j: int| 0 <= i < j < grown.len() implies grown[i]
                    != grown[j] by {
                    if j == seen.len() {
                        assert(seen[i] == grown[i]);
                    } else {
                        assert(seen[i] == grown[i] && seen[j] == grown[j]);
                    }
                }
            }
        }
    }
}

proof fn lemma_stats_sums(commits: Seq<CommitModel>, areas: Seq<Seq<char>>)
    ensures
        stats_additions(areas.map_values(|area: Seq<char>| area_stats_of(commits, area)))
            == additions_over(areas, all_files(commits)),
        stats_deletions(areas.map_values(|area: Seq<char>| area_stats_of(commits, area)))
            == deletions_over(areas, all_files(commits)),
    decreases areas.len(),
{
    if areas.len() > 0 {
        let f = |area: Seq<char>| area_stats_of(commits, area);
        lemma_stats_sums(commits, areas.drop_last());
        assert(areas.map_values(f).drop_last() =~= areas.drop_last().map_values(f));
        assert(areas.map_values(f).last() == area_stats_of(commits, areas.last()));
    }
}

/// The lines added and removed over all areas of a summary are the lines
/// added and removed over all file changes of all commits, which are the
/// totals of the summary.
pub proof fn law_area_sums_are_totals(
    branch: Seq<char>,
    since: Option<Seq<char>>,
    until: Option<Seq<char>>,
    commits: Seq<CommitModel>,
    resolved: Option<Seq<char>>,
)
    ensures
        ({
            let summary = summary_of(branch, since, until, commits, resolved);
            &&& summary.total_additions == sum_additions(all_files(commits))
            &&& summary.total_deletions == sum_deletions(all_files(commits))
            &&& stats_additions(summary.area_stats) == summary.total_additions
            &&& stats_deletions(summary.area_stats) == summary.total_deletions
        }),
{
    lemma_sort(stats_in_order_seen(commits));
    lemma_stats_sums(commits, areas_seen(all_files(commits)));
    lemma_seen_sums(all_files(commits));
}

proof fn lemma_empty_commit(commits: Seq<CommitModel>, k: int, c: CommitModel, area: Seq<char>)
    requires
        0 <= k <= commits.len(),
        c.files.len() == 0,
    ensures
        all_files(commits.insert(k, c)) == all_files(commits),
        commits_touching(commits.insert(k, c), area) == commits_touching(commits, area),
    decreases commits.len() - k,
{
    let grown = commits.insert(k, c);
    assert(!touches(c.files, area));
    if k == commits.len() {
        assert(grown.drop_last() =~= commits);
        assert(grown.last() == c);
        assert(all_files(commits) + c.files =~= all_files(commits));
    } else {
        lemma_empty_commit(commits.drop_last(), k, c, area);
        assert(grown.drop_last() =~= commits.drop_last().insert(k, c));
        assert(grown.last() == commits.last());
    }
}

/// A commit without file changes, wherever it stands in the history, adds
/// to no area, to no commit count and to no total.
pub proof fn law_empty_commit_counts_nowhere(commits: Seq<CommitModel>, k: int, c: CommitModel)
    requires
        0 <= k <= commits.len(),
        c.files.len() == 0,
    ensures
        all_files(commits.insert(k, c)) == all_files(commits),
        forall|area: Seq<char>|
            commits_touching(commits.insert(k, c), area) == #[trigger] commits_touching(
                commits,
                area,
            ),
        stats_in_order_seen(commits.insert(k, c)) == stats_in_order_seen(commits),
{
    assert forall|area: Seq<char>|
        commits_touching(commits.insert(k, c), area) == #[trigger] commits_touching(
            commits,
            area,
        ) by {
        lemma_empty_commit(commits, k, c, area);
    }
    lemma_empty_commit(commits, k, c, Seq::empty());
    let areas = areas_seen(all_files(commits));
    assert forall|i: int| 0 <= i < areas.len() implies area_stats_of(commits.insert(k, c), areas[i])
        == area_stats_of(commits, areas[i]) by {
        lemma_empty_commit(commits, k, c, areas[i]);
    }
    assert(stats_in_order_seen(commits.insert(k, c)) =~= stats_in_order_seen(commits));
}

/// A log line that stands for no commit, as one with fewer than four fields
/// does, is dropped: the lines before and after it are read as if it were
/// not there.
pub proof fn law_short_line_is_dropped(
    before: Seq<Seq<char>>,
    line: Seq<char>,
    after: Seq<Seq<char>>,
)
    requires
        log_line_commit(line) is None,
    ensures
        commits_of_lines(before + seq![line] + after) == commits_of_lines(before + after),
    decreases after.len(),
{
    let with_line = before + seq![line] + after;
    let without = before + after;
    if after.len() == 0 {
        assert(with_line.drop_last() =~= before);
        assert(with_line.last() == line);
        assert(without =~= before);
    } else {
        law_short_line_is_dropped(before, line, after.drop_last());
        assert(with_line.drop_last() =~= before + seq![line] + after.drop_last());
        assert(without.drop_last() =~= before + after.drop_last());
        assert(with_line.last() == after.last());
        assert(without.last() == after.last());
    }
}

/// A line with fewer than three bars stands for no commit.
pub proof fn law_three_fields_are_too_few(line: Seq<char>)
    requires
        ({
            let a = find_from(line, '|', 0);
            let b = find_from(line, '|', a + 1);
            find_from(line, '|', b + 1) >= line.len()
        }),
    ensures
        log_line_commit(line) is None,
{
}

/// A diff-stat line with three fields stands for a file change whatever its
/// counts hold: a count that is no run of digits, such as the dash of a
/// binary file, counts as zero and does not drop the line.
pub proof fn law_placeholder_counts_as_zero(line: Seq<char>, k: int)
    requires
        ({
            let a = find_from(line, '\t', 0);
            let b = find_from(line, '\t', a + 1);
            let digits = unsigned_part(line.subrange(0, a));
            &&& b < line.len()
            &&& 0 <= k < digits.len()
            &&& !is_digit(digits[k])
        }),
    ensures
        numstat_line_change(line) is Some,
        numstat_line_change(line)->0.additions == 0,
{
}

/// Two summaries built from the same inputs are the same.
pub proof fn law_same_inputs_same_summary(
    first: SummaryModel,
    second: SummaryModel,
    branch: Seq<char>,
    since: Option<Seq<char>>,
    until: Option<Seq<char>>,
    commits: Seq<CommitModel>,
    resolved: Option<Seq<char>>,
)
    requires
        first == summary_of(branch, since, until, commits, resolved),
        second == summary_of(branch, since, until, commits, resolved),
    ensures
        first == second,
{
}

} // verus!
