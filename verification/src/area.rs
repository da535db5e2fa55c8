use vstd::prelude::*;
use vstd::string::*;
use crate::model::{AreaStatsModel, CommitModel, FileChangeModel, commits_wf, files_wf};
use crate::text::{chars_of, find_char, find_from};

verus! {

/// The area of every file that lies directly in the root.
pub open spec fn root_area() -> Seq<char> {
    seq!['(', 'r', 'o', 'o', 't', ')']
}

/// The area of a path: its first segment with the slash that ends it, or the
/// root area where the path has no slash.
pub open spec fn area_of(path: Seq<char>) -> Seq<char> {
    let slash = find_from(path, '/', 0);
    if slash < path.len() {
        path.subrange(0, slash + 1)
    } else {
        root_area()
    }
}

/// Derives the area of a path.
pub fn extract_area(path: &str) -> (area: String)
    ensures
        area@ == area_of(path@),
{
    let chars = chars_of(path);
    let slash = find_char(&chars, '/', 0);
    if slash < chars.len() {
        String::from_str(path.substring_char(0, slash + 1))
    } else {
        proof {
            reveal_strlit("(root)");
            assert("(root)"@ =~= root_area());
        }
        String::from_str("(root)")
    }
}

/// The file changes of all commits, in order.
pub open spec fn all_files(commits: Seq<CommitModel>) -> Seq<FileChangeModel>
    decreases commits.len(),
{
    if commits.len() == 0 {
        Seq::empty()
    } else {
        all_files(commits.drop_last()) + commits.last().files
    }
}

/// Lines added over all the file changes.
pub open spec fn sum_additions(files: Seq<FileChangeModel>) -> int
    decreases files.len(),
{
    if files.len() == 0 {
        0
    } else {
        sum_additions(files.drop_last()) + files.last().additions
    }
}

/// Lines removed over all the file changes.
pub open spec fn sum_deletions(files: Seq<FileChangeModel>) -> int
    decreases files.len(),
{
    if files.len() == 0 {
        0
    } else {
        sum_deletions(files.drop_last()) + files.last().deletions
    }
}

/// Lines added by the file changes that lie in `area`.
pub open spec fn additions_in(files: Seq<FileChangeModel>, area: Seq<char>) -> int
    decreases files.len(),
{
    if files.len() == 0 {
        0
    } else {
        additions_in(files.drop_last(), area) + if area_of(files.last().path) == area {
            files.last().additions
        } else {
            0
        }
    }
}

/// Lines removed by the file changes that lie in `area`.
pub open spec fn deletions_in(files: Seq<FileChangeModel>, area: Seq<char>) -> int
    decreases files.len(),
{
    if files.len() == 0 {
        0
    } else {
        deletions_in(files.drop_last(), area) + if area_of(files.last().path) == area {
            files.last().deletions
        } else {
            0
        }
    }
}

/// Some file change among `files` lies in `area`.
pub open spec fn touches(files: Seq<FileChangeModel>, area: Seq<char>) -> bool {
    exists|i: int| 0 <= i < files.len() && area_of(#[trigger] files[i].path) == area
}

/// The number of commits that changed at least one file in `area`.
pub open spec fn commits_touching(commits: Seq<CommitModel>, area: Seq<char>) -> int
    decreases commits.len(),
{
    if commits.len() == 0 {
        0
    } else {
        commits_touching(commits.drop_last(), area) + if touches(commits.last().files, area) {
            1int
        } else {
            0int
        }
    }
}

/// The areas of `files`, each once, in the order in which they first occur.
pub open spec fn areas_seen(files: Seq<FileChangeModel>) -> Seq<Seq<char>>
    decreases files.len(),
{
    if files.len() == 0 {
        Seq::empty()
    } else {
        let before = areas_seen(files.drop_last());
        let area = area_of(files.last().path);
        if before.contains(area) {
            before
        } else {
            before.push(area)
        }
    }
}

/// The statistics of one area over a history.
pub open spec fn area_stats_of(commits: Seq<CommitModel>, area: Seq<char>) -> AreaStatsModel {
    AreaStatsModel {
        path: area,
        commit_count: commits_touching(commits, area),
        additions: additions_in(all_files(commits), area),
        deletions: deletions_in(all_files(commits), area),
    }
}

/// The statistics of every area of a history, in the order in which the
/// areas first occur.
pub open spec fn stats_in_order_seen(commits: Seq<CommitModel>) -> Seq<AreaStatsModel> {
    areas_seen(all_files(commits)).map_values(|area: Seq<char>| area_stats_of(commits, area))
}

/// One more file change touches its own area and no other.
pub proof fn lemma_touches_push(files: Seq<FileChangeModel>, f: FileChangeModel, area: Seq<char>)
    ensures
        touches(files.push(f), area) <==> touches(files, area) || area_of(f.path) == area,
{
    let g = files.push(f);
    if touches(files, area) {
        let i = choose|i: int| 0 <= i < files.len() && area_of(#[trigger] files[i].path) == area;
        assert(area_of(g[i].path) == area);
    }
    if area_of(f.path) == area {
        assert(area_of(g[files.len() as int].path) == area);
    }
    if touches(g, area) {
        let i = choose|i: int| 0 <= i < g.len() && area_of(#[trigger] g[i].path) == area;
        if i < files.len() {
            assert(area_of(files[i].path) == area);
        }
    }
}

/// Two runs of file changes touch what one of them touches.
pub proof fn lemma_touches_concat(a: Seq<FileChangeModel>, b: Seq<FileChangeModel>, area: Seq<char>)
    ensures
        touches(a + b, area) <==> touches(a, area) || touches(b, area),
{
    let g = a + b;
    if touches(a, area) {
        let i = choose|i: int| 0 <= i < a.len() && area_of(#[trigger] a[i].path) == area;
        assert(area_of(g[i].path) == area);
    }
    if touches(b, area) {
        let i = choose|i: int| 0 <= i < b.len() && area_of(#[trigger] b[i].path) == area;
        assert(area_of(g[a.len() + i].path) == area);
    }
    if touches(g, area) {
        let i = choose|i: int| 0 <= i < g.len() && area_of(#[trigger] g[i].path) == area;
        if i < a.len() {
            assert(area_of(a[i].path) == area);
        } else {
            assert(area_of(b[i - a.len()].path) == area);
        }
    }
}

/// An area is among those seen exactly when some file change lies in it.
pub proof fn lemma_seen_iff_touched(files: Seq<FileChangeModel>, area: Seq<char>)
    ensures
        areas_seen(files).contains(area) <==> touches(files, area),
    decreases files.len(),
{
    if files.len() > 0 {
        let before = files.drop_last();
        lemma_seen_iff_touched(before, area);
        lemma_touches_push(before, files.last(), area);
        assert(before.push(files.last()) =~= files);
        let seen = areas_seen(before);
        let a = area_of(files.last().path);
        if !seen.contains(a) {
            assert(seen.push(a).last() == a);
            if seen.contains(area) {
                let i = choose|i: int| 0 <= i < seen.len() && seen[i] == area;
                assert(seen.push(a)[i] == area);
            }
        }
    }
}

/// An area that no file change lies in has no lines.
pub proof fn lemma_untouched_is_empty(files: Seq<FileChangeModel>, area: Seq<char>)
    requires
        !touches(files, area),
    ensures
        additions_in(files, area) == 0,
        deletions_in(files, area) == 0,
    decreases files.len(),
{
    if files.len() > 0 {
        let before = files.drop_last();
        lemma_touches_push(before, files.last(), area);
        assert(before.push(files.last()) =~= files);
        lemma_untouched_is_empty(before, area);
    }
}

/// An area that no file change of the history lies in is touched by no commit.
pub proof fn lemma_untouched_by_commits(commits: Seq<CommitModel>, area: Seq<char>)
    requires
        !touches(all_files(commits), area),
    ensures
        commits_touching(commits, area) == 0,
    decreases commits.len(),
{
    if commits.len() > 0 {
        lemma_touches_concat(all_files(commits.drop_last()), commits.last().files, area);
        lemma_untouched_by_commits(commits.drop_last(), area);
    }
}

/// No area is touched by more commits than there are.
pub proof fn lemma_commits_touching_bound(commits: Seq<CommitModel>, area: Seq<char>)
    ensures
        0 <= commits_touching(commits, area) <= commits.len(),
    decreases commits.len(),
{
    if commits.len() > 0 {
        lemma_commits_touching_bound(commits.drop_last(), area);
    }
}

/// Where no commit holds a negative count, the file changes of all hold none.
pub proof fn lemma_all_files_wf(commits: Seq<CommitModel>)
    requires
        commits_wf(commits),
    ensures
        files_wf(all_files(commits)),
    decreases commits.len(),
{
    if commits.len() > 0 {
        lemma_all_files_wf(commits.drop_last());
        assert(files_wf(commits.last().files));
    }
}

/// The lines of one area are among the lines of all.
pub proof fn lemma_area_within_total(files: Seq<FileChangeModel>, area: Seq<char>)
    requires
        files_wf(files),
    ensures
        0 <= additions_in(files, area) <= sum_additions(files),
        0 <= deletions_in(files, area) <= sum_deletions(files),
    decreases files.len(),
{
    if files.len() > 0 {
        lemma_area_within_total(files.drop_last(), area);
        assert(files.last().additions >= 0 && files.last().deletions >= 0);
    }
}

} // verus!
