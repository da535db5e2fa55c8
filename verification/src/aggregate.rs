use vstd::prelude::*;
use crate::area::{
    additions_in, all_files, area_of, area_stats_of, areas_seen, commits_touching, deletions_in,
    extract_area, lemma_all_files_wf, lemma_area_within_total, lemma_commits_touching_bound,
    lemma_seen_iff_touched, lemma_touches_concat, lemma_touches_push, lemma_untouched_by_commits,
    lemma_untouched_is_empty, stats_in_order_seen, sum_additions, sum_deletions, touches,
};
use crate::model::{
    AreaStats, AreaStatsModel, Commit, CommitModel, FileChange, FileChangeModel, commits_view,
    commits_wf, files_view, files_wf, stats_view, strings_view,
};

verus! {

/// Why no summary could be built.
#[derive(Debug)]
pub enum SummaryError {
    /// There is not one diff-stat text for each commit of the log.
    StatsMismatch,
    /// The added or the removed lines of the history do not fit in `i32`.
    TotalsOutOfRange,
}

/// `sorted` with `x` put behind every entry that has at least as many commits.
pub open spec fn insert_by_count(sorted: Seq<AreaStatsModel>, x: AreaStatsModel) -> Seq<
    AreaStatsModel,
>
    decreases sorted.len(),
{
    if sorted.len() == 0 {
        seq![x]
    } else if sorted.last().commit_count >= x.commit_count {
        sorted.push(x)
    } else {
        insert_by_count(sorted.drop_last(), x).push(sorted.last())
    }
}

/// The entries ordered by falling commit count; entries with the same count
/// keep the order they had.
pub open spec fn sort_by_count(stats: Seq<AreaStatsModel>) -> Seq<AreaStatsModel>
    decreases stats.len(),
{
    if stats.len() == 0 {
        Seq::empty()
    } else {
        insert_by_count(sort_by_count(stats.drop_last()), stats.last())
    }
}

/// Putting `x` at a position with no smaller count before it and only
/// smaller counts from it on is what `insert_by_count` does.
proof fn lemma_insert_position(s: Seq<AreaStatsModel>, x: AreaStatsModel, p: int)
    requires
        0 <= p <= s.len(),
        forall|j: int| p <= j < s.len() ==> (#[trigger] s[j]).commit_count < x.commit_count,
        p > 0 ==> s[p - 1].commit_count >= x.commit_count,
    ensures
        insert_by_count(s, x) == s.insert(p, x),
    decreases s.len(),
{
    if s.len() == 0 {
        assert(s.insert(p, x) =~= seq![x]);
    } else if p == s.len() {
        assert(s.insert(p, x) =~= s.push(x));
    } else {
        assert(s[s.len() - 1].commit_count < x.commit_count);
        lemma_insert_position(s.drop_last(), x, p);
        assert(s.drop_last().insert(p, x).push(s.last()) =~= s.insert(p, x));
    }
}

/// Orders area statistics by falling commit count, keeping the order of
/// entries with the same count.
pub fn sort_by_commit_count(stats: &Vec<AreaStats>) -> (sorted: Vec<AreaStats>)
    ensures
        stats_view(sorted@) == sort_by_count(stats_view(stats@)),
{
    let mut sorted: Vec<AreaStats> = Vec::new();
    let mut i: usize = 0;
    while i < stats.len()
        invariant
            i <= stats.len(),
            stats_view(sorted@) == sort_by_count(stats_view(stats@).take(i as int)),
        decreases stats.len() - i,
    {
        let entry = AreaStats {
            path: stats[i].path.clone(),
            commit_count: stats[i].commit_count,
            additions: stats[i].additions,
            deletions: stats[i].deletions,
        };
        let mut p: usize = sorted.len();
        while p > 0 && sorted[p - 1].commit_count < entry.commit_count
            invariant
                p <= sorted.len(),
                forall|j: int|
                    p <= j < sorted.len() ==> (#[trigger] sorted[j]).commit_count
                        < entry.commit_count,
            decreases p,
        {
            p -= 1;
        }
        proof {
            let all = stats_view(stats@);
            assert(all.take(i + 1).drop_last() =~= all.take(i as int));
            assert(all.take(i + 1).last() == entry@);
            lemma_insert_position(stats_view(sorted@), entry@, p as int);
            assert(stats_view(sorted@.insert(p as int, entry)) =~= stats_view(sorted@).insert(
                p as int,
                entry@,
            ));
        }
        sorted.insert(p, entry);
        i += 1;
    }
    proof {
        let all = stats_view(stats@);
        assert(all.take(stats.len() as int) =~= all);
    }
    sorted
}

/// A sum as the running tallies hold it: exact below 2^31, and 2^31 for
/// anything larger.
pub open spec fn saturated(x: int) -> int {
    if x < 2147483648 {
        x
    } else {
        2147483648
    }
}

/// The running tallies of an aggregation: one entry per area seen so far, in
/// the order seen, with the marks of the areas that the current commit has
/// touched.
struct Ledger {
    paths: Vec<String>,
    counts: Vec<usize>,
    adds: Vec<i64>,
    dels: Vec<i64>,
    seen: Vec<bool>,
    total_add: i64,
    total_del: i64,
}

impl Ledger {
    /// The tallies account for the commits `done` and for the file changes
    /// `current` of the commit that is being read.
    spec fn holds(&self, done: Seq<CommitModel>, current: Seq<FileChangeModel>) -> bool {
        let files = all_files(done) + current;
        &&& self.counts.len() == self.paths.len()
        &&& self.adds.len() == self.paths.len()
        &&& self.dels.len() == self.paths.len()
        &&& self.seen.len() == self.paths.len()
        &&& strings_view(self.paths@) == areas_seen(files)
        &&& self.total_add == saturated(sum_additions(files))
        &&& self.total_del == saturated(sum_deletions(files))
        &&& forall|i: int|
            0 <= i < self.paths.len() ==> {
                &&& self.adds[i] == saturated(additions_in(files, (#[trigger] self.paths[i])@))
                &&& self.dels[i] == saturated(deletions_in(files, self.paths[i]@))
                &&& self.counts[i] == commits_touching(done, self.paths[i]@)
                &&& self.seen[i] == touches(current, self.paths[i]@)
            }
        &&& forall|i: int, j: int|
            0 <= i < j < self.paths.len() ==> (#[trigger] self.paths[i])@ != (
            #[trigger] self.paths[j])@
    }

    fn new() -> (ledger: Ledger)
        ensures
            ledger.holds(Seq::empty(), Seq::empty()),
    {
        let ledger = Ledger {
            paths: Vec::new(),
            counts: Vec::new(),
            adds: Vec::new(),
            dels: Vec::new(),
            seen: Vec::new(),
            total_add: 0,
            total_del: 0,
        };
        proof {
            let files = all_files(Seq::empty()) + Seq::<FileChangeModel>::empty();
            assert(files =~= Seq::empty());
            assert(strings_view(ledger.paths@) =~= areas_seen(files));
        }
        ledger
    }

    /// The entry of `area`, or the number of entries where it has none.
    fn find(&self, area: &String) -> (idx: usize)
        ensures
            idx <= self.paths.len(),
            idx < self.paths.len() ==> self.paths[idx as int]@ == area@,
            forall|i: int| 0 <= i < idx ==> (#[trigger] self.paths[i])@ != area@,
    {
        let mut i: usize = 0;
        while i < self.paths.len() && !(self.paths[i] == *area)
            invariant
                i <= self.paths.len(),
                forall|k: int| 0 <= k < i ==> (#[trigger] self.paths[k])@ != area@,
            decreases self.paths.len() - i,
        {
            i += 1;
        }
        i
    }

    /// Adds one file change to the sums of its area and to the totals, and
    /// marks the area as touched by the current commit.
    fn record(
        &mut self,
        change: &FileChange,
        Ghost(done): Ghost<Seq<CommitModel>>,
        Ghost(current): Ghost<Seq<FileChangeModel>>,
    )
        requires
            old(self).holds(done, current),
            change.additions >= 0,
            change.deletions >= 0,
        ensures
            final(self).holds(done, current.push(change@)),
    {
        let ghost files = all_files(done) + current;
        let ghost after = all_files(done) + current.push(change@);
        let ghost a = area_of(change@.path);
        let ghost before_paths = strings_view(self.paths@);
        let area = extract_area(change.path.as_str());
        let idx = self.find(&area);
        proof {
            assert(after =~= files.push(change@));
            assert(after.drop_last() =~= files);
            lemma_seen_iff_touched(files, a);
            lemma_touches_concat(all_files(done), current, a);
            if idx == self.paths.len() {
                assert(!before_paths.contains(a)) by {
                    if before_paths.contains(a) {
                        let i = choose|i: int| 0 <= i < before_paths.len() && before_paths[i] == a;
                        assert(self.paths[i]@ == a);
                    }
                }
                lemma_untouched_is_empty(files, a);
                lemma_untouched_by_commits(done, a);
            } else {
                assert(before_paths[idx as int] == a);
            }
        }
        if idx == self.paths.len() {
            self.paths.push(area);
            self.counts.push(0);
            self.adds.push(0);
            self.dels.push(0);
            self.seen.push(false);
        }
        proof {
            assert(strings_view(self.paths@) =~= areas_seen(after));
        }
        let add: i64 = self.adds[idx] + change.additions as i64;
        let del: i64 = self.dels[idx] + change.deletions as i64;
        self.adds.set(idx, if add > 2147483648 { 2147483648 } else { add });
        self.dels.set(idx, if del > 2147483648 { 2147483648 } else { del });
        self.seen.set(idx, true);
        let total_add: i64 = self.total_add + change.additions as i64;
        let total_del: i64 = self.total_del + change.deletions as i64;
        self.total_add = if total_add > 2147483648 { 2147483648 } else { total_add };
        self.total_del = if total_del > 2147483648 { 2147483648 } else { total_del };
        proof {
            assert forall|i: int| 0 <= i < self.paths.len() implies {
                &&& self.adds[i] == saturated(additions_in(after, (#[trigger] self.paths[i])@))
                &&& self.dels[i] == saturated(deletions_in(after, self.paths[i]@))
                &&& self.counts[i] == commits_touching(done, self.paths[i]@)
                &&& self.seen[i] == touches(current.push(change@), self.paths[i]@)
            } by {
                lemma_touches_push(current, change@, self.paths[i]@);
                if i != idx {
                    assert(self.paths[i]@ != self.paths[idx as int]@);
                }
            }
        }
    }

    /// Counts the commit that has just been read once for each area that it
    /// touched, and clears the marks.
    fn close_commit(&mut self, Ghost(done): Ghost<Seq<CommitModel>>, Ghost(c): Ghost<CommitModel>)
        requires
            old(self).holds(done, c.files),
            done.len() < usize::MAX,
        ensures
            final(self).holds(done.push(c), Seq::empty()),
    {
        let ghost files = all_files(done) + c.files;
        let ghost before = *self;
        let n = self.paths.len();
        let mut i: usize = 0;
        while i < n
            invariant
                i <= n,
                n == self.paths@.len(),
                self.counts@.len() == n,
                self.seen@.len() == n,
                self.paths@ == before.paths@,
                self.adds@ == before.adds@,
                self.dels@ == before.dels@,
                self.total_add == before.total_add,
                self.total_del == before.total_del,
                before.holds(done, c.files),
                done.len() < usize::MAX,
                forall|j: int|
                    0 <= j < i ==> {
                        &&& (#[trigger] self.counts@[j]) == commits_touching(
                            done.push(c),
                            before.paths@[j]@,
                        )
                        &&& !self.seen@[j]
                    },
                forall|j: int| i <= j < n ==> (#[trigger] self.counts@[j]) == before.counts@[j],
                forall|j: int| i <= j < n ==> (#[trigger] self.seen@[j]) == before.seen@[j],
            decreases n - i,
        {
            proof {
                assert(done.push(c).drop_last() =~= done);
                lemma_commits_touching_bound(done, before.paths@[i as int]@);
                assert(before.counts@[i as int] == commits_touching(done, before.paths@[i as int]@));
                assert(before.seen@[i as int] == touches(c.files, before.paths@[i as int]@));
                assert(self.counts@[i as int] == before.counts@[i as int]);
                assert(self.seen@[i as int] == before.seen@[i as int]);
                assert(done.push(c).last() == c);
                assert(commits_touching(done.push(c), before.paths@[i as int]@)
                    == commits_touching(done, before.paths@[i as int]@) + if touches(
                    c.files,
                    before.paths@[i as int]@,
                ) {
                    1int
                } else {
                    0int
                });
            }
            if self.seen[i] {
                let count: usize = self.counts[i] + 1;
                self.counts.set(i, count);
                self.seen.set(i, false);
            }
            i += 1;
        }
        proof {
            let closed = all_files(done.push(c)) + Seq::<FileChangeModel>::empty();
            assert(done.push(c).drop_last() =~= done);
            assert(closed =~= files);
            assert forall|j: int| 0 <= j < self.paths@.len() implies {
                &&& self.adds@[j] == saturated(additions_in(closed, (#[trigger] self.paths@[j])@))
                &&& self.dels@[j] == saturated(deletions_in(closed, self.paths@[j]@))
                &&& self.counts@[j] == commits_touching(done.push(c), self.paths@[j]@)
                &&& self.seen@[j] == touches(Seq::<FileChangeModel>::empty(), self.paths@[j]@)
            } by {
                assert(before.paths@[j] == self.paths@[j]);
                assert(self.counts@[j] == commits_touching(done.push(c), before.paths@[j]@));
            }
        }
    }
}

/// Whether no file change of the history counts a negative number of lines.
pub fn counts_are_valid(commits: &Vec<Commit>) -> (ok: bool)
    ensures
        ok == commits_wf(commits_view(commits@)),
{
    let ghost history = commits_view(commits@);
    let mut k: usize = 0;
    while k < commits.len()
        invariant
            k <= commits.len(),
            history == commits_view(commits@),
            forall|i: int| 0 <= i < k ==> files_wf((#[trigger] history[i]).files),
        decreases commits.len() - k,
    {
        let files = &commits[k].files_changed;
        let ghost changes = history[k as int].files;
        let mut m: usize = 0;
        while m < files.len()
            invariant
                m <= files.len(),
                k < commits.len(),
                history == commits_view(commits@),
                changes == history[k as int].files,
                changes == files_view(files@),
                forall|j: int|
                    0 <= j < m ==> (#[trigger] changes[j]).additions >= 0 && changes[j].deletions
                        >= 0,
            decreases files.len() - m,
        {
            if files[m].additions < 0 || files[m].deletions < 0 {
                proof {
                    assert(changes[m as int] == files[m as int]@);
                    assert(!files_wf(history[k as int].files));
                }
                return false;
            }
            proof {
                assert(changes[m as int] == files[m as int]@);
            }
            m += 1;
        }
        k += 1;
    }
    true
}

/// Groups the file changes of a history by area. Gives the statistics of
/// every area, ordered by falling commit count (areas with the same count in
/// the order in which they first occur), and the added and removed lines of
/// the whole history. Fails where a total does not fit in `i32`.
pub fn aggregate(commits: &Vec<Commit>) -> (r: Result<(Vec<AreaStats>, i32, i32), SummaryError>)
    requires
        commits_wf(commits_view(commits@)),
    ensures
        r is Err <==> sum_additions(all_files(commits_view(commits@))) > i32::MAX || sum_deletions(
            all_files(commits_view(commits@)),
        ) > i32::MAX,
        r is Err ==> r->Err_0 is TotalsOutOfRange,
        r is Ok ==> {
            &&& stats_view(r->Ok_0.0@) == sort_by_count(
                stats_in_order_seen(commits_view(commits@)),
            )
            &&& r->Ok_0.1 == sum_additions(all_files(commits_view(commits@)))
            &&& r->Ok_0.2 == sum_deletions(all_files(commits_view(commits@)))
        },
{
    let ghost history = commits_view(commits@);
    let mut ledger = Ledger::new();
    let mut k: usize = 0;
    while k < commits.len()
        invariant
            k <= commits.len(),
            history == commits_view(commits@),
            commits_wf(history),
            ledger.holds(history.take(k as int), Seq::empty()),
        decreases commits.len() - k,
    {
        let commit = &commits[k];
        let ghost done = history.take(k as int);
        let ghost c = history[k as int];
        let mut m: usize = 0;
        proof {
            assert(c == commit@);
            assert(c.files.take(0) =~= Seq::empty());
        }
        while m < commit.files_changed.len()
            invariant
                m <= commit.files_changed.len(),
                c == commit@,
                files_wf(c.files),
                ledger.holds(done, c.files.take(m as int)),
            decreases commit.files_changed.len() - m,
        {
            let change = &commit.files_changed[m];
            proof {
                assert(c.files[m as int] == change@);
                assert(c.files.take(m + 1) =~= c.files.take(m as int).push(change@));
            }
            ledger.record(change, Ghost(done), Ghost(c.files.take(m as int)));
            m += 1;
        }
        proof {
            assert(c.files.take(commit.files_changed.len() as int) =~= c.files);
            assert(history.take(k + 1) =~= done.push(c));
        }
        ledger.close_commit(Ghost(done), Ghost(c));
        k += 1;
    }
    proof {
        assert(history.take(commits.len() as int) =~= history);
        assert(all_files(history) + Seq::<FileChangeModel>::empty() =~= all_files(history));
        lemma_all_files_wf(history);
    }
    if ledger.total_add > 2147483647 || ledger.total_del > 2147483647 {
        return Err(SummaryError::TotalsOutOfRange);
    }
    let mut stats: Vec<AreaStats> = Vec::new();
    let mut i: usize = 0;
    while i < ledger.paths.len()
        invariant
            i <= ledger.paths.len(),
            history == commits_view(commits@),
            ledger.holds(history, Seq::empty()),
            files_wf(all_files(history)),
            all_files(history) + Seq::<FileChangeModel>::empty() == all_files(history),
            ledger.total_add <= 2147483647,
            ledger.total_del <= 2147483647,
            stats_view(stats@) == stats_in_order_seen(history).take(i as int),
        decreases ledger.paths.len() - i,
    {
        proof {
            lemma_area_within_total(all_files(history), ledger.paths[i as int]@);
        }
        let entry = AreaStats {
            path: ledger.paths[i].clone(),
            commit_count: ledger.counts[i],
            additions: ledger.adds[i] as i32,
            deletions: ledger.dels[i] as i32,
        };
        proof {
            let all = stats_in_order_seen(history);
            assert(strings_view(ledger.paths@)[i as int] == ledger.paths[i as int]@);
            assert(entry@ == area_stats_of(history, ledger.paths[i as int]@));
            assert(all.take(i + 1) =~= all.take(i as int).push(entry@));
            assert(stats_view(stats@.push(entry)) =~= stats_view(stats@).push(entry@));
        }
        stats.push(entry);
        i += 1;
    }
    proof {
        let all = stats_in_order_seen(history);
        assert(all.take(ledger.paths.len() as int) =~= all);
        lemma_area_within_total(all_files(history), Seq::empty());
    }
    let sorted = sort_by_commit_count(&stats);
    Ok((sorted, ledger.total_add as i32, ledger.total_del as i32))
}

} // verus!
