use vstd::prelude::*;

verus! {

/// Lines added to and removed from one file by one commit.
#[derive(Debug, Clone)]
pub struct FileChange {
    pub path: String,
    pub additions: i32,
    pub deletions: i32,
}

/// One revision of the history, with the files it touched.
#[derive(Debug, Clone)]
pub struct Commit {
    pub hash: String,
    pub short_hash: String,
    pub message: String,
    pub timestamp: String,
    pub files_changed: Vec<FileChange>,
}

/// What happened in one area (a top-level directory, or the root).
#[derive(Debug, Clone)]
pub struct AreaStats {
    pub path: String,
    pub commit_count: usize,
    pub additions: i32,
    pub deletions: i32,
}

/// The whole summary: what every renderer and the synopsis prompt read.
#[derive(Debug)]
pub struct GitSummaryData {
    pub branch: String,
    pub date_range: String,
    pub commits: Vec<Commit>,
    pub area_stats: Vec<AreaStats>,
    pub total_additions: i32,
    pub total_deletions: i32,
}

/// A file change as the contracts see it.
pub ghost struct FileChangeModel {
    pub path: Seq<char>,
    pub additions: int,
    pub deletions: int,
}

/// A commit as the contracts see it.
pub ghost struct CommitModel {
    pub hash: Seq<char>,
    pub short_hash: Seq<char>,
    pub message: Seq<char>,
    pub timestamp: Seq<char>,
    pub files: Seq<FileChangeModel>,
}

/// The statistics of one area as the contracts see them.
pub ghost struct AreaStatsModel {
    pub path: Seq<char>,
    pub commit_count: int,
    pub additions: int,
    pub deletions: int,
}

/// A summary as the contracts see it.
pub ghost struct SummaryModel {
    pub branch: Seq<char>,
    pub date_range: Seq<char>,
    pub commits: Seq<CommitModel>,
    pub area_stats: Seq<AreaStatsModel>,
    pub total_additions: int,
    pub total_deletions: int,
}

impl View for FileChange {
    type V = FileChangeModel;

    open spec fn view(&self) -> FileChangeModel {
        FileChangeModel {
            path: self.path@,
            additions: self.additions as int,
            deletions: self.deletions as int,
        }
    }
}

impl View for Commit {
    type V = CommitModel;

    open spec fn view(&self) -> CommitModel {
        CommitModel {
            hash: self.hash@,
            short_hash: self.short_hash@,
            message: self.message@,
            timestamp: self.timestamp@,
            files: files_view(self.files_changed@),
        }
    }
}

impl View for AreaStats {
    type V = AreaStatsModel;

    open spec fn view(&self) -> AreaStatsModel {
        AreaStatsModel {
            path: self.path@,
            commit_count: self.commit_count as int,
            additions: self.additions as int,
            deletions: self.deletions as int,
        }
    }
}

impl View for GitSummaryData {
    type V = SummaryModel;

    open spec fn view(&self) -> SummaryModel {
        SummaryModel {
            branch: self.branch@,
            date_range: self.date_range@,
            commits: commits_view(self.commits@),
            area_stats: stats_view(self.area_stats@),
            total_additions: self.total_additions as int,
            total_deletions: self.total_deletions as int,
        }
    }
}

/// The texts of a list of strings.
pub open spec fn strings_view(v: Seq<String>) -> Seq<Seq<char>> {
    v.map_values(|s: String| s@)
}

/// The file changes of a list, each by its view.
pub open spec fn files_view(v: Seq<FileChange>) -> Seq<FileChangeModel> {
    v.map_values(|f: FileChange| f@)
}

/// The commits of a list, each by its view.
pub open spec fn commits_view(v: Seq<Commit>) -> Seq<CommitModel> {
    v.map_values(|c: Commit| c@)
}

/// The area statistics of a list, each by its view.
pub open spec fn stats_view(v: Seq<AreaStats>) -> Seq<AreaStatsModel> {
    v.map_values(|a: AreaStats| a@)
}

/// No file change counts a negative number of lines.
pub open spec fn files_wf(files: Seq<FileChangeModel>) -> bool {
    forall|i: int| 0 <= i < files.len() ==> (#[trigger] files[i]).additions >= 0 && files[i].deletions >= 0
}

/// No file change of any commit counts a negative number of lines.
pub open spec fn commits_wf(commits: Seq<CommitModel>) -> bool {
    forall|i: int| 0 <= i < commits.len() ==> files_wf((#[trigger] commits[i]).files)
}

} // verus!
