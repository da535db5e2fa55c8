use vstd::prelude::*;
use vstd::string::*;
use crate::decimal::{decimal_string, decimal_text, signed_string, signed_text};
use crate::model::{
    AreaStats, AreaStatsModel, Commit, CommitModel, GitSummaryData, SummaryModel, commits_view,
    stats_view,
};

verus! {

/// What the prompt asks for.
pub open spec fn prompt_task() -> Seq<char> {
    "Summarize the following git commits as a bulleted list. "@
        + "Each bullet should describe a theme or area of work. "@
        + "Group related changes together conceptually. "@
        + "Use simple '- ' for bullets. Keep each bullet to 1-2 sentences. "@
        + "Do not list individual commits or mention specific authors.\n\n"@
}

/// The line of the prompt for one area.
pub open spec fn prompt_area_line(a: AreaStatsModel) -> Seq<char> {
    "  "@ + a.path + " - "@ + decimal_text(a.commit_count as nat) + " commits, +"@ + signed_text(
        a.additions,
    ) + "/-"@ + signed_text(a.deletions) + " lines\n"@
}

/// The lines of the prompt for the areas, in order.
pub open spec fn prompt_area_lines(stats: Seq<AreaStatsModel>) -> Seq<char>
    decreases stats.len(),
{
    if stats.len() == 0 {
        Seq::empty()
    } else {
        prompt_area_lines(stats.drop_last()) + prompt_area_line(stats.last())
    }
}

/// The line of the prompt for one commit.
pub open spec fn prompt_message_line(c: CommitModel) -> Seq<char> {
    "  - "@ + c.message + "\n"@
}

/// The lines of the prompt for the commits, in order.
pub open spec fn prompt_message_lines(commits: Seq<CommitModel>) -> Seq<char>
    decreases commits.len(),
{
    if commits.len() == 0 {
        Seq::empty()
    } else {
        prompt_message_lines(commits.drop_last()) + prompt_message_line(commits.last())
    }
}

/// The prompt for a synopsis: the task, then branch, time window and number
/// of commits, then the areas, then the subject of every commit.
pub open spec fn prompt_text(data: SummaryModel) -> Seq<char> {
    prompt_task() + "Branch: "@ + data.branch + "\nDate range: "@ + data.date_range
        + "\nTotal commits: "@ + decimal_text(data.commits.len()) + "\n\n"@ + "Areas changed:\n"@
        + prompt_area_lines(data.area_stats) + "\nCommit messages:\n"@ + prompt_message_lines(
        data.commits,
    )
}

fn area_line(a: &AreaStats) -> (line: String)
    ensures
        line@ == prompt_area_line(a@),
{
    let mut line = String::from_str("  ");
    line.append(a.path.as_str());
    line.append(" - ");
    line.append(decimal_string(a.commit_count as u64).as_str());
    line.append(" commits, +");
    line.append(signed_string(a.additions).as_str());
    line.append("/-");
    line.append(signed_string(a.deletions).as_str());
    line.append(" lines\n");
    line
}

fn area_lines(stats: &Vec<AreaStats>) -> (lines: String)
    ensures
        lines@ == prompt_area_lines(stats_view(stats@)),
{
    let mut lines = String::new();
    let mut i: usize = 0;
    while i < stats.len()
        invariant
            i <= stats.len(),
            lines@ == prompt_area_lines(stats_view(stats@).take(i as int)),
        decreases stats.len() - i,
    {
        let line = area_line(&stats[i]);
        proof {
            let all = stats_view(stats@);
            assert(all.take(i + 1).drop_last() =~= all.take(i as int));
            assert(all.take(i + 1).last() == stats[i as int]@);
        }
        lines.append(line.as_str());
        i += 1;
    }
    proof {
        let all = stats_view(stats@);
        assert(all.take(stats.len() as int) =~= all);
    }
    lines
}

fn message_lines(commits: &Vec<Commit>) -> (lines: String)
    ensures
        lines@ == prompt_message_lines(commits_view(commits@)),
{
    let mut lines = String::new();
    let mut i: usize = 0;
    while i < commits.len()
        invariant
            i <= commits.len(),
            lines@ == prompt_message_lines(commits_view(commits@).take(i as int)),
        decreases commits.len() - i,
    {
        let mut line = String::from_str("  - ");
        line.append(commits[i].message.as_str());
        line.append("\n");
        proof {
            let all = commits_view(commits@);
            assert(all.take(i + 1).drop_last() =~= all.take(i as int));
            assert(all.take(i + 1).last() == commits[i as int]@);
        }
        lines.append(line.as_str());
        i += 1;
    }
    proof {
        let all = commits_view(commits@);
        assert(all.take(commits.len() as int) =~= all);
    }
    lines
}

/// Who asks for a synopsis: the key to ask with and the model to ask.
pub struct Summarizer {
    api_key: String,
    model: String,
}

impl Summarizer {
    /// A summarizer that asks the given model with the given key.
    pub fn new(api_key: String, model: String) -> (s: Summarizer)
        ensures
            s.key_view() == api_key@,
            s.model_view() == model@,
    {
        Summarizer { api_key, model }
    }

    /// The key to ask with.
    pub closed spec fn key_view(&self) -> Seq<char> {
        self.api_key@
    }

    /// The model to ask.
    pub closed spec fn model_view(&self) -> Seq<char> {
        self.model@
    }

    /// The key to ask with.
    pub fn api_key(&self) -> (key: &str)
        ensures
            key@ == self.key_view(),
    {
        self.api_key.as_str()
    }

    /// The model to ask.
    pub fn model(&self) -> (model: &str)
        ensures
            model@ == self.model_view(),
    {
        self.model.as_str()
    }

    /// The prompt that asks for a synopsis of a summary.
    pub fn build_prompt(&self, data: &GitSummaryData) -> (prompt: String)
        ensures
            prompt@ == prompt_text(data@),
    {
        let mut prompt = String::from_str(
            "Summarize the following git commits as a bulleted list. ",
        );
        prompt.append("Each bullet should describe a theme or area of work. ");
        prompt.append("Group related changes together conceptually. ");
        prompt.append("Use simple '- ' for bullets. Keep each bullet to 1-2 sentences. ");
        prompt.append("Do not list individual commits or mention specific authors.\n\n");
        prompt.append("Branch: ");
        prompt.append(data.branch.as_str());
        prompt.append("\nDate range: ");
        prompt.append(data.date_range.as_str());
        prompt.append("\nTotal commits: ");
        prompt.append(decimal_string(data.commits.len() as u64).as_str());
        prompt.append("\n\n");
        prompt.append("Areas changed:\n");
        prompt.append(area_lines(&data.area_stats).as_str());
        prompt.append("\nCommit messages:\n");
        prompt.append(message_lines(&data.commits).as_str());
        prompt
    }
}

} // verus!
