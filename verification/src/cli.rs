use vstd::prelude::*;
use vstd::string::*;
use crate::repo::opt_string_view;

verus! {

/// How a summary is rendered.
#[derive(Debug, Clone)]
pub enum OutputFormat {
    Pretty,
    Markdown,
    Json,
}

/// What the user asked for.
#[derive(Debug)]
pub struct Args {
    /// One day to summarize.
    pub date: Option<String>,
    /// Start of the time window.
    pub since: Option<String>,
    /// End of the time window.
    pub until: Option<String>,
    /// Branch to summarize.
    pub branch: String,
    pub format: OutputFormat,
    /// Show file lists and detailed statistics.
    pub verbose: bool,
    /// Show the synopsis only.
    pub quiet: bool,
    /// Path of the working copy.
    pub repo: String,
    /// Leave the synopsis out.
    pub no_llm: bool,
}

/// The bounds of the time window: the whole of the one day that was named,
/// else the two bounds as given.
pub open spec fn resolved_range(
    date: Option<Seq<char>>,
    since: Option<Seq<char>>,
    until: Option<Seq<char>>,
) -> (Option<Seq<char>>, Option<Seq<char>>) {
    match date {
        Some(day) => (Some(day + " 00:00:00"@), Some(day + " 23:59:59"@)),
        None => (since, until),
    }
}

fn copy_of(text: &Option<String>) -> (r: Option<String>)
    ensures
        opt_string_view(r) == opt_string_view(*text),
{
    match text {
        Some(s) => Some(s.clone()),
        None => None,
    }
}

impl Args {
    /// The bounds of the time window to query.
    pub fn resolve_date_range(&self) -> (r: (Option<String>, Option<String>))
        ensures
            (opt_string_view(r.0), opt_string_view(r.1)) == resolved_range(
                opt_string_view(self.date),
                opt_string_view(self.since),
                opt_string_view(self.until),
            ),
    {
        match &self.date {
            Some(day) => {
                let mut since = day.clone();
                since.append(" 00:00:00");
                let mut until = day.clone();
                until.append(" 23:59:59");
                (Some(since), Some(until))
            },
            None => (copy_of(&self.since), copy_of(&self.until)),
        }
    }
}

} // verus!
