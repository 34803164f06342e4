//! The refresh worker: a two-state, one-fetch-at-a-time pipeline, and
//! the reconciliation of a resolved snapshot against the selection that
//! is current when it arrives.
//!
//! The slow work itself — querying the scheduler off-thread — is the
//! shell's business. The shell polls its result handle once per cycle
//! and passes whatever resolved to [`ContentUpdater::tick`]; `tick`
//! decides, and the decision is what is verified here.

use vstd::prelude::*;

use crate::job::{spec_is_terminal, Job, JobView};

verus! {

/// The output of one completed background fetch: the merged job list,
/// the detail and log text blocks, and the job that was selected when
/// the fetch was launched.
pub struct Content {
    pub job: Option<Job>,
    pub job_list: Vec<Job>,
    pub details_text: String,
    pub log_text: String,
}

/// The mathematical value of a [`Content`].
pub struct ContentView {
    pub job: Option<JobView>,
    pub job_list: Seq<JobView>,
    pub details_text: Seq<char>,
    pub log_text: Seq<char>,
}

/// The view of an optional job record.
pub open spec fn spec_opt_job_view(j: Option<Job>) -> Option<JobView> {
    match j {
        Option::Some(x) => Option::Some(x@),
        Option::None => Option::None,
    }
}

impl View for Content {
    type V = ContentView;

    open spec fn view(&self) -> ContentView {
        ContentView {
            job: spec_opt_job_view(self.job),
            job_list: self.job_list.deep_view(),
            details_text: self.details_text@,
            log_text: self.log_text@,
        }
    }
}

impl Content {
    pub fn new(
        job: Option<Job>,
        job_list: Vec<Job>,
        details_text: String,
        log_text: String,
    ) -> (r: Self)
        ensures
            r@.job == spec_opt_job_view(job),
            r@.job_list == job_list.deep_view(),
            r@.details_text == details_text@,
            r@.log_text == log_text@,
    {
        Self { job, job_list, details_text, log_text }
    }
}

/// The placeholder shown until the next resolved fetch.
pub open spec fn spec_loading_text() -> Seq<char> {
    "loading..."@
}

/// The static detail block synthesized for a job in a terminal state,
/// from the record fields themselves.
pub open spec fn spec_no_info_text(j: JobView) -> Seq<char> {
    "Job id: "@ + j.id + "\nJob name: "@ + j.name + "\nJob status: "@ + j.status.spec_name()
        + "\nTime used: "@ + j.time + "\nPartition: "@ + j.partition + "\nNodes: "@
        + crate::strutil::spec_dec(j.nodes as nat) + "\nWorkdir: "@ + j.workdir + "\nCommand: "@
        + j.command
}

pub open spec fn spec_no_info_log() -> Seq<char> {
    "Slurm has no database entry of the output file for completed jobs."@
}

/// What reconciliation does to a snapshot, given the job selected when
/// the snapshot arrives:
/// - another job is selected now: the snapshot's detail and log text
///   are replaced by the loading placeholder, never shown;
/// - the same job, now in a terminal state: a static detail block is
///   synthesized from the record itself;
/// - otherwise the snapshot passes through unchanged.
/// The job list is never touched.
pub open spec fn spec_reconcile(job: Option<JobView>, c: ContentView) -> ContentView {
    match job {
        Option::None => c,
        Option::Some(nj) => match c.job {
            Option::None => c,
            Option::Some(oj) => {
                if nj.id != oj.id {
                    ContentView { details_text: spec_loading_text(), log_text: spec_loading_text(), ..c }
                } else if spec_is_terminal(nj.status) {
                    ContentView { details_text: spec_no_info_text(oj), log_text: spec_no_info_log(), ..c }
                } else {
                    c
                }
            }
        },
    }
}

/// Replace both text blocks by the loading placeholder.
pub fn set_content_loading(content: &mut Content)
    ensures
        final(content)@ == (ContentView {
            details_text: spec_loading_text(),
            log_text: spec_loading_text(),
            ..old(content)@
        }),
{
    content.details_text = String::from_str("loading...");
    content.log_text = String::from_str("loading...");
}

/// Replace the text blocks by the synthesized final-state block of the
/// snapshot's own job.
pub fn set_content_no_info(content: &mut Content)
    requires
        old(content).job is Some,
    ensures
        final(content)@ == (ContentView {
            details_text: spec_no_info_text(old(content)@.job.unwrap()),
            log_text: spec_no_info_log(),
            ..old(content)@
        }),
{
    let j = match &content.job {
        Some(j) => j,
        None => {
            proof {
                assert(false);
            }
            return ;
        }
    };
    let mut text = String::from_str("Job id: ");
    text.append(j.id.as_str());
    text.append("\nJob name: ");
    text.append(j.name.as_str());
    text.append("\nJob status: ");
    let status_name = j.status.name();
    text.append(status_name.as_str());
    text.append("\nTime used: ");
    text.append(j.time.as_str());
    text.append("\nPartition: ");
    text.append(j.partition.as_str());
    text.append("\nNodes: ");
    let nodes_text = crate::strutil::u64_to_string(j.nodes as u64);
    text.append(nodes_text.as_str());
    text.append("\nWorkdir: ");
    text.append(j.workdir.as_str());
    text.append("\nCommand: ");
    text.append(j.command.as_str());
    content.details_text = text;
    content.log_text = String::from_str(
        "Slurm has no database entry of the output file for completed jobs.",
    );
}

/// Reconcile a resolved snapshot with the currently selected job, as
/// `spec_reconcile` describes. Stale detail text for a job the user has
/// moved away from is never kept.
pub fn update_job_content(job: Option<Job>, content: &mut Content)
    ensures
        final(content)@ == spec_reconcile(spec_opt_job_view(job), old(content)@),
{
    let new_job = match &job {
        Some(j) => j,
        None => {
            return ;
        }
    };
    let old_id: String = match &content.job {
        Some(j) => j.id.clone(),
        None => {
            return ;
        }
    };
    if !crate::strutil::str_eq_str(new_job.id.as_str(), old_id.as_str()) {
        set_content_loading(content);
    } else {
        if new_job.is_completed() {
            set_content_no_info(content);
        }
    }
}

/// The refresh worker's state: `fetching` says whether a background
/// fetch is outstanding. There is never more than one.
pub struct ContentUpdater {
    pub fetching: bool,
}

impl ContentUpdater {
    pub fn new() -> (r: Self)
        ensures
            !r.fetching,
    {
        Self { fetching: false }
    }

    /// One refresh cycle. `resolved` is what the shell's poll of the
    /// outstanding result handle returned; `job` is the currently
    /// selected record, recorded into the next fetch.
    ///
    /// Returns `(start, output)`: `start` tells the shell to launch a
    /// new background fetch, `output` is the reconciled snapshot to
    /// apply, if one resolved.
    ///
    /// While a fetch is outstanding and unresolved, nothing is started
    /// and nothing is returned — two ticks in immediate succession never
    /// start a second concurrent fetch.
    pub fn tick(&mut self, resolved: Option<Content>, job: Option<Job>) -> (r: (
        bool,
        Option<Content>,
    ))
        requires
            !old(self).fetching ==> resolved is None,
        ensures
            final(self).fetching,
            !old(self).fetching ==> r.0 && r.1 is None,
            old(self).fetching && resolved is None ==> !r.0 && r.1 is None,
            old(self).fetching && resolved is Some ==> r.0 && r.1 is Some && r.1.unwrap()@
                == spec_reconcile(spec_opt_job_view(job), resolved.unwrap()@),
    {
        if !self.fetching {
            self.fetching = true;
            (true, None)
        } else {
            match resolved {
                None => (false, None),
                Some(mut content) => {
                    update_job_content(job, &mut content);
                    (true, Some(content))
                }
            }
        }
    }
}

} // verus!
