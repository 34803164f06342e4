//! The job-action executor's decisions. Every dispatched job action is
//! turned into exactly one effect for the shell to perform — an external
//! call, a dialog, or nothing — with every check made here, before any
//! call: a missing selection, an unresolvable log path, or a job in the
//! wrong state aborts the action with a message and no partial change.

use vstd::prelude::*;

use crate::dispatch::{Action, JobActions, MessageKind};
use crate::job::{spec_is_terminal, JobStatus};
use crate::joblist::JobList;
use crate::options::UserOptionsList;
use crate::strutil::{
    lemma_split_len, replace_all, spec_replace_all, spec_split, spec_trim, split_str, str_eq_str,
    trim_str,
};

verus! {

/// The one effect that follows from a dispatched job action.
#[derive(Debug)]
pub enum JobEffect {
    /// Show a dismissible message.
    ShowMessage { text: String, kind: MessageKind },
    /// Open a yes/no dialog whose affirmative branch re-dispatches the
    /// stored action.
    AskConfirmation { message: String, action: Action },
    /// Invoke the external cancel command for this job id.
    RunCancel { job_id: String },
    /// Open this path in the external editor.
    OpenEditor { path: String },
    /// Hand this command to the shell for execution after exit.
    SetExitCommand { command: String },
    /// Query the external node list of this job id.
    QueryNodes { job_id: String },
}

/// The confirmation prompt for cancelling a job.
pub open spec fn spec_kill_prompt(name: Seq<char>, id: Seq<char>) -> Seq<char> {
    "Kill job "@ + name + " ("@ + id + ")?"@
}

/// Decide what one job action does, from the collection's state and the
/// configuration alone.
///
/// - Cancelling asks for confirmation first when the configuration says
///   so; the collection itself is never updated optimistically.
/// - Opening the log needs a record with an output path; opening the
///   submission script needs a real, non-placeholder command, and for a
///   finished job only reports the command instead of opening it.
/// - The working-directory and remote-shell actions produce a command
///   for the shell to run after exit; the remote shell needs a running
///   job and first asks for its node list.
pub fn decide_job_action(
    action: JobActions,
    options: &UserOptionsList,
    joblist: &JobList,
) -> (r: JobEffect)
    requires
        joblist.wf(),
    ensures
        match action {
            JobActions::Kill(job) => if options.confirm_before_kill {
                r matches JobEffect::AskConfirmation { message, action: a } && ({
                    &&& message@ == spec_kill_prompt(job@.name, job@.id)
                    &&& a == Action::JobOption(JobActions::KillConfirmed(job))
                })
            } else {
                r matches JobEffect::RunCancel { job_id } && job_id@ == job@.id
            },
            JobActions::KillConfirmed(job) => r matches JobEffect::RunCancel { job_id }
                && job_id@ == job@.id,
            JobActions::OpenLog(_) => if joblist.jobs@.len() == 0 {
                r matches JobEffect::ShowMessage { text, kind } && text@ == "No job selected"@
                    && kind == MessageKind::Error
            } else {
                let sel = joblist.jobs.deep_view()[joblist.selected as int];
                if sel.output is Some {
                    r matches JobEffect::OpenEditor { path } && path@ == sel.output.unwrap()
                } else {
                    r matches JobEffect::ShowMessage { text, kind } && text@
                        == "No log file found"@ && kind == MessageKind::Error
                }
            },
            JobActions::OpenSubmission(_) => if joblist.jobs@.len() == 0 {
                r matches JobEffect::ShowMessage { text, kind } && text@ == "No job selected"@
                    && kind == MessageKind::Error
            } else {
                let sel = joblist.jobs.deep_view()[joblist.selected as int];
                if sel.command == "(null)"@ || spec_trim(sel.command).len() == 0 {
                    r matches JobEffect::ShowMessage { text, kind } && text@
                        == "No submission script found"@ && kind == MessageKind::Error
                } else if spec_is_terminal(sel.status) {
                    r matches JobEffect::ShowMessage { text, kind } && text@
                        == "Job was submitted with: \n "@ + sel.command && kind
                        == MessageKind::Info
                } else {
                    r matches JobEffect::OpenEditor { path } && path@ == sel.command
                }
            },
            JobActions::GoWorkDir(_) => if joblist.jobs@.len() == 0 {
                r matches JobEffect::ShowMessage { text, kind } && text@ == "No job selected"@
                    && kind == MessageKind::Error
            } else {
                let sel = joblist.jobs.deep_view()[joblist.selected as int];
                r matches JobEffect::SetExitCommand { command } && command@ == "cd "@
                    + sel.workdir
            },
            JobActions::SSH(_) => if joblist.jobs@.len() == 0 {
                r matches JobEffect::ShowMessage { text, kind } && text@ == "No job selected"@
                    && kind == MessageKind::Error
            } else {
                let sel = joblist.jobs.deep_view()[joblist.selected as int];
                if sel.status != JobStatus::Running {
                    r matches JobEffect::ShowMessage { text, kind } && text@ == "Job not running"@
                        && kind == MessageKind::Error
                } else {
                    r matches JobEffect::QueryNodes { job_id } && job_id@ == sel.id
                }
            },
        },
{
    match action {
        JobActions::Kill(job) => {
            if options.confirm_before_kill {
                let mut message = String::from_str("Kill job ");
                message.append(job.name.as_str());
                message.append(" (");
                message.append(job.id.as_str());
                message.append(")?");
                JobEffect::AskConfirmation {
                    message,
                    action: Action::JobOption(JobActions::KillConfirmed(job)),
                }
            } else {
                JobEffect::RunCancel { job_id: job.id }
            }
        }
        JobActions::KillConfirmed(job) => JobEffect::RunCancel { job_id: job.id },
        JobActions::OpenLog(_) => {
            match joblist.get_job() {
                None => no_job_selected(),
                Some(job) => {
                    match &job.output {
                        Some(path) => JobEffect::OpenEditor { path: path.clone() },
                        None => JobEffect::ShowMessage {
                            text: String::from_str("No log file found"),
                            kind: MessageKind::Error,
                        },
                    }
                }
            }
        }
        JobActions::OpenSubmission(_) => {
            match joblist.get_job() {
                None => no_job_selected(),
                Some(job) => {
                    if str_eq_str(job.command.as_str(), "(null)") || trim_str(
                        job.command.as_str(),
                    ).is_empty() {
                        JobEffect::ShowMessage {
                            text: String::from_str("No submission script found"),
                            kind: MessageKind::Error,
                        }
                    } else if job.is_completed() {
                        let mut text = String::from_str("Job was submitted with: \n ");
                        text.append(job.command.as_str());
                        JobEffect::ShowMessage { text, kind: MessageKind::Info }
                    } else {
                        JobEffect::OpenEditor { path: job.command.clone() }
                    }
                }
            }
        }
        JobActions::GoWorkDir(_) => {
            match joblist.get_job() {
                None => no_job_selected(),
                Some(job) => {
                    let mut command = String::from_str("cd ");
                    command.append(job.workdir.as_str());
                    JobEffect::SetExitCommand { command }
                }
            }
        }
        JobActions::SSH(_) => {
            match joblist.get_job() {
                None => no_job_selected(),
                Some(job) => {
                    if !(job.status == JobStatus::Running) {
                        JobEffect::ShowMessage {
                            text: String::from_str("Job not running"),
                            kind: MessageKind::Error,
                        }
                    } else {
                        JobEffect::QueryNodes { job_id: job.id.clone() }
                    }
                }
            }
        }
    }
}

/// The error shown whenever an action needs a selection and none exists.
fn no_job_selected() -> (r: JobEffect)
    ensures
        r matches JobEffect::ShowMessage { text, kind } && text@ == "No job selected"@ && kind
            == MessageKind::Error,
{
    JobEffect::ShowMessage {
        text: String::from_str("No job selected"),
        kind: MessageKind::Error,
    }
}

/// The first node named by a node-list in range or list notation: the
/// brackets dropped, everything after the first dash or comma discarded.
pub open spec fn spec_first_node(s: Seq<char>) -> Seq<char> {
    let flat = spec_replace_all(spec_trim(s), seq!['['], Seq::empty());
    spec_split(spec_split(flat, seq!['-'])[0], seq![','])[0]
}

/// The remote-shell command for the first node of a queried node list.
pub fn ssh_command_from_nodelist(output: &str) -> (r: String)
    ensures
        r@ == "ssh -Y "@ + spec_first_node(output@),
{
    proof {
        reveal_strlit("[");
        reveal_strlit("-");
        reveal_strlit(",");
        reveal_strlit("");
        assert("["@ =~= seq!['[']);
        assert("-"@ =~= seq!['-']);
        assert(","@ =~= seq![',']);
        assert(""@ =~= Seq::<char>::empty());
    }
    let flat = replace_all(trim_str(output), "[", "");
    let dash_parts = split_str(flat.as_str(), "-");
    proof {
        lemma_split_len(flat@, seq!['-']);
        assert(dash_parts.deep_view()[0] == dash_parts@[0]@);
    }
    let comma_parts = split_str(dash_parts[0].as_str(), ",");
    proof {
        lemma_split_len(dash_parts@[0]@, seq![',']);
        assert(comma_parts.deep_view()[0] == comma_parts@[0]@);
    }
    let mut cmd = String::from_str("ssh -Y ");
    cmd.append(comma_parts[0].as_str());
    cmd
}

} // verus!
