use stama::dispatch::{
    Action, Confirmation, JobActions, KeyInput, MenuContainer, Message, MessageKind, MouseInput,
    OpenMenu,
};
use stama::executor::{decide_job_action, ssh_command_from_nodelist, JobEffect};
use stama::job::{Job, JobStatus};
use stama::joblist::JobList;
use stama::options::UserOptionsList;

fn job_with_status(status: JobStatus) -> Job {
    Job::new("77", "task", status, "0-00:01:00", "p", 1, "/wd", "/script.sh", None)
}

fn list_with(job: Job) -> JobList {
    let mut l = JobList::new();
    l.jobs.push(job);
    l
}

#[test]
fn test_confirmation_toggle_and_confirm() {
    let mut c = Confirmation::new("Quit?", Action::ConfirmedQuit);
    assert!(!c.select_yes);
    let mut action = Action::Nothing;
    // moving toggles the highlighted button
    assert!(c.input(&mut action, KeyInput::Down));
    assert!(c.select_yes);
    // Enter on "yes" re-dispatches the stored action and closes
    assert!(c.input(&mut action, KeyInput::Enter));
    assert!(matches!(action, Action::ConfirmedQuit));
    assert!(!c.should_render);
    // a closed dialog no longer consumes anything
    assert!(!c.input(&mut action, KeyInput::Enter));
}

#[test]
fn test_confirmation_deny_leaves_action() {
    let mut c = Confirmation::new("Quit?", Action::ConfirmedQuit);
    let mut action = Action::Nothing;
    assert!(c.input(&mut action, KeyInput::Esc));
    assert!(matches!(action, Action::Nothing));
    assert!(!c.should_render);
}

#[test]
fn test_message_consumes_any_key_once() {
    let mut m = Message::new("hello");
    let mut action = Action::Nothing;
    assert!(m.input(&mut action, KeyInput::Char('x')));
    assert!(!m.should_render);
    assert!(!m.input(&mut action, KeyInput::Char('x')));
}

#[test]
fn test_routing_front_surface_wins() {
    // With a confirmation open above the job-actions menu, a key only
    // reaches the confirmation; the menu beneath is untouched.
    let mut menus = MenuContainer::new();
    let job = job_with_status(JobStatus::Running);
    let joblist = list_with(job);
    menus.activate_menu(OpenMenu::JobActions, &joblist);
    assert!(menus.job_actions_menu.handle_input);
    menus.confirmation = Confirmation::new("Sure?", Action::Quit);
    let mut action = Action::Nothing;
    let consumed = menus.input(&mut action, KeyInput::Char('j'));
    assert!(consumed);
    // the confirmation toggled; the menu index did not move
    assert!(menus.confirmation.select_yes);
    assert_eq!(menus.job_actions_menu.index, 0);
}

#[test]
fn test_routing_nothing_open_consumes_nothing() {
    let mut menus = MenuContainer::new();
    let mut action = Action::Nothing;
    let consumed = menus.input(&mut action, KeyInput::Char('j'));
    assert!(!consumed);
    assert!(matches!(action, Action::Nothing));
}

#[test]
fn test_job_actions_menu_number_key_dispatches() {
    let mut menus = MenuContainer::new();
    let job = job_with_status(JobStatus::Running);
    let joblist = list_with(job);
    menus.activate_menu(OpenMenu::JobActions, &joblist);
    let mut action = Action::Nothing;
    assert!(menus.input(&mut action, KeyInput::Char('2')));
    match action {
        Action::JobOption(JobActions::OpenLog(j)) => assert_eq!(j.id, "77"),
        _ => panic!("expected the open-log action"),
    }
    assert!(!menus.job_actions_menu.handle_input);
}

#[test]
fn test_job_actions_menu_wraps() {
    let mut menus = MenuContainer::new();
    let job = job_with_status(JobStatus::Running);
    let joblist = list_with(job);
    menus.activate_menu(OpenMenu::JobActions, &joblist);
    let mut action = Action::Nothing;
    assert!(menus.input(&mut action, KeyInput::Up));
    assert_eq!(menus.job_actions_menu.index, 4);
    assert!(menus.input(&mut action, KeyInput::Down));
    assert_eq!(menus.job_actions_menu.index, 0);
}

#[test]
fn test_open_job_actions_without_selection_shows_error() {
    let mut menus = MenuContainer::new();
    let joblist = JobList::new();
    menus.activate_menu(OpenMenu::JobActions, &joblist);
    assert!(menus.message.should_render);
    assert_eq!(menus.message.text, "No job selected");
    assert!(matches!(menus.message.kind, MessageKind::Error));
}

#[test]
fn test_help_menu_opens_at_category() {
    let mut menus = MenuContainer::new();
    let joblist = JobList::new();
    menus.activate_menu(OpenMenu::Help(1), &joblist);
    assert!(menus.help_menu.should_render);
    // the first category holds ten entries
    assert_eq!(menus.help_menu.offset, 10);
    let mut action = Action::Nothing;
    assert!(menus.input(&mut action, KeyInput::Char('j')));
    assert_eq!(menus.help_menu.offset, 11);
    assert!(menus.input(&mut action, KeyInput::Esc));
    assert!(!menus.help_menu.should_render);
}

#[test]
fn test_double_click_same_cell_within_window() {
    let mut mouse = MouseInput::new();
    mouse.click(4, 2, 1000);
    assert!(mouse.is_double_click(4, 2, 1400));
    // a different cell is never a double click
    mouse.click(4, 2, 2000);
    assert!(!mouse.is_double_click(5, 2, 2100));
    // too late is not a double click
    mouse.click(4, 2, 3000);
    assert!(!mouse.is_double_click(4, 2, 3600));
}

#[test]
fn test_kill_asks_for_confirmation() {
    let options = UserOptionsList::default();
    assert!(options.confirm_before_kill);
    let job = job_with_status(JobStatus::Running);
    let joblist = list_with(job.clone());
    let effect = decide_job_action(JobActions::Kill(job), &options, &joblist);
    match effect {
        JobEffect::AskConfirmation { message, action } => {
            assert_eq!(message, "Kill job task (77)?");
            assert!(matches!(
                action,
                Action::JobOption(JobActions::KillConfirmed(_))
            ));
        }
        _ => panic!("expected a confirmation"),
    }
}

#[test]
fn test_kill_without_confirmation_cancels() {
    let mut options = UserOptionsList::default();
    options.confirm_before_kill = false;
    let job = job_with_status(JobStatus::Running);
    let joblist = list_with(job.clone());
    let effect = decide_job_action(JobActions::Kill(job), &options, &joblist);
    match effect {
        JobEffect::RunCancel { job_id } => assert_eq!(job_id, "77"),
        _ => panic!("expected a cancel"),
    }
}

#[test]
fn test_open_log_without_selection_fails() {
    let options = UserOptionsList::default();
    let joblist = JobList::new();
    let effect = decide_job_action(
        JobActions::OpenLog(job_with_status(JobStatus::Running)),
        &options,
        &joblist,
    );
    match effect {
        JobEffect::ShowMessage { text, kind } => {
            assert_eq!(text, "No job selected");
            assert!(matches!(kind, MessageKind::Error));
        }
        _ => panic!("expected an error message"),
    }
}

#[test]
fn test_open_submission_for_finished_job_reports_command() {
    let options = UserOptionsList::default();
    let job = job_with_status(JobStatus::Completed);
    let joblist = list_with(job.clone());
    let effect = decide_job_action(JobActions::OpenSubmission(job), &options, &joblist);
    match effect {
        JobEffect::ShowMessage { text, kind } => {
            assert_eq!(text, "Job was submitted with: \n /script.sh");
            assert!(matches!(kind, MessageKind::Info));
        }
        _ => panic!("expected an informational message"),
    }
}

#[test]
fn test_open_submission_placeholder_command_fails() {
    let options = UserOptionsList::default();
    let mut job = job_with_status(JobStatus::Running);
    job.command = "(null)".to_string();
    let joblist = list_with(job.clone());
    let effect = decide_job_action(JobActions::OpenSubmission(job), &options, &joblist);
    match effect {
        JobEffect::ShowMessage { text, .. } => assert_eq!(text, "No submission script found"),
        _ => panic!("expected an error message"),
    }
}

#[test]
fn test_go_workdir_builds_exit_command() {
    let options = UserOptionsList::default();
    let job = job_with_status(JobStatus::Running);
    let joblist = list_with(job.clone());
    let effect = decide_job_action(JobActions::GoWorkDir(job), &options, &joblist);
    match effect {
        JobEffect::SetExitCommand { command } => assert_eq!(command, "cd /wd"),
        _ => panic!("expected an exit command"),
    }
}

#[test]
fn test_ssh_needs_running_job() {
    let options = UserOptionsList::default();
    let job = job_with_status(JobStatus::Pending);
    let joblist = list_with(job.clone());
    let effect = decide_job_action(JobActions::SSH(job), &options, &joblist);
    match effect {
        JobEffect::ShowMessage { text, .. } => assert_eq!(text, "Job not running"),
        _ => panic!("expected an error message"),
    }
    let job2 = job_with_status(JobStatus::Running);
    let joblist2 = list_with(job2.clone());
    let effect2 = decide_job_action(JobActions::SSH(job2), &options, &joblist2);
    match effect2 {
        JobEffect::QueryNodes { job_id } => assert_eq!(job_id, "77"),
        _ => panic!("expected a node query"),
    }
}

#[test]
fn test_ssh_command_takes_first_node() {
    assert_eq!(
        ssh_command_from_nodelist("l[50321-50324,50327]\n"),
        "ssh -Y l50321"
    );
    assert_eq!(
        ssh_command_from_nodelist("node[10,12,14]"),
        "ssh -Y node10"
    );
    assert_eq!(ssh_command_from_nodelist("  node5  "), "ssh -Y node5");
}
