//! Action dispatch and input routing: the dialog surfaces, the ordered
//! stack they form, and the single pending action applied once per
//! cycle. An input event is offered to each surface from front to back;
//! the first surface accepting input consumes it and every surface
//! beneath it never sees the event.

use vstd::prelude::*;

use crate::job::Job;
use crate::joblist::{JobList, JobListAction};

verus! {

/// A keyboard event reduced to what routing decides on.
#[derive(Debug, Clone, Copy, PartialEq, Eq, Structural)]
pub enum KeyInput {
    Char(char),
    Up,
    Down,
    Left,
    Right,
    Enter,
    Esc,
    Tab,
    Backspace,
    CtrlC,
    Other,
}

#[derive(Debug, Clone, Copy, PartialEq, Eq, Structural)]
pub enum MessageKind {
    Info,
    Warning,
    Error,
}

/// A dismissible message dialog.
#[derive(Debug)]
pub struct Message {
    pub should_render: bool,
    pub handle_input: bool,
    pub text: String,
    pub kind: MessageKind,
}

impl Clone for Message {
    fn clone(&self) -> (r: Self)
        ensures
            r == *self,
    {
        Message {
            should_render: self.should_render,
            handle_input: self.handle_input,
            text: self.text.clone(),
            kind: self.kind,
        }
    }
}

impl Message {
    pub fn new(text: &str) -> (r: Self)
        ensures
            r.should_render,
            r.handle_input,
            r.text@ == text@,
            r.kind == MessageKind::Info,
    {
        Message {
            should_render: true,
            handle_input: true,
            text: text.to_owned(),
            kind: MessageKind::Info,
        }
    }

    pub fn new_disabled() -> (r: Self)
        ensures
            !r.should_render,
            !r.handle_input,
            r.text@ == Seq::<char>::empty(),
            r.kind == MessageKind::Info,
    {
        Message {
            should_render: false,
            handle_input: false,
            text: String::new(),
            kind: MessageKind::Info,
        }
    }

    /// Any key dismisses the message. The event is consumed exactly
    /// when the dialog was accepting input.
    pub fn input(&mut self, action: &mut Action, key: KeyInput) -> (consumed: bool)
        ensures
            consumed == old(self).handle_input,
            *final(action) == *old(action),
            old(self).handle_input ==> !final(self).should_render && !final(self).handle_input
                && final(self).text == old(self).text && final(self).kind == old(self).kind,
            !old(self).handle_input ==> *final(self) == *old(self),
    {
        if !self.handle_input {
            return false;
        }
        self.should_render = false;
        self.handle_input = false;
        true
    }
}

/// The side-effecting operations on the selected job.
#[derive(Debug)]
pub enum JobActions {
    Kill(Job),
    KillConfirmed(Job),
    OpenLog(Job),
    OpenSubmission(Job),
    GoWorkDir(Job),
    SSH(Job),
}

impl Clone for JobActions {
    fn clone(&self) -> (r: Self)
        ensures
            r == *self,
    {
        match self {
            JobActions::Kill(j) => JobActions::Kill(j.clone()),
            JobActions::KillConfirmed(j) => JobActions::KillConfirmed(j.clone()),
            JobActions::OpenLog(j) => JobActions::OpenLog(j.clone()),
            JobActions::OpenSubmission(j) => JobActions::OpenSubmission(j.clone()),
            JobActions::GoWorkDir(j) => JobActions::GoWorkDir(j.clone()),
            JobActions::SSH(j) => JobActions::SSH(j.clone()),
        }
    }
}

/// Which surface to open.
#[derive(Debug)]
pub enum OpenMenu {
    JobOverview,
    UserOptions,
    Help(usize),
    JobAllocation,
    JobActions,
    Message(Message),
}

impl Clone for OpenMenu {
    fn clone(&self) -> (r: Self)
        ensures
            r == *self,
    {
        match self {
            OpenMenu::JobOverview => OpenMenu::JobOverview,
            OpenMenu::UserOptions => OpenMenu::UserOptions,
            OpenMenu::Help(k) => OpenMenu::Help(*k),
            OpenMenu::JobAllocation => OpenMenu::JobAllocation,
            OpenMenu::JobActions => OpenMenu::JobActions,
            OpenMenu::Message(m) => OpenMenu::Message(m.clone()),
        }
    }
}

/// The single pending command value: written by at most one surface per
/// event, applied and cleared once per cycle.
#[derive(Debug)]
pub enum Action {
    Nothing,
    Quit,
    ConfirmedQuit,
    OpenMenu(OpenMenu),
    UpdateUserOptions,
    UpdateJobList(JobListAction),
    JobOption(JobActions),
    StartSalloc(String),
}

impl Clone for JobListAction {
    fn clone(&self) -> (r: Self)
        ensures
            r == *self,
    {
        match self {
            JobListAction::Next => JobListAction::Next,
            JobListAction::Previous => JobListAction::Previous,
            JobListAction::Select(i) => JobListAction::Select(*i),
            JobListAction::SelectSortCategory(c) => JobListAction::SelectSortCategory(*c),
            JobListAction::NextSortCategory => JobListAction::NextSortCategory,
            JobListAction::ReverseSortDirection => JobListAction::ReverseSortDirection,
            JobListAction::UpdateSqueueCommand(s) => JobListAction::UpdateSqueueCommand(s.clone()),
        }
    }
}

impl Clone for Action {
    fn clone(&self) -> (r: Self)
        ensures
            r == *self,
    {
        match self {
            Action::Nothing => Action::Nothing,
            Action::Quit => Action::Quit,
            Action::ConfirmedQuit => Action::ConfirmedQuit,
            Action::OpenMenu(m) => Action::OpenMenu(m.clone()),
            Action::UpdateUserOptions => Action::UpdateUserOptions,
            Action::UpdateJobList(a) => Action::UpdateJobList(a.clone()),
            Action::JobOption(a) => Action::JobOption(a.clone()),
            Action::StartSalloc(s) => Action::StartSalloc(s.clone()),
        }
    }
}

// ================================================================
//  The confirmation dialog
// ================================================================

/// A yes/no dialog whose affirmative branch re-dispatches a stored
/// action.
#[derive(Debug)]
pub struct Confirmation {
    pub should_render: bool,
    pub handle_input: bool,
    pub action: Action,
    pub select_yes: bool,
    pub message: String,
}

/// What one key does to the confirmation dialog and the pending action.
pub open spec fn spec_confirmation_step(c: Confirmation, a: Action, key: KeyInput) -> (
    Confirmation,
    Action,
) {
    match key {
        KeyInput::Esc | KeyInput::Char('q') | KeyInput::Char('n') => (
            Confirmation { should_render: false, handle_input: false, ..c },
            a,
        ),
        KeyInput::Char('y') => (
            Confirmation { should_render: false, handle_input: false, ..c },
            c.action,
        ),
        KeyInput::Char(' ') | KeyInput::Enter => (
            Confirmation { should_render: false, handle_input: false, ..c },
            if c.select_yes {
                c.action
            } else {
                a
            },
        ),
        KeyInput::Down | KeyInput::Up | KeyInput::Left | KeyInput::Right | KeyInput::Tab
            | KeyInput::Char('h') | KeyInput::Char('j') | KeyInput::Char('k') | KeyInput::Char(
            'l',
        ) => (Confirmation { select_yes: !c.select_yes, ..c }, a),
        _ => (c, a),
    }
}

impl Clone for Confirmation {
    fn clone(&self) -> (r: Self)
        ensures
            r == *self,
    {
        Confirmation {
            should_render: self.should_render,
            handle_input: self.handle_input,
            action: self.action.clone(),
            select_yes: self.select_yes,
            message: self.message.clone(),
        }
    }
}

impl Confirmation {
    pub fn new(message: &str, action: Action) -> (r: Self)
        ensures
            r.should_render,
            r.handle_input,
            r.action == action,
            !r.select_yes,
            r.message@ == message@,
    {
        Confirmation {
            should_render: true,
            handle_input: true,
            action,
            select_yes: false,
            message: message.to_owned(),
        }
    }

    pub fn new_disabled() -> (r: Self)
        ensures
            !r.should_render,
            !r.handle_input,
            r.action == Action::Nothing,
            !r.select_yes,
            r.message@ == Seq::<char>::empty(),
    {
        Confirmation {
            should_render: false,
            handle_input: false,
            action: Action::Nothing,
            select_yes: false,
            message: String::new(),
        }
    }

    /// Close the dialog and re-dispatch the stored action.
    pub fn confirm(&mut self, action: &mut Action)
        ensures
            !final(self).should_render,
            !final(self).handle_input,
            final(self).action == old(self).action,
            final(self).select_yes == old(self).select_yes,
            final(self).message == old(self).message,
            *final(action) == old(self).action,
    {
        self.should_render = false;
        self.handle_input = false;
        *action = self.action.clone();
    }

    /// Close the dialog without dispatching anything.
    pub fn deny(&mut self)
        ensures
            !final(self).should_render,
            !final(self).handle_input,
            final(self).action == old(self).action,
            final(self).select_yes == old(self).select_yes,
            final(self).message == old(self).message,
    {
        self.should_render = false;
        self.handle_input = false;
    }

    pub fn toggle(&mut self)
        ensures
            *final(self) == (Confirmation { select_yes: !old(self).select_yes, ..*old(self) }),
    {
        self.select_yes = !self.select_yes;
    }

    /// Act on whichever button is highlighted.
    pub fn select(&mut self, action: &mut Action)
        ensures
            !final(self).should_render,
            !final(self).handle_input,
            final(self).action == old(self).action,
            final(self).select_yes == old(self).select_yes,
            final(self).message == old(self).message,
            old(self).select_yes ==> *final(action) == old(self).action,
            !old(self).select_yes ==> *final(action) == *old(action),
    {
        if self.select_yes {
            self.confirm(action);
        } else {
            self.deny();
        }
    }

    /// One key offered to the dialog; consumed exactly when the dialog
    /// was accepting input.
    pub fn input(&mut self, action: &mut Action, key: KeyInput) -> (consumed: bool)
        ensures
            consumed == old(self).handle_input,
            !old(self).handle_input ==> *final(self) == *old(self) && *final(action) == *old(action),
            old(self).handle_input ==> ({
                let (c2, a2) = spec_confirmation_step(*old(self), *old(action), key);
                *final(self) == c2 && *final(action) == a2
            }),
    {
        if !self.handle_input {
            return false;
        }
        match key {
            KeyInput::Esc | KeyInput::Char('q') | KeyInput::Char('n') => {
                self.deny();
            }
            KeyInput::Char('y') => {
                self.confirm(action);
            }
            KeyInput::Char(' ') | KeyInput::Enter => {
                self.select(action);
            }
            KeyInput::Down | KeyInput::Up | KeyInput::Left | KeyInput::Right | KeyInput::Tab
                | KeyInput::Char('h') | KeyInput::Char('j') | KeyInput::Char('k')
                | KeyInput::Char('l') => {
                self.toggle();
            }
            _ => {}
        }
        true
    }
}

// ================================================================
//  The job-actions menu
// ================================================================

/// The menu of actions for the selected job. It always offers the same
/// five actions, each carrying a copy of the job it acts on.
#[derive(Debug)]
pub struct JobActionsMenu {
    pub should_render: bool,
    pub handle_input: bool,
    pub index: i32,
    pub actions: Vec<JobActions>,
    pub labels: Vec<String>,
    pub job_name: String,
}

/// An out-of-range position wraps to the opposite end of the five
/// entries.
pub open spec fn spec_wrap_action_index(i: int) -> int {
    if i > 4 {
        0
    } else if i < 0 {
        4
    } else {
        i
    }
}

/// The five actions for one job, in menu order.
pub open spec fn spec_actions_for(job: Job) -> Seq<JobActions> {
    seq![
        JobActions::Kill(job),
        JobActions::OpenLog(job),
        JobActions::OpenSubmission(job),
        JobActions::GoWorkDir(job),
        JobActions::SSH(job),
    ]
}

/// What one key does to the job-actions menu and the pending action.
pub open spec fn spec_job_actions_step(m: JobActionsMenu, a: Action, key: KeyInput) -> (
    JobActionsMenu,
    Action,
) {
    match key {
        KeyInput::Esc | KeyInput::Char('q') | KeyInput::Char('h') => (
            JobActionsMenu { should_render: false, handle_input: false, ..m },
            a,
        ),
        KeyInput::Down | KeyInput::Char('j') => (
            JobActionsMenu { index: spec_wrap_action_index(m.index + 1) as i32, ..m },
            a,
        ),
        KeyInput::Up | KeyInput::Char('k') => (
            JobActionsMenu { index: spec_wrap_action_index(m.index - 1) as i32, ..m },
            a,
        ),
        KeyInput::Enter | KeyInput::Char('l') => (
            JobActionsMenu { should_render: false, handle_input: false, ..m },
            Action::JobOption(m.actions@[m.index as int]),
        ),
        KeyInput::Char('?') => (m, Action::OpenMenu(OpenMenu::Help(1))),
        KeyInput::Char('1') => (
            JobActionsMenu { should_render: false, handle_input: false, index: 0, ..m },
            Action::JobOption(m.actions@[0]),
        ),
        KeyInput::Char('2') => (
            JobActionsMenu { should_render: false, handle_input: false, index: 1, ..m },
            Action::JobOption(m.actions@[1]),
        ),
        KeyInput::Char('3') => (
            JobActionsMenu { should_render: false, handle_input: false, index: 2, ..m },
            Action::JobOption(m.actions@[2]),
        ),
        KeyInput::Char('4') => (
            JobActionsMenu { should_render: false, handle_input: false, index: 3, ..m },
            Action::JobOption(m.actions@[3]),
        ),
        KeyInput::Char('5') => (
            JobActionsMenu { should_render: false, handle_input: false, index: 4, ..m },
            Action::JobOption(m.actions@[4]),
        ),
        _ => (m, a),
    }
}

impl JobActionsMenu {
    /// The menu always holds its five actions and a position on them.
    pub open spec fn wf(self) -> bool {
        self.actions@.len() == 5 && 0 <= self.index < 5
    }

    pub fn new() -> (r: Self)
        ensures
            r.wf(),
            !r.should_render,
            !r.handle_input,
            r.index == 0,
            r.labels@.len() == 5,
    {
        let job = Job::new_default();
        let mut actions: Vec<JobActions> = Vec::new();
        actions.push(JobActions::Kill(job.clone()));
        actions.push(JobActions::OpenLog(job.clone()));
        actions.push(JobActions::OpenSubmission(job.clone()));
        actions.push(JobActions::GoWorkDir(job.clone()));
        actions.push(JobActions::SSH(job));
        let mut labels: Vec<String> = Vec::new();
        labels.push(String::from_str("1. Kill job"));
        labels.push(String::from_str("2. Open logfile"));
        labels.push(String::from_str("3. Open submission script"));
        labels.push(String::from_str("4. cd to working directory"));
        labels.push(String::from_str("5. ssh to node"));
        JobActionsMenu {
            should_render: false,
            handle_input: false,
            index: 0,
            actions,
            labels,
            job_name: String::new(),
        }
    }

    /// Point every action at this job.
    pub fn set_job(&mut self, job: Job)
        ensures
            final(self).actions@ == spec_actions_for(job),
            final(self).job_name@ == job@.name,
            final(self).should_render == old(self).should_render,
            final(self).handle_input == old(self).handle_input,
            final(self).index == old(self).index,
            final(self).labels == old(self).labels,
    {
        let mut actions: Vec<JobActions> = Vec::new();
        actions.push(JobActions::Kill(job.clone()));
        actions.push(JobActions::OpenLog(job.clone()));
        actions.push(JobActions::OpenSubmission(job.clone()));
        actions.push(JobActions::GoWorkDir(job.clone()));
        actions.push(JobActions::SSH(job.clone()));
        self.actions = actions;
        self.job_name = job.get_jobname();
        proof {
            assert(self.actions@ =~= spec_actions_for(job));
        }
    }

    /// Move to a position, wrapping past either end.
    pub fn set_index(&mut self, index: i32)
        requires
            old(self).wf(),
        ensures
            final(self).wf(),
            final(self).index == spec_wrap_action_index(index as int),
            final(self).should_render == old(self).should_render,
            final(self).handle_input == old(self).handle_input,
            final(self).actions == old(self).actions,
            final(self).labels == old(self).labels,
            final(self).job_name == old(self).job_name,
    {
        let max_ind: i32 = (self.actions.len() as i32) - 1;
        let mut new_index = index;
        if index > max_ind {
            new_index = 0;
        } else if index < 0 {
            new_index = max_ind;
        }
        self.index = new_index;
    }

    fn next(&mut self)
        requires
            old(self).wf(),
        ensures
            final(self).wf(),
            *final(self) == (JobActionsMenu {
                index: spec_wrap_action_index(old(self).index + 1) as i32,
                ..*old(self)
            }),
    {
        let i = self.index;
        self.set_index(i + 1);
    }

    fn previous(&mut self)
        requires
            old(self).wf(),
        ensures
            final(self).wf(),
            *final(self) == (JobActionsMenu {
                index: spec_wrap_action_index(old(self).index - 1) as i32,
                ..*old(self)
            }),
    {
        let i = self.index;
        self.set_index(i - 1);
    }

    fn get_action(&self) -> (r: JobActions)
        requires
            self.wf(),
        ensures
            r == self.actions@[self.index as int],
    {
        self.actions[self.index as usize].clone()
    }

    fn perform_action(&mut self, action: &mut Action)
        requires
            old(self).wf(),
        ensures
            final(self).wf(),
            *final(action) == Action::JobOption(old(self).actions@[old(self).index as int]),
            *final(self) == (JobActionsMenu {
                should_render: false,
                handle_input: false,
                ..*old(self)
            }),
    {
        *action = Action::JobOption(self.get_action());
        self.deactivate();
    }

    /// Open the menu for this job, starting at the first entry.
    pub fn activate(&mut self, job: &Job)
        requires
            old(self).wf(),
        ensures
            final(self).wf(),
            final(self).should_render,
            final(self).handle_input,
            final(self).index == 0,
            final(self).actions@ == spec_actions_for(*job),
            final(self).job_name@ == job@.name,
            final(self).labels == old(self).labels,
    {
        self.set_job(job.clone());
        self.should_render = true;
        self.handle_input = true;
        self.set_index(0);
    }

    pub fn deactivate(&mut self)
        ensures
            *final(self) == (JobActionsMenu {
                should_render: false,
                handle_input: false,
                ..*old(self)
            }),
    {
        self.should_render = false;
        self.handle_input = false;
    }

    /// One key offered to the menu; consumed exactly when the menu was
    /// accepting input.
    pub fn input(&mut self, action: &mut Action, key: KeyInput) -> (consumed: bool)
        requires
            old(self).wf(),
        ensures
            final(self).wf(),
            consumed == old(self).handle_input,
            !old(self).handle_input ==> *final(self) == *old(self) && *final(action) == *old(action),
            old(self).handle_input ==> ({
                let (m2, a2) = spec_job_actions_step(*old(self), *old(action), key);
                *final(self) == m2 && *final(action) == a2
            }),
    {
        if !self.handle_input {
            return false;
        }
        match key {
            KeyInput::Esc | KeyInput::Char('q') | KeyInput::Char('h') => {
                self.deactivate();
            }
            KeyInput::Down | KeyInput::Char('j') => {
                self.next();
            }
            KeyInput::Up | KeyInput::Char('k') => {
                self.previous();
            }
            KeyInput::Enter | KeyInput::Char('l') => {
                self.perform_action(action);
            }
            KeyInput::Char('?') => {
                *action = Action::OpenMenu(OpenMenu::Help(1));
            }
            KeyInput::Char('1') => {
                self.set_index(0);
                self.perform_action(action);
            }
            KeyInput::Char('2') => {
                self.set_index(1);
                self.perform_action(action);
            }
            KeyInput::Char('3') => {
                self.set_index(2);
                self.perform_action(action);
            }
            KeyInput::Char('4') => {
                self.set_index(3);
                self.perform_action(action);
            }
            KeyInput::Char('5') => {
                self.set_index(4);
                self.perform_action(action);
            }
            _ => {}
        }
        true
    }
}

// ================================================================
//  The help browser
// ================================================================

/// One key binding and what it does.
#[derive(Debug)]
pub struct HelpEntry {
    pub key: String,
    pub description: String,
}

impl HelpEntry {
    pub fn new(key: &str, description: &str) -> (r: Self)
        ensures
            r.key@ == key@,
            r.description@ == description@,
    {
        HelpEntry { key: key.to_owned(), description: description.to_owned() }
    }
}

/// A titled group of help entries.
#[derive(Debug)]
pub struct HelpCategory {
    pub title: String,
    pub entries: Vec<HelpEntry>,
}

impl HelpCategory {
    pub fn new(title: &str, entries: Vec<HelpEntry>) -> (r: Self)
        ensures
            r.title@ == title@,
            r.entries == entries,
    {
        HelpCategory { title: title.to_owned(), entries }
    }
}

/// The number of entries in the first `k` categories.
pub open spec fn spec_entries_before(cats: Seq<HelpCategory>, k: int) -> int
    decreases k,
{
    if k <= 0 {
        0
    } else {
        spec_entries_before(cats, k - 1) + if k - 1 < cats.len() {
            cats[k - 1].entries@.len() as int
        } else {
            0
        }
    }
}

proof fn lemma_entries_before_mono(cats: Seq<HelpCategory>, k1: int, k2: int)
    requires
        k1 <= k2,
    ensures
        spec_entries_before(cats, k1) <= spec_entries_before(cats, k2),
    decreases k2 - k1,
{
    if k1 < k2 {
        lemma_entries_before_mono(cats, k1, k2 - 1);
    }
}

/// The scrollable help browser.
#[derive(Debug)]
pub struct HelpMenu {
    pub should_render: bool,
    pub handle_input: bool,
    pub categories: Vec<HelpCategory>,
    pub offset: usize,
}

/// What one key does to the help browser.
pub open spec fn spec_help_step(h: HelpMenu, key: KeyInput) -> HelpMenu {
    let total = spec_entries_before(h.categories@, h.categories@.len() as int);
    match key {
        KeyInput::Esc | KeyInput::Enter | KeyInput::Char('q') | KeyInput::Char('?') => HelpMenu {
            should_render: false,
            handle_input: false,
            ..h
        },
        KeyInput::Down | KeyInput::Char('j') => HelpMenu {
            offset: (if h.offset + 1 <= total {
                h.offset + 1
            } else {
                total
            }) as usize,
            ..h
        },
        KeyInput::Up | KeyInput::Char('k') => HelpMenu {
            offset: (if h.offset == 0 {
                0
            } else {
                h.offset - 1
            }) as usize,
            ..h
        },
        _ => h,
    }
}

impl HelpMenu {
    /// The total entry count fits comfortably, and the scroll offset
    /// never runs past it.
    pub open spec fn wf(self) -> bool {
        &&& spec_entries_before(self.categories@, self.categories@.len() as int) < usize::MAX
        &&& self.offset <= spec_entries_before(self.categories@, self.categories@.len() as int)
    }

    /// The closed help browser with its fixed catalog of bindings.
    pub fn new() -> (r: Self)
        ensures
            r.wf(),
            !r.should_render,
            !r.handle_input,
            r.offset == 0,
            r.categories@.len() == 5,
    {
        let mut job_overview_entries: Vec<HelpEntry> = Vec::new();
        job_overview_entries.push(HelpEntry::new("Down/Up (j/k)", "Next/Previous job"));
        job_overview_entries.push(HelpEntry::new("Enter (l)", "Open job actions menu"));
        job_overview_entries.push(HelpEntry::new("tab", "Select next sorting category"));
        job_overview_entries.push(HelpEntry::new("r", "Reverse sorting order"));
        job_overview_entries.push(HelpEntry::new("1", "Toggle job details"));
        job_overview_entries.push(HelpEntry::new("2", "Toggle log"));
        job_overview_entries.push(HelpEntry::new("a", "Open allocation menu"));
        job_overview_entries.push(HelpEntry::new("o", "Open settings menu"));
        job_overview_entries.push(HelpEntry::new("/", "Modify job list filter"));
        job_overview_entries.push(HelpEntry::new("m", "Minimize/Maximize top section"));
        let job_overview = HelpCategory::new("Job Overview", job_overview_entries);
        let mut job_actions_entries: Vec<HelpEntry> = Vec::new();
        job_actions_entries.push(HelpEntry::new("Down/Up (j/k)", "Next/Previous action"));
        job_actions_entries.push(HelpEntry::new("Enter (l)", "Execute action"));
        job_actions_entries.push(HelpEntry::new("Esc", "Close action menu"));
        job_actions_entries.push(HelpEntry::new("1-5", "Select action"));
        let job_actions = HelpCategory::new("Job Actions", job_actions_entries);
        let mut allocation_entries: Vec<HelpEntry> = Vec::new();
        allocation_entries.push(HelpEntry::new("Esc (q)", "Close allocation menu"));
        allocation_entries.push(
            HelpEntry::new("Tab", "Switch focus between presets and settings panes"),
        );
        allocation_entries.push(HelpEntry::new("Down/Up (j/k)", "Next/Previous entry"));
        allocation_entries.push(
            HelpEntry::new("Enter", "Execute the preset, or edit the focused setting"),
        );
        allocation_entries.push(HelpEntry::new("d", "Delete the selected preset"));
        let allocation_menu = HelpCategory::new("Allocation Menu", allocation_entries);
        let mut settings_entries: Vec<HelpEntry> = Vec::new();
        settings_entries.push(HelpEntry::new("Down/Up (j/k)", "Next/Previous setting"));
        settings_entries.push(HelpEntry::new("Enter (l)", "Open setting actions menu"));
        settings_entries.push(HelpEntry::new("Esc", "Close setting menu"));
        let settings = HelpCategory::new("Settings", settings_entries);
        let mut info_entries: Vec<HelpEntry> = Vec::new();
        info_entries.push(HelpEntry::new("name", "A task manager for scheduled jobs"));
        info_entries.push(HelpEntry::new("version", "0.1.0"));
        let info = HelpCategory::new("Info", info_entries);
        let mut categories: Vec<HelpCategory> = Vec::new();
        categories.push(job_overview);
        categories.push(job_actions);
        categories.push(allocation_menu);
        categories.push(settings);
        categories.push(info);
        let r = HelpMenu { should_render: false, handle_input: false, categories, offset: 0 };
        proof {
            let cats = r.categories@;
            assert(spec_entries_before(cats, 0) == 0);
            assert(spec_entries_before(cats, 1) == 10);
            assert(spec_entries_before(cats, 2) == 14);
            assert(spec_entries_before(cats, 3) == 19);
            assert(spec_entries_before(cats, 4) == 22);
            assert(spec_entries_before(cats, 5) == 24);
        }
        r
    }

    /// Open the browser scrolled to the start of the chosen category.
    pub fn open(&mut self, selected_category: usize)
        requires
            old(self).wf(),
        ensures
            final(self).wf(),
            final(self).should_render,
            final(self).handle_input,
            final(self).categories == old(self).categories,
            final(self).offset == spec_entries_before(
                old(self).categories@,
                if selected_category <= old(self).categories@.len() {
                    selected_category as int
                } else {
                    old(self).categories@.len() as int
                },
            ),
    {
        self.should_render = true;
        self.handle_input = true;
        let ghost cats = self.categories@;
        let upto = if selected_category <= self.categories.len() {
            selected_category
        } else {
            self.categories.len()
        };
        let mut offset: usize = 0;
        let mut i: usize = 0;
        while i < upto
            invariant
                i <= upto,
                upto <= cats.len(),
                cats == self.categories@,
                self.wf(),
                offset == spec_entries_before(cats, i as int),
            decreases upto - i,
        {
            proof {
                lemma_entries_before_mono(cats, i + 1, cats.len() as int);
            }
            offset = offset + self.categories[i].entries.len();
            i += 1;
        }
        self.offset = offset;
        proof {
            lemma_entries_before_mono(cats, upto as int, cats.len() as int);
        }
    }

    pub fn close(&mut self)
        ensures
            *final(self) == (HelpMenu { should_render: false, handle_input: false, ..*old(self) }),
    {
        self.should_render = false;
        self.handle_input = false;
    }

    /// Scroll one entry down, stopping at the end.
    pub fn scroll_down(&mut self)
        requires
            old(self).wf(),
        ensures
            final(self).wf(),
            *final(self) == (HelpMenu {
                offset: (if old(self).offset + 1 <= spec_entries_before(
                    old(self).categories@,
                    old(self).categories@.len() as int,
                ) {
                    old(self).offset + 1
                } else {
                    spec_entries_before(old(self).categories@, old(self).categories@.len() as int)
                }) as usize,
                ..*old(self)
            }),
    {
        let ghost cats = self.categories@;
        let mut total: usize = 0;
        let mut i: usize = 0;
        while i < self.categories.len()
            invariant
                i <= cats.len(),
                cats == self.categories@,
                self.wf(),
                total == spec_entries_before(cats, i as int),
            decreases cats.len() - i,
        {
            proof {
                lemma_entries_before_mono(cats, i + 1, cats.len() as int);
            }
            total = total + self.categories[i].entries.len();
            i += 1;
        }
        let next_offset = self.offset + 1;
        self.offset = if next_offset <= total {
            next_offset
        } else {
            total
        };
    }

    /// Scroll one entry up, stopping at the start.
    pub fn scroll_up(&mut self)
        ensures
            *final(self) == (HelpMenu {
                offset: (if old(self).offset == 0 {
                    0
                } else {
                    old(self).offset - 1
                }) as usize,
                ..*old(self)
            }),
    {
        if self.offset > 0 {
            self.offset = self.offset - 1;
        }
    }

    /// One key offered to the browser; consumed exactly when it was
    /// accepting input.
    pub fn input(&mut self, action: &mut Action, key: KeyInput) -> (consumed: bool)
        requires
            old(self).wf(),
        ensures
            final(self).wf(),
            consumed == old(self).handle_input,
            *final(action) == *old(action),
            !old(self).handle_input ==> *final(self) == *old(self),
            old(self).handle_input ==> *final(self) == spec_help_step(*old(self), key),
    {
        if !self.handle_input {
            return false;
        }
        match key {
            KeyInput::Esc | KeyInput::Enter | KeyInput::Char('q') | KeyInput::Char('?') => {
                self.close();
            }
            KeyInput::Down | KeyInput::Char('j') => {
                self.scroll_down();
            }
            KeyInput::Up | KeyInput::Char('k') => {
                self.scroll_up();
            }
            _ => {}
        }
        true
    }
}

// ================================================================
//  Pointer input
// ================================================================

/// The pointer-click tracker behind the derived double-click signal.
/// Times are supplied by the shell as milliseconds.
#[derive(Debug, Clone, Copy)]
pub struct MouseInput {
    /// The current event has been consumed by a surface.
    pub handled: bool,
    pub last_col: u16,
    pub last_row: u16,
    pub last_click_ms: u64,
}

impl MouseInput {
    pub fn new() -> (r: Self)
        ensures
            !r.handled,
            r.last_col == 0,
            r.last_row == 0,
            r.last_click_ms == 0,
    {
        MouseInput { handled: false, last_col: 0, last_row: 0, last_click_ms: 0 }
    }

    /// A click in the same screen cell as the previous click, within
    /// half a second of it.
    pub open spec fn spec_is_double(self, col: u16, row: u16, now_ms: u64) -> bool {
        col == self.last_col && row == self.last_row && now_ms >= self.last_click_ms && now_ms
            - self.last_click_ms < 500
    }

    /// Whether this click is the second of a double click; a recognized
    /// double click renews the reference time, anything else leaves the
    /// tracker as it was.
    pub fn is_double_click(&mut self, column: u16, row: u16, now_ms: u64) -> (r: bool)
        ensures
            r == old(self).spec_is_double(column, row, now_ms),
            r ==> *final(self) == (MouseInput { last_click_ms: now_ms, ..*old(self) }),
            !r ==> *final(self) == *old(self),
    {
        if !(self.last_col == column && self.last_row == row) {
            return false;
        }
        let duration: u64 = if now_ms >= self.last_click_ms {
            now_ms - self.last_click_ms
        } else {
            60000
        };
        if duration < 500 {
            self.last_click_ms = now_ms;
            return true;
        }
        false
    }

    /// Record a consumed click: its cell and time become the reference
    /// for the next double-click decision.
    pub fn click(&mut self, column: u16, row: u16, now_ms: u64)
        ensures
            final(self).handled,
            final(self).last_col == column,
            final(self).last_row == row,
            final(self).last_click_ms == now_ms,
    {
        self.last_col = column;
        self.last_row = row;
        self.last_click_ms = now_ms;
        self.handled = true;
    }
}

// ================================================================
//  The surface stack
// ================================================================

/// The stack of dialog surfaces, front to back: confirmation, message,
/// help, job actions. The main overview surface sits beneath them all
/// and belongs to the shell; it sees an event only when no dialog
/// consumed it.
#[derive(Debug)]
pub struct MenuContainer {
    pub confirmation: Confirmation,
    pub message: Message,
    pub help_menu: HelpMenu,
    pub job_actions_menu: JobActionsMenu,
}

impl MenuContainer {
    pub open spec fn wf(self) -> bool {
        self.help_menu.wf() && self.job_actions_menu.wf()
    }

    /// All surfaces start closed.
    pub fn new() -> (r: Self)
        ensures
            r.wf(),
            !r.confirmation.handle_input,
            !r.message.handle_input,
            !r.help_menu.handle_input,
            !r.job_actions_menu.handle_input,
    {
        MenuContainer {
            confirmation: Confirmation::new_disabled(),
            message: Message::new_disabled(),
            help_menu: HelpMenu::new(),
            job_actions_menu: JobActionsMenu::new(),
        }
    }

    /// Open the requested surface. A request the container does not own
    /// is handed back for the shell to open.
    pub fn activate_menu(&mut self, open_menu: OpenMenu, joblist: &JobList) -> (r: Option<
        OpenMenu,
    >)
        requires
            old(self).wf(),
            joblist.wf(),
        ensures
            final(self).wf(),
            match open_menu {
                OpenMenu::JobOverview => r is None && final(self).message.should_render && final(self).message.text@ == "Opening job overview not implemented"@ && final(self).confirmation == old(self).confirmation && final(self).help_menu == old(self).help_menu && final(self).job_actions_menu == old(self).job_actions_menu,
                OpenMenu::JobAllocation => r is None && final(self).message.should_render && final(self).message.text@ == "Opening job allocation not implemented"@,
                OpenMenu::JobActions => r is None && if joblist.jobs@.len() > 0 {
                    final(self).job_actions_menu.handle_input && final(self).job_actions_menu.actions@ == spec_actions_for(
                        joblist.jobs@[joblist.selected as int],
                    )
                } else {
                    final(self).message.should_render && final(self).message.text@
                        == "No job selected"@ && final(self).message.kind == MessageKind::Error
                },
                OpenMenu::UserOptions => r == Some(OpenMenu::UserOptions) && *final(self) == *old(self),
                OpenMenu::Message(m) => r is None && final(self).message == m && final(self).confirmation == old(self).confirmation && final(self).help_menu == old(self).help_menu && final(self).job_actions_menu == old(self).job_actions_menu,
                OpenMenu::Help(selected_category) => r is None && final(self).help_menu.should_render && final(self).help_menu.handle_input && final(self).help_menu.categories == old(self).help_menu.categories,
            },
    {
        match open_menu {
            OpenMenu::JobOverview => {
                self.message = Message::new("Opening job overview not implemented");
                None
            }
            OpenMenu::JobActions => {
                match joblist.get_job() {
                    Some(job) => {
                        self.job_actions_menu.activate(job);
                    }
                    None => {
                        self.message = Message::new("No job selected");
                        self.message.kind = MessageKind::Error;
                    }
                }
                None
            }
            OpenMenu::JobAllocation => {
                self.message = Message::new("Opening job allocation not implemented");
                None
            }
            OpenMenu::UserOptions => Some(OpenMenu::UserOptions),
            OpenMenu::Message(m) => {
                self.message = m;
                None
            }
            OpenMenu::Help(selected_category) => {
                self.help_menu.open(selected_category);
                None
            }
        }
    }

    /// Offer one key to the stack, front to back. The first surface
    /// accepting input consumes the event; every surface beneath it is
    /// untouched and never sees it, and at most one surface writes the
    /// pending action. Nothing is consumed when no dialog is open.
    pub fn input(&mut self, action: &mut Action, key: KeyInput) -> (consumed: bool)
        requires
            old(self).wf(),
        ensures
            final(self).wf(),
            consumed == (old(self).confirmation.handle_input || old(self).message.handle_input
                || old(self).help_menu.handle_input || old(self).job_actions_menu.handle_input),
            old(self).confirmation.handle_input ==> ({
                let (c2, a2) = spec_confirmation_step(
                    old(self).confirmation,
                    *old(action),
                    key,
                );
                final(self).confirmation == c2 && *final(action) == a2 && final(self).message
                    == old(self).message && final(self).help_menu == old(self).help_menu && final(self).job_actions_menu == old(self).job_actions_menu
            }),
            !old(self).confirmation.handle_input && old(self).message.handle_input ==> ({
                final(self).message.should_render == false && final(self).message.handle_input
                    == false && final(self).message.text == old(self).message.text && *final(action) == *old(action) && final(self).confirmation == old(self).confirmation && final(self).help_menu == old(self).help_menu && final(self).job_actions_menu == old(self).job_actions_menu
            }),
            !old(self).confirmation.handle_input && !old(self).message.handle_input && old(self).help_menu.handle_input ==> ({
                final(self).help_menu == spec_help_step(old(self).help_menu, key) && *final(action) == *old(action) && final(self).confirmation == old(self).confirmation && final(self).message == old(self).message && final(self).job_actions_menu == old(self).job_actions_menu
            }),
            !old(self).confirmation.handle_input && !old(self).message.handle_input && !old(self).help_menu.handle_input && old(self).job_actions_menu.handle_input ==> ({
                let (m2, a2) = spec_job_actions_step(
                    old(self).job_actions_menu,
                    *old(action),
                    key,
                );
                final(self).job_actions_menu == m2 && *final(action) == a2 && final(self).confirmation == old(self).confirmation && final(self).message == old(self).message && final(self).help_menu == old(self).help_menu
            }),
            !consumed ==> *final(self) == *old(self) && *final(action) == *old(action),
    {
        let mut input_handled = false;
        if !input_handled {
            input_handled = self.confirmation.input(action, key);
        }
        if !input_handled {
            input_handled = self.message.input(action, key);
        }
        if !input_handled {
            input_handled = self.help_menu.input(action, key);
        }
        if !input_handled {
            input_handled = self.job_actions_menu.input(action, key);
        }
        input_handled
    }
}

} // verus!
