use stama::job::{Job, JobStatus};
use stama::joblist::{JobList, JobListAction, SortCategory};

/// Creates a JobList with three jobs for testing.
fn create_job_list() -> JobList {
    let mut job_list = JobList::new();
    job_list.jobs.push(Job::new(
        "1",
        "job1",
        JobStatus::Running,
        "00:00:00",
        "partition1",
        1,
        "workdir1",
        "command1",
        None,
    ));
    job_list.jobs.push(Job::new(
        "2",
        "job2",
        JobStatus::Pending,
        "00:00:00",
        "partition1",
        2,
        "workdir2",
        "command2",
        None,
    ));
    job_list.jobs.push(Job::new(
        "3",
        "job3",
        JobStatus::Completing,
        "00:00:00",
        "partition1",
        3,
        "workdir3",
        "command3",
        None,
    ));
    job_list
}

#[test]
fn test_set_index() {
    let mut job_list = create_job_list();

    // Test setting a valid index.
    assert!(job_list.set_index(1).is_ok());
    assert_eq!(job_list.selected, 1);

    // Test setting an invalid index.
    assert!(job_list.set_index(3).is_err());

    // Test setting an index to an empty job list.
    let mut job_list = JobList::new();
    assert!(job_list.set_index(0).is_ok());
    assert_eq!(job_list.selected, 0);
    // Test if the job details and log tail are set to "No job selected".
    assert_eq!(job_list.job_details, "No job selected");
    assert_eq!(job_list.log_tail, "No job selected");
}

#[test]
fn test_select_job_by_id() {
    let mut job_list = create_job_list();

    // Test selecting a job by id.
    assert!(job_list.select_job_by_id("2".to_string()).is_ok());
    assert_eq!(job_list.selected, 1);

    // Test selecting a job by an invalid id.
    assert!(job_list.select_job_by_id("4".to_string()).is_err());
}

#[test]
fn test_next() {
    let mut job_list = create_job_list();

    // Check if the joblist has length 3.
    assert_eq!(job_list.len(), 3);

    // Test selecting the next job.
    job_list.next();
    assert_eq!(job_list.selected, 1);

    // Test if the job details and log tail are set to "loading...".
    assert_eq!(job_list.job_details, "loading...");
    assert_eq!(job_list.log_tail, "loading...");

    // Set the selected job to the last job.
    job_list.selected = 2;
    job_list.next();
    assert_eq!(job_list.selected, 0);
}

#[test]
fn test_previous() {
    let mut job_list = create_job_list();
    // Check if the joblist has length 3.
    assert_eq!(job_list.len(), 3);

    // Test selecting the previous job.
    job_list.previous();
    assert_eq!(job_list.selected, 2);

    // Test if the job details and log tail are set to "loading...".
    assert_eq!(job_list.job_details, "loading...");
    assert_eq!(job_list.log_tail, "loading...");

    job_list.previous();
    assert_eq!(job_list.selected, 1);
}

#[test]
fn test_reverse() {
    let mut job_list = create_job_list();

    // set the selected index to something other than 0
    job_list.selected = 1;

    // Test negating the reverse boolean.
    assert_eq!(job_list.reverse, false);
    job_list.negate_reverse();
    assert_eq!(job_list.reverse, true);
    // check if the selected index is set back to 0
    assert_eq!(job_list.selected, 0);
    job_list.negate_reverse();
    assert_eq!(job_list.reverse, false);
}

#[test]
fn test_sort() {
    let mut job_list = create_job_list();

    // Test sorting the job list.
    let job = job_list.get_job().unwrap().clone();
    job_list.sort();
    assert_eq!(job_list.jobs[0].id, "3");
    assert_eq!(job_list.jobs[1].id, "2");
    assert_eq!(job_list.jobs[2].id, "1");
    // check if the selected job remains the same
    assert_eq!(job_list.get_job().unwrap().id, job.id);

    // Test sorting the job list in reverse order.
    job_list.reverse = true;
    job_list.sort();
    assert_eq!(job_list.jobs[0].id, "1");
    assert_eq!(job_list.jobs[1].id, "2");
    assert_eq!(job_list.jobs[2].id, "3");
    // check if the selected job remains the same
    assert_eq!(job_list.get_job().unwrap().id, job.id);
}

#[test]
fn test_wraparound_on_three_jobs() {
    // next() at the last index wraps to the first; previous() at the
    // first wraps to the last.
    let mut job_list = create_job_list();
    job_list.selected = 2;
    job_list.next();
    assert_eq!(job_list.get_index(), 0);
    job_list.previous();
    assert_eq!(job_list.get_index(), 2);
}

#[test]
fn test_sort_is_idempotent() {
    // Sorting twice with the same category and direction gives an
    // order identical to sorting once.
    let mut a = create_job_list();
    a.set_sort_category(SortCategory::Status);
    let once: Vec<String> = a.jobs.iter().map(|j| j.id.clone()).collect();
    a.sort();
    let twice: Vec<String> = a.jobs.iter().map(|j| j.id.clone()).collect();
    assert_eq!(once, twice);
}

#[test]
fn test_tie_break_by_id() {
    // Equal primary keys are ordered by id, whatever the input order.
    let mut job_list = JobList::new();
    job_list.jobs.push(Job::new(
        "9", "same", JobStatus::Running, "00:00:01", "p", 1, "w", "c", None,
    ));
    job_list.jobs.push(Job::new(
        "2", "same", JobStatus::Running, "00:00:01", "p", 1, "w", "c", None,
    ));
    job_list.jobs.push(Job::new(
        "5", "same", JobStatus::Running, "00:00:01", "p", 1, "w", "c", None,
    ));
    job_list.set_sort_category(SortCategory::Name);
    let ids: Vec<&str> = job_list.jobs.iter().map(|j| j.id.as_str()).collect();
    assert_eq!(ids, vec!["2", "5", "9"]);
}

#[test]
fn test_handle_action_select() {
    let mut job_list = create_job_list();
    job_list.handle_joblist_action(JobListAction::Select(2));
    assert_eq!(job_list.get_index(), 2);
    assert_eq!(job_list.get_job_details(), "loading...");
    // an out-of-range selection changes nothing
    job_list.handle_joblist_action(JobListAction::Select(7));
    assert_eq!(job_list.get_index(), 2);
}

#[test]
fn test_handle_action_same_category_flips_direction() {
    let mut job_list = create_job_list();
    assert_eq!(*job_list.get_sort_category(), SortCategory::Id);
    job_list.handle_joblist_action(JobListAction::SelectSortCategory(SortCategory::Id));
    assert!(job_list.is_reverse());
    job_list.handle_joblist_action(JobListAction::SelectSortCategory(SortCategory::Name));
    assert_eq!(*job_list.get_sort_category(), SortCategory::Name);
    assert!(job_list.is_reverse());
}

#[test]
fn test_sort_category_cycle() {
    assert_eq!(SortCategory::Id.next(), SortCategory::Name);
    assert_eq!(SortCategory::Name.next(), SortCategory::Status);
    assert_eq!(SortCategory::Status.next(), SortCategory::Time);
    assert_eq!(SortCategory::Time.next(), SortCategory::Partition);
    assert_eq!(SortCategory::Partition.next(), SortCategory::Nodes);
    assert_eq!(SortCategory::Nodes.next(), SortCategory::Id);
}

#[test]
fn test_status_sort_uses_priority_order() {
    let mut job_list = JobList::new();
    job_list.jobs.push(Job::new(
        "1", "a", JobStatus::Completed, "t", "p", 1, "w", "c", None,
    ));
    job_list.jobs.push(Job::new(
        "2", "b", JobStatus::Pending, "t", "p", 1, "w", "c", None,
    ));
    job_list.jobs.push(Job::new(
        "3", "c", JobStatus::Running, "t", "p", 1, "w", "c", None,
    ));
    job_list.set_sort_category(SortCategory::Status);
    let ids: Vec<&str> = job_list.jobs.iter().map(|j| j.id.as_str()).collect();
    // Pending < Running < Completed in the priority order
    assert_eq!(ids, vec!["2", "3", "1"]);
}
