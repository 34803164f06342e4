use stama::job::{Job, JobStatus};
use stama::joblist::JobList;
use stama::options::UserOptionsList;
use stama::worker::{set_content_loading, update_job_content, Content, ContentUpdater};

fn running_job(id: &str, name: &str) -> Job {
    Job::new(id, name, JobStatus::Running, "0-00:01:00", "p", 1, "/w", "/c", None)
}

fn snapshot(selected: Option<Job>, jobs: Vec<Job>) -> Content {
    Content::new(
        selected,
        jobs,
        "details from fetch".to_string(),
        "log from fetch".to_string(),
    )
}

#[test]
fn test_tick_starts_only_one_fetch() {
    // Two ticks in immediate succession: the first launches a fetch,
    // the second (nothing resolved yet) launches nothing.
    let mut updater = ContentUpdater::new();
    let (start, out) = updater.tick(None, None);
    assert!(start);
    assert!(out.is_none());
    let (start2, out2) = updater.tick(None, None);
    assert!(!start2);
    assert!(out2.is_none());
}

#[test]
fn test_tick_resolved_starts_next_fetch() {
    let mut updater = ContentUpdater::new();
    let (_, _) = updater.tick(None, None);
    let content = snapshot(None, Vec::new());
    let (start, out) = updater.tick(Some(content), None);
    assert!(start);
    assert!(out.is_some());
}

#[test]
fn test_stale_selection_gets_placeholder() {
    // The snapshot was launched for job 1, but job 2 is selected when
    // it arrives: its text blocks must not survive.
    let mut content = snapshot(Some(running_job("1", "a")), Vec::new());
    update_job_content(Some(running_job("2", "b")), &mut content);
    assert_eq!(content.details_text, "loading...");
    assert_eq!(content.log_text, "loading...");
}

#[test]
fn test_matching_selection_keeps_fetched_text() {
    let mut content = snapshot(Some(running_job("1", "a")), Vec::new());
    update_job_content(Some(running_job("1", "a")), &mut content);
    assert_eq!(content.details_text, "details from fetch");
    assert_eq!(content.log_text, "log from fetch");
}

#[test]
fn test_terminal_job_gets_synthesized_details() {
    let finished = Job::new(
        "9",
        "done",
        JobStatus::Completed,
        "1-00:00:00",
        "main",
        4,
        "/wd",
        "/cmd",
        None,
    );
    let mut content = snapshot(Some(finished.clone()), Vec::new());
    update_job_content(Some(finished), &mut content);
    assert_eq!(
        content.details_text,
        "Job id: 9\nJob name: done\nJob status: Completed\nTime used: 1-00:00:00\n\
Partition: main\nNodes: 4\nWorkdir: /wd\nCommand: /cmd"
    );
    assert_eq!(
        content.log_text,
        "Slurm has no database entry of the output file for completed jobs."
    );
}

#[test]
fn test_set_content_loading() {
    let mut content = snapshot(None, Vec::new());
    set_content_loading(&mut content);
    assert_eq!(content.details_text, "loading...");
    assert_eq!(content.log_text, "loading...");
}

#[test]
fn test_selection_survives_refresh() {
    // Selecting job X and applying a snapshot that still contains X,
    // reordered, leaves X selected.
    let mut job_list = JobList::new();
    job_list.jobs.push(running_job("1", "a"));
    job_list.jobs.push(running_job("2", "b"));
    job_list.jobs.push(running_job("3", "c"));
    job_list.select_job_by_id("2".to_string()).unwrap();
    let options = UserOptionsList::default();

    // first cycle launches the fetch
    let req = job_list.update_jobs(None, &options);
    assert!(req.is_some());

    // the fetch resolves with the same jobs in another order
    let selected = job_list.get_job().unwrap().clone();
    let new_list = vec![running_job("3", "c"), running_job("2", "b"), running_job("9", "x")];
    let content = snapshot(Some(selected), new_list);
    let req2 = job_list.update_jobs(Some(content), &options);
    assert!(req2.is_some());
    assert_eq!(job_list.get_job().unwrap().id, "2");
}

#[test]
fn test_selection_falls_back_to_top() {
    // A snapshot without the selected id resets the selection to the
    // first record; an empty snapshot leaves nothing selected.
    let mut job_list = JobList::new();
    job_list.jobs.push(running_job("1", "a"));
    job_list.jobs.push(running_job("2", "b"));
    job_list.select_job_by_id("2".to_string()).unwrap();
    let options = UserOptionsList::default();
    let _ = job_list.update_jobs(None, &options);

    let selected = job_list.get_job().unwrap().clone();
    let content = snapshot(Some(selected), vec![running_job("7", "q"), running_job("8", "r")]);
    let _ = job_list.update_jobs(Some(content), &options);
    assert_eq!(job_list.get_index(), 0);

    let selected2 = job_list.get_job().unwrap().clone();
    let empty = snapshot(Some(selected2), Vec::new());
    let _ = job_list.update_jobs(Some(empty), &options);
    assert!(job_list.get_job().is_none());
    assert_eq!(job_list.get_job_details(), "No job selected");
}

#[test]
fn test_update_jobs_applies_snapshot_sorted() {
    let mut job_list = JobList::new();
    let options = UserOptionsList::default();
    let _ = job_list.update_jobs(None, &options);
    let content = snapshot(None, vec![running_job("2", "b"), running_job("10", "a")]);
    let _ = job_list.update_jobs(Some(content), &options);
    // descending by id, lexicographically: "2" sorts before "10"
    assert_eq!(job_list.jobs[0].id, "2");
    assert_eq!(job_list.jobs[1].id, "10");
}
