use stama::feed::{
    dedup_completing, format_sacct_output, format_squeue_output, format_time, format_time_pending,
    format_time_used, get_log_path, merge_joblists,
};
use stama::job::{Job, JobStatus};

#[test]
fn test_format_time() {
    let mut job = Job::new_default();
    job.time = "0-00:00:10".to_string();
    assert_eq!(format_time(&job), "00:00:10");
    job.time = "1-00:00:10".to_string();
    assert_eq!(format_time(&job), "1-00:00:10");
}

#[test]
fn test_get_log_path() {
    let job_details = "
JobId=9638603 JobName=dummy_name
   NodeList=l[50321-50324,50327,50330,50333,50337-50338,50340-50341,50343]
   BatchHost=l50321
   Command=./path/to/command.run
   WorkDir=/work/dir
   StdErr=/std/LOG.err
   StdIn=/dev/null
   StdOut=/std/LOG.out";
    let log_path = get_log_path(job_details);
    assert_eq!(log_path, Some("/std/LOG.out".to_string()));
}

#[test]
fn test_get_log_path_missing() {
    assert_eq!(get_log_path("JobId=1\n   StdErr=/e.err\n"), None);
    // a matched line with an empty value resolves to nothing
    assert_eq!(get_log_path("   StdOut=\n   StdOut=/later.out\n"), None);
}

#[test]
fn test_format_time_used_pads() {
    assert_eq!(format_time_used("12:34"), "0-00:12:34");
    assert_eq!(format_time_used("1-02:03:04"), "1-02:03:04");
    assert_eq!(format_time_used("11-02:03:04"), "11-02:03:04");
    assert_eq!(format_time_used(""), "0-00:00:00");
}

#[test]
fn test_format_time_pending_converts_seconds() {
    // 90061 seconds is one day, one hour, one minute, one second
    assert_eq!(format_time_pending("90061"), "1-01:01:01");
    assert_eq!(format_time_pending("59"), "0-00:00:59");
    // a malformed count falls back to zero
    assert_eq!(format_time_pending("oops"), "0-00:00:00");
}

#[test]
fn test_live_feed_single_running_row() {
    // One live row and an empty historical feed give exactly one
    // Running record.
    let output = "JOBID|%|NAME|%|ST|%|TIME|%|PD_TIME|%|PARTITION|%|NODES|%|WORKDIR|%|CMD|%|OUT\n\
42|%|jobA|%|R|%|01:00:00|%||%|gpu|%|2|%|/wd|%|cmd|%|/out\n";
    let live = format_squeue_output(output);
    assert_eq!(live.len(), 1);
    assert_eq!(live[0].id, "42");
    assert_eq!(live[0].name, "jobA");
    assert_eq!(live[0].status, JobStatus::Running);
    assert_eq!(live[0].partition, "gpu");
    assert_eq!(live[0].nodes, 2);
    assert_eq!(live[0].time, "0-01:00:00");
    let merged = merge_joblists(live, Vec::new());
    assert_eq!(merged.len(), 1);
    assert_eq!(merged[0].id, "42");
    assert_eq!(merged[0].status, JobStatus::Running);
}

#[test]
fn test_live_feed_pending_row_converts_queue_time() {
    let output = "HEADER\n7|%|wait|%|PD|%|00:00|%|3661|%|cpu|%|1|%|/w|%|c|%|/o\n";
    let jobs = format_squeue_output(output);
    assert_eq!(jobs.len(), 1);
    assert_eq!(jobs[0].status, JobStatus::Pending);
    assert_eq!(jobs[0].time, "0-01:01:01");
}

#[test]
fn test_live_feed_skips_short_rows() {
    let output = "HEADER\nnot a job row\n42|%|jobA|%|CG|%|01:00:00|%||%|gpu|%|2|%|/wd|%|cmd|%|/out\n";
    let jobs = format_squeue_output(output);
    assert_eq!(jobs.len(), 1);
    assert_eq!(jobs[0].status, JobStatus::Completing);
}

#[test]
fn test_historical_feed_delimited() {
    let output = "\
8|old|COMPLETED|01:00:00|main|2|/wd|sbatch run.sh\n\
9|run|RUNNING|00:10:00|main|1|/wd|sbatch run.sh\n\
10|frag||00:01:00||1|/wd|sbatch run.sh\n\
11|late|TIMEOUT exceeded|02:00:00|main|4|/wd|sbatch run.sh\n";
    let jobs = format_sacct_output(output);
    // the running row and the empty-partition continuation row are skipped
    assert_eq!(jobs.len(), 2);
    assert_eq!(jobs[0].id, "8");
    assert_eq!(jobs[0].status, JobStatus::Completed);
    assert_eq!(jobs[0].command, "sbatch run.sh");
    assert_eq!(jobs[1].id, "11");
    assert_eq!(jobs[1].status, JobStatus::Timeout);
    assert_eq!(jobs[1].nodes, 4);
}

#[test]
fn test_historical_feed_fixed_width() {
    let line = format!(
        "{:<17}{:<17}{:<17}{:<17}{:<17}{:<17}",
        "7", "jobx", "CANCELLED by 12", "02:00:00", "main", "3"
    );
    let jobs = format_sacct_output(&line);
    assert_eq!(jobs.len(), 1);
    assert_eq!(jobs[0].id, "7");
    assert_eq!(jobs[0].name, "jobx");
    assert_eq!(jobs[0].status, JobStatus::Cancelled);
    assert_eq!(jobs[0].time, "02:00:00");
    assert_eq!(jobs[0].partition, "main");
    assert_eq!(jobs[0].nodes, 3);
}

#[test]
fn test_completing_dedup_keeps_one_record() {
    // A Completing record and two other records with its id collapse to
    // the Completing record alone; other ids are untouched.
    let mut jobs: Vec<Job> = Vec::new();
    jobs.push(Job::new(
        "5", "a", JobStatus::Completing, "t", "p", 1, "w", "c", None,
    ));
    jobs.push(Job::new(
        "5", "a", JobStatus::Completed, "t", "p", 1, "w", "c", None,
    ));
    jobs.push(Job::new(
        "6", "b", JobStatus::Running, "t", "p", 1, "w", "c", None,
    ));
    jobs.push(Job::new(
        "5", "a", JobStatus::Unknown, "t", "p", 1, "w", "c", None,
    ));
    let out = dedup_completing(&jobs);
    let with_id: Vec<&Job> = out.iter().filter(|j| j.id == "5").collect();
    assert_eq!(with_id.len(), 1);
    assert_eq!(with_id[0].status, JobStatus::Completing);
    assert_eq!(out.len(), 2);
    assert_eq!(out[1].id, "6");
}

#[test]
fn test_merge_without_completing_keeps_everything() {
    let mut live: Vec<Job> = Vec::new();
    live.push(Job::new(
        "1", "a", JobStatus::Running, "t", "p", 1, "w", "c", None,
    ));
    let mut hist: Vec<Job> = Vec::new();
    hist.push(Job::new(
        "1", "a", JobStatus::Completed, "t", "p", 1, "w", "c", None,
    ));
    hist.push(Job::new(
        "2", "b", JobStatus::Failed, "t", "p", 1, "w", "c", None,
    ));
    let merged = merge_joblists(live, hist);
    assert_eq!(merged.len(), 3);
}

#[test]
fn test_stdout_placeholder_substitution() {
    let job = Job::new(
        "42",
        "my",
        JobStatus::Running,
        "t",
        "p",
        1,
        "w",
        "c",
        Some("out_%j_%x_%5j.txt".to_string()),
    );
    assert_eq!(job.get_stdout(), Some("out_42_my_00042.txt".to_string()));
    // a width narrower than the id leaves the id as it is
    let job2 = Job::new(
        "123456",
        "n",
        JobStatus::Running,
        "t",
        "p",
        1,
        "w",
        "c",
        Some("%2j.log".to_string()),
    );
    assert_eq!(job2.get_stdout(), Some("123456.log".to_string()));
    let none = Job::new("1", "n", JobStatus::Running, "t", "p", 1, "w", "c", None);
    assert_eq!(none.get_stdout(), None);
}

#[test]
fn test_pending_time_overflow_falls_back_to_zero() {
    // a count too large for 64 bits parses as zero
    assert_eq!(
        format_time_pending("99999999999999999999999"),
        "0-00:00:00"
    );
}

#[test]
fn test_live_feed_bad_node_count_is_zero() {
    let output = "HEADER\n1|%|j|%|R|%|00:01:00|%||%|p|%|lots|%|/w|%|c|%|/o\n";
    let jobs = format_squeue_output(output);
    assert_eq!(jobs.len(), 1);
    assert_eq!(jobs[0].nodes, 0);
}

#[test]
fn test_live_feed_empty_output() {
    assert_eq!(format_squeue_output("").len(), 0);
    assert_eq!(format_squeue_output("HEADER\n").len(), 0);
    assert_eq!(format_sacct_output("").len(), 0);
}
