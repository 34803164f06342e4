//! Parsing of the two scheduler text feeds into job records, the time
//! normalization both feeds share, and the extraction of a log path from
//! a raw job-description block.

use vstd::prelude::*;

use crate::job::{Job, JobStatus, JobView};
use crate::strutil::{
    spec_split, spec_trim, spec_lines, spec_parse_decimal, spec_dec, spec_two_digits,
    spec_starts_with, spec_remove_spaces, spec_matches_at,
    split_str, split_lines, trim_str, str_eq_str, starts_with_str, contains_char,
    removed_spaces_start_with, parse_u64_or_zero, parse_u32_or_zero, u64_to_string,
    push_two_digits, lemma_remove_spaces_membership, lemma_split_contains, lemma_split_len,
};

verus! {

// ================================================================
//  Time normalization
// ================================================================

/// An elapsed-time string left-padded into the fixed `D-HH:MM:SS` width.
pub open spec fn spec_format_time_used(s: Seq<char>) -> Seq<char> {
    if s.len() <= 10 {
        "0-00:00:00"@.take(10 - s.len()) + s
    } else {
        s
    }
}

pub fn format_time_used(time_str: &str) -> (r: String)
    ensures
        r@ == spec_format_time_used(time_str@),
{
    proof {
        reveal_strlit("0-00:00:00");
    }
    let n = time_str.unicode_len();
    if n <= 10 {
        let tpl: &str = "0-00:00:00";
        let head = tpl.substring_char(0, 10 - n);
        let mut out = head.to_owned();
        out.append(time_str);
        proof {
            assert(tpl@.subrange(0, 10 - n) =~= tpl@.take(10 - time_str@.len()));
        }
        out
    } else {
        time_str.to_owned()
    }
}

/// A seconds-in-queue count rendered as `D-HH:MM:SS`.
pub open spec fn spec_format_time_pending(s: Seq<char>) -> Seq<char> {
    let secs = spec_parse_decimal(s, u64::MAX as int);
    spec_dec((secs / 86400) as nat) + seq!['-'] + spec_two_digits((secs % 86400 / 3600) as nat)
        + seq![':'] + spec_two_digits((secs % 3600 / 60) as nat) + seq![':'] + spec_two_digits(
        (secs % 60) as nat,
    )
}

pub fn format_time_pending(time_str: &str) -> (r: String)
    ensures
        r@ == spec_format_time_pending(time_str@),
{
    proof {
        reveal_strlit("-");
        reveal_strlit(":");
    }
    let t = parse_u64_or_zero(time_str);
    let days = t / 86400;
    let hours = (t % 86400) / 3600;
    let minutes = (t % 3600) / 60;
    let seconds = t % 60;
    let mut out = u64_to_string(days);
    out.append("-");
    push_two_digits(&mut out, hours);
    out.append(":");
    push_two_digits(&mut out, minutes);
    out.append(":");
    push_two_digits(&mut out, seconds);
    proof {
        assert(seq!['-'] =~= "-"@);
        assert(seq![':'] =~= ":"@);
        assert(out@ =~= spec_format_time_pending(time_str@));
    }
    out
}

/// The time column as it is displayed: the day part is dropped when it
/// is zero, a malformed value collapses to the empty string.
pub open spec fn spec_format_time(time: Seq<char>) -> Seq<char> {
    let parts = spec_split(time, seq!['-']);
    if parts.len() == 1 {
        parts[0]
    } else if parts.len() == 2 {
        if spec_parse_decimal(parts[0], i32::MAX as int) > 0 {
            time
        } else {
            parts[1]
        }
    } else {
        Seq::empty()
    }
}

pub fn format_time(job: &Job) -> (r: String)
    ensures
        r@ == spec_format_time(job@.time),
{
    proof {
        reveal_strlit("-");
        reveal_strlit("");
        assert("-"@ =~= seq!['-']);
    }
    let parts = split_str(job.time.as_str(), "-");
    if parts.len() == 1 {
        proof {
            assert(parts.deep_view()[0] == parts@[0]@);
        }
        parts[0].clone()
    } else if parts.len() == 2 {
        let days = parse_u64_or_zero(parts[0].as_str());
        proof {
            assert(parts.deep_view()[0] == parts@[0]@);
            assert(parts.deep_view()[1] == parts@[1]@);
        }
        if days > 0 && days <= i32::MAX as u64 {
            job.time.clone()
        } else {
            proof {
                if days > i32::MAX as u64 {
                    assert(spec_parse_decimal(parts@[0]@, i32::MAX as int) == 0);
                }
            }
            parts[1].clone()
        }
    } else {
        String::new()
    }
}

// ================================================================
//  The live feed
// ================================================================

/// The compact state codes of the live feed mapped to a status.
pub open spec fn spec_squeue_status(code: Seq<char>) -> JobStatus {
    if code == "R"@ {
        JobStatus::Running
    } else if code == "PD"@ {
        JobStatus::Pending
    } else if code == "CG"@ {
        JobStatus::Completing
    } else {
        JobStatus::Unknown
    }
}

fn squeue_status(code: &str) -> (r: JobStatus)
    ensures
        r == spec_squeue_status(code@),
{
    if str_eq_str(code, "R") {
        JobStatus::Running
    } else if str_eq_str(code, "PD") {
        JobStatus::Pending
    } else if str_eq_str(code, "CG") {
        JobStatus::Completing
    } else {
        JobStatus::Unknown
    }
}

/// One live-feed row: ten delimiter-separated columns, each trimmed.
/// A row with fewer columns is skipped.
pub open spec fn spec_parse_squeue_line(line: Seq<char>) -> Option<JobView> {
    let parts = spec_split(line, "|%|"@).map_values(|f: Seq<char>| spec_trim(f));
    if parts.len() < 10 {
        None
    } else {
        let status = spec_squeue_status(parts[2]);
        let time = if status == JobStatus::Pending {
            spec_format_time_pending(parts[4])
        } else {
            spec_format_time_used(parts[3])
        };
        Some(
            JobView {
                id: parts[0],
                name: parts[1],
                status: status,
                time: time,
                partition: parts[5],
                nodes: spec_parse_decimal(parts[6], u32::MAX as int) as u32,
                workdir: parts[7],
                command: parts[8],
                output: Some(parts[9]),
            },
        )
    }
}

fn parse_squeue_line(line: &str) -> (r: Option<Job>)
    ensures
        match r {
            Some(job) => spec_parse_squeue_line(line@) == Some(job@),
            None => spec_parse_squeue_line(line@) is None,
        },
{
    proof {
        reveal_strlit("|%|");
    }
    let raw = split_str(line, "|%|");
    let ghost rawv = raw.deep_view();
    let mut parts: Vec<String> = Vec::new();
    let mut k: usize = 0;
    while k < raw.len()
        invariant
            k <= raw.len(),
            rawv == raw.deep_view(),
            parts.deep_view() =~= rawv.take(k as int).map_values(|f: Seq<char>| spec_trim(f)),
        decreases raw.len() - k,
    {
        let ghost prev = parts.deep_view();
        let t = trim_str(raw[k].as_str());
        proof {
            assert(raw@[k as int]@ == rawv[k as int]);
        }
        parts.push(t.to_owned());
        proof {
            assert(parts.deep_view() =~= prev + seq![spec_trim(rawv[k as int])]);
            assert(parts.deep_view() =~= rawv.take(k + 1).map_values(
                |f: Seq<char>| spec_trim(f),
            ));
        }
        k += 1;
    }
    proof {
        assert(rawv.take(raw.len() as int) =~= rawv);
    }
    let ghost pv = spec_split(line@, "|%|"@).map_values(|f: Seq<char>| spec_trim(f));
    proof {
        assert(parts.deep_view() == pv);
    }
    if parts.len() < 10 {
        return None;
    }
    let status = squeue_status(parts[2].as_str());
    let time = match status {
        JobStatus::Pending => format_time_pending(parts[4].as_str()),
        _ => format_time_used(parts[3].as_str()),
    };
    let nodes = parse_u32_or_zero(parts[6].as_str());
    proof {
        assert forall|j: int| 0 <= j < 10 implies parts@[j]@ == pv[j] by {
            assert(parts.deep_view()[j] == parts@[j]@);
        }
    }
    let job = Job::new(
        parts[0].as_str(),
        parts[1].as_str(),
        status,
        time.as_str(),
        parts[5].as_str(),
        nodes,
        parts[7].as_str(),
        parts[8].as_str(),
        Some(parts[9].clone()),
    );
    Some(job)
}

/// The records of the live-feed rows after the header line, in feed
/// order.
pub open spec fn spec_parse_squeue_lines(lines: Seq<Seq<char>>) -> Seq<JobView>
    decreases lines.len(),
{
    if lines.len() == 0 {
        Seq::empty()
    } else {
        let rest = spec_parse_squeue_lines(lines.skip(1));
        match spec_parse_squeue_line(lines[0]) {
            Some(j) => seq![j] + rest,
            None => rest,
        }
    }
}

/// What the live feed's full output parses to: every row after the
/// header, in order.
pub open spec fn spec_parse_squeue(out: Seq<char>) -> Seq<JobView> {
    let ls = spec_lines(out);
    if ls.len() >= 1 {
        spec_parse_squeue_lines(ls.skip(1))
    } else {
        Seq::empty()
    }
}

/// Parse the live feed's output: the first line is a header, each later
/// line is one job row.
pub fn format_squeue_output(output: &str) -> (r: Vec<Job>)
    ensures
        r.deep_view() == spec_parse_squeue(output@),
{
    let lines = split_lines(output);
    let ghost lsv = lines.deep_view();
    let mut jobs: Vec<Job> = Vec::new();
    if lines.len() == 0 {
        return jobs;
    }
    let mut i: usize = 1;
    proof {
        assert(jobs.deep_view() + spec_parse_squeue_lines(lsv.skip(1)) =~= spec_parse_squeue_lines(
            lsv.skip(1),
        ));
    }
    while i < lines.len()
        invariant
            1 <= i <= lines.len(),
            lsv == lines.deep_view(),
            lsv.len() >= 1,
            spec_parse_squeue(output@) == jobs.deep_view() + spec_parse_squeue_lines(
                lsv.skip(i as int),
            ),
        decreases lines.len() - i,
    {
        let ghost prev = jobs.deep_view();
        let ghost tail = lsv.skip(i as int);
        proof {
            assert(tail[0] == lsv[i as int]);
            assert(tail.skip(1) =~= lsv.skip(i + 1));
            assert(lines@[i as int]@ == lsv[i as int]);
        }
        match parse_squeue_line(lines[i].as_str()) {
            Some(job) => {
                jobs.push(job);
                proof {
                    let ghost jv = jobs.deep_view().last();
                    assert(jobs.deep_view() =~= prev + seq![jv]);
                    assert(prev + (seq![jv] + spec_parse_squeue_lines(lsv.skip(i + 1))) =~= (prev
                        + seq![jv]) + spec_parse_squeue_lines(lsv.skip(i + 1)));
                }
            }
            None => {}
        }
        i += 1;
    }
    proof {
        assert(spec_parse_squeue_lines(lsv.skip(lines.len() as int)) =~= Seq::<JobView>::empty());
        assert(jobs.deep_view() + Seq::<JobView>::empty() =~= jobs.deep_view());
    }
    jobs
}

// ================================================================
//  The historical feed
// ================================================================

/// The long state names of the historical feed, mapped by prefix.
/// `None` marks a row to skip: still-active jobs duplicate the live feed
/// and are stale from this source.
pub open spec fn spec_sacct_status(t: Seq<char>) -> Option<JobStatus> {
    if spec_starts_with(t, "COMPLETED"@) {
        Some(JobStatus::Completed)
    } else if spec_starts_with(t, "TIMEOUT"@) {
        Some(JobStatus::Timeout)
    } else if spec_starts_with(t, "CANCELLED"@) {
        Some(JobStatus::Cancelled)
    } else if spec_starts_with(t, "FAILED"@) {
        Some(JobStatus::Failed)
    } else if spec_starts_with(t, "RUNNING"@) {
        None
    } else if spec_starts_with(t, "PENDING"@) {
        None
    } else {
        Some(JobStatus::Unknown)
    }
}

fn sacct_status(t: &str) -> (r: Option<JobStatus>)
    ensures
        r == spec_sacct_status(t@),
{
    if starts_with_str(t, "COMPLETED") {
        Some(JobStatus::Completed)
    } else if starts_with_str(t, "TIMEOUT") {
        Some(JobStatus::Timeout)
    } else if starts_with_str(t, "CANCELLED") {
        Some(JobStatus::Cancelled)
    } else if starts_with_str(t, "FAILED") {
        Some(JobStatus::Failed)
    } else if starts_with_str(t, "RUNNING") {
        None
    } else if starts_with_str(t, "PENDING") {
        None
    } else {
        Some(JobStatus::Unknown)
    }
}

/// A historical row in the explicit-delimiter format: eight `|`-separated
/// columns. A wrapped continuation row (empty partition) is skipped.
pub open spec fn spec_parse_sacct_delimited(line: Seq<char>) -> Option<JobView> {
    let parts = spec_split(line, seq!['|']).map_values(|f: Seq<char>| spec_trim(f));
    if parts.len() < 8 {
        None
    } else if parts[4].len() == 0 {
        None
    } else {
        match spec_sacct_status(parts[2]) {
            None => None,
            Some(status) => Some(
                JobView {
                    id: parts[0],
                    name: parts[1],
                    status: status,
                    time: parts[3],
                    partition: parts[4],
                    nodes: spec_parse_decimal(parts[5], u32::MAX as int) as u32,
                    workdir: parts[6],
                    command: parts[7],
                    output: None,
                },
            ),
        }
    }
}

/// A historical row in the fixed-width format: six columns of seventeen
/// characters. A shorter row, or one with an empty partition, is skipped.
pub open spec fn spec_parse_sacct_fixed(line: Seq<char>) -> Option<JobView> {
    if line.len() < 102 {
        None
    } else {
        let partition = spec_trim(line.subrange(68, 85));
        if partition.len() == 0 {
            None
        } else {
            match spec_sacct_status(spec_trim(line.subrange(34, 51))) {
                None => None,
                Some(status) => Some(
                    JobView {
                        id: spec_trim(line.subrange(0, 17)),
                        name: spec_trim(line.subrange(17, 34)),
                        status: status,
                        time: spec_trim(line.subrange(51, 68)),
                        partition: partition,
                        nodes: spec_parse_decimal(
                            spec_trim(line.subrange(85, 102)),
                            u32::MAX as int,
                        ) as u32,
                        workdir: Seq::empty(),
                        command: Seq::empty(),
                        output: None,
                    },
                ),
            }
        }
    }
}

/// One historical row. A blank line is skipped; a row with a `|` is in
/// the explicit-delimiter format, any other in the fixed-width format.
pub open spec fn spec_parse_sacct_line(line: Seq<char>) -> Option<JobView> {
    if spec_trim(line).len() == 0 {
        None
    } else if line.contains('|') {
        spec_parse_sacct_delimited(line)
    } else {
        spec_parse_sacct_fixed(line)
    }
}

fn parse_sacct_line(line: &str) -> (r: Option<Job>)
    ensures
        match r {
            Some(job) => spec_parse_sacct_line(line@) == Some(job@),
            None => spec_parse_sacct_line(line@) is None,
        },
{
    if trim_str(line).is_empty() {
        return None;
    }
    if contains_char(line, '|') {
        proof {
            reveal_strlit("|");
        }
        let raw = split_str(line, "|");
        let ghost rawv = raw.deep_view();
        proof {
            assert("|"@ =~= seq!['|']);
        }
        let mut parts: Vec<String> = Vec::new();
        let mut k: usize = 0;
        while k < raw.len()
            invariant
                k <= raw.len(),
                rawv == raw.deep_view(),
                parts.deep_view() =~= rawv.take(k as int).map_values(
                    |f: Seq<char>| spec_trim(f),
                ),
            decreases raw.len() - k,
        {
            let ghost prev = parts.deep_view();
            let t = trim_str(raw[k].as_str());
            proof {
                assert(raw@[k as int]@ == rawv[k as int]);
            }
            parts.push(t.to_owned());
            proof {
                assert(parts.deep_view() =~= prev + seq![spec_trim(rawv[k as int])]);
                assert(parts.deep_view() =~= rawv.take(k + 1).map_values(
                    |f: Seq<char>| spec_trim(f),
                ));
            }
            k += 1;
        }
        proof {
            assert(rawv.take(raw.len() as int) =~= rawv);
        }
        let ghost pv = spec_split(line@, seq!['|']).map_values(|f: Seq<char>| spec_trim(f));
        proof {
            assert(parts.deep_view() == pv);
        }
        if parts.len() < 8 {
            return None;
        }
        proof {
            assert forall|j: int| 0 <= j < 8 implies parts@[j]@ == pv[j] by {
                assert(parts.deep_view()[j] == parts@[j]@);
            }
        }
        if parts[4].as_str().is_empty() {
            return None;
        }
        match sacct_status(parts[2].as_str()) {
            None => None,
            Some(status) => {
                let nodes = parse_u32_or_zero(parts[5].as_str());
                let job = Job::new(
                    parts[0].as_str(),
                    parts[1].as_str(),
                    status,
                    parts[3].as_str(),
                    parts[4].as_str(),
                    nodes,
                    parts[6].as_str(),
                    parts[7].as_str(),
                    None,
                );
                Some(job)
            }
        }
    } else {
        let n = line.unicode_len();
        if n < 102 {
            return None;
        }
        let partition = trim_str(line.substring_char(68, 85));
        if partition.is_empty() {
            return None;
        }
        match sacct_status(trim_str(line.substring_char(34, 51))) {
            None => None,
            Some(status) => {
                let nodes = parse_u32_or_zero(trim_str(line.substring_char(85, 102)));
                proof {
                    reveal_strlit("");
                    assert(""@ =~= Seq::<char>::empty());
                }
                let job = Job::new(
                    trim_str(line.substring_char(0, 17)),
                    trim_str(line.substring_char(17, 34)),
                    status,
                    trim_str(line.substring_char(51, 68)),
                    partition,
                    nodes,
                    "",
                    "",
                    None,
                );
                Some(job)
            }
        }
    }
}

/// The records of the historical rows, in feed order.
pub open spec fn spec_parse_sacct_lines(lines: Seq<Seq<char>>) -> Seq<JobView>
    decreases lines.len(),
{
    if lines.len() == 0 {
        Seq::empty()
    } else {
        let rest = spec_parse_sacct_lines(lines.skip(1));
        match spec_parse_sacct_line(lines[0]) {
            Some(j) => seq![j] + rest,
            None => rest,
        }
    }
}

/// What the historical feed's full output parses to.
pub open spec fn spec_parse_sacct(out: Seq<char>) -> Seq<JobView> {
    spec_parse_sacct_lines(spec_lines(out))
}

/// Parse the historical feed's output, row by row.
pub fn format_sacct_output(output: &str) -> (r: Vec<Job>)
    ensures
        r.deep_view() == spec_parse_sacct(output@),
{
    let lines = split_lines(output);
    let ghost lsv = lines.deep_view();
    let mut jobs: Vec<Job> = Vec::new();
    let mut i: usize = 0;
    proof {
        assert(lsv.skip(0) =~= lsv);
        assert(jobs.deep_view() + spec_parse_sacct_lines(lsv) =~= spec_parse_sacct_lines(lsv));
    }
    while i < lines.len()
        invariant
            i <= lines.len(),
            lsv == lines.deep_view(),
            spec_parse_sacct(output@) == jobs.deep_view() + spec_parse_sacct_lines(
                lsv.skip(i as int),
            ),
        decreases lines.len() - i,
    {
        let ghost prev = jobs.deep_view();
        let ghost tail = lsv.skip(i as int);
        proof {
            assert(tail[0] == lsv[i as int]);
            assert(tail.skip(1) =~= lsv.skip(i + 1));
            assert(lines@[i as int]@ == lsv[i as int]);
        }
        match parse_sacct_line(lines[i].as_str()) {
            Some(job) => {
                jobs.push(job);
                proof {
                    let ghost jv = jobs.deep_view().last();
                    assert(jobs.deep_view() =~= prev + seq![jv]);
                    assert(prev + (seq![jv] + spec_parse_sacct_lines(lsv.skip(i + 1))) =~= (prev
                        + seq![jv]) + spec_parse_sacct_lines(lsv.skip(i + 1)));
                }
            }
            None => {}
        }
        i += 1;
    }
    proof {
        assert(spec_parse_sacct_lines(lsv.skip(lines.len() as int)) =~= Seq::<JobView>::empty());
        assert(jobs.deep_view() + Seq::<JobView>::empty() =~= jobs.deep_view());
    }
    jobs
}

// ================================================================
//  Log-path extraction
// ================================================================

/// The value of a matched output-file line: the text between the first
/// and second `=`, or nothing when it is empty.
pub open spec fn spec_extract_log_path(line: Seq<char>) -> Option<Seq<char>> {
    let parts = spec_split(line, seq!['=']);
    if parts.len() < 2 {
        None
    } else if parts[1].len() == 0 {
        None
    } else {
        Some(parts[1])
    }
}

/// The first line whose space-free form starts with `StdOut=` decides
/// the result; later lines are not consulted.
pub open spec fn spec_log_path_lines(lines: Seq<Seq<char>>) -> Option<Seq<char>>
    decreases lines.len(),
{
    if lines.len() == 0 {
        None
    } else if spec_starts_with(spec_remove_spaces(lines[0]), "StdOut="@) {
        spec_extract_log_path(lines[0])
    } else {
        spec_log_path_lines(lines.skip(1))
    }
}

/// The output-file path named in a raw job-description block, if any.
pub open spec fn spec_get_log_path(details: Seq<char>) -> Option<Seq<char>> {
    spec_log_path_lines(spec_lines(details))
}

/// Scan a job-description block line by line for its output-file field.
pub fn get_log_path(job_details: &str) -> (r: Option<String>)
    ensures
        match r {
            Some(p) => spec_get_log_path(job_details@) == Some(p@),
            None => spec_get_log_path(job_details@) is None,
        },
{
    let lines = split_lines(job_details);
    let ghost lsv = lines.deep_view();
    let mut i: usize = 0;
    proof {
        assert(lsv.skip(0) =~= lsv);
    }
    while i < lines.len()
        invariant
            i <= lines.len(),
            lsv == lines.deep_view(),
            spec_get_log_path(job_details@) == spec_log_path_lines(lsv.skip(i as int)),
        decreases lines.len() - i,
    {
        let ghost tail = lsv.skip(i as int);
        proof {
            assert(tail[0] == lsv[i as int]);
            assert(tail.skip(1) =~= lsv.skip(i + 1));
            assert(lines@[i as int]@ == lsv[i as int]);
        }
        let line = lines[i].as_str();
        if removed_spaces_start_with(line, "StdOut=") {
            proof {
                reveal_strlit("StdOut=");
                reveal_strlit("=");
                let stripped = spec_remove_spaces(line@);
                assert(stripped.take(7)[6] == '=');
                assert(stripped.contains('='));
                lemma_remove_spaces_membership(line@, '=');
                let k = choose|k: int| 0 <= k < line@.len() && line@[k] == '=';
                assert(line@.subrange(k, k + 1) =~= seq!['=']);
                assert(spec_matches_at(line@, seq!['='], k));
                lemma_split_contains(line@, seq!['='], k);
                assert("="@ =~= seq!['=']);
            }
            let parts = split_str(line, "=");
            proof {
                assert(parts.deep_view()[1] == parts@[1]@);
            }
            if parts[1].as_str().is_empty() {
                return None;
            }
            return Some(parts[1].clone());
        }
        i += 1;
    }
    proof {
        assert(lsv.skip(lines.len() as int) =~= Seq::<Seq<char>>::empty());
    }
    None
}

// ================================================================
//  Merging the two feeds
// ================================================================

/// Some record with this id has status `Completing`.
pub open spec fn spec_has_completing(js: Seq<JobView>, id: Seq<char>) -> bool {
    exists|k: int|
        0 <= k < js.len() && js[k].status == JobStatus::Completing && js[k].id == id
}

/// Whether the record at `i` survives the merge: a `Completing` record
/// survives when it is the first `Completing` record of its id; any
/// other record survives only when no `Completing` record shares its id.
pub open spec fn spec_keep(js: Seq<JobView>, i: int) -> bool {
    if js[i].status == JobStatus::Completing {
        forall|k: int|
            0 <= k < i ==> !(js[k].status == JobStatus::Completing && js[k].id == js[i].id)
    } else {
        !spec_has_completing(js, js[i].id)
    }
}

pub open spec fn spec_dedup_prefix(js: Seq<JobView>, n: int) -> Seq<JobView>
    decreases n,
{
    if n <= 0 {
        Seq::empty()
    } else {
        spec_dedup_prefix(js, n - 1) + if spec_keep(js, n - 1) {
            seq![js[n - 1]]
        } else {
            Seq::empty()
        }
    }
}

/// The merged list with stale duplicates of `Completing` jobs removed,
/// in order.
pub open spec fn spec_dedup_completing(js: Seq<JobView>) -> Seq<JobView> {
    spec_dedup_prefix(js, js.len() as int)
}

fn has_completing_with_id(jobs: &Vec<Job>, id: &String, upto: usize) -> (r: bool)
    requires
        upto <= jobs.len(),
    ensures
        r == exists|k: int|
            0 <= k < upto && jobs.deep_view()[k].status == JobStatus::Completing
                && jobs.deep_view()[k].id == id@,
{
    let mut k: usize = 0;
    while k < upto
        invariant
            k <= upto <= jobs.len(),
            forall|j: int|
                0 <= j < k ==> !(jobs.deep_view()[j].status == JobStatus::Completing
                    && jobs.deep_view()[j].id == id@),
        decreases upto - k,
    {
        proof {
            assert(jobs.deep_view()[k as int] == jobs@[k as int]@);
        }
        if jobs[k].status == JobStatus::Completing && str_eq_str(
            jobs[k].id.as_str(),
            id.as_str(),
        ) {
            return true;
        }
        k += 1;
    }
    false
}

/// Remove every record that shares an id with a `Completing` record and
/// is not itself that first `Completing` record.
pub fn dedup_completing(jobs: &Vec<Job>) -> (r: Vec<Job>)
    ensures
        r.deep_view() == spec_dedup_completing(jobs.deep_view()),
{
    let ghost jv = jobs.deep_view();
    let mut out: Vec<Job> = Vec::new();
    let mut i: usize = 0;
    while i < jobs.len()
        invariant
            i <= jobs.len(),
            jv == jobs.deep_view(),
            out.deep_view() =~= spec_dedup_prefix(jv, i as int),
        decreases jobs.len() - i,
    {
        proof {
            assert(jobs.deep_view()[i as int] == jobs@[i as int]@);
        }
        let ghost prev = out.deep_view();
        let keep: bool = if jobs[i].status == JobStatus::Completing {
            !has_completing_with_id(jobs, &jobs[i].id, i)
        } else {
            !has_completing_with_id(jobs, &jobs[i].id, jobs.len())
        };
        if keep {
            out.push(jobs[i].clone());
            proof {
                assert(out.deep_view() =~= prev + seq![jv[i as int]]);
            }
        }
        proof {
            assert(keep == spec_keep(jv, i as int));
            if !keep {
                assert(prev + Seq::<JobView>::empty() =~= prev);
            }
        }
        i += 1;
    }
    proof {
        assert(out.deep_view() =~= spec_dedup_prefix(jv, jv.len() as int));
    }
    out
}

/// Concatenate the live and historical lists and collapse `Completing`
/// duplicates: the merged view of one refresh.
pub fn merge_joblists(live: Vec<Job>, historical: Vec<Job>) -> (r: Vec<Job>)
    ensures
        r.deep_view() == spec_dedup_completing(live.deep_view() + historical.deep_view()),
{
    let ghost lv = live.deep_view();
    let ghost hv = historical.deep_view();
    let mut all = live;
    let mut hist = historical;
    all.append(&mut hist);
    proof {
        assert(all.deep_view() =~= lv + hv);
    }
    dedup_completing(&all)
}

/// How many records carry this id.
pub open spec fn spec_count_id(js: Seq<JobView>, id: Seq<char>) -> int
    decreases js.len(),
{
    if js.len() == 0 {
        0
    } else {
        spec_count_id(js.drop_last(), id) + if js.last().id == id {
            1int
        } else {
            0int
        }
    }
}

proof fn lemma_count_id_push(js: Seq<JobView>, x: JobView, id: Seq<char>)
    ensures
        spec_count_id(js + seq![x], id) == spec_count_id(js, id) + if x.id == id {
            1int
        } else {
            0int
        },
{
    let t = js + seq![x];
    assert(t.drop_last() =~= js);
    assert(t.last() == x);
}

proof fn lemma_dedup_prefix_count(js: Seq<JobView>, id: Seq<char>, n: int)
    requires
        spec_has_completing(js, id),
        0 <= n <= js.len(),
    ensures
        spec_count_id(spec_dedup_prefix(js, n), id) == if exists|k: int|
            0 <= k < n && js[k].status == JobStatus::Completing && js[k].id == id {
            1int
        } else {
            0int
        },
        forall|k: int|
            0 <= k < spec_dedup_prefix(js, n).len() && spec_dedup_prefix(js, n)[k].id == id
                ==> spec_dedup_prefix(js, n)[k].status == JobStatus::Completing,
    decreases n,
{
    if n == 0 {
    } else {
        lemma_dedup_prefix_count(js, id, n - 1);
        let p = spec_dedup_prefix(js, n - 1);
        let whole = spec_dedup_prefix(js, n);
        if spec_keep(js, n - 1) {
            lemma_count_id_push(p, js[n - 1], id);
            assert(whole == p + seq![js[n - 1]]);
            if js[n - 1].id == id {
                assert(js[n - 1].status == JobStatus::Completing);
                assert(!(exists|k: int|
                    0 <= k < n - 1 && js[k].status == JobStatus::Completing && js[k].id == id));
                assert(exists|k: int|
                    0 <= k < n && js[k].status == JobStatus::Completing && js[k].id == id) by {
                    assert(js[n - 1].status == JobStatus::Completing && js[n - 1].id == id);
                }
                assert(forall|k: int|
                    0 <= k < whole.len() && whole[k].id == id ==> whole[k].status
                        == JobStatus::Completing) by {
                    assert(forall|k: int| 0 <= k < p.len() ==> whole[k] == p[k]);
                    assert(whole[whole.len() - 1] == js[n - 1]);
                }
            } else {
                assert(spec_count_id(whole, id) == spec_count_id(p, id));
                assert((exists|k: int|
                    0 <= k < n && js[k].status == JobStatus::Completing && js[k].id == id)
                    == (exists|k: int|
                    0 <= k < n - 1 && js[k].status == JobStatus::Completing && js[k].id == id))
                    by {
                    if exists|k: int|
                        0 <= k < n && js[k].status == JobStatus::Completing && js[k].id == id {
                        let k = choose|k: int|
                            0 <= k < n && js[k].status == JobStatus::Completing && js[k].id
                                == id;
                        assert(k < n - 1 || k == n - 1);
                    }
                }
                assert(forall|k: int| 0 <= k < p.len() ==> whole[k] == p[k]);
                assert(whole[whole.len() - 1] == js[n - 1]);
            }
        } else {
            assert(p + Seq::<JobView>::empty() =~= p);
            assert(whole == p);
            if js[n - 1].id == id {
                if js[n - 1].status == JobStatus::Completing {
                    // a Completing record was dropped: an earlier one exists
                    assert(exists|k: int|
                        0 <= k < n - 1 && js[k].status == JobStatus::Completing && js[k].id
                            == id);
                } else {
                    assert((exists|k: int|
                        0 <= k < n && js[k].status == JobStatus::Completing && js[k].id == id)
                        == (exists|k: int|
                        0 <= k < n - 1 && js[k].status == JobStatus::Completing && js[k].id
                            == id)) by {
                        if exists|k: int|
                            0 <= k < n && js[k].status == JobStatus::Completing && js[k].id
                                == id {
                            let k = choose|k: int|
                                0 <= k < n && js[k].status == JobStatus::Completing && js[k].id
                                    == id;
                            assert(k < n - 1 || k == n - 1);
                        }
                    }
                }
            }
        }
    }
}

/// A merged list holding a `Completing` record for some id keeps, after
/// the dedup, exactly one record with that id — and that record is the
/// `Completing` one.
pub proof fn lemma_completing_dedup(js: Seq<JobView>, id: Seq<char>)
    requires
        spec_has_completing(js, id),
    ensures
        spec_count_id(spec_dedup_completing(js), id) == 1,
        forall|k: int|
            0 <= k < spec_dedup_completing(js).len() && spec_dedup_completing(js)[k].id == id
                ==> spec_dedup_completing(js)[k].status == JobStatus::Completing,
{
    lemma_dedup_prefix_count(js, id, js.len() as int);
    let k = choose|k: int|
        0 <= k < js.len() && js[k].status == JobStatus::Completing && js[k].id == id;
    assert(exists|m: int|
        0 <= m < js.len() && js[m].status == JobStatus::Completing && js[m].id == id) by {
        assert(js[k].status == JobStatus::Completing && js[k].id == id);
    }
}

} // verus!
