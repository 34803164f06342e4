//! The normalized representation of one scheduler job at a point in time.

use vstd::prelude::*;

use crate::strutil::{
    all_digits, is_digit_char, replace_all, spec_digits_val, spec_replace_all,
    parse_usize_checked,
};

verus! {

/// The closed set of job states reported by the scheduler.
#[derive(Debug, Clone, Copy, PartialEq, Eq, Structural)]
pub enum JobStatus {
    Unknown,
    Running,
    Pending,
    Completing,
    Completed,
    Timeout,
    Cancelled,
    Failed,
}

impl JobStatus {
    /// The rank of this status in the total order used for status-column
    /// sorting.
    pub open spec fn spec_priority(self) -> int {
        match self {
            JobStatus::Unknown => 0,
            JobStatus::Pending => 1,
            JobStatus::Running => 2,
            JobStatus::Completing => 3,
            JobStatus::Failed => 4,
            JobStatus::Completed => 5,
            JobStatus::Timeout => 6,
            JobStatus::Cancelled => 7,
        }
    }

    pub fn priority(&self) -> (p: usize)
        ensures
            p == self.spec_priority(),
    {
        match self {
            JobStatus::Unknown => 0,
            JobStatus::Pending => 1,
            JobStatus::Running => 2,
            JobStatus::Completing => 3,
            JobStatus::Failed => 4,
            JobStatus::Completed => 5,
            JobStatus::Timeout => 6,
            JobStatus::Cancelled => 7,
        }
    }

    /// The display name of this status.
    pub open spec fn spec_name(self) -> Seq<char> {
        match self {
            JobStatus::Unknown => "Unknown"@,
            JobStatus::Running => "Running"@,
            JobStatus::Pending => "Pending"@,
            JobStatus::Completing => "Completing"@,
            JobStatus::Completed => "Completed"@,
            JobStatus::Timeout => "Timeout"@,
            JobStatus::Cancelled => "Cancelled"@,
            JobStatus::Failed => "Failed"@,
        }
    }

    pub fn name(&self) -> (r: String)
        ensures
            r@ == self.spec_name(),
    {
        match self {
            JobStatus::Unknown => String::from_str("Unknown"),
            JobStatus::Running => String::from_str("Running"),
            JobStatus::Pending => String::from_str("Pending"),
            JobStatus::Completing => String::from_str("Completing"),
            JobStatus::Completed => String::from_str("Completed"),
            JobStatus::Timeout => String::from_str("Timeout"),
            JobStatus::Cancelled => String::from_str("Cancelled"),
            JobStatus::Failed => String::from_str("Failed"),
        }
    }
}

impl Default for JobStatus {
    fn default() -> (r: Self)
        ensures
            r == JobStatus::Unknown,
    {
        JobStatus::Unknown
    }
}

/// A status from which the scheduler will do no further work.
pub open spec fn spec_is_terminal(status: JobStatus) -> bool {
    match status {
        JobStatus::Completed => true,
        JobStatus::Failed => true,
        JobStatus::Timeout => true,
        JobStatus::Cancelled => true,
        _ => false,
    }
}

/// The mathematical value of a [`Job`]: every text field as a sequence of
/// characters.
pub struct JobView {
    pub id: Seq<char>,
    pub name: Seq<char>,
    pub status: JobStatus,
    pub time: Seq<char>,
    pub partition: Seq<char>,
    pub nodes: u32,
    pub workdir: Seq<char>,
    pub command: Seq<char>,
    pub output: Option<Seq<char>>,
}

/// One job record. Identity is the id; all other fields are a snapshot of
/// what the feeds last reported.
#[derive(Debug)]
pub struct Job {
    pub id: String,
    pub name: String,
    pub status: JobStatus,
    pub time: String,
    pub partition: String,
    pub nodes: u32,
    pub workdir: String,
    pub command: String,
    pub output: Option<String>,
}

impl View for Job {
    type V = JobView;

    open spec fn view(&self) -> JobView {
        JobView {
            id: self.id@,
            name: self.name@,
            status: self.status,
            time: self.time@,
            partition: self.partition@,
            nodes: self.nodes,
            workdir: self.workdir@,
            command: self.command@,
            output: match self.output {
                Option::Some(s) => Option::Some(s@),
                Option::None => Option::None,
            },
        }
    }
}

impl DeepView for Job {
    type V = JobView;

    open spec fn deep_view(&self) -> JobView {
        self.view()
    }
}

impl Clone for Job {
    fn clone(&self) -> (r: Self)
        ensures
            r == *self,
            r@ == self@,
    {
        Job {
            id: self.id.clone(),
            name: self.name.clone(),
            status: self.status,
            time: self.time.clone(),
            partition: self.partition.clone(),
            nodes: self.nodes,
            workdir: self.workdir.clone(),
            command: self.command.clone(),
            output: match &self.output {
                Some(s) => Some(s.clone()),
                None => None,
            },
        }
    }
}

impl Job {
    pub fn new(
        id: &str,
        name: &str,
        status: JobStatus,
        time: &str,
        partition: &str,
        nodes: u32,
        workdir: &str,
        command: &str,
        output: Option<String>,
    ) -> (r: Self)
        ensures
            r@.id == id@,
            r@.name == name@,
            r@.status == status,
            r@.time == time@,
            r@.partition == partition@,
            r@.nodes == nodes,
            r@.workdir == workdir@,
            r@.command == command@,
            r@.output == match output {
                Option::Some(s) => Option::Some(s@),
                Option::None => Option::<Seq<char>>::None,
            },
    {
        Self {
            id: id.to_owned(),
            name: name.to_owned(),
            status,
            time: time.to_owned(),
            partition: partition.to_owned(),
            nodes,
            workdir: workdir.to_owned(),
            command: command.to_owned(),
            output,
        }
    }

    /// A fixed example record, handy for exercising the collection.
    pub fn new_default() -> (r: Self)
        ensures
            r@.id == "123456"@,
            r@.name == "jobname"@,
            r@.status == JobStatus::Running,
            r@.time == "00:00:00"@,
            r@.partition == "default"@,
            r@.nodes == 1u32,
            r@.workdir == "/home/user"@,
            r@.command == "/path/to/script"@,
            r@.output is None,
    {
        Self {
            id: String::from_str("123456"),
            name: String::from_str("jobname"),
            status: JobStatus::Running,
            time: String::from_str("00:00:00"),
            partition: String::from_str("default"),
            nodes: 1,
            workdir: String::from_str("/home/user"),
            command: String::from_str("/path/to/script"),
            output: None,
        }
    }

    pub fn get_jobname(&self) -> (r: String)
        ensures
            r@ == self@.name,
    {
        self.name.clone()
    }

    /// Whether the job is in a terminal state: no further scheduler work
    /// will happen for it.
    pub open spec fn spec_is_completed(self) -> bool {
        spec_is_terminal(self.status)
    }

    pub fn is_completed(&self) -> (r: bool)
        ensures
            r == self.spec_is_completed(),
    {
        match self.status {
            JobStatus::Completed => true,
            JobStatus::Failed => true,
            JobStatus::Timeout => true,
            JobStatus::Cancelled => true,
            _ => false,
        }
    }
}

// ================================================================
//  Output-path templates
// ================================================================

/// The length of the run of decimal digits starting at `i`.
pub open spec fn spec_digit_run(s: Seq<char>, i: int) -> int
    decreases s.len() - i,
{
    if i < 0 || i >= s.len() {
        0
    } else if is_digit_char(s[i]) {
        1 + spec_digit_run(s, i + 1)
    } else {
        0
    }
}

proof fn lemma_digit_run_at(s: Seq<char>, i: int, j: int)
    requires
        0 <= i <= j <= s.len(),
        forall|k: int| i <= k < j ==> is_digit_char(s[k]),
        j == s.len() || !is_digit_char(s[j]),
    ensures
        spec_digit_run(s, i) == j - i,
    decreases j - i,
{
    if i < j {
        lemma_digit_run_at(s, i + 1, j);
    }
}

/// The id left-padded with zeros to `width` digits, or unchanged when
/// it is already that wide.
pub open spec fn spec_padded(id: Seq<char>, width: int) -> Seq<char> {
    if id.len() >= width {
        id
    } else {
        Seq::new((width - id.len()) as nat, |k: int| '0') + id
    }
}

/// The template with every `%<width>j` placeholder replaced by the id,
/// zero-padded to the given width. A width too large to represent is
/// left in place.
pub open spec fn spec_subst_numeric(s: Seq<char>, id: Seq<char>) -> Seq<char>
    decreases s.len(),
{
    if s.len() == 0 {
        s
    } else if s[0] == '%' {
        let d = spec_digit_run(s, 1);
        if d >= 1 && 1 + d < s.len() && s[1 + d] == 'j' {
            let num = spec_digits_val(s.subrange(1, 1 + d));
            (if num <= usize::MAX {
                spec_padded(id, num)
            } else {
                s.subrange(0, 2 + d)
            }) + spec_subst_numeric(s.skip(2 + d), id)
        } else {
            seq!['%'] + spec_subst_numeric(s.skip(1), id)
        }
    } else {
        seq![s[0]] + spec_subst_numeric(s.skip(1), id)
    }
}

/// Append the id left-padded with zeros to `width` digits.
fn append_padded(out: &mut String, id: &str, width: usize)
    ensures
        final(out)@ == old(out)@ + spec_padded(id@, width as int),
{
    proof {
        reveal_strlit("0");
    }
    let idlen = id.unicode_len();
    if idlen >= width {
        out.append(id);
        return ;
    }
    let ghost base = out@;
    let zeros: usize = width - idlen;
    let mut k: usize = 0;
    while k < zeros
        invariant
            k <= zeros,
            out@ == base + Seq::new(k as nat, |m: int| '0'),
            "0"@ == seq!['0'],
        decreases zeros - k,
    {
        out.append("0");
        proof {
            assert(out@ =~= base + Seq::new((k + 1) as nat, |m: int| '0'));
        }
        k += 1;
    }
    out.append(id);
    proof {
        assert(out@ =~= base + (Seq::new(zeros as nat, |m: int| '0') + id@));
    }
}

/// Substitute every `%<width>j` placeholder in the template.
fn subst_numeric(s: &str, id: &str) -> (r: String)
    ensures
        r@ == spec_subst_numeric(s@, id@),
{
    let slen = s.unicode_len();
    let mut out = String::new();
    let mut i: usize = 0;
    proof {
        assert(s@.skip(0) =~= s@);
        assert(out@ + spec_subst_numeric(s@, id@) =~= spec_subst_numeric(s@, id@));
    }
    while i < slen
        invariant
            i <= slen,
            slen == s@.len(),
            spec_subst_numeric(s@, id@) == out@ + spec_subst_numeric(s@.skip(i as int), id@),
        decreases slen - i,
    {
        let ghost tail = s@.skip(i as int);
        let ghost prev = out@;
        proof {
            assert(tail[0] == s@[i as int]);
            assert(tail.skip(1) =~= s@.skip(i + 1));
        }
        let c = s.get_char(i);
        if c == '%' {
            // measure the digit run after the `%`
            let start = i + 1;
            let mut j: usize = start;
            while j < slen && s.get_char(j) >= '0' && s.get_char(j) <= '9'
                invariant
                    start <= j <= slen,
                    slen == s@.len(),
                    forall|k: int| start <= k < j ==> is_digit_char(s@[k]),
                decreases slen - j,
            {
                j += 1;
            }
            let d = j - start;
            proof {
                assert forall|k: int| 1 <= k < 1 + d implies is_digit_char(tail[k]) by {
                    assert(tail[k] == s@[i + k]);
                }
                if (1 + d) < tail.len() {
                    assert(tail[1 + d] == s@[j as int]);
                }
                lemma_digit_run_at(tail, 1, 1 + d);
                assert(spec_digit_run(tail, 1) == d);
            }
            if d >= 1 && j < slen && s.get_char(j) == 'j' {
                proof {
                    assert(tail.subrange(1, 1 + d) =~= s@.subrange(start as int, j as int));
                    assert(tail.skip(2 + d) =~= s@.skip(j + 1));
                }
                let digits = s.substring_char(start, j);
                match parse_usize_checked(digits) {
                    Some(width) => {
                        append_padded(&mut out, id, width);
                        proof {
                            let rest = spec_subst_numeric(s@.skip(j + 1), id@);
                            assert(spec_digits_val(tail.subrange(1, 1 + d)) == width);
                            assert(prev + (spec_padded(id@, width as int) + rest) =~= (prev
                                + spec_padded(id@, width as int)) + rest);
                        }
                    }
                    None => {
                        let kept = s.substring_char(i, j + 1);
                        out.append(kept);
                        proof {
                            let rest = spec_subst_numeric(s@.skip(j + 1), id@);
                            let num = spec_digits_val(tail.subrange(1, 1 + d));
                            assert(num > usize::MAX) by {
                                assert(all_digits(tail.subrange(1, 1 + d)));
                                assert(tail.subrange(1, 1 + d).len() == d >= 1);
                            }
                            assert(kept@ =~= tail.subrange(0, 2 + d));
                            assert(prev + (tail.subrange(0, 2 + d) + rest) =~= (prev + kept@)
                                + rest);
                        }
                    }
                }
                i = j + 1;
            } else {
                out.append("%");
                proof {
                    reveal_strlit("%");
                    assert("%"@ =~= seq!['%']);
                    let rest = spec_subst_numeric(s@.skip(i + 1), id@);
                    assert(prev + (seq!['%'] + rest) =~= (prev + "%"@) + rest);
                }
                i += 1;
            }
        } else {
            let one = s.substring_char(i, i + 1);
            out.append(one);
            proof {
                assert(one@ =~= seq![s@[i as int]]);
                let rest = spec_subst_numeric(s@.skip(i + 1), id@);
                assert(prev + (seq![s@[i as int]] + rest) =~= (prev + one@) + rest);
            }
            i += 1;
        }
    }
    proof {
        assert(s@.skip(slen as int) =~= Seq::<char>::empty());
        assert(out@ + Seq::<char>::empty() =~= out@);
    }
    out
}

/// The fully substituted output-path template: `%j` replaced by the id,
/// then `%x` by the name, then each `%<width>j` by the zero-padded id.
pub open spec fn spec_stdout_path(output: Seq<char>, id: Seq<char>, name: Seq<char>) -> Seq<
    char,
> {
    spec_subst_numeric(
        spec_replace_all(spec_replace_all(output, "%j"@, id), "%x"@, name),
        id,
    )
}

impl Job {
    /// The job's output-log path with every placeholder substituted, or
    /// nothing when the record carries no path template.
    pub fn get_stdout(&self) -> (r: Option<String>)
        ensures
            match r {
                Some(p) => self@.output is Some && p@ == spec_stdout_path(
                    self@.output.unwrap(),
                    self@.id,
                    self@.name,
                ),
                None => self@.output is None,
            },
    {
        proof {
            reveal_strlit("%j");
            reveal_strlit("%x");
        }
        match &self.output {
            Some(output) => {
                let step1 = replace_all(output.as_str(), "%j", self.id.as_str());
                let step2 = replace_all(step1.as_str(), "%x", self.name.as_str());
                Some(subst_numeric(step2.as_str(), self.id.as_str()))
            }
            None => None,
        }
    }
}

} // verus!
