//! The job collection: the current record list, the sort order over it,
//! and the identity-based selection.

use vstd::prelude::*;

use crate::job::{Job, JobStatus, JobView};
use crate::options::UserOptionsList;
use crate::strutil::{
    lex_le, str_le, str_eq_str, lemma_lex_le_total, lemma_lex_le_trans, lemma_lex_le_antisym,
};
use crate::worker::{spec_loading_text, spec_opt_job_view, spec_reconcile, Content, ContentUpdater};

verus! {

broadcast use vstd::seq_lib::group_to_multiset_ensures;

/// The six columns the collection can be ordered by.
#[derive(Debug, Clone, Copy, PartialEq, Eq, Structural)]
pub enum SortCategory {
    Id,
    Name,
    Status,
    Time,
    Partition,
    Nodes,
}

impl SortCategory {
    /// The category after this one in the cycle the sort key walks.
    pub open spec fn spec_next(self) -> SortCategory {
        match self {
            SortCategory::Id => SortCategory::Name,
            SortCategory::Name => SortCategory::Status,
            SortCategory::Status => SortCategory::Time,
            SortCategory::Time => SortCategory::Partition,
            SortCategory::Partition => SortCategory::Nodes,
            SortCategory::Nodes => SortCategory::Id,
        }
    }

    pub fn next(&self) -> (r: SortCategory)
        ensures
            r == self.spec_next(),
    {
        match self {
            SortCategory::Id => SortCategory::Name,
            SortCategory::Name => SortCategory::Status,
            SortCategory::Status => SortCategory::Time,
            SortCategory::Time => SortCategory::Partition,
            SortCategory::Partition => SortCategory::Nodes,
            SortCategory::Nodes => SortCategory::Id,
        }
    }
}

// ================================================================
//  The order on records
// ================================================================

/// The primary keys of `a` and `b` are equal under `cat`.
pub open spec fn spec_key_eq(cat: SortCategory, a: JobView, b: JobView) -> bool {
    match cat {
        SortCategory::Id => a.id == b.id,
        SortCategory::Name => a.name == b.name,
        SortCategory::Status => a.status.spec_priority() == b.status.spec_priority(),
        SortCategory::Time => a.time == b.time,
        SortCategory::Partition => a.partition == b.partition,
        SortCategory::Nodes => a.nodes == b.nodes,
    }
}

/// The primary key of `a` is strictly before that of `b` under `cat`.
/// Id and Nodes order descending, the other columns ascending.
pub open spec fn spec_key_lt(cat: SortCategory, a: JobView, b: JobView) -> bool {
    match cat {
        SortCategory::Id => a.id != b.id && lex_le(b.id, a.id),
        SortCategory::Name => a.name != b.name && lex_le(a.name, b.name),
        SortCategory::Status => a.status.spec_priority() < b.status.spec_priority(),
        SortCategory::Time => a.time != b.time && lex_le(a.time, b.time),
        SortCategory::Partition => a.partition != b.partition && lex_le(a.partition, b.partition),
        SortCategory::Nodes => a.nodes > b.nodes,
    }
}

/// `a` sorts at or before `b`: primary key first, ties broken by id so
/// that the order is deterministic.
pub open spec fn spec_job_le(cat: SortCategory, a: JobView, b: JobView) -> bool {
    spec_key_lt(cat, a, b) || (spec_key_eq(cat, a, b) && lex_le(a.id, b.id))
}

/// The order is total: either record may come first.
pub proof fn lemma_job_le_total(cat: SortCategory, a: JobView, b: JobView)
    ensures
        spec_job_le(cat, a, b) || spec_job_le(cat, b, a),
{
    match cat {
        SortCategory::Id => lemma_lex_le_total(a.id, b.id),
        SortCategory::Name => {
            lemma_lex_le_total(a.name, b.name);
            lemma_lex_le_total(a.id, b.id);
        }
        SortCategory::Status => lemma_lex_le_total(a.id, b.id),
        SortCategory::Time => {
            lemma_lex_le_total(a.time, b.time);
            lemma_lex_le_total(a.id, b.id);
        }
        SortCategory::Partition => {
            lemma_lex_le_total(a.partition, b.partition);
            lemma_lex_le_total(a.id, b.id);
        }
        SortCategory::Nodes => lemma_lex_le_total(a.id, b.id),
    }
}

/// A record at or before another both ways shares its primary key and
/// its id with it.
pub proof fn lemma_job_le_antisym(cat: SortCategory, a: JobView, b: JobView)
    requires
        spec_job_le(cat, a, b),
        spec_job_le(cat, b, a),
    ensures
        spec_key_eq(cat, a, b),
        a.id == b.id,
{
    match cat {
        SortCategory::Id => lemma_lex_le_antisym(a.id, b.id),
        SortCategory::Name => {
            if a.name != b.name {
                lemma_lex_le_antisym(a.name, b.name);
            }
            lemma_lex_le_antisym(a.id, b.id);
        }
        SortCategory::Status => lemma_lex_le_antisym(a.id, b.id),
        SortCategory::Time => {
            if a.time != b.time {
                lemma_lex_le_antisym(a.time, b.time);
            }
            lemma_lex_le_antisym(a.id, b.id);
        }
        SortCategory::Partition => {
            if a.partition != b.partition {
                lemma_lex_le_antisym(a.partition, b.partition);
            }
            lemma_lex_le_antisym(a.id, b.id);
        }
        SortCategory::Nodes => lemma_lex_le_antisym(a.id, b.id),
    }
}

/// The order is transitive.
pub proof fn lemma_job_le_trans(cat: SortCategory, a: JobView, b: JobView, c: JobView)
    requires
        spec_job_le(cat, a, b),
        spec_job_le(cat, b, c),
    ensures
        spec_job_le(cat, a, c),
{
    match cat {
        SortCategory::Id => {
            assert(lex_le(b.id, a.id));
            assert(lex_le(c.id, b.id));
            lemma_lex_le_trans(c.id, b.id, a.id);
            if a.id == c.id {
                assert(lex_le(a.id, c.id));
            }
        }
        SortCategory::Name => {
            lemma_str_key_trans(a.name, b.name, c.name, a.id, b.id, c.id);
        }
        SortCategory::Status => {
            if spec_key_eq(cat, a, b) && spec_key_eq(cat, b, c) {
                lemma_lex_le_trans(a.id, b.id, c.id);
            }
        }
        SortCategory::Time => {
            lemma_str_key_trans(a.time, b.time, c.time, a.id, b.id, c.id);
        }
        SortCategory::Partition => {
            lemma_str_key_trans(a.partition, b.partition, c.partition, a.id, b.id, c.id);
        }
        SortCategory::Nodes => {
            if a.nodes == b.nodes && b.nodes == c.nodes {
                lemma_lex_le_trans(a.id, b.id, c.id);
            }
        }
    }
}

/// Transitivity of "key first, id second" for a text-valued key.
proof fn lemma_str_key_trans(
    ka: Seq<char>,
    kb: Seq<char>,
    kc: Seq<char>,
    ia: Seq<char>,
    ib: Seq<char>,
    ic: Seq<char>,
)
    requires
        (ka != kb && lex_le(ka, kb)) || (ka == kb && lex_le(ia, ib)),
        (kb != kc && lex_le(kb, kc)) || (kb == kc && lex_le(ib, ic)),
    ensures
        (ka != kc && lex_le(ka, kc)) || (ka == kc && lex_le(ia, ic)),
{
    if ka == kb && kb == kc {
        lemma_lex_le_trans(ia, ib, ic);
    } else if ka == kb {
        // kb strictly before kc, and ka equals kb
        assert(ka != kc && lex_le(ka, kc));
    } else if kb == kc {
        assert(ka != kc && lex_le(ka, kc));
    } else {
        lemma_lex_le_trans(ka, kb, kc);
        if ka == kc {
            lemma_lex_le_antisym(ka, kb);
        }
    }
}

/// Exec comparison mirroring `spec_job_le`.
pub fn job_le(cat: SortCategory, a: &Job, b: &Job) -> (r: bool)
    ensures
        r == spec_job_le(cat, a@, b@),
{
    match cat {
        SortCategory::Id => {
            if str_eq_str(a.id.as_str(), b.id.as_str()) {
                str_le(a.id.as_str(), b.id.as_str())
            } else {
                str_le(b.id.as_str(), a.id.as_str())
            }
        }
        SortCategory::Name => {
            if str_eq_str(a.name.as_str(), b.name.as_str()) {
                str_le(a.id.as_str(), b.id.as_str())
            } else {
                str_le(a.name.as_str(), b.name.as_str())
            }
        }
        SortCategory::Status => {
            let pa = a.status.priority();
            let pb = b.status.priority();
            if pa == pb {
                str_le(a.id.as_str(), b.id.as_str())
            } else {
                pa < pb
            }
        }
        SortCategory::Time => {
            if str_eq_str(a.time.as_str(), b.time.as_str()) {
                str_le(a.id.as_str(), b.id.as_str())
            } else {
                str_le(a.time.as_str(), b.time.as_str())
            }
        }
        SortCategory::Partition => {
            if str_eq_str(a.partition.as_str(), b.partition.as_str()) {
                str_le(a.id.as_str(), b.id.as_str())
            } else {
                str_le(a.partition.as_str(), b.partition.as_str())
            }
        }
        SortCategory::Nodes => {
            if a.nodes == b.nodes {
                str_le(a.id.as_str(), b.id.as_str())
            } else {
                a.nodes > b.nodes
            }
        }
    }
}

// ================================================================
//  Sorting
// ================================================================

/// The order with the direction folded in: the reverse flag swaps the
/// operands, so every comparison (ties included) flips.
pub open spec fn spec_job_le_dir(cat: SortCategory, rev: bool, a: JobView, b: JobView) -> bool {
    if rev {
        spec_job_le(cat, b, a)
    } else {
        spec_job_le(cat, a, b)
    }
}

pub proof fn lemma_job_le_dir_total(cat: SortCategory, rev: bool, a: JobView, b: JobView)
    ensures
        spec_job_le_dir(cat, rev, a, b) || spec_job_le_dir(cat, rev, b, a),
{
    lemma_job_le_total(cat, a, b);
}

pub proof fn lemma_job_le_dir_trans(cat: SortCategory, rev: bool, a: JobView, b: JobView, c: JobView)
    requires
        spec_job_le_dir(cat, rev, a, b),
        spec_job_le_dir(cat, rev, b, c),
    ensures
        spec_job_le_dir(cat, rev, a, c),
{
    if rev {
        lemma_job_le_trans(cat, c, b, a);
    } else {
        lemma_job_le_trans(cat, a, b, c);
    }
}

fn job_le_dir(cat: SortCategory, rev: bool, a: &Job, b: &Job) -> (r: bool)
    ensures
        r == spec_job_le_dir(cat, rev, a@, b@),
{
    if rev {
        job_le(cat, b, a)
    } else {
        job_le(cat, a, b)
    }
}

/// Every pair of positions is ordered for the category and direction.
pub open spec fn spec_ordered(s: Seq<JobView>, cat: SortCategory, rev: bool) -> bool {
    forall|i: int, j: int| 0 <= i < j < s.len() ==> spec_job_le_dir(cat, rev, s[i], s[j])
}

/// Tie-break determinism: in an ordered list, two records whose primary
/// keys are equal stand in id order (reversed with the direction),
/// wherever they came from.
pub proof fn lemma_tie_break(js: Seq<JobView>, cat: SortCategory, rev: bool, i: int, j: int)
    requires
        spec_ordered(js, cat, rev),
        0 <= i < j < js.len(),
        spec_key_eq(cat, js[i], js[j]),
    ensures
        rev ==> lex_le(js[j].id, js[i].id),
        !rev ==> lex_le(js[i].id, js[j].id),
{
    assert(spec_job_le_dir(cat, rev, js[i], js[j]));
}

proof fn lemma_insert_multiset(s: Seq<JobView>, p: int, x: JobView)
    requires
        0 <= p <= s.len(),
    ensures
        s.insert(p, x).to_multiset() =~= s.to_multiset().insert(x),
{
    let t = s.insert(p, x);
    s.insert_ensures(p, x);
    assert(t.remove(p) =~= s);
    assert(t.remove(p).to_multiset() =~= t.to_multiset().remove(t[p]));
    assert(t[p] == x);
    assert(t.contains(x)) by {
        assert(t[p] == x);
    }
    assert(t.to_multiset().count(x) > 0);
    assert forall|y: JobView| t.to_multiset().count(y) == s.to_multiset().insert(x).count(y) by {
        if y == x {
            assert(s.to_multiset().count(x) == t.to_multiset().count(x) - 1);
        } else {
            assert(s.to_multiset().count(y) == t.to_multiset().count(y));
        }
    }
}

/// Sort the records by `cat` in the given direction, id as the
/// deterministic secondary key. A list already in that order comes back
/// unchanged, so sorting twice equals sorting once.
pub fn sort_jobs(jobs: &Vec<Job>, cat: SortCategory, rev: bool) -> (r: Vec<Job>)
    ensures
        spec_ordered(r.deep_view(), cat, rev),
        r.deep_view().to_multiset() == jobs.deep_view().to_multiset(),
        r.deep_view().len() == jobs.deep_view().len(),
        spec_ordered(jobs.deep_view(), cat, rev) ==> r.deep_view() == jobs.deep_view(),
{
    let ghost jv = jobs.deep_view();
    let mut out: Vec<Job> = Vec::new();
    let mut i: usize = 0;
    proof {
        assert(jv.take(0) =~= Seq::<JobView>::empty());
        assert(out.deep_view() =~= Seq::<JobView>::empty());
        assert(Seq::<JobView>::empty().to_multiset() =~= Seq::<JobView>::empty().to_multiset());
    }
    while i < jobs.len()
        invariant
            i <= jobs.len(),
            jv == jobs.deep_view(),
            out.len() == i,
            spec_ordered(out.deep_view(), cat, rev),
            out.deep_view().to_multiset() == jv.take(i as int).to_multiset(),
            spec_ordered(jv, cat, rev) ==> out.deep_view() == jv.take(i as int),
        decreases jobs.len() - i,
    {
        let ghost old_dv = out.deep_view();
        let x = jobs[i].clone();
        let ghost xv = x@;
        proof {
            assert(jobs.deep_view()[i as int] == jobs@[i as int]@);
        }
        let mut p: usize = 0;
        while p < out.len() && job_le_dir(cat, rev, &out[p], &x)
            invariant
                p <= out.len(),
                out.deep_view() == old_dv,
                xv == x@,
                forall|q: int| 0 <= q < p ==> spec_job_le_dir(cat, rev, old_dv[q], xv),
            decreases out.len() - p,
        {
            proof {
                assert(out.deep_view()[p as int] == out@[p as int]@);
                assert(spec_job_le_dir(cat, rev, out@[p as int]@, x@));
                assert(spec_job_le_dir(cat, rev, old_dv[p as int], xv));
            }
            p += 1;
        }
        proof {
            assert(p == out.len() || !spec_job_le_dir(cat, rev, old_dv[p as int], xv)) by {
                if p < out.len() {
                    assert(out.deep_view()[p as int] == out@[p as int]@);
                }
            }
        }
        out.insert(p, x);
        proof {
            // the new sequence of views is the old one with xv inserted
            let new_dv = out.deep_view();
            assert(new_dv =~= old_dv.insert(p as int, xv)) by {
                old_dv.insert_ensures(p as int, xv);
                assert forall|k: int| 0 <= k < new_dv.len() implies new_dv[k] == old_dv.insert(
                    p as int,
                    xv,
                )[k] by {
                    assert(new_dv[k] == out@[k]@);
                    assert(out@ == out@.subrange(0, out@.len() as int));
                }
            }
            old_dv.insert_ensures(p as int, xv);
            // order: everything before p is at or before xv, everything
            // after was at or after it already
            assert forall|a: int, b: int|
                0 <= a < b < new_dv.len() implies spec_job_le_dir(cat, rev, new_dv[a], new_dv[b]) by {
                if a < p && b == p {
                    assert(new_dv[a] == old_dv[a]);
                    assert(new_dv[b] == xv);
                    assert(spec_job_le_dir(cat, rev, old_dv[a], xv));
                } else if a == p && b > p {
                    assert(new_dv[a] == xv);
                    assert(new_dv[b] == old_dv[b - 1]);
                    assert(p <= b - 1 < old_dv.len());
                    lemma_job_le_dir_total(cat, rev, old_dv[p as int], xv);
                    assert(spec_job_le_dir(cat, rev, xv, old_dv[p as int]));
                    if b - 1 > p {
                        assert(spec_job_le_dir(cat, rev, old_dv[p as int], old_dv[b - 1]));
                        lemma_job_le_dir_trans(cat, rev, xv, old_dv[p as int], old_dv[b - 1]);
                    }
                } else if a < p && b > p {
                    assert(new_dv[a] == old_dv[a]);
                    assert(new_dv[b] == old_dv[b - 1]);
                    assert(a < b - 1);
                } else if a > p && b > p {
                    assert(new_dv[a] == old_dv[a - 1]);
                    assert(new_dv[b] == old_dv[b - 1]);
                } else {
                    assert(new_dv[a] == old_dv[a]);
                    assert(new_dv[b] == old_dv[b]);
                }
            }
            // permutation
            lemma_insert_multiset(old_dv, p as int, xv);
            assert(jv.take(i + 1) =~= jv.take(i as int).push(jv[i as int]));
            assert(jv.take(i + 1).to_multiset() =~= jv.take(i as int).to_multiset().insert(
                jv[i as int],
            ));
            // a sorted input is rebuilt unchanged
            if spec_ordered(jv, cat, rev) {
                assert(old_dv == jv.take(i as int));
                assert forall|q: int| 0 <= q < i implies spec_job_le_dir(cat, rev, old_dv[q], xv) by {
                    assert(jv.take(i as int)[q] == jv[q]);
                }
                assert(p == out.len() - 1);
                assert(new_dv =~= jv.take(i + 1));
            }
        }
        i += 1;
    }
    proof {
        assert(jv.take(jv.len() as int) =~= jv);
    }
    out
}

// ================================================================
//  The collection
// ================================================================

/// A selection or ordering change to apply to the collection.
#[derive(Debug)]
pub enum JobListAction {
    Next,
    Previous,
    Select(usize),
    SelectSortCategory(SortCategory),
    NextSortCategory,
    ReverseSortDirection,
    UpdateSqueueCommand(String),
}

/// Why an explicit selection call failed.
#[derive(Debug, Clone, Copy, PartialEq, Eq, Structural)]
pub enum SelectError {
    IndexOutOfBounds,
    JobNotFound,
}

/// What the shell needs to launch the next background fetch: owned
/// copies of the parameters, nothing shared.
pub struct FetchRequest {
    /// The job selected at launch, recorded for reconciliation.
    pub job: Option<Job>,
    pub squeue_command: String,
    pub show_completed_jobs: bool,
}

/// The job collection: the current record list, the sort order, the
/// id-based selection, the cached detail/log text, and the refresh
/// worker's state.
pub struct JobList {
    pub jobs: Vec<Job>,
    pub selected: usize,
    pub job_details: String,
    pub log_tail: String,
    pub sort_category: SortCategory,
    pub reverse: bool,
    pub content_updater: ContentUpdater,
    pub squeue_command: String,
}

/// Everything but the selection and the text blocks is unchanged.
pub open spec fn spec_same_but_selection(o: JobList, n: JobList) -> bool {
    n.jobs == o.jobs && n.sort_category == o.sort_category && n.reverse == o.reverse
        && n.content_updater == o.content_updater && n.squeue_command == o.squeue_command
}

/// Selection moved to `sel`; both text blocks show the loading
/// placeholder until the next resolved fetch.
pub open spec fn spec_moved_to(o: JobList, n: JobList, sel: int) -> bool {
    spec_same_but_selection(o, n) && n.selected == sel && n.job_details@ == spec_loading_text()
        && n.log_tail@ == spec_loading_text()
}

/// `next` wraps forward by one position; a no-op on an empty list.
pub open spec fn spec_next_rel(o: JobList, n: JobList) -> bool {
    if o.jobs@.len() == 0 {
        n == o
    } else {
        spec_moved_to(o, n, (o.selected + 1) % (o.jobs@.len() as int))
    }
}

/// `previous` wraps backward by one position; a no-op on an empty list.
pub open spec fn spec_previous_rel(o: JobList, n: JobList) -> bool {
    if o.jobs@.len() == 0 {
        n == o
    } else {
        spec_moved_to(o, n, (o.selected + o.jobs@.len() - 1) % (o.jobs@.len() as int))
    }
}

/// The record selected before a cycle, as the reconciliation sees it.
pub open spec fn spec_prev_view(o: JobList) -> Option<JobView> {
    if o.jobs@.len() > 0 {
        Option::Some(o.jobs.deep_view()[o.selected as int])
    } else {
        Option::None
    }
}

/// Some record carries this id.
pub open spec fn spec_has_id(js: Seq<JobView>, id: Seq<char>) -> bool {
    exists|k: int| 0 <= k < js.len() && js[k].id == id
}

/// The position of the first record with this id.
fn find_id_index(jobs: &Vec<Job>, id: &str) -> (r: Option<usize>)
    ensures
        match r {
            Some(k) => k < jobs@.len() && jobs.deep_view()[k as int].id == id@ && forall|j: int|
                0 <= j < k ==> jobs.deep_view()[j].id != id@,
            None => !spec_has_id(jobs.deep_view(), id@),
        },
{
    let ghost jv = jobs.deep_view();
    let mut k: usize = 0;
    while k < jobs.len()
        invariant
            k <= jobs@.len(),
            jv == jobs.deep_view(),
            forall|j: int| 0 <= j < k ==> jv[j].id != id@,
        decreases jobs@.len() - k,
    {
        proof {
            assert(jobs.deep_view()[k as int] == jobs@[k as int]@);
        }
        if str_eq_str(jobs[k].id.as_str(), id) {
            return Some(k);
        }
        k += 1;
    }
    None
}

impl JobList {
    /// The selection is inside the list, or zero when the list is empty.
    pub open spec fn wf(self) -> bool {
        if self.jobs@.len() == 0 {
            self.selected == 0
        } else {
            self.selected < self.jobs@.len()
        }
    }

    pub fn new() -> (r: JobList)
        ensures
            r.wf(),
            r.jobs@.len() == 0,
            r.selected == 0,
            r.job_details@ == Seq::<char>::empty(),
            r.log_tail@ == Seq::<char>::empty(),
            r.sort_category == SortCategory::Id,
            !r.reverse,
            !r.content_updater.fetching,
            r.squeue_command@ == "squeue"@,
    {
        JobList {
            jobs: Vec::new(),
            selected: 0,
            job_details: String::new(),
            log_tail: String::new(),
            sort_category: SortCategory::Id,
            reverse: false,
            content_updater: ContentUpdater::new(),
            squeue_command: String::from_str("squeue"),
        }
    }

    /// The selected record, when there is one.
    pub fn get_job(&self) -> (r: Option<&Job>)
        requires
            self.wf(),
        ensures
            match r {
                Some(j) => self.jobs@.len() > 0 && *j == self.jobs@[self.selected as int],
                None => self.jobs@.len() == 0,
            },
    {
        if self.jobs.len() == 0 {
            None
        } else {
            Some(&self.jobs[self.selected])
        }
    }

    pub fn get_job_details(&self) -> (r: &str)
        ensures
            r@ == self.job_details@,
    {
        self.job_details.as_str()
    }

    pub fn get_log_tail(&self) -> (r: &str)
        ensures
            r@ == self.log_tail@,
    {
        self.log_tail.as_str()
    }

    pub fn get_index(&self) -> (r: usize)
        ensures
            r == self.selected,
    {
        self.selected
    }

    pub fn get_sort_category(&self) -> (r: &SortCategory)
        ensures
            *r == self.sort_category,
    {
        &self.sort_category
    }

    pub fn is_reverse(&self) -> (r: bool)
        ensures
            r == self.reverse,
    {
        self.reverse
    }

    pub fn len(&self) -> (r: usize)
        ensures
            r == self.jobs@.len(),
    {
        self.jobs.len()
    }

    /// Select by position. An empty list resets the selection and the
    /// text blocks; a position outside a non-empty list is a hard error
    /// and changes nothing.
    pub fn set_index(&mut self, index: usize) -> (r: Result<(), SelectError>)
        ensures
            spec_same_but_selection(*old(self), *final(self)),
            old(self).wf() ==> final(self).wf(),
            old(self).jobs@.len() == 0 ==> r is Ok && final(self).selected == 0 && final(self).job_details@ == "No job selected"@ && final(self).log_tail@ == "No job selected"@,
            old(self).jobs@.len() > 0 && index < old(self).jobs@.len() ==> r is Ok && final(self).selected == index && final(self).job_details == old(self).job_details && final(self).log_tail == old(self).log_tail && final(self).wf(),
            old(self).jobs@.len() > 0 && index >= old(self).jobs@.len() ==> r == Err::<
                (),
                SelectError,
            >(SelectError::IndexOutOfBounds) && *final(self) == *old(self),
    {
        if self.jobs.len() == 0 {
            self.selected = 0;
            self.job_details = String::from_str("No job selected");
            self.log_tail = String::from_str("No job selected");
            return Ok(());
        }
        if index >= self.jobs.len() {
            return Err(SelectError::IndexOutOfBounds);
        }
        self.selected = index;
        Ok(())
    }

    /// Both text blocks show the loading placeholder.
    fn set_loading_text(&mut self)
        ensures
            spec_same_but_selection(*old(self), *final(self)),
            final(self).selected == old(self).selected,
            final(self).job_details@ == spec_loading_text(),
            final(self).log_tail@ == spec_loading_text(),
    {
        self.job_details = String::from_str("loading...");
        self.log_tail = String::from_str("loading...");
    }

    /// Select the first record with this id; an unknown id is an error
    /// and changes nothing.
    pub fn select_job_by_id(&mut self, id: String) -> (r: Result<(), SelectError>)
        ensures
            spec_same_but_selection(*old(self), *final(self)),
            old(self).wf() ==> final(self).wf(),
            spec_has_id(old(self).jobs.deep_view(), id@) ==> r is Ok && final(self).wf() && final(self).selected < old(self).jobs@.len() && old(self).jobs.deep_view()[final(self).selected as int].id == id@ && (forall|k: int|
                0 <= k < final(self).selected ==> old(self).jobs.deep_view()[k].id != id@) && final(self).job_details == old(self).job_details && final(self).log_tail == old(self).log_tail,
            !spec_has_id(old(self).jobs.deep_view(), id@) ==> r == Err::<(), SelectError>(
                SelectError::JobNotFound,
            ) && *final(self) == *old(self),
    {
        match find_id_index(&self.jobs, id.as_str()) {
            Some(k) => {
                let res = self.set_index(k);
                proof {
                    assert(res is Ok);
                }
                Ok(())
            }
            None => Err(SelectError::JobNotFound),
        }
    }

    /// Move the selection forward by one, wrapping at the end.
    pub fn next(&mut self)
        requires
            old(self).wf(),
        ensures
            final(self).wf(),
            spec_next_rel(*old(self), *final(self)),
    {
        if self.jobs.len() == 0 {
            return ;
        }
        let n = self.jobs.len();
        let new_index = (self.selected + 1) % n;
        proof {
            vstd::arithmetic::div_mod::lemma_mod_division_less_than_divisor(
                (old(self).selected + 1) as int,
                n as int,
            );
        }
        let res = self.set_index(new_index);
        self.set_loading_text();
    }

    /// Move the selection backward by one, wrapping at the start.
    pub fn previous(&mut self)
        requires
            old(self).wf(),
        ensures
            final(self).wf(),
            spec_previous_rel(*old(self), *final(self)),
    {
        if self.jobs.len() == 0 {
            return ;
        }
        let n = self.jobs.len();
        let new_index = if self.selected == 0 {
            n - 1
        } else {
            self.selected - 1
        };
        proof {
            let ni = n as int;
            let s = old(self).selected as int;
            if s == 0 {
                vstd::arithmetic::div_mod::lemma_small_mod((ni - 1) as nat, ni as nat);
            } else {
                vstd::arithmetic::div_mod::lemma_mod_multiples_vanish(1, s - 1, ni);
                vstd::arithmetic::div_mod::lemma_small_mod((s - 1) as nat, ni as nat);
            }
        }
        let res = self.set_index(new_index);
        self.set_loading_text();
    }

    /// Re-sort the record list in place; the selection is untouched.
    fn sort_raw(&mut self)
        ensures
            final(self).selected == old(self).selected,
            final(self).job_details == old(self).job_details,
            final(self).log_tail == old(self).log_tail,
            final(self).sort_category == old(self).sort_category,
            final(self).reverse == old(self).reverse,
            final(self).content_updater == old(self).content_updater,
            final(self).squeue_command == old(self).squeue_command,
            spec_ordered(final(self).jobs.deep_view(), old(self).sort_category, old(self).reverse),
            final(self).jobs.deep_view().to_multiset() == old(self).jobs.deep_view().to_multiset(),
            final(self).jobs@.len() == old(self).jobs@.len(),
            spec_ordered(old(self).jobs.deep_view(), old(self).sort_category, old(self).reverse)
                ==> final(self).jobs.deep_view() == old(self).jobs.deep_view(),
    {
        if self.jobs.len() == 0 {
            return ;
        }
        let sorted = sort_jobs(&self.jobs, self.sort_category, self.reverse);
        self.jobs = sorted;
    }

    /// Change the ordering column: re-sort and start browsing from the
    /// top.
    pub fn set_sort_category(&mut self, category: SortCategory)
        ensures
            final(self).wf(),
            final(self).sort_category == category,
            final(self).reverse == old(self).reverse,
            final(self).content_updater == old(self).content_updater,
            final(self).squeue_command == old(self).squeue_command,
            spec_ordered(final(self).jobs.deep_view(), category, old(self).reverse),
            final(self).jobs.deep_view().to_multiset() == old(self).jobs.deep_view().to_multiset(),
            final(self).selected == 0,
            old(self).jobs@.len() > 0 ==> final(self).job_details == old(self).job_details && final(self).log_tail == old(self).log_tail,
            old(self).jobs@.len() == 0 ==> final(self).job_details@ == "No job selected"@ && final(self).log_tail@ == "No job selected"@,
    {
        self.sort_category = category;
        self.sort_raw();
        let res = self.set_index(0);
    }

    /// Flip the sort direction: re-sort and start browsing from the top.
    pub fn negate_reverse(&mut self)
        ensures
            final(self).wf(),
            final(self).reverse == !old(self).reverse,
            final(self).sort_category == old(self).sort_category,
            final(self).content_updater == old(self).content_updater,
            final(self).squeue_command == old(self).squeue_command,
            spec_ordered(final(self).jobs.deep_view(), old(self).sort_category, !old(self).reverse),
            final(self).jobs.deep_view().to_multiset() == old(self).jobs.deep_view().to_multiset(),
            final(self).selected == 0,
            old(self).jobs@.len() > 0 ==> final(self).job_details == old(self).job_details && final(self).log_tail == old(self).log_tail,
            old(self).jobs@.len() == 0 ==> final(self).job_details@ == "No job selected"@ && final(self).log_tail@ == "No job selected"@,
    {
        self.reverse = !self.reverse;
        self.sort_raw();
        let res = self.set_index(0);
    }

    /// Re-sort and keep the selected job selected: the selection is
    /// resolved by id, never by position.
    pub fn sort(&mut self)
        requires
            old(self).wf(),
        ensures
            final(self).wf(),
            final(self).sort_category == old(self).sort_category,
            final(self).reverse == old(self).reverse,
            final(self).content_updater == old(self).content_updater,
            final(self).squeue_command == old(self).squeue_command,
            final(self).job_details == old(self).job_details,
            final(self).log_tail == old(self).log_tail,
            spec_ordered(final(self).jobs.deep_view(), old(self).sort_category, old(self).reverse),
            final(self).jobs.deep_view().to_multiset() == old(self).jobs.deep_view().to_multiset(),
            old(self).jobs@.len() > 0 ==> final(self).jobs.deep_view()[final(self).selected as int].id == old(self).jobs.deep_view()[old(self).selected as int].id
                && (forall|k: int|
                0 <= k < final(self).selected ==> final(self).jobs.deep_view()[k].id != old(self).jobs.deep_view()[old(self).selected as int].id),
    {
        if self.jobs.len() == 0 {
            return ;
        }
        proof {
            assert(self.jobs.deep_view()[self.selected as int] == self.jobs@[self.selected as int]@);
        }
        let id = self.jobs[self.selected].id.clone();
        let ghost x = old(self).jobs.deep_view()[old(self).selected as int];
        self.sort_raw();
        proof {
            let oldjv = old(self).jobs.deep_view();
            let newjv = self.jobs.deep_view();
            assert(oldjv.contains(x)) by {
                assert(oldjv[old(self).selected as int] == x);
            }
            assert(oldjv.to_multiset().count(x) > 0);
            assert(newjv.to_multiset().count(x) > 0);
            assert(newjv.contains(x));
            let k = choose|k: int| 0 <= k < newjv.len() && newjv[k] == x;
            assert(spec_has_id(newjv, id@)) by {
                assert(newjv[k].id == id@);
            }
        }
        let res = self.select_job_by_id(id);
    }

    /// One refresh cycle. `resolved` is what the shell's poll of the
    /// outstanding fetch returned. A resolved snapshot is reconciled
    /// against the current selection, its list replaces the records
    /// wholesale, the list is re-sorted, and the selection is resolved
    /// again by id — the previously selected job stays selected when its
    /// id is still present, else the selection falls back to the first
    /// record, or to none on an empty list. Returns the parameters for
    /// the next background fetch when one is to be launched.
    pub fn update_jobs(&mut self, resolved: Option<Content>, user_options: &UserOptionsList) -> (r:
        Option<FetchRequest>)
        requires
            old(self).wf(),
            !old(self).content_updater.fetching ==> resolved is None,
        ensures
            final(self).wf(),
            final(self).content_updater.fetching,
            final(self).sort_category == old(self).sort_category,
            final(self).reverse == old(self).reverse,
            final(self).squeue_command == old(self).squeue_command,
            spec_ordered(final(self).jobs.deep_view(), old(self).sort_category, old(self).reverse),
            (old(self).content_updater.fetching && resolved is Some) ==> final(self).jobs.deep_view().to_multiset() == resolved.unwrap()@.job_list.to_multiset(),
            !(old(self).content_updater.fetching && resolved is Some) ==> final(self).jobs.deep_view().to_multiset() == old(self).jobs.deep_view().to_multiset(),
            old(self).jobs@.len() > 0 ==> ({
                let prev_id = old(self).jobs.deep_view()[old(self).selected as int].id;
                if spec_has_id(final(self).jobs.deep_view(), prev_id) {
                    final(self).selected < final(self).jobs@.len() && final(self).jobs.deep_view()[final(self).selected as int].id == prev_id && forall|k: int|
                        0 <= k < final(self).selected ==> final(self).jobs.deep_view()[k].id
                            != prev_id
                } else {
                    final(self).selected == 0
                }
            }),
            old(self).jobs@.len() == 0 ==> final(self).selected == old(self).selected,
            (old(self).content_updater.fetching && resolved is Some && !(final(self).jobs@.len()
                == 0 && old(self).jobs@.len() > 0)) ==> ({
                let rc = spec_reconcile(spec_prev_view(*old(self)), resolved.unwrap()@);
                final(self).job_details@ == rc.details_text && final(self).log_tail@ == rc.log_text
            }),
            (old(self).content_updater.fetching && resolved is Some && final(self).jobs@.len() == 0
                && old(self).jobs@.len() > 0) ==> final(self).job_details@ == "No job selected"@
                && final(self).log_tail@ == "No job selected"@,
            !(old(self).content_updater.fetching && resolved is Some) ==> final(self).job_details
                == old(self).job_details && final(self).log_tail == old(self).log_tail,
            match r {
                Some(req) => (!old(self).content_updater.fetching || resolved is Some)
                    && spec_opt_job_view(req.job) == spec_prev_view(*old(self))
                    && req.squeue_command@ == old(self).squeue_command@ && req.show_completed_jobs
                    == user_options.show_completed_jobs,
                None => old(self).content_updater.fetching && resolved is None,
            },
    {
        let prev: Option<Job> = match self.get_job() {
            Some(j) => Some(j.clone()),
            None => None,
        };
        let prev_for_tick: Option<Job> = match &prev {
            Some(j) => Some(j.clone()),
            None => None,
        };
        let prev_for_request: Option<Job> = match &prev {
            Some(j) => Some(j.clone()),
            None => None,
        };
        let (start, content_opt) = self.content_updater.tick(resolved, prev_for_tick);
        match content_opt {
            Some(c) => {
                let Content { job: _, job_list, details_text, log_text } = c;
                self.jobs = job_list;
                self.job_details = details_text;
                self.log_tail = log_text;
            }
            None => {}
        }
        self.sort_raw();
        match prev {
            Some(j) => {
                match self.select_job_by_id(j.id) {
                    Ok(_) => {}
                    Err(_) => {
                        let res = self.set_index(0);
                    }
                }
            }
            None => {}
        }
        if start {
            Some(
                FetchRequest {
                    job: prev_for_request,
                    squeue_command: self.squeue_command.clone(),
                    show_completed_jobs: user_options.show_completed_jobs,
                },
            )
        } else {
            None
        }
    }

    /// Apply one selection or ordering change.
    pub fn handle_joblist_action(&mut self, action: JobListAction)
        requires
            old(self).wf(),
        ensures
            final(self).wf(),
            match action {
                JobListAction::Next => spec_next_rel(*old(self), *final(self)),
                JobListAction::Previous => spec_previous_rel(*old(self), *final(self)),
                JobListAction::Select(index) => if index < old(self).jobs@.len() {
                    spec_moved_to(*old(self), *final(self), index as int)
                } else {
                    *final(self) == *old(self)
                },
                JobListAction::NextSortCategory => final(self).sort_category == old(self).sort_category.spec_next() && final(self).reverse == old(self).reverse
                    && spec_ordered(
                    final(self).jobs.deep_view(),
                    old(self).sort_category.spec_next(),
                    old(self).reverse,
                ) && final(self).jobs.deep_view().to_multiset() == old(self).jobs.deep_view().to_multiset() && final(self).selected == 0,
                JobListAction::ReverseSortDirection => final(self).reverse == !old(self).reverse
                    && final(self).sort_category == old(self).sort_category && spec_ordered(
                    final(self).jobs.deep_view(),
                    old(self).sort_category,
                    !old(self).reverse,
                ) && final(self).jobs.deep_view().to_multiset() == old(self).jobs.deep_view().to_multiset() && final(self).selected == 0,
                JobListAction::SelectSortCategory(category) => if category != old(self).sort_category {
                    final(self).sort_category == category && final(self).reverse == old(self).reverse && spec_ordered(
                        final(self).jobs.deep_view(),
                        category,
                        old(self).reverse,
                    ) && final(self).selected == 0
                } else {
                    final(self).reverse == !old(self).reverse && final(self).sort_category == old(self).sort_category && spec_ordered(
                        final(self).jobs.deep_view(),
                        old(self).sort_category,
                        !old(self).reverse,
                    ) && final(self).selected == 0
                },
                JobListAction::UpdateSqueueCommand(command) => final(self).squeue_command == command
                    && final(self).jobs == old(self).jobs && final(self).selected == old(self).selected && final(self).job_details == old(self).job_details && final(self).log_tail == old(self).log_tail && final(self).sort_category == old(self).sort_category && final(self).reverse == old(self).reverse && final(self).content_updater == old(self).content_updater,
            },
    {
        match action {
            JobListAction::Next => self.next(),
            JobListAction::Previous => self.previous(),
            JobListAction::Select(index) => {
                if index < self.jobs.len() {
                    let res = self.set_index(index);
                    self.set_loading_text();
                }
            }
            JobListAction::NextSortCategory => {
                let category = self.sort_category.next();
                self.set_sort_category(category);
            }
            JobListAction::ReverseSortDirection => {
                self.negate_reverse();
            }
            JobListAction::SelectSortCategory(category) => {
                if !(category == self.sort_category) {
                    self.set_sort_category(category);
                } else {
                    self.negate_reverse();
                }
            }
            JobListAction::UpdateSqueueCommand(command) => {
                self.squeue_command = command;
            }
        }
    }
}

} // verus!
