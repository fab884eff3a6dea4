//! The queue of copy jobs between the local disk and the device.
use vstd::prelude::*;
use vstd::slice::slice_subrange;

use crate::file_entry::opt_view;
use crate::text::text;

verus! {

/// Where a copy job stands.
#[derive(Debug, Clone, Copy, PartialEq, Eq, Structural)]
pub enum TransferStatus {
    Pending,
    InProgress,
    Completed,
    Failed,
}

/// One copy job: a file or directory pushed to the device or pulled from it.
#[derive(Debug)]
pub struct TransferJob {
    pub id: usize,
    pub source: String,
    pub destination: String,
    pub to_android: bool,
    pub is_dir: bool,
    pub status: TransferStatus,
    pub error: Option<String>,
}

/// The plain values of a `TransferJob`.
pub struct JobView {
    pub id: usize,
    pub source: Seq<char>,
    pub destination: Seq<char>,
    pub to_android: bool,
    pub is_dir: bool,
    pub status: TransferStatus,
    pub error: Option<Seq<char>>,
}

impl View for TransferJob {
    type V = JobView;

    open spec fn view(&self) -> JobView {
        JobView {
            id: self.id,
            source: self.source@,
            destination: self.destination@,
            to_android: self.to_android,
            is_dir: self.is_dir,
            status: self.status,
            error: opt_view(self.error),
        }
    }
}

impl JobView {
    /// The same job with another status and error.
    pub open spec fn with_status(self, status: TransferStatus, error: Option<Seq<char>>) -> JobView {
        JobView { status, error, ..self }
    }
}

/// The jobs in the order they were queued, and the id the next job gets.
#[derive(Debug)]
pub struct TransferQueue {
    pub jobs: Vec<TransferJob>,
    pub next_id: usize,
}

/// The plain values of a `TransferQueue`.
pub struct QueueView {
    pub jobs: Seq<JobView>,
    pub next_id: usize,
}

impl View for TransferQueue {
    type V = QueueView;

    open spec fn view(&self) -> QueueView {
        QueueView { jobs: self.jobs@.map_values(|j: TransferJob| j@), next_id: self.next_id }
    }
}

/// The text that marks a job stopped by the user.
pub open spec fn cancelled_text() -> Seq<char> {
    seq!['c', 'a', 'n', 'c', 'e', 'l', 'l', 'e', 'd']
}

impl QueueView {
    /// Job ids grow in queue order and stay below the next id, so that an id
    /// names at most one job.
    pub open spec fn wf(self) -> bool {
        &&& forall|i: int, j: int|
            0 <= i < j < self.jobs.len() ==> #[trigger] self.jobs[i].id < #[trigger] self.jobs[j].id
        &&& forall|i: int| 0 <= i < self.jobs.len() ==> #[trigger] self.jobs[i].id < self.next_id
    }

    /// Some job is being transferred.
    pub open spec fn has_active(self) -> bool {
        exists|i: int| 0 <= i < self.jobs.len() && #[trigger] self.jobs[i].status == TransferStatus::InProgress
    }

    /// The position of the first job with the given status.
    pub open spec fn first_with(self, status: TransferStatus) -> Option<int> {
        if exists|i: int| 0 <= i < self.jobs.len() && #[trigger] self.jobs[i].status == status {
            let i = choose|i: int|
                0 <= i < self.jobs.len() && #[trigger] self.jobs[i].status == status && forall|k: int|
                    0 <= k < i ==> #[trigger] self.jobs[k].status != status;
            Some(i)
        } else {
            None
        }
    }

    /// The queue after the job with id `id` takes the given status and error.
    pub open spec fn set_status(self, id: usize, status: TransferStatus, error: Option<Seq<char>>) -> QueueView {
        QueueView {
            jobs: self.jobs.map_values(
                |j: JobView|
                    if j.id == id {
                        j.with_status(status, error)
                    } else {
                        j
                    },
            ),
            next_id: self.next_id,
        }
    }

    /// The queue after every job in progress is marked failed as cancelled.
    pub open spec fn cancel_all(self) -> QueueView {
        QueueView {
            jobs: self.jobs.map_values(
                |j: JobView|
                    if j.status == TransferStatus::InProgress {
                        j.with_status(TransferStatus::Failed, Some(cancelled_text()))
                    } else {
                        j
                    },
            ),
            next_id: self.next_id,
        }
    }

    /// The queue after the transfer of job `id` ended: the job takes the
    /// status and error if it is still in progress; a job already finished,
    /// or cancelled, stays as it is.
    pub open spec fn finished(self, id: usize, status: TransferStatus, error: Option<Seq<char>>) -> QueueView {
        QueueView {
            jobs: self.jobs.map_values(
                |j: JobView|
                    if j.id == id && j.status == TransferStatus::InProgress {
                        j.with_status(status, error)
                    } else {
                        j
                    },
            ),
            next_id: self.next_id,
        }
    }

    /// The queue after a job is appended.
    pub open spec fn added(
        self,
        source: Seq<char>,
        destination: Seq<char>,
        to_android: bool,
        is_dir: bool,
    ) -> QueueView {
        QueueView {
            jobs: self.jobs.push(
                JobView {
                    id: self.next_id,
                    source,
                    destination,
                    to_android,
                    is_dir,
                    status: TransferStatus::Pending,
                    error: None,
                },
            ),
            next_id: (self.next_id + 1) as usize,
        }
    }
}

impl JobView {
    /// The job has finished, well or not.
    pub open spec fn finished(self) -> bool {
        self.status == TransferStatus::Completed || self.status == TransferStatus::Failed
    }

    /// `later` is this job at a later time: the same id, paths and
    /// direction, and unchanged if it had finished.
    pub open spec fn kept_as(self, later: JobView) -> bool {
        &&& later.id == self.id
        &&& later.source == self.source
        &&& later.destination == self.destination
        &&& later.to_android == self.to_android
        &&& later.is_dir == self.is_dir
        &&& self.finished() ==> later == self
    }
}

impl QueueView {
    /// `later` is this queue at a later time: every job is still there, in
    /// its place, kept as `kept_as` says; new jobs come after them.
    pub open spec fn kept_in(self, later: QueueView) -> bool {
        &&& self.jobs.len() <= later.jobs.len()
        &&& forall|k: int| 0 <= k < self.jobs.len() ==> #[trigger] self.jobs[k].kept_as(later.jobs[k])
    }
}

/// A queue is kept in itself, and keeping is transitive.
pub proof fn lemma_kept_in_trans(a: QueueView, b: QueueView, c: QueueView)
    ensures
        a.kept_in(a),
        a.kept_in(b) && b.kept_in(c) ==> a.kept_in(c),
{
    if a.kept_in(b) && b.kept_in(c) {
        assert forall|k: int| 0 <= k < a.jobs.len() implies #[trigger] a.jobs[k].kept_as(c.jobs[k]) by {
            assert(a.jobs[k].kept_as(b.jobs[k]));
            assert(b.jobs[k].kept_as(c.jobs[k]));
        }
    }
}

/// Setting the status of an unfinished job, found by its unique id, keeps
/// the queue.
pub proof fn lemma_set_status_keeps(
    q: QueueView,
    i: int,
    status: TransferStatus,
    error: Option<Seq<char>>,
)
    requires
        q.wf(),
        0 <= i < q.jobs.len(),
        !q.jobs[i].finished(),
    ensures
        q.kept_in(q.set_status(q.jobs[i].id, status, error)),
{
    let r = q.set_status(q.jobs[i].id, status, error);
    assert forall|k: int| 0 <= k < q.jobs.len() implies #[trigger] q.jobs[k].kept_as(r.jobs[k]) by {
        if k < i {
            assert(q.jobs[k].id < q.jobs[i].id);
        } else if k > i {
            assert(q.jobs[i].id < q.jobs[k].id);
        }
    }
}

/// Cancelling keeps the queue: only jobs in progress change.
pub proof fn lemma_cancel_keeps(q: QueueView)
    ensures
        q.kept_in(q.cancel_all()),
{
    let r = q.cancel_all();
    assert forall|k: int| 0 <= k < q.jobs.len() implies #[trigger] q.jobs[k].kept_as(r.jobs[k]) by {}
}

/// Appending a job keeps the queue.
pub proof fn lemma_added_keeps(
    q: QueueView,
    source: Seq<char>,
    destination: Seq<char>,
    to_android: bool,
    is_dir: bool,
)
    ensures
        q.kept_in(q.added(source, destination, to_android, is_dir)),
{
    let r = q.added(source, destination, to_android, is_dir);
    assert forall|k: int| 0 <= k < q.jobs.len() implies #[trigger] q.jobs[k].kept_as(r.jobs[k]) by {
        assert(r.jobs[k] == q.jobs[k]);
    }
}

/// The first job with the given status is found by scanning from the front.
proof fn lemma_first_with_found(q: QueueView, status: TransferStatus, i: int)
    requires
        0 <= i < q.jobs.len(),
        q.jobs[i].status == status,
        forall|k: int| 0 <= k < i ==> #[trigger] q.jobs[k].status != status,
    ensures
        q.first_with(status) == Some(i),
{
    let j = choose|j: int|
        0 <= j < q.jobs.len() && #[trigger] q.jobs[j].status == status && forall|k: int|
            0 <= k < j ==> #[trigger] q.jobs[k].status != status;
    assert(q.jobs[i].status == status);
    if j < i {
        assert(q.jobs[j].status != status);
    }
    if i < j {
        assert(q.jobs[i].status != status);
    }
}

proof fn lemma_first_witness(q: QueueView, status: TransferStatus, w: int)
    requires
        0 <= w < q.jobs.len(),
        q.jobs[w].status == status,
    ensures
        exists|i: int|
            0 <= i < q.jobs.len() && #[trigger] q.jobs[i].status == status && forall|k: int|
                0 <= k < i ==> #[trigger] q.jobs[k].status != status,
    decreases w,
{
    if exists|k: int| 0 <= k < w && #[trigger] q.jobs[k].status == status {
        let k = choose|k: int| 0 <= k < w && #[trigger] q.jobs[k].status == status;
        lemma_first_witness(q, status, k);
    } else {
        assert(forall|k: int| 0 <= k < w ==> #[trigger] q.jobs[k].status != status);
    }
}

/// `first_with` names the first job with the status, or says there is none.
pub proof fn lemma_first_with(q: QueueView, status: TransferStatus)
    ensures
        match q.first_with(status) {
            Some(i) => {
                &&& 0 <= i < q.jobs.len()
                &&& q.jobs[i].status == status
                &&& forall|k: int| 0 <= k < i ==> #[trigger] q.jobs[k].status != status
            },
            None => forall|k: int| 0 <= k < q.jobs.len() ==> #[trigger] q.jobs[k].status != status,
        },
{
    if exists|w: int| 0 <= w < q.jobs.len() && #[trigger] q.jobs[w].status == status {
        let w = choose|w: int| 0 <= w < q.jobs.len() && #[trigger] q.jobs[w].status == status;
        lemma_first_witness(q, status, w);
    }
}

/// Appending a job keeps ids unique, as long as the next id does not wrap.
pub proof fn lemma_added_wf(
    q: QueueView,
    source: Seq<char>,
    destination: Seq<char>,
    to_android: bool,
    is_dir: bool,
)
    requires
        q.wf(),
        q.next_id < usize::MAX,
    ensures
        q.added(source, destination, to_android, is_dir).wf(),
        q.added(source, destination, to_android, is_dir).next_id == q.next_id + 1,
        q.added(source, destination, to_android, is_dir).jobs.len() == q.jobs.len() + 1,
{
}

/// Setting the status of a job keeps ids unique.
pub proof fn lemma_set_status_wf(q: QueueView, id: usize, status: TransferStatus, error: Option<Seq<char>>)
    requires
        q.wf(),
    ensures
        q.set_status(id, status, error).wf(),
        q.set_status(id, status, error).jobs.len() == q.jobs.len(),
{
}

/// Cancelling marks each job in progress failed, as cancelled, and leaves
/// every other job as it was.
pub proof fn lemma_cancel_marks_failed(q: QueueView, k: int)
    requires
        0 <= k < q.jobs.len(),
    ensures
        q.jobs[k].status == TransferStatus::InProgress ==> q.cancel_all().jobs[k].status == TransferStatus::Failed
            && q.cancel_all().jobs[k].error == Some("cancelled"@),
        q.jobs[k].status != TransferStatus::InProgress ==> q.cancel_all().jobs[k] == q.jobs[k],
        q.cancel_all().jobs.len() == q.jobs.len(),
{
    reveal_strlit("cancelled");
    assert("cancelled"@ =~= cancelled_text());
}

/// After cancelling, no job is in progress.
pub proof fn lemma_cancel_leaves_none_active(q: QueueView)
    ensures
        !q.cancel_all().has_active(),
{
    let c = q.cancel_all();
    assert forall|i: int| 0 <= i < c.jobs.len() implies #[trigger] c.jobs[i].status
        != TransferStatus::InProgress by {}
}

/// Starting a job that is in the queue makes a job active.
pub proof fn lemma_started_is_active(q: QueueView, i: int)
    requires
        0 <= i < q.jobs.len(),
    ensures
        q.set_status(q.jobs[i].id, TransferStatus::InProgress, None).has_active(),
{
    let s = q.set_status(q.jobs[i].id, TransferStatus::InProgress, None);
    assert(s.jobs[i].status == TransferStatus::InProgress);
}

/// Appending a job leaves the earlier jobs as they were and gives the new
/// one an id that no earlier job has.
pub proof fn lemma_added_fresh(
    q: QueueView,
    source: Seq<char>,
    destination: Seq<char>,
    to_android: bool,
    is_dir: bool,
)
    requires
        q.wf(),
    ensures
        q.added(source, destination, to_android, is_dir).jobs.take(q.jobs.len() as int) == q.jobs,
        forall|k: int| 0 <= k < q.jobs.len() ==> #[trigger] q.jobs[k].id != q.next_id,
{
    assert(q.added(source, destination, to_android, is_dir).jobs.take(q.jobs.len() as int) =~= q.jobs);
}

/// How many jobs wait to be transferred.
pub open spec fn pending_count(jobs: Seq<JobView>) -> nat
    decreases jobs.len(),
{
    if jobs.len() == 0 {
        0
    } else {
        pending_count(jobs.drop_last()) + if jobs.last().status == TransferStatus::Pending {
            1nat
        } else {
            0nat
        }
    }
}

proof fn lemma_set_status_untouched(jobs: Seq<JobView>, id: usize, status: TransferStatus, error: Option<Seq<char>>)
    requires
        forall|k: int| 0 <= k < jobs.len() ==> #[trigger] jobs[k].id != id,
    ensures
        (QueueView { jobs, next_id: 0 }).set_status(id, status, error).jobs == jobs,
{
    assert((QueueView { jobs, next_id: 0 }).set_status(id, status, error).jobs =~= jobs);
}

proof fn lemma_set_status_count(
    jobs: Seq<JobView>,
    i: int,
    status: TransferStatus,
    error: Option<Seq<char>>,
)
    requires
        0 <= i < jobs.len(),
        forall|a: int, b: int| 0 <= a < b < jobs.len() ==> #[trigger] jobs[a].id < #[trigger] jobs[b].id,
        status != TransferStatus::Pending,
    ensures
        pending_count((QueueView { jobs, next_id: 0 }).set_status(jobs[i].id, status, error).jobs)
            + (if jobs[i].status == TransferStatus::Pending { 1nat } else { 0nat }) == pending_count(jobs),
    decreases jobs.len(),
{
    let id = jobs[i].id;
    let r = (QueueView { jobs, next_id: 0 }).set_status(id, status, error).jobs;
    let d = jobs.drop_last();
    let rd = (QueueView { jobs: d, next_id: 0 }).set_status(id, status, error).jobs;
    assert(r.drop_last() =~= rd);
    if i == jobs.len() - 1 {
        assert forall|k: int| 0 <= k < d.len() implies #[trigger] d[k].id != id by {
            assert(jobs[k].id < jobs[i].id);
        }
        lemma_set_status_untouched(d, id, status, error);
    } else {
        assert(d[i] == jobs[i]);
        lemma_set_status_count(d, i, status, error);
        assert(jobs[i].id < jobs[jobs.len() - 1].id);
    }
}

/// Setting a job, found by its unique id, to a status other than pending
/// leaves one pending job fewer if it was pending, and as many otherwise.
pub proof fn lemma_set_status_pending_count(
    q: QueueView,
    i: int,
    status: TransferStatus,
    error: Option<Seq<char>>,
)
    requires
        q.wf(),
        0 <= i < q.jobs.len(),
        status != TransferStatus::Pending,
    ensures
        pending_count(q.set_status(q.jobs[i].id, status, error).jobs) + (if q.jobs[i].status
            == TransferStatus::Pending {
            1nat
        } else {
            0nat
        }) == pending_count(q.jobs),
{
    lemma_set_status_count(q.jobs, i, status, error);
    assert(q.set_status(q.jobs[i].id, status, error).jobs == (QueueView {
        jobs: q.jobs,
        next_id: 0,
    }).set_status(q.jobs[i].id, status, error).jobs);
}

/// With no job pending, the count is zero; with one pending, it is not.
pub proof fn lemma_pending_count_zero(jobs: Seq<JobView>)
    ensures
        pending_count(jobs) == 0 <==> forall|k: int|
            0 <= k < jobs.len() ==> #[trigger] jobs[k].status != TransferStatus::Pending,
    decreases jobs.len(),
{
    if jobs.len() > 0 {
        let d = jobs.drop_last();
        lemma_pending_count_zero(d);
        if pending_count(jobs) == 0 {
            assert forall|k: int| 0 <= k < jobs.len() implies #[trigger] jobs[k].status
                != TransferStatus::Pending by {
                if k < d.len() {
                    assert(d[k] == jobs[k]);
                }
            }
        } else {
            if forall|k: int| 0 <= k < jobs.len() ==> #[trigger] jobs[k].status != TransferStatus::Pending {
                assert forall|k: int| 0 <= k < d.len() implies #[trigger] d[k].status
                    != TransferStatus::Pending by {
                    assert(d[k] == jobs[k]);
                }
                assert(jobs[jobs.len() - 1].status != TransferStatus::Pending);
            }
        }
    }
}


/// Ending a transfer keeps the queue, its ids and its number of pending
/// jobs, and leaves in progress only the jobs other than `id` that were.
pub proof fn lemma_finished_keeps(q: QueueView, id: usize, status: TransferStatus, error: Option<Seq<char>>)
    requires
        status != TransferStatus::Pending,
        status != TransferStatus::InProgress,
    ensures
        q.kept_in(q.finished(id, status, error)),
        q.wf() ==> q.finished(id, status, error).wf(),
        pending_count(q.finished(id, status, error).jobs) == pending_count(q.jobs),
        forall|k: int|
            0 <= k < q.jobs.len() ==> (#[trigger] q.finished(id, status, error).jobs[k].status
                == TransferStatus::InProgress <==> q.jobs[k].status == TransferStatus::InProgress
                && q.jobs[k].id != id),
{
    let r = q.finished(id, status, error);
    assert forall|k: int| 0 <= k < q.jobs.len() implies #[trigger] q.jobs[k].kept_as(r.jobs[k]) by {}
    lemma_finished_count(q.jobs, id, status, error);
}

proof fn lemma_finished_count(jobs: Seq<JobView>, id: usize, status: TransferStatus, error: Option<Seq<char>>)
    requires
        status != TransferStatus::Pending,
    ensures
        pending_count((QueueView { jobs, next_id: 0 }).finished(id, status, error).jobs) == pending_count(jobs),
    decreases jobs.len(),
{
    if jobs.len() > 0 {
        let d = jobs.drop_last();
        lemma_finished_count(d, id, status, error);
        assert((QueueView { jobs, next_id: 0 }).finished(id, status, error).jobs.drop_last()
            =~= (QueueView { jobs: d, next_id: 0 }).finished(id, status, error).jobs);
    }
}

/// Setting the status of a job, found by its unique id, changes that job
/// alone.
pub proof fn lemma_set_status_only(q: QueueView, i: int, status: TransferStatus, error: Option<Seq<char>>)
    requires
        q.wf(),
        0 <= i < q.jobs.len(),
    ensures
        q.set_status(q.jobs[i].id, status, error).jobs[i] == q.jobs[i].with_status(status, error),
        forall|k: int|
            0 <= k < q.jobs.len() && k != i ==> #[trigger] q.set_status(q.jobs[i].id, status, error).jobs[k]
                == q.jobs[k],
{
    assert forall|k: int| 0 <= k < q.jobs.len() && k != i implies #[trigger] q.set_status(
        q.jobs[i].id,
        status,
        error,
    ).jobs[k] == q.jobs[k] by {
        if k < i {
            assert(q.jobs[k].id < q.jobs[i].id);
        } else {
            assert(q.jobs[i].id < q.jobs[k].id);
        }
    }
}


impl TransferQueue {
    /// An empty queue whose first job gets id 0.
    pub fn new() -> (r: TransferQueue)
        ensures
            r@.jobs == Seq::<JobView>::empty(),
            r@.next_id == 0,
            r@.wf(),
    {
        TransferQueue { jobs: Vec::new(), next_id: 0 }
    }

    /// Queues a pending job and returns its id.
    pub fn add(&mut self, source: String, destination: String, to_android: bool, is_dir: bool) -> (r: usize)
        requires
            old(self).next_id < usize::MAX,
        ensures
            r == old(self)@.next_id,
            final(self)@ == old(self)@.added(source@, destination@, to_android, is_dir),
            old(self)@.wf() ==> final(self)@.wf(),
    {
        let id = self.next_id;
        self.next_id = self.next_id + 1;
        self.jobs.push(
            TransferJob {
                id,
                source,
                destination,
                to_android,
                is_dir,
                status: TransferStatus::Pending,
                error: None,
            },
        );
        assert(self@.jobs =~= old(self)@.added(source@, destination@, to_android, is_dir).jobs);
        id
    }

    /// Whether some job is being transferred.
    pub fn has_active(&self) -> (r: bool)
        ensures
            r == self@.has_active(),
    {
        let mut i: usize = 0;
        while i < self.jobs.len()
            invariant
                i <= self.jobs.len(),
                forall|k: int| 0 <= k < i ==> #[trigger] self@.jobs[k].status != TransferStatus::InProgress,
            decreases self.jobs.len() - i,
        {
            if self.jobs[i].status == TransferStatus::InProgress {
                assert(self@.jobs[i as int].status == TransferStatus::InProgress);
                return true;
            }
            i = i + 1;
        }
        false
    }

    fn position_of(&self, status: TransferStatus) -> (r: Option<usize>)
        ensures
            match r {
                Some(i) => self@.first_with(status) == Some(i as int) && i < self.jobs.len(),
                None => self@.first_with(status) is None,
            },
    {
        let mut i: usize = 0;
        while i < self.jobs.len()
            invariant
                i <= self.jobs.len(),
                forall|k: int| 0 <= k < i ==> (#[trigger] self.jobs@[k]).status != status,
            decreases self.jobs.len() - i,
        {
            if self.jobs[i].status == status {
                proof {
                    assert forall|k: int| 0 <= k < i implies #[trigger] self@.jobs[k].status != status by {
                        assert(self@.jobs[k] == self.jobs@[k]@);
                    }
                    assert(self@.jobs[i as int] == self.jobs@[i as int]@);
                    lemma_first_with_found(self@, status, i as int);
                }
                return Some(i);
            }
            i = i + 1;
        }
        proof {
            assert forall|k: int| 0 <= k < self@.jobs.len() implies #[trigger] self@.jobs[k].status != status by {
                assert(self@.jobs[k] == self.jobs@[k]@);
            }
        }
        None
    }

    /// The first job that waits to be transferred.
    pub fn next_pending(&self) -> (r: Option<&TransferJob>)
        ensures
            match self@.first_with(TransferStatus::Pending) {
                Some(i) => r matches Some(j) && j@ == self@.jobs[i],
                None => r is None,
            },
    {
        match self.position_of(TransferStatus::Pending) {
            Some(i) => Some(&self.jobs[i]),
            None => None,
        }
    }

    /// The first job being transferred.
    pub fn active_job(&self) -> (r: Option<&TransferJob>)
        ensures
            match self@.first_with(TransferStatus::InProgress) {
                Some(i) => r matches Some(j) && j@ == self@.jobs[i],
                None => r is None,
            },
    {
        match self.position_of(TransferStatus::InProgress) {
            Some(i) => Some(&self.jobs[i]),
            None => None,
        }
    }

    fn set_status(&mut self, id: usize, status: TransferStatus, error: Option<String>)
        ensures
            final(self)@ == old(self)@.set_status(id, status, opt_view(error)),
            old(self)@.wf() ==> final(self)@.wf(),
    {
        let ghost target = old(self)@.set_status(id, status, opt_view(error));
        let mut i: usize = 0;
        while i < self.jobs.len()
            invariant
                i <= self.jobs.len(),
                self.jobs.len() == old(self).jobs.len(),
                self.next_id == old(self).next_id,
                target == old(self)@.set_status(id, status, opt_view(error)),
                forall|k: int| 0 <= k < i ==> #[trigger] self.jobs@[k]@ == target.jobs[k],
                forall|k: int| i <= k < self.jobs.len() ==> #[trigger] self.jobs@[k] == old(self).jobs@[k],
            decreases self.jobs.len() - i,
        {
            assert(self.jobs@[i as int]@ == old(self)@.jobs[i as int]);
            if self.jobs[i].id == id {
                let e = match &error {
                    Some(s) => Some(s.clone()),
                    None => None,
                };
                let job = TransferJob {
                    id: self.jobs[i].id,
                    source: self.jobs[i].source.clone(),
                    destination: self.jobs[i].destination.clone(),
                    to_android: self.jobs[i].to_android,
                    is_dir: self.jobs[i].is_dir,
                    status,
                    error: e,
                };
                self.jobs.set(i, job);
            }
            assert(self.jobs@[i as int]@ == target.jobs[i as int]);
            i = i + 1;
        }
        assert(self@.jobs =~= target.jobs);
    }

    /// Marks the job with this id as being transferred.
    pub fn mark_started(&mut self, id: usize)
        ensures
            final(self)@ == old(self)@.set_status(id, TransferStatus::InProgress, None),
            old(self)@.wf() ==> final(self)@.wf(),
    {
        self.set_status(id, TransferStatus::InProgress, None);
    }

    /// Marks the job with this id as done.
    pub fn mark_completed(&mut self, id: usize)
        ensures
            final(self)@ == old(self)@.set_status(id, TransferStatus::Completed, None),
            old(self)@.wf() ==> final(self)@.wf(),
    {
        self.set_status(id, TransferStatus::Completed, None);
    }

    /// Marks the job with this id as failed, with the reason.
    pub fn mark_failed(&mut self, id: usize, error: String)
        ensures
            final(self)@ == old(self)@.set_status(id, TransferStatus::Failed, Some(error@)),
            old(self)@.wf() ==> final(self)@.wf(),
    {
        self.set_status(id, TransferStatus::Failed, Some(error));
    }

    /// Ends the transfer of job `id`: the job takes the status and error if
    /// it is still in progress, and stays as it is otherwise.
    pub fn finish(&mut self, id: usize, status: TransferStatus, error: Option<String>)
        ensures
            final(self)@ == old(self)@.finished(id, status, opt_view(error)),
    {
        let ghost target = old(self)@.finished(id, status, opt_view(error));
        let mut i: usize = 0;
        while i < self.jobs.len()
            invariant
                i <= self.jobs.len(),
                self.jobs.len() == old(self).jobs.len(),
                self.next_id == old(self).next_id,
                target == old(self)@.finished(id, status, opt_view(error)),
                forall|k: int| 0 <= k < i ==> #[trigger] self.jobs@[k]@ == target.jobs[k],
                forall|k: int| i <= k < self.jobs.len() ==> #[trigger] self.jobs@[k] == old(self).jobs@[k],
            decreases self.jobs.len() - i,
        {
            assert(self.jobs@[i as int]@ == old(self)@.jobs[i as int]);
            if self.jobs[i].id == id && self.jobs[i].status == TransferStatus::InProgress {
                let e = match &error {
                    Some(s) => Some(s.clone()),
                    None => None,
                };
                let job = TransferJob {
                    id: self.jobs[i].id,
                    source: self.jobs[i].source.clone(),
                    destination: self.jobs[i].destination.clone(),
                    to_android: self.jobs[i].to_android,
                    is_dir: self.jobs[i].is_dir,
                    status,
                    error: e,
                };
                self.jobs.set(i, job);
            }
            assert(self.jobs@[i as int]@ == target.jobs[i as int]);
            i = i + 1;
        }
        assert(self@.jobs =~= target.jobs);
    }

    /// Stops every job in progress: each is marked failed as cancelled.
    pub fn cancel_active(&mut self)
        ensures
            final(self)@ == old(self)@.cancel_all(),
            old(self)@.wf() ==> final(self)@.wf(),
    {
        let ghost target = old(self)@.cancel_all();
        let mut i: usize = 0;
        while i < self.jobs.len()
            invariant
                i <= self.jobs.len(),
                self.jobs.len() == old(self).jobs.len(),
                self.next_id == old(self).next_id,
                target == old(self)@.cancel_all(),
                forall|k: int| 0 <= k < i ==> #[trigger] self.jobs@[k]@ == target.jobs[k],
                forall|k: int| i <= k < self.jobs.len() ==> #[trigger] self.jobs@[k] == old(self).jobs@[k],
            decreases self.jobs.len() - i,
        {
            assert(self.jobs@[i as int]@ == old(self)@.jobs[i as int]);
            if self.jobs[i].status == TransferStatus::InProgress {
                proof {
                    reveal_strlit("cancelled");
                    assert("cancelled"@ =~= cancelled_text());
                }
                let job = TransferJob {
                    id: self.jobs[i].id,
                    source: self.jobs[i].source.clone(),
                    destination: self.jobs[i].destination.clone(),
                    to_android: self.jobs[i].to_android,
                    is_dir: self.jobs[i].is_dir,
                    status: TransferStatus::Failed,
                    error: Some(text("cancelled")),
                };
                self.jobs.set(i, job);
            }
            assert(self.jobs@[i as int]@ == target.jobs[i as int]);
            i = i + 1;
        }
        assert(self@.jobs =~= target.jobs);
    }

    /// The last `n` jobs queued, oldest first.
    pub fn recent(&self, n: usize) -> (r: &[TransferJob])
        ensures
            r@.len() == if n < self.jobs.len() { n as int } else { self.jobs.len() as int },
            forall|k: int|
                0 <= k < r@.len() ==> #[trigger] r@[k]@ == self@.jobs[self.jobs.len() - r@.len() + k],
    {
        let len = self.jobs.len();
        let start: usize = if n < len { len - n } else { 0 };
        slice_subrange(self.jobs.as_slice(), start, len)
    }
}

/// What the transfer worker reports about a job.
#[derive(Debug)]
pub enum TransferUpdate {
    Started(usize),
    Completed(usize),
    Failed(usize, String),
}

} // verus!
