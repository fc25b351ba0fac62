//! The status store: a concurrently shared record of every task's progress.
//!
//! Each record moves strictly forward through `Pending`, `Processing` and a
//! terminal `Completed` or `Failed`; a terminal record carries either a
//! result payload or a failure reason, never both and never neither. The
//! store is viewed as a map from task identifier to record, and every
//! operation states exactly how that map changes.

use vstd::prelude::*;

verus! {

/// Lifecycle state of one task.
#[derive(Debug)]
pub enum TaskStatus {
    Pending,
    Processing,
    Completed,
    Failed(String),
}

/// Result payload of a completed task: the identifier of the entity that was
/// created and the transaction reference that paid for it.
#[derive(Debug)]
pub enum TaskPayload {
    PostCreated { post_id: String, transaction_hash: String },
    CommentCreated { comment_id: String, post_id: String, transaction_hash: String },
}

/// One task's record: status, creation time, and — once terminal — its
/// completion time and, for success, its payload.
#[derive(Debug)]
pub struct TaskResult {
    pub task_id: String,
    pub status: TaskStatus,
    pub created_at: u64,
    pub completed_at: Option<u64>,
    pub result_data: Option<TaskPayload>,
}

/// Whether `s` admits no further transition.
pub open spec fn is_terminal(s: TaskStatus) -> bool {
    s is Completed || s is Failed
}

/// Position of `s` on the lifecycle chain.
pub open spec fn status_rank(s: TaskStatus) -> int {
    match s {
        TaskStatus::Pending => 0,
        TaskStatus::Processing => 1,
        TaskStatus::Completed => 2,
        TaskStatus::Failed(_) => 2,
    }
}

/// The single transitions the lifecycle allows: `Pending` to `Processing`,
/// and `Processing` to a terminal status.
pub open spec fn step_ok(a: TaskStatus, b: TaskStatus) -> bool {
    ||| (a is Pending && b is Processing)
    ||| (a is Processing && is_terminal(b))
}

/// Every allowed transition moves one rank forward, and none leaves a
/// terminal status; so any chain of allowed transitions visits statuses in
/// the order `Pending`, `Processing`, terminal, without going back and
/// without skipping `Processing`.
pub proof fn lemma_step_ok_forward(a: TaskStatus, b: TaskStatus)
    requires
        step_ok(a, b),
    ensures
        status_rank(b) == status_rank(a) + 1,
        !is_terminal(a),
        is_terminal(b) ==> a is Processing,
{
}

impl TaskStatus {
    /// A copy with the very same value.
    pub fn duplicate(&self) -> (r: Self)
        ensures
            r == *self,
    {
        match self {
            TaskStatus::Pending => TaskStatus::Pending,
            TaskStatus::Processing => TaskStatus::Processing,
            TaskStatus::Completed => TaskStatus::Completed,
            TaskStatus::Failed(m) => TaskStatus::Failed(m.clone()),
        }
    }
}

impl TaskPayload {
    /// A copy with the very same value.
    pub fn duplicate(&self) -> (r: Self)
        ensures
            r == *self,
    {
        match self {
            TaskPayload::PostCreated { post_id, transaction_hash } => TaskPayload::PostCreated {
                post_id: post_id.clone(),
                transaction_hash: transaction_hash.clone(),
            },
            TaskPayload::CommentCreated { comment_id, post_id, transaction_hash } => TaskPayload::CommentCreated {
                comment_id: comment_id.clone(),
                post_id: post_id.clone(),
                transaction_hash: transaction_hash.clone(),
            },
        }
    }
}

impl TaskResult {
    /// A record is well formed when its terminal fields agree with its
    /// status: a live record has neither completion time nor payload, a
    /// completed one has both, a failed one has a completion time and no
    /// payload (its reason lives in the status).
    pub open spec fn wf(self) -> bool {
        &&& !is_terminal(self.status) ==> self.completed_at is None && self.result_data is None
        &&& self.status is Completed ==> self.completed_at is Some && self.result_data is Some
        &&& self.status is Failed ==> self.completed_at is Some && self.result_data is None
    }

    /// A copy with the very same value.
    pub fn duplicate(&self) -> (r: Self)
        ensures
            r == *self,
    {
        TaskResult {
            task_id: self.task_id.clone(),
            status: self.status.duplicate(),
            created_at: self.created_at,
            completed_at: self.completed_at,
            result_data: match &self.result_data {
                Some(p) => Some(p.duplicate()),
                None => None,
            },
        }
    }
}

/// Map from task identifier to task record, stored as a vector with
/// pairwise-distinct identifiers.
#[derive(Debug)]
pub struct StatusStore {
    records: Vec<TaskResult>,
}

impl View for StatusStore {
    type V = Map<Seq<char>, TaskResult>;

    closed spec fn view(&self) -> Map<Seq<char>, TaskResult> {
        Map::new(
            |id: Seq<char>| self.contains_task(id),
            |id: Seq<char>| self.task_rec(id),
        )
    }
}

impl StatusStore {
    spec fn contains_task(self, id: Seq<char>) -> bool {
        exists|i: int| 0 <= i < self.records@.len() && #[trigger] self.records@[i].task_id@ == id
    }

    spec fn task_idx(self, id: Seq<char>) -> int {
        choose|i: int| 0 <= i < self.records@.len() && #[trigger] self.records@[i].task_id@ == id
    }

    spec fn task_rec(self, id: Seq<char>) -> TaskResult {
        self.records@[self.task_idx(id)]
    }

    /// Identifiers are pairwise distinct and every record is well formed
    /// under its own identifier.
    pub closed spec fn wf(self) -> bool {
        &&& forall|i: int, j: int|
            0 <= i < j < self.records@.len() ==> (#[trigger] self.records@[i].task_id@)
                != (#[trigger] self.records@[j].task_id@)
        &&& forall|i: int|
            0 <= i < self.records@.len() ==> (#[trigger] self.records@[i]).wf()
    }

    proof fn lemma_at_index(self, i: int)
        requires
            self.wf(),
            0 <= i < self.records@.len(),
        ensures
            self.contains_task(self.records@[i].task_id@),
            self.task_idx(self.records@[i].task_id@) == i,
            self@[self.records@[i].task_id@] == self.records@[i],
            self@.contains_key(self.records@[i].task_id@),
    {
        let id = self.records@[i].task_id@;
        assert(self.contains_task(id));
        let j = self.task_idx(id);
        assert(0 <= j < self.records@.len() && self.records@[j].task_id@ == id);
        if i != j {
            assert(false);
        }
    }

    /// Every stored record is well formed.
    pub proof fn lemma_wf_records(self, id: Seq<char>)
        requires
            self.wf(),
            self@.contains_key(id),
        ensures
            self@[id].wf(),
            self@[id].task_id@ == id,
    {
        let i = self.task_idx(id);
        assert(self.records@[i].wf());
    }

    /// An empty store.
    pub fn new() -> (r: Self)
        ensures
            r.wf(),
            r@ =~= Map::<Seq<char>, TaskResult>::empty(),
    {
        let r = StatusStore { records: Vec::new() };
        proof {
            assert forall|id: Seq<char>| !r.contains_task(id) by {}
        }
        r
    }

    /// Position of the record for `id`, if one exists.
    fn find(&self, id: &str) -> (r: Option<usize>)
        ensures
            match r {
                Some(i) => i < self.records@.len() && self.records@[i as int].task_id@ == id@,
                None => !self.contains_task(id@),
            },
    {
        let n = self.records.len();
        let mut i: usize = 0;
        while i < n
            invariant
                n == self.records@.len(),
                i <= n,
                forall|j: int| 0 <= j < i ==> (#[trigger] self.records@[j].task_id@) != id@,
            decreases n - i,
        {
            if crate::text::str_eq(self.records[i].task_id.as_str(), id) {
                return Some(i);
            }
            i = i + 1;
        }
        None
    }

    /// Registers a fresh `Pending` record for `task_id`, created at `now`.
    pub fn create(&mut self, task_id: String, now: u64)
        requires
            old(self).wf(),
            !old(self)@.contains_key(task_id@),
        ensures
            final(self).wf(),
            final(self)@ =~= old(self)@.insert(
                task_id@,
                TaskResult {
                    task_id,
                    status: TaskStatus::Pending,
                    created_at: now,
                    completed_at: None,
                    result_data: None,
                },
            ),
    {
        let ghost old_self = *self;
        let id_view = Ghost(task_id@);
        let rec = TaskResult {
            task_id,
            status: TaskStatus::Pending,
            created_at: now,
            completed_at: None,
            result_data: None,
        };
        let ghost new_rec = rec;
        self.records.push(rec);
        proof {
            let n = old_self.records@.len();
            assert(self.records@ =~= old_self.records@.push(new_rec));
            assert forall|i: int, j: int| 0 <= i < j < self.records@.len() implies self.records@[i].task_id@
                != self.records@[j].task_id@ by {
                if j < n {
                } else {
                    assert(j == n);
                    if self.records@[i].task_id@ == id_view@ {
                        old_self.lemma_at_index(i);
                    }
                }
            }
            assert(self.wf());
            assert forall|id: Seq<char>| true implies (self.contains_task(id) == (old_self.contains_task(
                id,
            ) || id == id_view@)) by {
                if self.contains_task(id) {
                    let i = choose|i: int|
                        0 <= i < self.records@.len() && #[trigger] self.records@[i].task_id@ == id;
                    if i < n {
                        assert(old_self.records@[i].task_id@ == id);
                        assert(old_self.contains_task(id));
                    }
                }
                if old_self.contains_task(id) {
                    let i = choose|i: int|
                        0 <= i < old_self.records@.len() && #[trigger] old_self.records@[i].task_id@
                            == id;
                    assert(self.records@[i].task_id@ == id);
                }
                if id == id_view@ {
                    assert(self.records@[n as int].task_id@ == id);
                }
            }
            assert forall|id: Seq<char>| #[trigger] self.contains_task(id) implies self.task_rec(id)
                == (if id == id_view@ {
                new_rec
            } else {
                old_self.task_rec(id)
            }) by {
                self.lemma_at_index(self.task_idx(id));
                let i = self.task_idx(id);
                if id == id_view@ {
                    self.lemma_at_index(n as int);
                } else {
                    assert(i < n);
                    old_self.lemma_at_index(i);
                }
            }
            assert(self@ =~= old_self@.insert(id_view@, new_rec));
        }
    }

    /// Looks a task up; the copy handed back equals the stored record.
    pub fn get(&self, task_id: &str) -> (r: Option<TaskResult>)
        requires
            self.wf(),
        ensures
            match r {
                Some(rec) => self@.contains_key(task_id@) && rec == self@[task_id@],
                None => !self@.contains_key(task_id@),
            },
    {
        match self.find(task_id) {
            Some(i) => {
                proof {
                    self.lemma_at_index(i as int);
                }
                Some(self.records[i].duplicate())
            },
            None => None,
        }
    }

    /// Replaces the record under `id` — whose identifier `r2` must keep —
    /// and states the store's map afterwards.
    fn put_at(&mut self, i: usize, r2: TaskResult)
        requires
            old(self).wf(),
            i < old(self).records@.len(),
            r2.task_id@ == old(self).records@[i as int].task_id@,
            r2.wf(),
        ensures
            final(self).wf(),
            final(self)@ =~= old(self)@.insert(r2.task_id@, r2),
    {
        let ghost old_self = *self;
        let ghost new_rec = r2;
        let ghost idv = r2.task_id@;
        self.records[i] = r2;
        proof {
            assert(self.records@ =~= old_self.records@.update(i as int, new_rec));
            assert forall|a: int, b: int| 0 <= a < b < self.records@.len() implies self.records@[a].task_id@
                != self.records@[b].task_id@ by {
                assert(old_self.records@[a].task_id@ != old_self.records@[b].task_id@);
            }
            assert(self.wf());
            assert forall|id: Seq<char>| true implies self.contains_task(id) == old_self.contains_task(
                id,
            ) by {
                if self.contains_task(id) {
                    let k = choose|k: int|
                        0 <= k < self.records@.len() && #[trigger] self.records@[k].task_id@ == id;
                    assert(old_self.records@[k].task_id@ == id);
                }
                if old_self.contains_task(id) {
                    let k = choose|k: int|
                        0 <= k < old_self.records@.len() && #[trigger] old_self.records@[k].task_id@
                            == id;
                    assert(self.records@[k].task_id@ == id);
                }
            }
            assert forall|id: Seq<char>| #[trigger] self.contains_task(id) implies self.task_rec(id)
                == (if id == idv {
                new_rec
            } else {
                old_self.task_rec(id)
            }) by {
                self.lemma_at_index(self.task_idx(id));
                let k = self.task_idx(id);
                if id == idv {
                    self.lemma_at_index(i as int);
                } else {
                    old_self.lemma_at_index(k);
                }
            }
            assert(self@ =~= old_self@.insert(idv, new_rec));
        }
    }

    /// Flips a `Pending` record to `Processing`; nothing else changes.
    pub fn set_processing(&mut self, task_id: &str)
        requires
            old(self).wf(),
            old(self)@.contains_key(task_id@),
            old(self)@[task_id@].status is Pending,
        ensures
            final(self).wf(),
            final(self)@ =~= old(self)@.insert(
                task_id@,
                TaskResult { status: TaskStatus::Processing, ..old(self)@[task_id@] },
            ),
    {
        let i = match self.find(task_id) {
            Some(i) => i,
            None => {
                proof {
                    assert(false);
                }
                0
            },
        };
        proof {
            self.lemma_at_index(i as int);
        }
        let rec = &self.records[i];
        let r2 = TaskResult {
            task_id: rec.task_id.clone(),
            status: TaskStatus::Processing,
            created_at: rec.created_at,
            completed_at: None,
            result_data: None,
        };
        proof {
            assert(old(self)@[task_id@].wf());
        }
        self.put_at(i, r2);
    }

    /// Ends a `Processing` record as `Completed` at `now`, with `payload` as
    /// its result; nothing else changes.
    pub fn complete(&mut self, task_id: &str, payload: TaskPayload, now: u64)
        requires
            old(self).wf(),
            old(self)@.contains_key(task_id@),
            old(self)@[task_id@].status is Processing,
        ensures
            final(self).wf(),
            final(self)@ =~= old(self)@.insert(
                task_id@,
                TaskResult {
                    status: TaskStatus::Completed,
                    completed_at: Some(now),
                    result_data: Some(payload),
                    ..old(self)@[task_id@]
                },
            ),
    {
        let i = match self.find(task_id) {
            Some(i) => i,
            None => {
                proof {
                    assert(false);
                }
                0
            },
        };
        proof {
            self.lemma_at_index(i as int);
        }
        let rec = &self.records[i];
        let r2 = TaskResult {
            task_id: rec.task_id.clone(),
            status: TaskStatus::Completed,
            created_at: rec.created_at,
            completed_at: Some(now),
            result_data: Some(payload),
        };
        self.put_at(i, r2);
    }

    /// Ends a `Processing` record as `Failed` at `now`, with `reason` as its
    /// terminal status text; nothing else changes.
    pub fn fail(&mut self, task_id: &str, reason: String, now: u64)
        requires
            old(self).wf(),
            old(self)@.contains_key(task_id@),
            old(self)@[task_id@].status is Processing,
        ensures
            final(self).wf(),
            final(self)@ =~= old(self)@.insert(
                task_id@,
                TaskResult {
                    status: TaskStatus::Failed(reason),
                    completed_at: Some(now),
                    result_data: None,
                    ..old(self)@[task_id@]
                },
            ),
    {
        let i = match self.find(task_id) {
            Some(i) => i,
            None => {
                proof {
                    assert(false);
                }
                0
            },
        };
        proof {
            self.lemma_at_index(i as int);
        }
        let rec = &self.records[i];
        let r2 = TaskResult {
            task_id: rec.task_id.clone(),
            status: TaskStatus::Failed(reason),
            created_at: rec.created_at,
            completed_at: Some(now),
            result_data: None,
        };
        self.put_at(i, r2);
    }
}

} // verus!
