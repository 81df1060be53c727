use vstd::prelude::*;

use crate::progress::{frame_step, start_model, Progress, ProgressMeter};
use crate::protocol::IPCEvent;
use crate::status::{StatusModel, TaskStatus};
use crate::text::{push_char, push_signed_decimal, signed_decimal_spec};

verus! {

/// What a job was made from: its display name, the video file it writes, the
/// chart it renders and the extracted cover image.
pub struct TaskInfo {
    pub name: String,
    pub output: String,
    pub path: String,
    pub cover: String,
}

/// A point-in-time snapshot of one job.
pub struct TaskView {
    pub id: u32,
    pub name: String,
    pub output: String,
    pub path: String,
    pub cover: String,
    pub status: TaskStatus,
}

/// What the supervisor of the running worker does after an event.
#[derive(Clone, Copy, Debug, PartialEq, Eq, Structural)]
pub enum Directive {
    /// Keep reading events.
    Continue,
    /// The job was canceled: kill the worker.
    Kill,
    /// The worker reported success: wait for it and collect its output, then
    /// call `finish_done` with the duration carried here.
    CollectOutput(u64),
}

/// The text kept with a finished job: both output streams of its worker.
pub open spec fn log_text(stdout: Seq<char>, stderr: Seq<char>) -> Seq<char> {
    "[STDOUT]\n"@ + stdout + "\n\n[STDERR]\n"@ + stderr
}

/// The error of a job whose worker exited abnormally with `code`.
pub open spec fn exit_error_text(code: Option<i32>, stderr: Seq<char>) -> Seq<char> {
    let code_text = match code {
        Some(c) => "Some("@ + signed_decimal_spec(c as int) + ")"@,
        None => "None"@,
    };
    "Child process exited abnormally ("@ + code_text + ")\n\n"@ + stderr
}

/// One render job: its id, what it was made from, its state, and whether its
/// cancellation was asked for.
pub struct Task {
    id: u32,
    name: String,
    output: String,
    path: String,
    cover: String,
    status: TaskStatus,
    request_cancel: bool,
}

impl Task {
    pub closed spec fn id_spec(&self) -> u32 {
        self.id
    }

    pub closed spec fn status_spec(&self) -> StatusModel {
        self.status@
    }

    pub closed spec fn info_spec(&self) -> (Seq<char>, Seq<char>, Seq<char>, Seq<char>) {
        (self.name@, self.output@, self.path@, self.cover@)
    }

    pub closed spec fn cancel_requested(&self) -> bool {
        self.request_cancel
    }

    /// Asks for this job to be canceled.
    pub fn cancel(&mut self)
        ensures
            final(self).cancel_requested(),
            final(self).id_spec() == old(self).id_spec(),
            final(self).status_spec() == old(self).status_spec(),
            final(self).info_spec() == old(self).info_spec(),
    {
        self.request_cancel = true;
    }

    /// A snapshot of this job.
    pub fn to_view(&self) -> (r: TaskView)
        ensures
            r.id == self.id_spec(),
            (r.name@, r.output@, r.path@, r.cover@) == self.info_spec(),
            r.status@ == self.status_spec(),
    {
        TaskView {
            id: self.id,
            name: self.name.clone(),
            output: self.output.clone(),
            path: self.path.clone(),
            cover: self.cover.clone(),
            status: self.status.duplicate(),
        }
    }
}

/// All render jobs in submission order; the one at index `i` has id `i`. At
/// most one of them runs at a time, and they run in submission order.
pub struct TaskQueue {
    tasks: Vec<Task>,
    active: Option<usize>,
    meter: ProgressMeter,
}

impl TaskQueue {
    pub closed spec fn len(&self) -> nat {
        self.tasks@.len()
    }

    /// State of the job with id `i`.
    pub closed spec fn status(&self, i: int) -> StatusModel {
        self.tasks@[i].status@
    }

    pub closed spec fn info(&self, i: int) -> (Seq<char>, Seq<char>, Seq<char>, Seq<char>) {
        let t = self.tasks@[i];
        (t.name@, t.output@, t.path@, t.cover@)
    }

    /// Whether a cancellation of job `i` was asked for.
    pub closed spec fn cancel_flag(&self, i: int) -> bool {
        self.tasks@[i].request_cancel
    }

    /// The id of job `i`.
    pub closed spec fn id(&self, i: int) -> u32 {
        self.tasks@[i].id
    }

    /// The job whose worker is being supervised.
    pub closed spec fn active(&self) -> Option<int> {
        match self.active {
            Some(a) => Some(a as int),
            None => None,
        }
    }

    /// The progress meter of the active job.
    pub closed spec fn meter(&self) -> ProgressMeter {
        self.meter
    }

    pub closed spec fn wf(&self) -> bool {
        &&& self.tasks@.len() <= u32::MAX
        &&& (self.active matches Some(a) ==> a < self.tasks@.len())
        &&& forall|i: int| 0 <= i < self.len() ==> #[trigger] self.id(i) == i
        &&& forall|i: int|
            0 <= i < self.len() ==> (#[trigger] self.status(i).is_running() <==> self.active()
                == Some(i))
        &&& forall|j: int, k: int|
            0 <= j < k < self.len() && !(#[trigger] self.status(j)).is_terminal() ==> (
            #[trigger] self.status(k) is Pending || self.status(k) is Canceled)
    }

    /// Jobs other than `a` keep their state, description and flag, and no job
    /// is added or removed.
    pub open spec fn others_kept(old_q: TaskQueue, new_q: TaskQueue, a: int) -> bool {
        &&& new_q.len() == old_q.len()
        &&& forall|i: int| 0 <= i < old_q.len() ==> #[trigger] new_q.info(i) == old_q.info(i)
        &&& forall|i: int|
            0 <= i < old_q.len() ==> #[trigger] new_q.cancel_flag(i) == old_q.cancel_flag(i)
        &&& forall|i: int|
            0 <= i < old_q.len() && i != a ==> #[trigger] new_q.status(i) == old_q.status(i)
    }

    proof fn lemma_same_jobs(a: TaskQueue, b: TaskQueue)
        requires
            a.wf(),
            a.tasks == b.tasks,
            a.active == b.active,
        ensures
            b.wf(),
            Self::others_kept(a, b, -1),
            b.active() == a.active(),
    {
        assert forall|i: int| 0 <= i < b.len() implies #[trigger] b.id(i) == i by {
            assert(a.id(i) == i);
        }
        assert forall|i: int| 0 <= i < b.len() implies #[trigger] b.status(i) == a.status(i) by {}
        assert forall|i: int| 0 <= i < b.len() implies #[trigger] b.info(i) == a.info(i) by {}
        assert forall|i: int| 0 <= i < b.len() implies #[trigger] b.cancel_flag(i) == a.cancel_flag(i) by {}
        assert forall|j: int, k: int|
            0 <= j < k < b.len() && !(#[trigger] b.status(j)).is_terminal() implies (
            #[trigger] b.status(k) is Pending || b.status(k) is Canceled) by {
            assert(b.status(j) == a.status(j));
            assert(b.status(k) == a.status(k));
        }
        assert forall|j: int| 0 <= j < b.len() implies (#[trigger] b.status(j).is_running() <==> b.active() == Some(j)) by {
            assert(b.status(j) == a.status(j));
        }
    }

    pub fn new() -> (r: TaskQueue)
        ensures
            r.wf(),
            r.len() == 0,
            r.active() is None,
    {
        TaskQueue {
            tasks: Vec::new(),
            active: None,
            meter: ProgressMeter::new(0),
        }
    }

    pub fn len_exec(&self) -> (r: usize)
        ensures
            r == self.len(),
    {
        self.tasks.len()
    }

    /// The id of the job whose worker is being supervised, if any.
    pub fn active_job(&self) -> (r: Option<u32>)
        requires
            self.wf(),
        ensures
            match r {
                Some(i) => self.active() == Some(i as int),
                None => self.active() is None,
            },
    {
        match self.active {
            Some(a) => Some(a as u32),
            None => None,
        }
    }

    /// Adds a `Pending` job and returns its id, the number of jobs posted
    /// before it.
    pub fn post(&mut self, info: TaskInfo) -> (id: u32)
        requires
            old(self).wf(),
            old(self).len() < u32::MAX,
        ensures
            final(self).wf(),
            id == old(self).len(),
            final(self).id(id as int) == id,
            final(self).len() == old(self).len() + 1,
            final(self).status(id as int) is Pending,
            final(self).info(id as int) == (info.name@, info.output@, info.path@, info.cover@),
            !final(self).cancel_flag(id as int),
            final(self).active() == old(self).active(),
            forall|i: int| 0 <= i < old(self).len() ==> #[trigger] final(self).status(i) == old(self).status(i),
            forall|i: int| 0 <= i < old(self).len() ==> #[trigger] final(self).info(i) == old(self).info(i),
            forall|i: int|
                0 <= i < old(self).len() ==> #[trigger] final(self).cancel_flag(i) == old(self).cancel_flag(i),
    {
        let id = self.tasks.len() as u32;
        let TaskInfo { name, output, path, cover } = info;
        self.tasks.push(
            Task { id, name, output, path, cover, status: TaskStatus::Pending, request_cancel: false },
        );
        proof {
            assert forall|i: int| 0 <= i < old(self).len() implies #[trigger] self.status(i) == old(self).status(i) by {
                assert(self.tasks@[i] == old(self).tasks@[i]);
            }
            assert forall|i: int| 0 <= i < old(self).len() implies #[trigger] self.info(i) == old(self).info(i) by {
                assert(self.tasks@[i] == old(self).tasks@[i]);
            }
            assert forall|i: int| 0 <= i < old(self).len() implies #[trigger] self.cancel_flag(i) == old(self).cancel_flag(i) by {
                assert(self.tasks@[i] == old(self).tasks@[i]);
            }
            assert forall|i: int| 0 <= i < self.len() implies #[trigger] self.id(i) == i by {
                if i < old(self).len() {
                    assert(self.tasks@[i] == old(self).tasks@[i]);
                    assert(old(self).id(i) == i);
                }
            }
            assert forall|j: int, k: int|
                0 <= j < k < self.len() && !(#[trigger] self.status(j)).is_terminal() implies (
                #[trigger] self.status(k) is Pending || self.status(k) is Canceled) by {
                if k < old(self).len() {
                    assert(old(self).status(j) == self.status(j));
                    assert(old(self).status(k) == self.status(k));
                }
            }
        }
        id
    }

    /// Snapshots of all jobs, most recently posted first.
    pub fn tasks(&self) -> (r: Vec<TaskView>)
        requires
            self.wf(),
        ensures
            r@.len() == self.len(),
            forall|i: int|
                0 <= i < r@.len() ==> {
                    let j = self.len() - 1 - i;
                    &&& (#[trigger] r@[i]).id == j
                    &&& (r@[i].name@, r@[i].output@, r@[i].path@, r@[i].cover@) == self.info(j)
                    &&& r@[i].status@ == self.status(j)
                },
    {
        let n = self.tasks.len();
        let mut r: Vec<TaskView> = Vec::new();
        let mut k: usize = n;
        while k > 0
            invariant
                k <= n,
                n == self.len(),
                self.wf(),
                r@.len() == n - k,
                forall|i: int|
                    0 <= i < r@.len() ==> {
                        let j = self.len() - 1 - i;
                        &&& (#[trigger] r@[i]).id == j
                        &&& (r@[i].name@, r@[i].output@, r@[i].path@, r@[i].cover@) == self.info(j)
                        &&& r@[i].status@ == self.status(j)
                    },
            decreases k,
        {
            k = k - 1;
            let view = self.tasks[k].to_view();
            proof {
                assert(self.id(k as int) == k);
            }
            r.push(view);
        }
        r
    }

    /// Asks for job `id` to be canceled: only its flag is set, and no state
    /// changes here. A job still waiting is canceled when its turn comes, a
    /// running one when its next event arrives; a finished one stays as it is.
    pub fn cancel(&mut self, id: u32)
        requires
            old(self).wf(),
            id < old(self).len(),
        ensures
            final(self).wf(),
            final(self).cancel_flag(id as int),
            final(self).active() == old(self).active(),
            final(self).meter() == old(self).meter(),
            final(self).len() == old(self).len(),
            forall|i: int| 0 <= i < old(self).len() ==> #[trigger] final(self).status(i) == old(self).status(i),
            forall|i: int| 0 <= i < old(self).len() ==> #[trigger] final(self).info(i) == old(self).info(i),
            forall|i: int|
                0 <= i < old(self).len() && i != id ==> #[trigger] final(self).cancel_flag(i) == old(self).cancel_flag(i),
    {
        let i = id as usize;
        self.tasks[i].cancel();
        proof {
            assert forall|j: int| 0 <= j < self.len() implies #[trigger] self.id(j) == j by {
                assert(old(self).id(j) == j);
            }
            assert forall|j: int| 0 <= j < self.len() implies #[trigger] self.status(j) == old(self).status(j) by {}
            assert forall|j: int, k: int|
                0 <= j < k < self.len() && !(#[trigger] self.status(j)).is_terminal() implies (
                #[trigger] self.status(k) is Pending || self.status(k) is Canceled) by {
                assert(old(self).status(j) == self.status(j));
                assert(old(self).status(k) == self.status(k));
            }
            assert forall|j: int| 0 <= j < self.len() implies (#[trigger] self.status(j).is_running() <==> self.active() == Some(j)) by {
                assert(old(self).status(j).is_running() <==> old(self).active() == Some(j));
            }
        }
    }

    /// The jobs before `upto` that were waiting with a cancellation request
    /// are now `Canceled`, no job before `upto` that was waiting without one
    /// remains, the other jobs before `upto` and all jobs after it keep their
    /// state, and descriptions and flags are kept.
    pub open spec fn swept(old_q: TaskQueue, new_q: TaskQueue, upto: int) -> bool {
        &&& new_q.len() == old_q.len()
        &&& forall|i: int| 0 <= i < old_q.len() ==> #[trigger] new_q.info(i) == old_q.info(i)
        &&& forall|i: int|
            0 <= i < old_q.len() ==> #[trigger] new_q.cancel_flag(i) == old_q.cancel_flag(i)
        &&& forall|i: int|
            0 <= i < upto && old_q.status(i) is Pending ==> old_q.cancel_flag(i)
                && #[trigger] new_q.status(i) is Canceled
        &&& forall|i: int|
            0 <= i < upto && !(old_q.status(i) is Pending) ==> #[trigger] new_q.status(i)
                == old_q.status(i)
        &&& forall|i: int| upto < i < old_q.len() ==> #[trigger] new_q.status(i) == old_q.status(i)
    }

    /// Marks the waiting job `i`, whose cancellation was asked for, as
    /// `Canceled`.
    fn cancel_waiting(&mut self, i: usize)
        requires
            old(self).wf(),
            i < old(self).len(),
            old(self).status(i as int) is Pending,
        ensures
            final(self).wf(),
            final(self).status(i as int) is Canceled,
            final(self).active() == old(self).active(),
            final(self).meter() == old(self).meter(),
            Self::others_kept(*old(self), *final(self), i as int),
    {
        self.tasks[i].status = TaskStatus::Canceled;
        proof {
            assert forall|j: int| 0 <= j < self.len() implies #[trigger] self.id(j) == j by {
                assert(old(self).id(j) == j);
            }
            assert forall|j: int, k: int|
                0 <= j < k < self.len() && !(#[trigger] self.status(j)).is_terminal() implies (
                #[trigger] self.status(k) is Pending || self.status(k) is Canceled) by {
                if j != i {
                    assert(self.tasks@[j] == old(self).tasks@[j]);
                    assert(old(self).status(j) == self.status(j));
                }
                if k != i {
                    assert(self.tasks@[k] == old(self).tasks@[k]);
                    assert(old(self).status(k) == self.status(k));
                }
                assert(!old(self).status(j).is_terminal());
            }
            assert forall|j: int| 0 <= j < self.len() implies (#[trigger] self.status(j).is_running() <==> self.active() == Some(j)) by {
                assert(old(self).status(j).is_running() <==> old(self).active() == Some(j));
                if j != i {
                    assert(self.tasks@[j] == old(self).tasks@[j]);
                }
            }
        }
    }

    /// Starts the waiting job `i`, before which no job is waiting.
    fn begin_job(&mut self, i: usize)
        requires
            old(self).wf(),
            old(self).active() is None,
            i < old(self).len(),
            old(self).status(i as int) is Pending,
            forall|j: int| 0 <= j < i ==> !(#[trigger] old(self).status(j) is Pending),
        ensures
            final(self).wf(),
            final(self).status(i as int) is Loading,
            final(self).active() == Some(i as int),
            final(self).meter()@ == start_model(0),
            Self::others_kept(*old(self), *final(self), i as int),
    {
        self.tasks[i].status = TaskStatus::Loading;
        self.active = Some(i);
        self.meter = ProgressMeter::new(0);
        proof {
            assert forall|j: int| 0 <= j < self.len() implies #[trigger] self.id(j) == j by {
                assert(old(self).id(j) == j);
            }
            assert forall|j: int, k: int|
                0 <= j < k < self.len() && !(#[trigger] self.status(j)).is_terminal() implies (
                #[trigger] self.status(k) is Pending || self.status(k) is Canceled) by {
                assert(self.tasks@[i as int].status == TaskStatus::Loading);
                if j != i {
                    assert(self.tasks@[j] == old(self).tasks@[j]);
                    assert(old(self).status(j) == self.status(j));
                }
                if k != i {
                    assert(self.tasks@[k] == old(self).tasks@[k]);
                    assert(old(self).status(k) == self.status(k));
                }
                if j < i {
                    assert(!old(self).status(j).is_running());
                    assert(!(old(self).status(j) is Pending));
                }
            }
            assert forall|j: int| 0 <= j < self.len() implies (#[trigger] self.status(j).is_running() <==> self.active() == Some(j)) by {
                assert(old(self).status(j).is_running() <==> old(self).active() == Some(j));
                if j != i {
                    assert(self.tasks@[j] == old(self).tasks@[j]);
                }
            }
        }
    }

    /// With no job running, goes through the waiting jobs in order: one whose
    /// cancellation was asked for becomes `Canceled` without ever starting;
    /// the first one without such a request becomes `Loading` and active, and
    /// its id is returned. Returns `None` when a job is already running (and
    /// then changes nothing) or when no job is left waiting.
    pub fn start_next(&mut self) -> (r: Option<u32>)
        requires
            old(self).wf(),
        ensures
            final(self).wf(),
            match r {
                Some(i) => {
                    &&& old(self).active() is None
                    &&& i < old(self).len()
                    &&& old(self).status(i as int) is Pending
                    &&& !old(self).cancel_flag(i as int)
                    &&& final(self).status(i as int) is Loading
                    &&& final(self).active() == Some(i as int)
                    &&& final(self).meter()@ == start_model(0)
                    &&& Self::swept(*old(self), *final(self), i as int)
                },
                None => {
                    &&& final(self).active() == old(self).active()
                    &&& old(self).active() is Some ==> Self::others_kept(*old(self), *final(self), -1)
                    &&& old(self).active() is None ==> Self::swept(*old(self), *final(self), old(self).len() as int)
                },
            },
    {
        if self.active.is_some() {
            return None;
        }
        let n = self.tasks.len();
        let mut i: usize = 0;
        while i < n
            invariant
                i <= n,
                n == self.len(),
                self.wf(),
                old(self).wf(),
                old(self).active is None,
                self.active is None,
                Self::swept(*old(self), *self, i as int),
                i < n ==> self.status(i as int) == old(self).status(i as int),
                forall|j: int| 0 <= j < i ==> !(#[trigger] self.status(j) is Pending),
            decreases n - i,
        {
            if self.tasks[i].status.is_pending() {
                if self.tasks[i].request_cancel {
                    let ghost prev = *self;
                    self.cancel_waiting(i);
                    proof {
                        assert forall|j: int| 0 <= j < i + 1 implies !(#[trigger] self.status(j) is Pending) by {
                            if j < i {
                                assert(prev.status(j) == self.status(j));
                            }
                        }
                        assert forall|j: int| 0 <= j < old(self).len() implies #[trigger] self.info(j) == old(self).info(j) by {
                            assert(prev.info(j) == self.info(j));
                        }
                        assert forall|j: int| 0 <= j < old(self).len() implies #[trigger] self.cancel_flag(j) == old(self).cancel_flag(j) by {
                            assert(prev.cancel_flag(j) == self.cancel_flag(j));
                        }
                        assert forall|j: int| 0 <= j < i + 1 && old(self).status(j) is Pending implies old(self).cancel_flag(j)
                            && #[trigger] self.status(j) is Canceled by {
                            if j < i {
                                assert(prev.status(j) == self.status(j));
                            } else {
                                assert(prev.cancel_flag(j) == old(self).cancel_flag(j));
                            }
                        }
                        assert forall|j: int| 0 <= j < i + 1 && !(old(self).status(j) is Pending) implies #[trigger] self.status(j)
                            == old(self).status(j) by {
                            if j < i {
                                assert(prev.status(j) == self.status(j));
                            }
                        }
                        assert forall|j: int| i + 1 < j < old(self).len() implies #[trigger] self.status(j) == old(self).status(j) by {
                            assert(prev.status(j) == self.status(j));
                        }
                        if i + 1 < n {
                            assert(prev.status(i + 1) == self.status(i + 1));
                        }
                    }
                } else {
                    let ghost prev = *self;
                    self.begin_job(i);
                    proof {
                        assert forall|j: int| 0 <= j < old(self).len() implies #[trigger] self.info(j) == old(self).info(j) by {
                            assert(prev.info(j) == self.info(j));
                        }
                        assert forall|j: int| 0 <= j < old(self).len() implies #[trigger] self.cancel_flag(j) == old(self).cancel_flag(j) by {
                            assert(prev.cancel_flag(j) == self.cancel_flag(j));
                        }
                        assert forall|j: int| 0 <= j < i && old(self).status(j) is Pending implies old(self).cancel_flag(j)
                            && #[trigger] self.status(j) is Canceled by {
                            assert(prev.status(j) == self.status(j));
                        }
                        assert forall|j: int| 0 <= j < i && !(old(self).status(j) is Pending) implies #[trigger] self.status(j)
                            == old(self).status(j) by {
                            assert(prev.status(j) == self.status(j));
                        }
                        assert forall|j: int| i < j < old(self).len() implies #[trigger] self.status(j) == old(self).status(j) by {
                            assert(prev.status(j) == self.status(j));
                        }
                        assert(prev.cancel_flag(i as int) == old(self).cancel_flag(i as int));
                    }
                    return Some(i as u32);
                }
            } else {
                proof {
                    if i + 1 < n {
                        assert(self.status(i + 1) == old(self).status(i + 1));
                    }
                }
            }
            i = i + 1;
        }
        None
    }

    /// Ends the active job with `status`.
    fn finish_active(&mut self, status: TaskStatus)
        requires
            old(self).wf(),
            old(self).active() is Some,
            status@.is_terminal(),
        ensures
            final(self).wf(),
            final(self).active() is None,
            final(self).status(old(self).active()->0) == status@,
            Self::others_kept(*old(self), *final(self), old(self).active()->0),
            final(self).meter() == old(self).meter(),
    {
        let a = self.active.unwrap();
        self.tasks[a].status = status;
        self.active = None;
        proof {
            assert forall|j: int| 0 <= j < self.len() implies #[trigger] self.id(j) == j by {
                assert(old(self).id(j) == j);
            }
            assert forall|j: int, k: int|
                0 <= j < k < self.len() && !(#[trigger] self.status(j)).is_terminal() implies (
                #[trigger] self.status(k) is Pending || self.status(k) is Canceled) by {
                assert(self.tasks@[a as int].status == status);
                assert(old(self).status(a as int).is_running());
                if j != a {
                    assert(self.tasks@[j] == old(self).tasks@[j]);
                }
                if k != a {
                    assert(self.tasks@[k] == old(self).tasks@[k]);
                }
                assert(!old(self).status(j).is_terminal());
                if k == a {
                    assert(old(self).status(k).is_running());
                }
            }
            assert forall|j: int| 0 <= j < self.len() implies (#[trigger] self.status(j).is_running() <==> self.active() == Some(j)) by {
                assert(old(self).status(j).is_running() <==> old(self).active() == Some(j));
            }
        }
    }

    /// Sets the state of the active job to another running state.
    fn set_active(&mut self, status: TaskStatus)
        requires
            old(self).wf(),
            old(self).active() is Some,
            status@.is_running(),
        ensures
            final(self).wf(),
            final(self).active() == old(self).active(),
            final(self).status(old(self).active()->0) == status@,
            Self::others_kept(*old(self), *final(self), old(self).active()->0),
            final(self).meter() == old(self).meter(),
    {
        let a = self.active.unwrap();
        self.tasks[a].status = status;
        proof {
            assert forall|j: int| 0 <= j < self.len() implies #[trigger] self.id(j) == j by {
                assert(old(self).id(j) == j);
            }
            assert forall|j: int, k: int|
                0 <= j < k < self.len() && !(#[trigger] self.status(j)).is_terminal() implies (
                #[trigger] self.status(k) is Pending || self.status(k) is Canceled) by {
                assert(self.tasks@[a as int].status == status);
                assert(old(self).status(a as int).is_running());
                if j != a {
                    assert(self.tasks@[j] == old(self).tasks@[j]);
                }
                if k != a {
                    assert(self.tasks@[k] == old(self).tasks@[k]);
                }
                assert(!old(self).status(j).is_terminal());
                if k == a {
                    assert(old(self).status(k).is_running());
                }
            }
            assert forall|j: int| 0 <= j < self.len() implies (#[trigger] self.status(j).is_running() <==> self.active() == Some(j)) by {
                assert(old(self).status(j).is_running() <==> old(self).active() == Some(j));
            }
        }
    }

    /// Applies one event of the active job's worker, received `now_ms`
    /// milliseconds after the job started. After any event but `Done`, a
    /// pending cancellation request ends the job as `Canceled`.
    pub fn on_event(&mut self, event: IPCEvent, now_ms: u64) -> (r: Directive)
        requires
            old(self).wf(),
            old(self).active() is Some,
        ensures
            final(self).wf(),
            ({
                let a = old(self).active()->0;
                let canceled = old(self).cancel_flag(a) && !(event is Done);
                &&& Self::others_kept(*old(self), *final(self), a)
                &&& canceled ==> r == Directive::Kill && final(self).status(a) is Canceled
                    && final(self).active() is None
                &&& !canceled ==> final(self).active() == old(self).active()
                &&& !canceled ==> match event {
                    IPCEvent::StartMixing => r == Directive::Continue && final(self).status(a) is Mixing,
                    IPCEvent::StartRender(n) => {
                        &&& r == Directive::Continue
                        &&& final(self).meter()@ == start_model(n)
                        &&& final(self).status(a) == (StatusModel::Rendering {
                            progress: Progress { done: 0, total: n, fps: 0, estimate_ms: 0 },
                        })
                    },
                    IPCEvent::Frame => {
                        &&& r == Directive::Continue
                        &&& final(self).meter()@ == frame_step(old(self).meter()@, now_ms)
                        &&& final(self).status(a) == (StatusModel::Rendering {
                            progress: final(self).meter().report_spec(),
                        })
                    },
                    IPCEvent::Done(d) => r == Directive::CollectOutput(d) && final(self).status(a)
                        == old(self).status(a),
                }
            }),
    {
        let a = self.active.unwrap();
        match event {
            IPCEvent::StartMixing => {
                self.set_active(TaskStatus::Mixing);
            },
            IPCEvent::StartRender(n) => {
                let ghost before = *self;
                self.meter = ProgressMeter::new(n);
                proof {
                    Self::lemma_same_jobs(before, *self);
                }
                self.set_active(
                    TaskStatus::Rendering {
                        progress: Progress { done: 0, total: n, fps: 0, estimate_ms: 0 },
                    },
                );
            },
            IPCEvent::Frame => {
                let ghost before = *self;
                let progress = self.meter.on_frame(now_ms);
                proof {
                    Self::lemma_same_jobs(before, *self);
                }
                self.set_active(TaskStatus::Rendering { progress });
            },
            IPCEvent::Done(d) => {
                return Directive::CollectOutput(d);
            },
        }
        proof {
            assert(self.cancel_flag(a as int) == old(self).cancel_flag(a as int));
        }
        if self.tasks[a].request_cancel {
            self.finish_active(TaskStatus::Canceled);
            return Directive::Kill;
        }
        Directive::Continue
    }

    /// Ends the active job as `Done`, keeping what its worker wrote.
    pub fn finish_done(&mut self, duration_ms: u64, stdout: &str, stderr: &str)
        requires
            old(self).wf(),
            old(self).active() is Some,
        ensures
            final(self).wf(),
            final(self).active() is None,
            final(self).status(old(self).active()->0) == (StatusModel::Done {
                duration_ms,
                output: log_text(stdout@, stderr@),
            }),
            Self::others_kept(*old(self), *final(self), old(self).active()->0),
    {
        let mut log = String::from_str("[STDOUT]\n");
        log.append(stdout);
        log.append("\n\n[STDERR]\n");
        log.append(stderr);
        self.finish_active(TaskStatus::Done { duration_ms, output: log });
    }

    /// The worker's output ended without a `Done` event and the worker
    /// exited. A failed exit ends the job as `Failed` with the worker's error
    /// output; a successful one ends it as `Done` with no duration and no log.
    pub fn on_exit(&mut self, success: bool, code: Option<i32>, stderr: &str)
        requires
            old(self).wf(),
            old(self).active() is Some,
        ensures
            final(self).wf(),
            final(self).active() is None,
            !success ==> final(self).status(old(self).active()->0) == (StatusModel::Failed {
                error: exit_error_text(code, stderr@),
            }),
            success ==> final(self).status(old(self).active()->0) == (StatusModel::Done {
                duration_ms: 0,
                output: Seq::empty(),
            }),
            Self::others_kept(*old(self), *final(self), old(self).active()->0),
    {
        if success {
            self.finish_active(TaskStatus::Done { duration_ms: 0, output: String::new() });
        } else {
            let mut error = String::from_str("Child process exited abnormally (");
            match code {
                Some(c) => {
                    error.append("Some(");
                    push_signed_decimal(&mut error, c as i64);
                    push_char(&mut error, ')');
                },
                None => {
                    error.append("None");
                },
            }
            error.append(")\n\n");
            error.append(stderr);
            proof {
                reveal_strlit(")");
                assert(error@ =~= exit_error_text(code, stderr@));
            }
            self.finish_active(TaskStatus::Failed { error });
        }
    }

    /// Ends the active job as `Failed` when its supervision broke off with
    /// `error`.
    pub fn fail_active(&mut self, error: String)
        requires
            old(self).wf(),
            old(self).active() is Some,
        ensures
            final(self).wf(),
            final(self).active() is None,
            final(self).status(old(self).active()->0) == (StatusModel::Failed { error: error@ }),
            Self::others_kept(*old(self), *final(self), old(self).active()->0),
    {
        self.finish_active(TaskStatus::Failed { error });
    }
}

/// At any moment at most one job is loading, mixing or rendering.
pub proof fn lemma_single_running(q: TaskQueue, i: int, j: int)
    requires
        q.wf(),
        0 <= i < q.len(),
        0 <= j < q.len(),
        q.status(i).is_running(),
        q.status(j).is_running(),
    ensures
        i == j,
{
}

/// Jobs run in submission order: while a job has not reached a final state,
/// every job posted after it is still `Pending` (or was canceled before it
/// started).
pub proof fn lemma_later_jobs_wait(q: TaskQueue, j: int, k: int)
    requires
        q.wf(),
        0 <= j < k < q.len(),
        !q.status(j).is_terminal(),
    ensures
        q.status(k) is Pending || q.status(k) is Canceled,
{
}

/// Ids follow submission order and are never reused: each job's id is its
/// position in the queue, so a later job has a larger id.
pub proof fn lemma_ids_follow_order(q: TaskQueue, i: int, j: int)
    requires
        q.wf(),
        0 <= i < j < q.len(),
    ensures
        q.id(i) == i,
        q.id(i) < q.id(j),
{
    assert(q.id(i) == i);
    assert(q.id(j) == j);
}

/// A job canceled while it waits never starts: once the queue has gone past
/// it, it is `Canceled`, and a job with a cancellation request is never the
/// one that `start_next` starts.
pub proof fn lemma_canceled_waiting_job_skipped(before: TaskQueue, after: TaskQueue, id: int, upto: int)
    requires
        0 <= id < upto,
        id < before.len(),
        TaskQueue::swept(before, after, upto),
        before.status(id) is Pending,
        before.cancel_flag(id),
    ensures
        after.status(id) is Canceled,
        !after.status(id).is_running(),
{
}

/// Ids are never reused: two states of well-formed queues give a job that
/// both hold the same id, its position.
pub proof fn lemma_ids_stable(q1: TaskQueue, q2: TaskQueue, i: int)
    requires
        q1.wf(),
        q2.wf(),
        0 <= i < q1.len(),
        i < q2.len(),
    ensures
        q1.id(i) == q2.id(i),
        q1.id(i) == i,
{
    assert(q1.id(i) == i);
    assert(q2.id(i) == i);
}

} // verus!
