//! The download scheduler: a priority queue of tasks under a cap on transfers in
//! flight, with one status per task.
//!
//! The manager holds the decisions only. Whoever drives it performs the transfers and
//! hands back what happened: progress ticks and results.

use vstd::prelude::*;
use vstd::string::*;
use crate::error::Error;
use crate::fetcher::Fetcher;

verus! {

/// Download priority.
#[derive(Debug, Clone, Copy, PartialEq, Eq, Structural)]
pub enum DownloadPriority {
    Low,
    Normal,
    High,
    Critical,
}

impl DownloadPriority {
    /// The priority's rank: a higher rank is dispatched first.
    pub open spec fn rank(self) -> int {
        match self {
            DownloadPriority::Low => 0,
            DownloadPriority::Normal => 1,
            DownloadPriority::High => 2,
            DownloadPriority::Critical => 3,
        }
    }

    /// The priority with rank `value`; `Normal` for any other number.
    pub fn from_i32(value: i32) -> (r: DownloadPriority)
        ensures
            0 <= value <= 3 ==> r.rank() == value,
            !(0 <= value <= 3) ==> r == DownloadPriority::Normal,
    {
        match value {
            0 => DownloadPriority::Low,
            1 => DownloadPriority::Normal,
            2 => DownloadPriority::High,
            3 => DownloadPriority::Critical,
            _ => DownloadPriority::Normal,
        }
    }

    /// The priority's rank.
    pub fn level(&self) -> (r: i32)
        ensures
            r == self.rank(),
    {
        match self {
            DownloadPriority::Low => 0,
            DownloadPriority::Normal => 1,
            DownloadPriority::High => 2,
            DownloadPriority::Critical => 3,
        }
    }
}

/// One requested download.
#[derive(Debug)]
pub struct DownloadTask {
    /// URL to download.
    pub url: String,
    /// Destination path.
    pub destination: String,
    /// Download priority.
    pub priority: DownloadPriority,
    /// Unique id of the task; later tasks have larger ids.
    pub id: u64,
    /// Whether the requester asked to be told about progress.
    pub reports_progress: bool,
}

impl DownloadTask {
    /// Whether the task goes before `other`: higher priority first, older first among equals.
    pub fn precedes(&self, other: &DownloadTask) -> (r: bool)
        ensures
            r == goes_before(*self, *other),
    {
        let mine = self.priority.level();
        let theirs = other.priority.level();
        mine > theirs || (mine == theirs && self.id < other.id)
    }
}

/// Download manager configuration.
#[derive(Debug, Clone, Copy, PartialEq, Eq, Structural)]
pub struct ManagerConfig {
    /// Maximum number of concurrent downloads.
    pub max_concurrent_downloads: usize,
    /// Segment size for parallel download, in bytes.
    pub segment_size: usize,
    /// Number of parallel segments per download.
    pub parallel_segments: usize,
    /// Number of download attempts in case of failure.
    pub retry_attempts: usize,
    /// Maximum buffer size per download, in bytes.
    pub max_buffer_size: usize,
}

impl Default for ManagerConfig {
    /// 3 concurrent downloads, 4 parallel segments of 5 MiB, 3 attempts, 10 MiB of buffer.
    fn default() -> (r: ManagerConfig)
        ensures
            r == (ManagerConfig {
                max_concurrent_downloads: 3,
                segment_size: 5242880,
                parallel_segments: 4,
                retry_attempts: 3,
                max_buffer_size: 10485760,
            }),
    {
        ManagerConfig {
            max_concurrent_downloads: 3,
            segment_size: 5242880,
            parallel_segments: 4,
            retry_attempts: 3,
            max_buffer_size: 10485760,
        }
    }
}

/// Download status.
#[derive(Debug, Clone, PartialEq, Eq)]
pub enum DownloadStatus {
    Queued,
    Downloading { downloaded_bytes: u64, total_bytes: u64 },
    Completed,
    Failed { reason: String },
    Canceled,
}

impl DownloadStatus {
    /// Whether the status is final: completed, failed or canceled.
    pub open spec fn is_terminal(self) -> bool {
        self is Completed || self is Failed || self is Canceled
    }

    /// Whether the status is final.
    pub fn terminal(&self) -> (r: bool)
        ensures
            r == self.is_terminal(),
    {
        match self {
            DownloadStatus::Completed => true,
            DownloadStatus::Failed { .. } => true,
            DownloadStatus::Canceled => true,
            _ => false,
        }
    }

    /// A copy of the status.
    pub fn duplicate(&self) -> (r: DownloadStatus)
        ensures
            r == *self,
    {
        match self {
            DownloadStatus::Queued => DownloadStatus::Queued,
            DownloadStatus::Downloading { downloaded_bytes, total_bytes } => {
                DownloadStatus::Downloading {
                    downloaded_bytes: *downloaded_bytes,
                    total_bytes: *total_bytes,
                }
            },
            DownloadStatus::Completed => DownloadStatus::Completed,
            DownloadStatus::Failed { reason } => DownloadStatus::Failed { reason: reason.clone() },
            DownloadStatus::Canceled => DownloadStatus::Canceled,
        }
    }
}

/// What the consumer does next.
#[derive(Debug)]
pub enum Dispatch {
    /// Start the transfer of the task given here.
    Start(DownloadTask),
    /// Nothing waits: the consumer stops.
    Idle,
    /// Tasks wait but every slot is taken.
    Busy,
}

/// What a waiter for a task does next.
#[derive(Debug)]
pub enum WaitStep {
    /// There is no such task.
    Unknown,
    /// The task is not finished: look again after this many milliseconds.
    Wait { millis: u64 },
    /// The task ended in this status.
    Done(DownloadStatus),
}

/// Milliseconds between two looks at the status of an awaited task.
pub const POLL_INTERVAL_MS: u64 = 100;

/// Whether the task at `k` is the one to dispatch from `queue`: none has a higher
/// priority, and none before it has the same.
pub open spec fn is_next(queue: Seq<DownloadTask>, k: int) -> bool {
    &&& 0 <= k < queue.len()
    &&& forall|j: int| 0 <= j < queue.len() ==> queue[j].priority.rank() <= queue[k].priority.rank()
    &&& forall|j: int| 0 <= j < k ==> queue[j].priority.rank() < queue[k].priority.rank()
}

/// Whether every status that was final in `before` is the same in `after`: a final
/// status is never overwritten.
pub open spec fn terminal_kept(before: Seq<DownloadStatus>, after: Seq<DownloadStatus>) -> bool {
    &&& before.len() <= after.len()
    &&& forall|i: int|
        0 <= i < before.len() && (#[trigger] before[i]).is_terminal() ==> after[i] == before[i]
}

/// Whether `queue` holds a task with this id.
pub open spec fn queued(queue: Seq<DownloadTask>, id: u64) -> bool {
    exists|j: int| 0 <= j < queue.len() && (#[trigger] queue[j]).id == id
}

/// Whether task `a` goes before task `b`: it has the higher priority, or the same
/// priority and the smaller id.
pub open spec fn goes_before(a: DownloadTask, b: DownloadTask) -> bool {
    a.priority.rank() > b.priority.rank() || (a.priority.rank() == b.priority.rank() && a.id
        < b.id)
}

/// Priority order with first-in-first-out ties: in a queue whose ids grow, the task
/// that is dispatched goes before every other waiting task. A waiting task is thus
/// never dispatched while one that goes before it waits too.
pub proof fn lemma_dispatch_order(queue: Seq<DownloadTask>, k: int, other: int)
    requires
        forall|i: int, j: int|
            0 <= i < j < queue.len() ==> (#[trigger] queue[i]).id < (#[trigger] queue[j]).id,
        is_next(queue, k),
        0 <= other < queue.len(),
        other != k,
    ensures
        goes_before(queue[k], queue[other]),
        !goes_before(queue[other], queue[k]),
{
    if other < k {
        assert(queue[other].id < queue[k].id);
    } else {
        assert(queue[k].id < queue[other].id);
    }
}

/// Download manager.
pub struct DownloadManager {
    config: ManagerConfig,
    queue: Vec<DownloadTask>,
    statuses: Vec<DownloadStatus>,
    running: Vec<u64>,
    consumer_active: bool,
}

impl DownloadManager {
    /// The configuration.
    pub closed spec fn spec_config(&self) -> ManagerConfig {
        self.config
    }

    /// The waiting tasks, oldest first.
    pub closed spec fn spec_queue(&self) -> Seq<DownloadTask> {
        self.queue@
    }

    /// The status of every task, by id.
    pub closed spec fn spec_statuses(&self) -> Seq<DownloadStatus> {
        self.statuses@
    }

    /// The ids of the tasks in flight.
    pub closed spec fn spec_running(&self) -> Seq<u64> {
        self.running@
    }

    /// Whether a consumer loop is at work.
    pub closed spec fn spec_consumer_active(&self) -> bool {
        self.consumer_active
    }

    /// The id the next task gets.
    pub open spec fn spec_next_id(&self) -> nat {
        self.spec_statuses().len()
    }

    /// The state is consistent: ids in the queue grow, waiting tasks are exactly those
    /// with status `Queued`, tasks in flight exactly those with status `Downloading`,
    /// and no more are in flight than the configuration allows.
    pub open spec fn wf(&self) -> bool {
        let queue = self.spec_queue();
        let statuses = self.spec_statuses();
        let running = self.spec_running();
        &&& statuses.len() <= u64::MAX
        &&& forall|j: int|
            0 <= j < queue.len() ==> (#[trigger] queue[j]).id < statuses.len()
                && statuses[queue[j].id as int] is Queued
        &&& forall|j: int, k: int|
            0 <= j < k < queue.len() ==> (#[trigger] queue[j]).id < (#[trigger] queue[k]).id
        &&& forall|j: int|
            0 <= j < running.len() ==> (#[trigger] running[j]) < statuses.len()
                && statuses[running[j] as int] is Downloading
        &&& forall|j: int, k: int|
            0 <= j < k < running.len() ==> (#[trigger] running[j]) != (#[trigger] running[k])
        &&& forall|id: int|
            0 <= id < statuses.len() && (#[trigger] statuses[id]) is Queued ==> queued(
                queue,
                id as u64,
            )
        &&& forall|id: int|
            0 <= id < statuses.len() && (#[trigger] statuses[id]) is Downloading
                ==> running.contains(id as u64)
        &&& running.len() <= self.spec_config().max_concurrent_downloads
    }

    /// A manager with the default configuration.
    pub fn new() -> (r: DownloadManager)
        ensures
            r.wf(),
            r.spec_config() == (ManagerConfig {
                max_concurrent_downloads: 3,
                segment_size: 5242880,
                parallel_segments: 4,
                retry_attempts: 3,
                max_buffer_size: 10485760,
            }),
            r.spec_queue().len() == 0,
            r.spec_statuses().len() == 0,
            r.spec_running().len() == 0,
            !r.spec_consumer_active(),
    {
        Self::with_config(ManagerConfig::default())
    }

    /// A manager with the given configuration: no task, nothing in flight, no consumer.
    pub fn with_config(config: ManagerConfig) -> (r: DownloadManager)
        ensures
            r.wf(),
            r.spec_config() == config,
            r.spec_queue().len() == 0,
            r.spec_statuses().len() == 0,
            r.spec_running().len() == 0,
            !r.spec_consumer_active(),
    {
        DownloadManager {
            config,
            queue: Vec::new(),
            statuses: Vec::new(),
            running: Vec::new(),
            consumer_active: false,
        }
    }

    /// The configuration.
    pub fn config(&self) -> (r: ManagerConfig)
        ensures
            r == self.spec_config(),
    {
        self.config
    }

    /// Number of tasks ever enqueued.
    pub fn task_count(&self) -> (r: usize)
        ensures
            r == self.spec_next_id(),
    {
        self.statuses.len()
    }

    /// Number of tasks waiting.
    pub fn queue_len(&self) -> (r: usize)
        ensures
            r == self.spec_queue().len(),
    {
        self.queue.len()
    }

    /// Number of tasks in flight.
    pub fn running_len(&self) -> (r: usize)
        ensures
            r == self.spec_running().len(),
    {
        self.running.len()
    }

    fn push_task(
        &mut self,
        url: &str,
        destination: &str,
        priority: Option<DownloadPriority>,
        reports_progress: bool,
    ) -> (id: u64)
        requires
            old(self).wf(),
            old(self).spec_next_id() < usize::MAX,
        ensures
            final(self).wf(),
            id == old(self).spec_next_id(),
            final(self).spec_statuses() == old(self).spec_statuses().push(DownloadStatus::Queued),
            final(self).spec_queue().len() == old(self).spec_queue().len() + 1,
            final(self).spec_queue().drop_last() == old(self).spec_queue(),
            final(self).spec_queue().last().id == id,
            final(self).spec_queue().last().url@ == url@,
            final(self).spec_queue().last().destination@ == destination@,
            final(self).spec_queue().last().priority == match priority {
                Some(p) => p,
                None => DownloadPriority::Normal,
            },
            final(self).spec_queue().last().reports_progress == reports_progress,
            final(self).spec_running() == old(self).spec_running(),
            final(self).spec_config() == old(self).spec_config(),
            final(self).spec_consumer_active() == old(self).spec_consumer_active(),
    {
        let id = self.statuses.len() as u64;
        let task = DownloadTask {
            url: String::from_str(url),
            destination: String::from_str(destination),
            priority: match priority {
                Some(p) => p,
                None => DownloadPriority::Normal,
            },
            id,
            reports_progress,
        };
        let ghost old_queue = self.queue@;
        let ghost old_statuses = self.statuses@;
        self.queue.push(task);
        self.statuses.push(DownloadStatus::Queued);
        proof {
            assert(self.queue@.drop_last() =~= old_queue);
            let queue = self.queue@;
            let statuses = self.statuses@;
            assert forall|i: int|
                0 <= i < statuses.len() && (#[trigger] statuses[i]) is Queued implies queued(
                queue,
                i as u64,
            ) by {
                if i < old_statuses.len() {
                    assert(old_statuses[i] is Queued);
                    let j = choose|j: int|
                        0 <= j < old_queue.len() && (#[trigger] old_queue[j]).id == i as u64;
                    assert(queue[j].id == i as u64);
                } else {
                    assert(queue[queue.len() - 1].id == i as u64);
                }
            }
            assert forall|i: int|
                0 <= i < statuses.len() && (#[trigger] statuses[i])
                    is Downloading implies self.running@.contains(i as u64) by {
                assert(old_statuses[i] is Downloading);
            }
        }
        id
    }

    /// Adds a download to the queue and returns its id. Without a priority the task is `Normal`.
    pub fn enqueue(&mut self, url: &str, destination: &str, priority: Option<DownloadPriority>) -> (id:
        u64)
        requires
            old(self).wf(),
            old(self).spec_next_id() < usize::MAX,
        ensures
            final(self).wf(),
            id == old(self).spec_next_id(),
            final(self).spec_statuses() == old(self).spec_statuses().push(DownloadStatus::Queued),
            final(self).spec_queue().len() == old(self).spec_queue().len() + 1,
            final(self).spec_queue().drop_last() == old(self).spec_queue(),
            final(self).spec_queue().last().id == id,
            final(self).spec_queue().last().url@ == url@,
            final(self).spec_queue().last().destination@ == destination@,
            final(self).spec_queue().last().priority == match priority {
                Some(p) => p,
                None => DownloadPriority::Normal,
            },
            !final(self).spec_queue().last().reports_progress,
            final(self).spec_running() == old(self).spec_running(),
            final(self).spec_config() == old(self).spec_config(),
            final(self).spec_consumer_active() == old(self).spec_consumer_active(),
    {
        self.push_task(url, destination, priority, false)
    }

    /// Adds a download whose requester wants progress reports, and returns its id.
    pub fn enqueue_with_progress(
        &mut self,
        url: &str,
        destination: &str,
        priority: Option<DownloadPriority>,
    ) -> (id: u64)
        requires
            old(self).wf(),
            old(self).spec_next_id() < usize::MAX,
        ensures
            final(self).wf(),
            id == old(self).spec_next_id(),
            final(self).spec_statuses() == old(self).spec_statuses().push(DownloadStatus::Queued),
            final(self).spec_queue().len() == old(self).spec_queue().len() + 1,
            final(self).spec_queue().drop_last() == old(self).spec_queue(),
            final(self).spec_queue().last().id == id,
            final(self).spec_queue().last().url@ == url@,
            final(self).spec_queue().last().destination@ == destination@,
            final(self).spec_queue().last().priority == match priority {
                Some(p) => p,
                None => DownloadPriority::Normal,
            },
            final(self).spec_queue().last().reports_progress,
            final(self).spec_running() == old(self).spec_running(),
            final(self).spec_config() == old(self).spec_config(),
            final(self).spec_consumer_active() == old(self).spec_consumer_active(),
    {
        self.push_task(url, destination, priority, true)
    }

    /// The status of a download, or `None` if the id is unknown.
    pub fn get_status(&self, id: u64) -> (r: Option<DownloadStatus>)
        ensures
            id < self.spec_next_id() ==> r == Some(self.spec_statuses()[id as int]),
            id >= self.spec_next_id() ==> r.is_none(),
    {
        if id < self.statuses.len() as u64 {
            Some(self.statuses[id as usize].duplicate())
        } else {
            None
        }
    }

    fn slot(&self, id: u64) -> (r: usize)
        requires
            id < self.spec_statuses().len(),
        ensures
            r == id,
    {
        let n = self.statuses.len();
        assert(id < n);
        id as usize
    }

    fn find_queued(&self, id: u64) -> (r: Option<usize>)
        ensures
            match r {
                Some(k) => k < self.spec_queue().len() && self.spec_queue()[k as int].id == id,
                None => !queued(self.spec_queue(), id),
            },
    {
        let mut k: usize = 0;
        while k < self.queue.len()
            invariant
                k <= self.queue@.len(),
                forall|j: int| 0 <= j < k ==> self.queue@[j].id != id,
            decreases self.queue@.len() - k,
        {
            if self.queue[k].id == id {
                return Some(k);
            }
            k = k + 1;
        }
        None
    }

    fn find_running(&self, id: u64) -> (r: Option<usize>)
        ensures
            match r {
                Some(k) => k < self.spec_running().len() && self.spec_running()[k as int] == id,
                None => !self.spec_running().contains(id),
            },
    {
        let mut k: usize = 0;
        while k < self.running.len()
            invariant
                k <= self.running@.len(),
                forall|j: int| 0 <= j < k ==> self.running@[j] != id,
            decreases self.running@.len() - k,
        {
            if self.running[k] == id {
                return Some(k);
            }
            k = k + 1;
        }
        None
    }

    fn next_index(&self) -> (k: usize)
        requires
            self.spec_queue().len() > 0,
        ensures
            is_next(self.spec_queue(), k as int),
    {
        let mut best: usize = 0;
        let mut k: usize = 1;
        while k < self.queue.len()
            invariant
                1 <= k <= self.queue@.len(),
                best < k,
                forall|j: int|
                    0 <= j < k ==> self.queue@[j].priority.rank()
                        <= self.queue@[best as int].priority.rank(),
                forall|j: int|
                    0 <= j < best ==> self.queue@[j].priority.rank()
                        < self.queue@[best as int].priority.rank(),
            decreases self.queue@.len() - k,
        {
            if self.queue[k].priority.level() > self.queue[best].priority.level() {
                best = k;
            }
            k = k + 1;
        }
        best
    }

    /// Whether the task is in flight.
    pub fn is_running(&self, id: u64) -> (r: bool)
        ensures
            r == self.spec_running().contains(id),
    {
        self.find_running(id).is_some()
    }

    /// Takes the role of the consumer loop if nobody has it. Returns whether the caller
    /// is now the consumer: at most one is at work at any time.
    pub fn claim_consumer(&mut self) -> (claimed: bool)
        ensures
            claimed == !old(self).spec_consumer_active(),
            final(self).spec_consumer_active(),
            final(self).spec_config() == old(self).spec_config(),
            final(self).spec_queue() == old(self).spec_queue(),
            final(self).spec_statuses() == old(self).spec_statuses(),
            final(self).spec_running() == old(self).spec_running(),
    {
        let claimed = !self.consumer_active;
        self.consumer_active = true;
        claimed
    }

    /// Picks what the consumer does next.
    ///
    /// With a free slot and a waiting task, the task with the highest priority starts,
    /// the oldest among equals: it leaves the queue, is in flight and has status
    /// `Downloading` with nothing downloaded. With an empty queue the consumer stops.
    /// Tasks in flight are never displaced.
    pub fn dispatch_next(&mut self) -> (r: Dispatch)
        requires
            old(self).wf(),
        ensures
            final(self).wf(),
            final(self).spec_config() == old(self).spec_config(),
            final(self).spec_statuses().len() == old(self).spec_statuses().len(),
            terminal_kept(old(self).spec_statuses(), final(self).spec_statuses()),
            old(self).spec_queue().len() == 0 ==> r is Idle && !final(self).spec_consumer_active()
                && final(self).spec_queue() == old(self).spec_queue() && final(self).spec_statuses()
                == old(self).spec_statuses() && final(self).spec_running() == old(self).spec_running(),
            old(self).spec_queue().len() > 0 && old(self).spec_running().len() >= old(self).spec_config().max_concurrent_downloads ==> r is Busy && final(self).spec_queue()
                == old(self).spec_queue() && final(self).spec_statuses() == old(self).spec_statuses() && final(self).spec_running() == old(self).spec_running()
                && final(self).spec_consumer_active() == old(self).spec_consumer_active(),
            old(self).spec_queue().len() > 0 && old(self).spec_running().len() < old(self).spec_config().max_concurrent_downloads ==> (r matches Dispatch::Start(task) && exists|
                k: int,
            |
                #![trigger old(self).spec_queue()[k]]
                {
                    &&& is_next(old(self).spec_queue(), k)
                    &&& task == old(self).spec_queue()[k]
                    &&& final(self).spec_queue() == old(self).spec_queue().remove(k)
                    &&& final(self).spec_running() == old(self).spec_running().push(task.id)
                    &&& final(self).spec_statuses() == old(self).spec_statuses().update(
                        task.id as int,
                        DownloadStatus::Downloading { downloaded_bytes: 0, total_bytes: 0 },
                    )
                    &&& final(self).spec_consumer_active() == old(self).spec_consumer_active()
                }),
    {
        if self.queue.len() == 0 {
            self.consumer_active = false;
            return Dispatch::Idle;
        }
        if self.running.len() >= self.config.max_concurrent_downloads {
            return Dispatch::Busy;
        }
        let k = self.next_index();
        let ghost old_queue = self.queue@;
        let ghost old_statuses = self.statuses@;
        let ghost old_running = self.running@;
        let task = self.queue.remove(k);
        let id = task.id;
        assert(task == old_queue[k as int]);
        assert(id < old_statuses.len() && old_statuses[id as int] is Queued);
        let at = self.slot(id);
        self.statuses.set(at, DownloadStatus::Downloading { downloaded_bytes: 0, total_bytes: 0 });
        self.running.push(id);
        proof {
            let queue = self.queue@;
            let statuses = self.statuses@;
            let running = self.running@;
            assert(task == old_queue[k as int]);
            assert forall|j: int| 0 <= j < queue.len() implies (#[trigger] queue[j]).id
                < statuses.len() && statuses[queue[j].id as int] is Queued by {
                let m = if j < k {
                    j
                } else {
                    j + 1
                };
                assert(queue[j] == old_queue[m]);
                assert(old_queue[m].id != old_queue[k as int].id);
            }
            assert forall|i: int, j: int| 0 <= i < j < queue.len() implies (#[trigger] queue[i]).id
                < (#[trigger] queue[j]).id by {
                let mi = if i < k {
                    i
                } else {
                    i + 1
                };
                let mj = if j < k {
                    j
                } else {
                    j + 1
                };
                assert(queue[i] == old_queue[mi]);
                assert(queue[j] == old_queue[mj]);
            }
            assert forall|j: int| 0 <= j < running.len() implies (#[trigger] running[j])
                < statuses.len() && statuses[running[j] as int] is Downloading by {
                if j < old_running.len() {
                    assert(running[j] == old_running[j]);
                }
            }
            assert forall|i: int, j: int| 0 <= i < j < running.len() implies (#[trigger] running[i])
                != (#[trigger] running[j]) by {
                if j == old_running.len() {
                    assert(running[i] == old_running[i]);
                    assert(old_statuses[old_running[i] as int] is Downloading);
                    assert(old_statuses[id as int] is Queued);
                }
            }
            assert forall|i: int|
                0 <= i < statuses.len() && (#[trigger] statuses[i]) is Queued implies queued(
                queue,
                i as u64,
            ) by {
                assert(old_statuses[i] is Queued);
                let j = choose|j: int|
                    0 <= j < old_queue.len() && (#[trigger] old_queue[j]).id == i as u64;
                assert(j != k);
                let m = if j < k {
                    j
                } else {
                    j - 1
                };
                assert(queue[m] == old_queue[j]);
            }
            assert forall|i: int|
                0 <= i < statuses.len() && (#[trigger] statuses[i])
                    is Downloading implies running.contains(i as u64) by {
                if i == id as int {
                    assert(running[running.len() - 1] == id);
                } else {
                    assert(old_statuses[i] is Downloading);
                    let j = choose|j: int| 0 <= j < old_running.len() && old_running[j] == i as u64;
                    assert(running[j] == i as u64);
                }
            }
        }
        Dispatch::Start(task)
    }

    /// Records a progress tick of a task in flight. Returns whether the tick counts:
    /// a task that is not in flight keeps its status, and its requester hears nothing.
    pub fn report_progress(&mut self, id: u64, downloaded: u64, total: u64) -> (live: bool)
        requires
            old(self).wf(),
        ensures
            final(self).wf(),
            live == old(self).spec_running().contains(id),
            terminal_kept(old(self).spec_statuses(), final(self).spec_statuses()),
            final(self).spec_config() == old(self).spec_config(),
            final(self).spec_queue() == old(self).spec_queue(),
            final(self).spec_running() == old(self).spec_running(),
            final(self).spec_consumer_active() == old(self).spec_consumer_active(),
            live ==> final(self).spec_statuses() == old(self).spec_statuses().update(
                id as int,
                DownloadStatus::Downloading { downloaded_bytes: downloaded, total_bytes: total },
            ),
            !live ==> final(self).spec_statuses() == old(self).spec_statuses(),
    {
        match self.find_running(id) {
            None => false,
            Some(k) => {
                let ghost old_statuses = self.statuses@;
                assert(self.running@[k as int] == id);
                assert(id < old_statuses.len() && old_statuses[id as int] is Downloading);
                let at = self.slot(id);
                self.statuses.set(
                    at,
                    DownloadStatus::Downloading { downloaded_bytes: downloaded, total_bytes: total },
                );
                proof {
                    let statuses = self.statuses@;
                    assert forall|i: int|
                        0 <= i < statuses.len() && (#[trigger] statuses[i])
                            is Queued implies queued(self.queue@, i as u64) by {
                        assert(old_statuses[i] is Queued);
                    }
                    assert forall|i: int|
                        0 <= i < statuses.len() && (#[trigger] statuses[i])
                            is Downloading implies self.running@.contains(i as u64) by {
                        if i != id as int {
                            assert(old_statuses[i] is Downloading);
                        }
                    }
                }
                true
            },
        }
    }

    fn settle(&mut self, k: usize, status: DownloadStatus)
        requires
            old(self).wf(),
            k < old(self).spec_running().len(),
            status.is_terminal(),
        ensures
            final(self).wf(),
            final(self).spec_config() == old(self).spec_config(),
            final(self).spec_queue() == old(self).spec_queue(),
            final(self).spec_consumer_active() == old(self).spec_consumer_active(),
            final(self).spec_running() == old(self).spec_running().remove(k as int),
            final(self).spec_statuses() == old(self).spec_statuses().update(
                old(self).spec_running()[k as int] as int,
                status,
            ),
            !final(self).spec_running().contains(old(self).spec_running()[k as int]),
            terminal_kept(old(self).spec_statuses(), final(self).spec_statuses()),
    {
        let ghost old_statuses = self.statuses@;
        let ghost old_running = self.running@;
        let id = self.running.remove(k);
        assert(id == old_running[k as int]);
        assert(id < old_statuses.len() && old_statuses[id as int] is Downloading);
        let at = self.slot(id);
        self.statuses.set(at, status);
        proof {
            let statuses = self.statuses@;
            let running = self.running@;
            assert forall|j: int| 0 <= j < running.len() implies (#[trigger] running[j])
                < statuses.len() && statuses[running[j] as int] is Downloading by {
                let m = if j < k {
                    j
                } else {
                    j + 1
                };
                assert(running[j] == old_running[m]);
                assert(old_running[m] != old_running[k as int]);
            }
            assert forall|i: int, j: int| 0 <= i < j < running.len() implies (#[trigger] running[i])
                != (#[trigger] running[j]) by {
                let mi = if i < k {
                    i
                } else {
                    i + 1
                };
                let mj = if j < k {
                    j
                } else {
                    j + 1
                };
                assert(running[i] == old_running[mi]);
                assert(running[j] == old_running[mj]);
            }
            assert forall|i: int|
                0 <= i < statuses.len() && (#[trigger] statuses[i]) is Queued implies queued(
                self.queue@,
                i as u64,
            ) by {
                assert(old_statuses[i] is Queued);
            }
            assert forall|i: int|
                0 <= i < statuses.len() && (#[trigger] statuses[i])
                    is Downloading implies running.contains(i as u64) by {
                assert(old_statuses[i] is Downloading);
                let j = choose|j: int| 0 <= j < old_running.len() && old_running[j] == i as u64;
                assert(j != k);
                let m = if j < k {
                    j
                } else {
                    j - 1
                };
                assert(running[m] == i as u64);
            }
            if running.contains(id) {
                let m = choose|m: int| 0 <= m < running.len() && running[m] == id;
                assert(statuses[running[m] as int] is Downloading);
            }
        }
    }

    /// Records the end of a transfer: `Completed` on success, `Failed` with the error's
    /// text otherwise. The task leaves the set in flight and frees its slot. Returns
    /// whether the result counts: the status of a task that is not in flight, such as a
    /// canceled one, stays as it is.
    pub fn finish(&mut self, id: u64, result: Result<(), Error>) -> (live: bool)
        requires
            old(self).wf(),
        ensures
            final(self).wf(),
            live == old(self).spec_running().contains(id),
            terminal_kept(old(self).spec_statuses(), final(self).spec_statuses()),
            !final(self).spec_running().contains(id),
            final(self).spec_config() == old(self).spec_config(),
            final(self).spec_queue() == old(self).spec_queue(),
            final(self).spec_consumer_active() == old(self).spec_consumer_active(),
            !live ==> final(self).spec_statuses() == old(self).spec_statuses() && final(self).spec_running() == old(self).spec_running(),
            live ==> final(self).spec_running() == old(self).spec_running().remove(
                old(self).spec_running().index_of(id),
            ),
            live ==> final(self).spec_statuses().len() == old(self).spec_statuses().len() && (forall|
                i: int,
            |
                0 <= i < old(self).spec_statuses().len() && i != id ==> final(self).spec_statuses()[i] == old(self).spec_statuses()[i]),
            live ==> match result {
                Ok(_) => final(self).spec_statuses()[id as int] is Completed,
                Err(e) => final(self).spec_statuses()[id as int] matches DownloadStatus::Failed {
                    reason,
                } && reason@ == e.spec_message(),
            },
    {
        match self.find_running(id) {
            None => false,
            Some(k) => {
                let status = match &result {
                    Ok(_) => DownloadStatus::Completed,
                    Err(e) => DownloadStatus::Failed { reason: e.message() },
                };
                proof {
                    let running = self.running@;
                    let w = running.index_of(id);
                    assert(running.contains(id));
                    assert(0 <= w < running.len() && running[w] == id);
                    if w != k as int {
                        if w < k {
                            assert(running[w] != running[k as int]);
                        } else {
                            assert(running[k as int] != running[w]);
                        }
                    }
                }
                self.settle(k, status);
                true
            },
        }
    }

    /// Cancels a download. A task in flight is marked `Canceled` and leaves the set in
    /// flight (its transfer is then to be aborted); a waiting task leaves the queue and
    /// is marked `Canceled`. Returns `false`, and changes nothing, for an unknown id
    /// and for a task that has already ended.
    pub fn cancel(&mut self, id: u64) -> (canceled: bool)
        requires
            old(self).wf(),
        ensures
            final(self).wf(),
            canceled == (id < old(self).spec_next_id() && !old(self).spec_statuses()[id as int].is_terminal()),
            terminal_kept(old(self).spec_statuses(), final(self).spec_statuses()),
            !final(self).spec_running().contains(id),
            !queued(final(self).spec_queue(), id),
            final(self).spec_config() == old(self).spec_config(),
            final(self).spec_consumer_active() == old(self).spec_consumer_active(),
            !canceled ==> final(self).spec_statuses() == old(self).spec_statuses() && final(self).spec_running() == old(self).spec_running() && final(self).spec_queue() == old(self).spec_queue(),
            canceled ==> final(self).spec_statuses() == old(self).spec_statuses().update(
                id as int,
                DownloadStatus::Canceled,
            ),
            canceled && old(self).spec_running().contains(id) ==> final(self).spec_queue() == old(self).spec_queue() && final(self).spec_running() == old(self).spec_running().remove(
                old(self).spec_running().index_of(id),
            ),
            canceled && !old(self).spec_running().contains(id) ==> final(self).spec_running()
                == old(self).spec_running() && exists|k: int|
                #![trigger old(self).spec_queue()[k]]
                0 <= k < old(self).spec_queue().len() && old(self).spec_queue()[k].id == id
                    && final(self).spec_queue() == old(self).spec_queue().remove(k),
    {
        match self.find_running(id) {
            Some(k) => {
                proof {
                    let running = self.running@;
                    let w = running.index_of(id);
                    assert(running.contains(id));
                    assert(0 <= w < running.len() && running[w] == id);
                    if w != k as int {
                        if w < k {
                            assert(running[w] != running[k as int]);
                        } else {
                            assert(running[k as int] != running[w]);
                        }
                    }
                }
                self.settle(k, DownloadStatus::Canceled);
                return true;
            },
            None => {},
        }
        match self.find_queued(id) {
            None => {
                proof {
                    if id < self.statuses@.len() {
                        let st = self.statuses@[id as int];
                        if st is Queued {
                            assert(queued(self.queue@, id));
                        }
                        if st is Downloading {
                            assert(self.running@.contains(id));
                        }
                    }
                }
                false
            },
            Some(k) => {
                let ghost old_queue = self.queue@;
                let ghost old_statuses = self.statuses@;
                let task = self.queue.remove(k);
                assert(task == old_queue[k as int]);
                assert(id < old_statuses.len() && old_statuses[id as int] is Queued);
                let at = self.slot(id);
                self.statuses.set(at, DownloadStatus::Canceled);
                proof {
                    let queue = self.queue@;
                    let statuses = self.statuses@;
                    let running = self.running@;
                    assert forall|j: int| 0 <= j < queue.len() implies (#[trigger] queue[j]).id
                        < statuses.len() && statuses[queue[j].id as int] is Queued by {
                        let m = if j < k {
                            j
                        } else {
                            j + 1
                        };
                        assert(queue[j] == old_queue[m]);
                        assert(old_queue[m].id != old_queue[k as int].id);
                    }
                    assert forall|i: int, j: int| 0 <= i < j < queue.len() implies (
                    #[trigger] queue[i]).id < (#[trigger] queue[j]).id by {
                        let mi = if i < k {
                            i
                        } else {
                            i + 1
                        };
                        let mj = if j < k {
                            j
                        } else {
                            j + 1
                        };
                        assert(queue[i] == old_queue[mi]);
                        assert(queue[j] == old_queue[mj]);
                    }
                    assert forall|j: int| 0 <= j < running.len() implies (#[trigger] running[j])
                        < statuses.len() && statuses[running[j] as int] is Downloading by {
                        assert(old_statuses[running[j] as int] is Downloading);
                        assert(old_statuses[id as int] is Queued);
                    }
                    assert forall|i: int|
                        0 <= i < statuses.len() && (#[trigger] statuses[i])
                            is Queued implies queued(queue, i as u64) by {
                        assert(old_statuses[i] is Queued);
                        let j = choose|j: int|
                            0 <= j < old_queue.len() && (#[trigger] old_queue[j]).id == i as u64;
                        assert(j != k);
                        let m = if j < k {
                            j
                        } else {
                            j - 1
                        };
                        assert(queue[m] == old_queue[j]);
                    }
                    assert forall|i: int|
                        0 <= i < statuses.len() && (#[trigger] statuses[i])
                            is Downloading implies running.contains(i as u64) by {
                        assert(old_statuses[i] is Downloading);
                    }
                    assert(old_queue[k as int].id == id);
                }
                true
            },
        }
    }

    /// What a waiter for task `id` does next: give up on an unknown id, take the status
    /// of a finished task, or look again after the poll interval.
    pub fn poll_completion(&self, id: u64) -> (r: WaitStep)
        ensures
            id >= self.spec_next_id() ==> r is Unknown,
            id < self.spec_next_id() && self.spec_statuses()[id as int].is_terminal() ==> r
                == WaitStep::Done(self.spec_statuses()[id as int]),
            id < self.spec_next_id() && !self.spec_statuses()[id as int].is_terminal() ==> r
                == (WaitStep::Wait { millis: POLL_INTERVAL_MS }),
    {
        match self.get_status(id) {
            None => WaitStep::Unknown,
            Some(status) => {
                if status.terminal() {
                    WaitStep::Done(status)
                } else {
                    WaitStep::Wait { millis: POLL_INTERVAL_MS }
                }
            },
        }
    }

    /// The fetcher that transfers `task` under this manager's configuration.
    pub fn fetcher_for(&self, task: &DownloadTask) -> (r: Fetcher)
        ensures
            r.spec_url() == task.url@,
            r.spec_segment_size() == self.spec_config().segment_size,
            r.spec_parallel_segments() == self.spec_config().parallel_segments,
            r.spec_retry_attempts() == self.spec_config().retry_attempts,
    {
        Fetcher::new(task.url.as_str()).with_segment_size(
            self.config.segment_size,
        ).with_parallel_segments(self.config.parallel_segments).with_retry_attempts(
            self.config.retry_attempts,
        )
    }
}

} // verus!
