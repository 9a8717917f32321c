//! Cluster mode: worker configuration, per-worker state and restart limits,
//! and the manager that tracks the workers.
use vstd::prelude::*;
use vstd::string::*;
use crate::text::append_u64;
use crate::time::Duration;

verus! {

/// The system's monotonic clock reading, `std::time::Instant`.
#[verifier::external_type_specification]
#[verifier::external_body]
pub struct ExInstant(std::time::Instant);

/// `std::time::Instant::now()`.  Nothing is promised of it: it is the clock.
#[verifier::external_body]
pub(crate) fn instant_now() -> std::time::Instant {
    std::time::Instant::now()
}

/// `Instant::elapsed`, in nanoseconds (`Duration::as_nanos`).  Nothing is
/// promised of it: it is the clock.
#[verifier::external_body]
pub(crate) fn elapsed_nanos(since: &std::time::Instant) -> u128 {
    since.elapsed().as_nanos()
}

/// `num_cpus::get()`: the number of logical CPUs available, at least 1 as the
/// crate documents.
#[verifier::external_body]
pub(crate) fn cpu_count() -> (res: usize)
    ensures
        res >= 1,
{
    num_cpus::get()
}

// ============================================================================
// Configuration
// ============================================================================

/// Cluster mode configuration.
pub struct ClusterConfig {
    /// Number of worker processes
    pub workers: usize,
    /// Enable CPU affinity (pin workers to cores)
    pub cpu_affinity: bool,
    /// Worker restart delay
    pub restart_delay: Duration,
    /// Maximum restart attempts per worker
    pub max_restarts: u32,
    /// Restart window (reset restart count after this duration)
    pub restart_window: Duration,
    /// Enable graceful worker shutdown
    pub graceful_shutdown: bool,
    /// Worker shutdown timeout
    pub shutdown_timeout: Duration,
}

impl ClusterConfig {
    /// Everything but the worker count at its default: no affinity, 1 s restart
    /// delay, 5 restarts per 60 s window, graceful shutdown within 30 s.
    pub open spec fn defaults_besides_workers(&self) -> bool {
        &&& !self.cpu_affinity
        &&& self.restart_delay.secs == 1
        &&& self.max_restarts == 5
        &&& self.restart_window.secs == 60
        &&& self.graceful_shutdown
        &&& self.shutdown_timeout.secs == 30
    }

    /// A configuration with `workers` workers.
    pub fn new(workers: usize) -> (res: Self)
        ensures
            res.workers == workers,
            res.defaults_besides_workers(),
    {
        ClusterConfig {
            workers,
            cpu_affinity: false,
            restart_delay: Duration::from_secs(1),
            max_restarts: 5,
            restart_window: Duration::from_secs(60),
            graceful_shutdown: true,
            shutdown_timeout: Duration::from_secs(30),
        }
    }

    /// One worker per available CPU.
    pub fn auto() -> (res: Self)
        ensures
            res.workers >= 1,
            res.defaults_besides_workers(),
    {
        Self::new(cpu_count())
    }

    /// Enable CPU affinity: each worker is pinned to a core (where the
    /// platform can pin processes; elsewhere nothing is pinned).
    pub fn with_cpu_affinity(self) -> (res: Self)
        ensures
            res == (ClusterConfig { cpu_affinity: true, ..self }),
    {
        let mut c = self;
        c.cpu_affinity = true;
        c
    }

    /// Set the restart delay.
    pub fn restart_delay(self, delay: Duration) -> (res: Self)
        ensures
            res == (ClusterConfig { restart_delay: delay, ..self }),
    {
        let mut c = self;
        c.restart_delay = delay;
        c
    }

    /// Set the maximum number of restarts per window.
    pub fn max_restarts(self, max: u32) -> (res: Self)
        ensures
            res == (ClusterConfig { max_restarts: max, ..self }),
    {
        let mut c = self;
        c.max_restarts = max;
        c
    }

    /// Set the shutdown timeout.
    pub fn shutdown_timeout(self, timeout: Duration) -> (res: Self)
        ensures
            res == (ClusterConfig { shutdown_timeout: timeout, ..self }),
    {
        let mut c = self;
        c.shutdown_timeout = timeout;
        c
    }

    /// The default configuration: one worker per CPU.
    pub fn default() -> (res: Self)
        ensures
            res.workers >= 1,
            res.defaults_besides_workers(),
    {
        Self::auto()
    }
}

// ============================================================================
// Workers
// ============================================================================

/// State of a worker process.
#[derive(Clone, Copy, Debug, PartialEq, Eq, Structural)]
pub enum WorkerState {
    /// Worker is starting
    Starting,
    /// Worker is running
    Running,
    /// Worker is stopping
    Stopping,
    /// Worker has stopped
    Stopped,
    /// Worker has crashed
    Crashed,
}

/// Information about a worker process.
pub struct WorkerInfo {
    /// Worker ID
    pub id: u32,
    /// Process ID (if running)
    pub pid: Option<u32>,
    /// Current state
    pub state: WorkerState,
    /// Number of restarts
    pub restarts: u32,
    /// Last restart time
    pub last_restart: Option<std::time::Instant>,
    /// Assigned CPU core (if CPU affinity enabled)
    pub cpu_core: Option<usize>,
}

/// Whether a time of `n` nanoseconds is longer than a duration, compared as
/// durations compare: by whole seconds, then by the nanoseconds past them.
pub open spec fn longer_than(n: u128, d: Duration) -> bool {
    let secs = n as int / 1_000_000_000;
    let nanos = n as int % 1_000_000_000;
    secs > d.secs || (secs == d.secs && nanos > d.nanos)
}

/// Whether a worker may restart: below the limit, or at it with the window
/// since its last restart (`elapsed_nanos`, when it has restarted) passed.
pub open spec fn restart_allowed(restarts: u32, max_restarts: u32, elapsed_nanos: Option<u128>, window: Duration) -> bool {
    if restarts < max_restarts {
        true
    } else {
        match elapsed_nanos {
            Some(n) => longer_than(n, window),
            None => false,
        }
    }
}

impl WorkerInfo {
    /// A new worker: starting, no process, no restarts, no core.
    pub fn new(id: u32) -> (res: Self)
        ensures
            res.id == id,
            res.pid is None,
            res.state == WorkerState::Starting,
            res.restarts == 0,
            res.last_restart is None,
            res.cpu_core is None,
    {
        WorkerInfo { id, pid: None, state: WorkerState::Starting, restarts: 0, last_restart: None, cpu_core: None }
    }

    /// Whether a worker may restart, given how long ago it last restarted.
    pub fn restart_allowed_after(&self, config: &ClusterConfig, elapsed: Option<u128>) -> (res: bool)
        ensures
            res == restart_allowed(self.restarts, config.max_restarts, elapsed, config.restart_window),
    {
        if self.restarts < config.max_restarts {
            return true;
        }
        match elapsed {
            Some(n) => {
                let secs = n / 1_000_000_000u128;
                let nanos = n % 1_000_000_000u128;
                let w = config.restart_window;
                secs > w.secs as u128 || (secs == w.secs as u128 && nanos > w.nanos as u128)
            },
            None => false,
        }
    }

    /// Whether the worker may restart now.
    pub fn can_restart(&self, config: &ClusterConfig) -> (res: bool)
        ensures
            self.restarts < config.max_restarts ==> res,
            self.restarts >= config.max_restarts && self.last_restart is None ==> !res,
    {
        let elapsed = match &self.last_restart {
            Some(last) => Some(elapsed_nanos(last)),
            None => None,
        };
        self.restart_allowed_after(config, elapsed)
    }
}

// ============================================================================
// Manager
// ============================================================================

/// Cluster statistics.
#[derive(Clone, Copy, Debug, PartialEq, Eq, Structural)]
pub struct ClusterStats {
    pub total_workers: usize,
    pub running_workers: usize,
    pub crashed_workers: usize,
    pub total_restarts: u32,
    pub is_running: bool,
}

/// Cluster errors.
#[derive(Debug)]
pub enum ClusterError {
    /// Cluster is already running
    AlreadyRunning,
    /// Cluster is not running
    NotRunning,
    /// Worker not found
    WorkerNotFound(u32),
    /// Max restarts exceeded
    MaxRestartsExceeded(u32),
    /// Worker process spawn failed
    SpawnFailed(String),
    /// Signal failed
    SignalFailed(String),
}

impl ClusterError {
    /// The error message.
    pub open spec fn spec_message(&self) -> Seq<char> {
        match self {
            ClusterError::AlreadyRunning => "Cluster is already running"@,
            ClusterError::NotRunning => "Cluster is not running"@,
            ClusterError::WorkerNotFound(id) => "Worker "@ + crate::text::dec(*id as nat) + " not found"@,
            ClusterError::MaxRestartsExceeded(id) => "Maximum restarts exceeded for worker "@ + crate::text::dec(*id as nat),
            ClusterError::SpawnFailed(e) => "Worker spawn failed: "@ + e@,
            ClusterError::SignalFailed(e) => "Signal failed: "@ + e@,
        }
    }

    /// The error message.
    pub fn to_string(&self) -> (res: String)
        ensures
            res@ == self.spec_message(),
    {
        match self {
            ClusterError::AlreadyRunning => String::from_str("Cluster is already running"),
            ClusterError::NotRunning => String::from_str("Cluster is not running"),
            ClusterError::WorkerNotFound(id) => {
                let mut s = String::from_str("Worker ");
                append_u64(&mut s, *id as u64);
                s.append(" not found");
                s
            },
            ClusterError::MaxRestartsExceeded(id) => {
                let mut s = String::from_str("Maximum restarts exceeded for worker ");
                append_u64(&mut s, *id as u64);
                s
            },
            ClusterError::SpawnFailed(e) => {
                let mut s = String::from_str("Worker spawn failed: ");
                s.append(e.as_str());
                s
            },
            ClusterError::SignalFailed(e) => {
                let mut s = String::from_str("Signal failed: ");
                s.append(e.as_str());
                s
            },
        }
    }
}

/// Messages between the master and its workers.
#[derive(Debug)]
pub enum ClusterMessage {
    WorkerStarted { worker_id: u32, pid: u32 },
    WorkerReady { worker_id: u32 },
    WorkerStopping { worker_id: u32 },
    WorkerStopped { worker_id: u32, exit_code: i32 },
    WorkerCrashed { worker_id: u32, error: String },
    Shutdown,
    Reload,
    HealthCheck,
    HealthResponse { worker_id: u32, healthy: bool },
}

/// The number of workers in state `s`.
pub open spec fn count_state(ws: Seq<WorkerInfo>, s: WorkerState) -> nat
    decreases ws.len(),
{
    if ws.len() == 0 {
        0
    } else {
        count_state(ws.drop_last(), s) + if ws.last().state == s { 1nat } else { 0nat }
    }
}

/// The restarts of all workers, summed modulo 2^32.
pub open spec fn restart_sum(ws: Seq<WorkerInfo>) -> u32
    decreases ws.len(),
{
    if ws.len() == 0 {
        0
    } else {
        restart_sum(ws.drop_last()).wrapping_add(ws.last().restarts)
    }
}

/// Manages the cluster's workers.
pub struct ClusterManager {
    pub config: ClusterConfig,
    pub workers: Vec<WorkerInfo>,
    pub next_worker_id: u32,
    pub running: bool,
    pub is_master: bool,
}

impl ClusterManager {
    /// No worker id occurs twice.
    pub open spec fn wf(&self) -> bool {
        forall|i: int, j: int| 0 <= i < j < self.workers@.len() ==> self.workers@[i].id != self.workers@[j].id
    }

    /// The index of the worker with id `id`.
    pub open spec fn index_of(&self, id: u32) -> Option<int> {
        if exists|i: int| 0 <= i < self.workers@.len() && self.workers@[i].id == id {
            Some(choose|i: int| 0 <= i < self.workers@.len() && self.workers@[i].id == id)
        } else {
            None
        }
    }

    /// A stopped master with no workers.
    pub fn new(config: ClusterConfig) -> (res: Self)
        ensures
            res.wf(),
            res.config == config,
            res.workers@.len() == 0,
            res.next_worker_id == 0,
            !res.running,
            res.is_master,
    {
        ClusterManager { config, workers: Vec::new(), next_worker_id: 0, running: false, is_master: true }
    }

    /// Whether this is the master process.
    pub fn is_master(&self) -> (res: bool)
        ensures
            res == self.is_master,
    {
        self.is_master
    }

    /// Whether the cluster is running.
    pub fn is_running(&self) -> (res: bool)
        ensures
            res == self.running,
    {
        self.running
    }

    /// The configured number of workers.
    pub fn worker_count(&self) -> (res: usize)
        ensures
            res == self.config.workers,
    {
        self.config.workers
    }

    /// All workers, in the order they were started.
    pub fn workers(&self) -> (res: &[WorkerInfo])
        ensures
            res@ == self.workers@,
    {
        self.workers.as_slice()
    }

    /// The worker with id `id`, if there is one.
    pub fn get_worker(&self, id: u32) -> (res: Option<&WorkerInfo>)
        requires
            self.wf(),
        ensures
            match self.index_of(id) {
                Some(i) => res matches Some(w) && *w == self.workers@[i],
                None => res is None,
            },
    {
        match self.find(id) {
            Some(i) => Some(&self.workers[i]),
            None => None,
        }
    }

    /// Find the index of worker `id`.
    fn find(&self, id: u32) -> (res: Option<usize>)
        requires
            self.wf(),
        ensures
            res matches Some(i) ==> i < self.workers@.len() && self.workers@[i as int].id == id && self.index_of(id) == Some(i as int),
            res is None ==> self.index_of(id) is None,
    {
        let mut i: usize = 0;
        while i < self.workers.len()
            invariant
                self.wf(),
                i <= self.workers@.len(),
                forall|j: int| 0 <= j < i ==> self.workers@[j].id != id,
            decreases self.workers.len() - i,
        {
            if self.workers[i].id == id {
                proof {
                    let c = choose|c: int| 0 <= c < self.workers@.len() && self.workers@[c].id == id;
                    assert(c == i as int) by {
                        if c != i as int {
                            if c < i as int {
                            } else {
                                assert(self.workers@[i as int].id != self.workers@[c].id);
                            }
                        }
                    }
                }
                return Some(i);
            }
            i = i + 1;
        }
        None
    }

    /// The ids and process ids of the workers that have one, in order.
    pub fn worker_pids(&self) -> (res: Vec<u32>)
        ensures
            res@ == self.workers@.filter(|w: WorkerInfo| w.pid is Some).map_values(|w: WorkerInfo| w.pid->0),
    {
        let mut out: Vec<u32> = Vec::new();
        let mut i: usize = 0;
        let ghost ws = self.workers@;
        assert(ws.subrange(0, 0).filter(|w: WorkerInfo| w.pid is Some) =~= Seq::<WorkerInfo>::empty()) by {
            reveal(Seq::filter);
        }
        while i < self.workers.len()
            invariant
                ws == self.workers@,
                i <= ws.len(),
                out@ == ws.subrange(0, i as int).filter(|w: WorkerInfo| w.pid is Some).map_values(|w: WorkerInfo| w.pid->0),
            decreases self.workers.len() - i,
        {
            proof {
                reveal(Seq::filter);
                assert(ws.subrange(0, i as int + 1).drop_last() =~= ws.subrange(0, i as int));
            }
            match self.workers[i].pid {
                Some(p) => {
                    out.push(p);
                    assert(out@ =~= ws.subrange(0, i as int + 1).filter(|w: WorkerInfo| w.pid is Some).map_values(|w: WorkerInfo| w.pid->0));
                },
                None => {
                    assert(out@ =~= ws.subrange(0, i as int + 1).filter(|w: WorkerInfo| w.pid is Some).map_values(|w: WorkerInfo| w.pid->0));
                },
            }
            i = i + 1;
        }
        assert(ws.subrange(0, ws.len() as int) =~= ws);
        out
    }

    /// Start the cluster: one worker record per configured worker, with fresh
    /// ids, and a core each when affinity is on.
    pub fn start(&mut self) -> (res: Result<(), ClusterError>)
        requires
            old(self).wf(),
            old(self).workers@.len() + old(self).config.workers <= usize::MAX,
        ensures
            final(self).wf(),
            old(self).running ==> (res matches Err(ClusterError::AlreadyRunning) && *final(self) == *old(self)),
            !old(self).running ==> res is Ok && final(self).running
                && final(self).next_worker_id == (old(self).next_worker_id as nat + old(self).config.workers) % 0x1_0000_0000
                && forall|k: nat| k < old(self).config.workers ==> #[trigger] final(self).index_of(
                    ((old(self).next_worker_id as nat + k) % 0x1_0000_0000) as u32) is Some,
    {
        if self.running {
            return Err(ClusterError::AlreadyRunning);
        }
        self.running = true;
        let cores = if self.config.cpu_affinity { cpu_count() } else { 1 };
        let ghost start_id = self.next_worker_id;
        let mut i: usize = 0;
        while i < self.config.workers
            invariant
                self.wf(),
                self.running,
                i <= self.config.workers,
                self.workers@.len() <= old(self).workers@.len() + i,
                old(self).workers@.len() + self.config.workers <= usize::MAX,
                cores >= 1,
                self.config == old(self).config,
                start_id == old(self).next_worker_id,
                self.next_worker_id == (start_id as nat + i) % 0x1_0000_0000,
                forall|k: nat| k < i ==> #[trigger] self.index_of(((start_id as nat + k) % 0x1_0000_0000) as u32) is Some,
            decreases self.config.workers - i,
        {
            let ghost before = *self;
            let worker_id = self.next_worker_id;
            self.next_worker_id = self.next_worker_id.wrapping_add(1);
            let mut info = WorkerInfo::new(worker_id);
            if self.config.cpu_affinity {
                info.cpu_core = Some(i % cores);
            }
            self.upsert(info);
            proof {
                assert forall|k: nat| k < i + 1 implies #[trigger] self.index_of(((start_id as nat + k) % 0x1_0000_0000) as u32) is Some by {
                    let id = ((start_id as nat + k) % 0x1_0000_0000) as u32;
                    if k < i {
                        assert(before.index_of(id) is Some);
                        let j = before.index_of(id)->0;
                        assert(before.workers@[j].id == id);
                    } else {
                        assert(id == worker_id);
                    }
                }
            }
            i = i + 1;
        }
        Ok(())
    }

    /// Record a worker, replacing the one with the same id.
    fn upsert(&mut self, info: WorkerInfo)
        requires
            old(self).wf(),
        ensures
            final(self).wf(),
            final(self).config == old(self).config,
            final(self).next_worker_id == old(self).next_worker_id,
            final(self).running == old(self).running,
            final(self).is_master == old(self).is_master,
            final(self).workers@.len() <= old(self).workers@.len() + 1,
            exists|j: int| 0 <= j < final(self).workers@.len() && final(self).workers@[j].id == info.id,
            forall|j: int| 0 <= j < old(self).workers@.len() && old(self).workers@[j].id != info.id ==>
                exists|k: int| 0 <= k < final(self).workers@.len() && #[trigger] final(self).workers@[k].id == old(self).workers@[j].id,
    {
        let id = info.id;
        match self.find(id) {
            Some(i) => {
                self.workers.set(i, info);
                assert(self.workers@[i as int].id == id);
                assert forall|j: int| 0 <= j < old(self).workers@.len() && old(self).workers@[j].id != id implies
                    exists|k: int| 0 <= k < self.workers@.len() && #[trigger] self.workers@[k].id == old(self).workers@[j].id by {
                    assert(self.workers@[j].id == old(self).workers@[j].id);
                }
            },
            None => {
                self.workers.push(info);
                assert(self.workers@[self.workers@.len() - 1].id == id);
                assert forall|j: int| 0 <= j < old(self).workers@.len() && old(self).workers@[j].id != id implies
                    exists|k: int| 0 <= k < self.workers@.len() && #[trigger] self.workers@[k].id == old(self).workers@[j].id by {
                    assert(self.workers@[j].id == old(self).workers@[j].id);
                }
            },
        }
    }

    /// Stop the cluster: every worker is told to stop.
    pub fn stop(&mut self) -> (res: Result<(), ClusterError>)
        requires
            old(self).wf(),
        ensures
            final(self).wf(),
            !old(self).running ==> (res matches Err(ClusterError::NotRunning) && *final(self) == *old(self)),
            old(self).running ==> res is Ok && !final(self).running
                && final(self).workers@.len() == old(self).workers@.len()
                && forall|i: int| 0 <= i < final(self).workers@.len() ==> #[trigger] final(self).workers@[i].state == WorkerState::Stopping
                    && final(self).workers@[i].id == old(self).workers@[i].id,
    {
        if !self.running {
            return Err(ClusterError::NotRunning);
        }
        self.running = false;
        let mut i: usize = 0;
        while i < self.workers.len()
            invariant
                i <= self.workers@.len(),
                self.workers@.len() == old(self).workers@.len(),
                !self.running,
                forall|j: int| 0 <= j < self.workers@.len() ==> #[trigger] self.workers@[j].id == old(self).workers@[j].id,
                forall|j: int| 0 <= j < i ==> #[trigger] self.workers@[j].state == WorkerState::Stopping,
                old(self).wf(),
            decreases self.workers.len() - i,
        {
            let mut w = self.workers.remove(i);
            w.state = WorkerState::Stopping;
            self.workers.insert(i, w);
            i = i + 1;
        }
        Ok(())
    }

    /// Restart a worker, if it exists and may restart.
    pub fn restart_worker(&mut self, worker_id: u32) -> (res: Result<(), ClusterError>)
        requires
            old(self).wf(),
        ensures
            final(self).wf(),
            old(self).index_of(worker_id) is None ==> (res matches Err(ClusterError::WorkerNotFound(id)) && id == worker_id),
            res is Ok ==> (old(self).index_of(worker_id) matches Some(i)
                && final(self).workers@[i].restarts == old(self).workers@[i].restarts.wrapping_add(1)
                && final(self).workers@[i].state == WorkerState::Starting
                && final(self).workers@[i].last_restart is Some),
            res matches Err(ClusterError::MaxRestartsExceeded(id)) ==> id == worker_id,
            res matches Err(ClusterError::MaxRestartsExceeded(_)) ==> (old(self).index_of(worker_id) matches Some(i)
                && old(self).workers@[i].restarts >= old(self).config.max_restarts),
            res is Err ==> *final(self) == *old(self),
    {
        let i = match self.find(worker_id) {
            Some(i) => i,
            None => {
                return Err(ClusterError::WorkerNotFound(worker_id));
            },
        };
        if !self.workers[i].can_restart(&self.config) {
            return Err(ClusterError::MaxRestartsExceeded(worker_id));
        }
        let mut w = self.workers.remove(i);
        w.restarts = w.restarts.wrapping_add(1);
        w.last_restart = Some(instant_now());
        w.state = WorkerState::Starting;
        self.workers.insert(i, w);
        proof {
            assert forall|a: int, b: int| 0 <= a < b < self.workers@.len() implies self.workers@[a].id != self.workers@[b].id by {
                assert(self.workers@[a].id == old(self).workers@[a].id);
                assert(self.workers@[b].id == old(self).workers@[b].id);
            }
        }
        Ok(())
    }

    /// Set a worker's state, if it exists.
    pub fn set_worker_state(&mut self, worker_id: u32, state: WorkerState)
        requires
            old(self).wf(),
        ensures
            final(self).wf(),
            final(self).workers@.len() == old(self).workers@.len(),
            forall|j: int| 0 <= j < final(self).workers@.len() ==> #[trigger] final(self).workers@[j].id == old(self).workers@[j].id
                && final(self).workers@[j].state == if old(self).workers@[j].id == worker_id { state } else { old(self).workers@[j].state },
    {
        match self.find(worker_id) {
            Some(i) => {
                let mut w = self.workers.remove(i);
                w.state = state;
                self.workers.insert(i, w);
            },
            None => {},
        }
    }

    /// Set a worker's process id, if it exists.
    pub fn set_worker_pid(&mut self, worker_id: u32, pid: u32)
        requires
            old(self).wf(),
        ensures
            final(self).wf(),
            final(self).workers@.len() == old(self).workers@.len(),
            forall|j: int| 0 <= j < final(self).workers@.len() ==> #[trigger] final(self).workers@[j].id == old(self).workers@[j].id
                && final(self).workers@[j].pid == if old(self).workers@[j].id == worker_id { Some(pid) } else { old(self).workers@[j].pid },
    {
        match self.find(worker_id) {
            Some(i) => {
                let mut w = self.workers.remove(i);
                w.pid = Some(pid);
                self.workers.insert(i, w);
            },
            None => {},
        }
    }

    /// Cluster statistics.
    pub fn stats(&self) -> (res: ClusterStats)
        ensures
            res.total_workers == self.config.workers,
            res.running_workers == count_state(self.workers@, WorkerState::Running),
            res.crashed_workers == count_state(self.workers@, WorkerState::Crashed),
            res.total_restarts == restart_sum(self.workers@),
            res.is_running == self.running,
    {
        let ghost ws = self.workers@;
        let mut running: usize = 0;
        let mut crashed: usize = 0;
        let mut restarts: u32 = 0;
        let mut i: usize = 0;
        while i < self.workers.len()
            invariant
                ws == self.workers@,
                i <= ws.len(),
                running == count_state(ws.subrange(0, i as int), WorkerState::Running),
                crashed == count_state(ws.subrange(0, i as int), WorkerState::Crashed),
                running <= i,
                crashed <= i,
                restarts == restart_sum(ws.subrange(0, i as int)),
            decreases self.workers.len() - i,
        {
            assert(ws.subrange(0, i as int + 1).drop_last() =~= ws.subrange(0, i as int));
            if self.workers[i].state == WorkerState::Running {
                running = running + 1;
            }
            if self.workers[i].state == WorkerState::Crashed {
                crashed = crashed + 1;
            }
            restarts = restarts.wrapping_add(self.workers[i].restarts);
            i = i + 1;
        }
        assert(ws.subrange(0, ws.len() as int) =~= ws);
        ClusterStats {
            total_workers: self.config.workers,
            running_workers: running,
            crashed_workers: crashed,
            total_restarts: restarts,
            is_running: self.running,
        }
    }
}

} // verus!
