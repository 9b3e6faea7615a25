use vstd::prelude::*;

verus! {

/// Seconds that descendants get to exit after the interrupt, before they are
/// killed.
pub const GRACE_PERIOD_SECS: u64 = 3;

/// Why the supervisor could not be constructed.
#[derive(Debug, Clone, PartialEq, Eq)]
pub enum SetupError {
    /// The resource directory that holds the worker could not be resolved.
    ResourceRootUnresolved(String),
    /// The worker's installation directory does not exist at this path.
    BackendNotFound(String),
    /// The log directory could not be resolved or created.
    LogDirUnavailable(String),
}

/// Why `start_all` gave up before any worker was attempted.
#[derive(Debug, Clone, PartialEq, Eq)]
pub enum StartError {
    /// The dependency installer could not be launched at all.
    InstallerUnavailable(String),
}

/// Why the worker could not be launched.
#[derive(Debug, Clone, PartialEq, Eq)]
pub enum SpawnError {
    /// The launcher refused or failed to start the worker.
    LaunchFailed(String),
}

/// How the blocking dependency installation ended.
#[derive(Debug, Clone, PartialEq, Eq)]
pub enum InstallOutcome {
    /// The installer ran and reported completion, with success or not.
    Completed,
    /// The installer could not be launched.
    Unavailable(String),
}

/// A freshly launched worker: its process id, the handle that can kill it,
/// and its output stream.
pub struct Spawned<H, S> {
    pub pid: u32,
    pub handle: H,
    pub stream: S,
}

/// A process that the supervisor tracks.
pub struct Worker<H> {
    pub pid: u32,
    pub handle: H,
}

/// The signal sent to the descendants of a worker.
#[derive(PartialEq, Eq, Structural, Clone, Copy, Debug)]
pub enum SignalKind {
    /// A graceful stop request (Ctrl+C).
    Interrupt,
    /// A forceful termination.
    Kill,
}

/// One step of tearing a worker down, performed best-effort by the runner.
#[derive(PartialEq, Eq, Structural, Clone, Copy, Debug)]
pub enum StopAction {
    /// Send `signal` to every descendant of process `pid`, not to `pid` itself.
    SignalDescendants { signal: SignalKind, pid: u32 },
    /// Block for this many seconds.
    Wait { secs: u64 },
    /// Forcefully terminate the worker process `pid` through its handle.
    KillProcess { pid: u32 },
}

/// A worker taken out of the table, with the steps that tear it down.
pub struct Teardown<H> {
    pub pid: u32,
    pub handle: H,
    pub steps: Vec<StopAction>,
}

/// The teardown of process `pid`: interrupt its descendants, wait out the
/// grace window, kill its descendants, then kill the process itself.
pub open spec fn escalation(pid: u32, grace_secs: u64) -> Seq<StopAction> {
    seq![
        StopAction::SignalDescendants { signal: SignalKind::Interrupt, pid },
        StopAction::Wait { secs: grace_secs },
        StopAction::SignalDescendants { signal: SignalKind::Kill, pid },
        StopAction::KillProcess { pid },
    ]
}

/// The workers handed out by a stop, as (pid, handle) pairs in order.
pub open spec fn released<H>(ts: Seq<Teardown<H>>) -> Seq<(u32, H)> {
    ts.map_values(|t: Teardown<H>| (t.pid, t.handle))
}

/// Every teardown in `ts` carries the full escalation for its process.
pub open spec fn planned<H>(ts: Seq<Teardown<H>>, grace_secs: u64) -> bool {
    forall|i: int| 0 <= i < ts.len() ==> #[trigger] ts[i].steps@ == escalation(ts[i].pid, grace_secs)
}

/// `steps` holds exactly one forceful kill of process `pid`, and no other
/// kill of a process.
pub open spec fn kills_once(steps: Seq<StopAction>, pid: u32) -> bool {
    &&& exists|j: int| 0 <= j < steps.len() && #[trigger] steps[j] == (StopAction::KillProcess { pid })
    &&& forall|j: int, k: int|
        0 <= j < steps.len() && 0 <= k < steps.len() && #[trigger] steps[j] is KillProcess
            && #[trigger] steps[k] is KillProcess ==> j == k
}

impl SignalKind {
    /// The option that selects this signal on the `pkill` command line.
    pub fn pkill_flag(&self) -> (r: &'static str)
        ensures
            *self is Interrupt ==> r@ == "-INT"@,
            *self is Kill ==> r@ == "-KILL"@,
    {
        match self {
            SignalKind::Interrupt => "-INT",
            SignalKind::Kill => "-KILL",
        }
    }
}

/// The steps that tear down process `pid`, in the order they must be taken.
/// None of them depends on how an earlier one went.
pub fn escalation_steps(pid: u32, grace_secs: u64) -> (r: Vec<StopAction>)
    ensures
        r@ == escalation(pid, grace_secs),
{
    let mut steps: Vec<StopAction> = Vec::new();
    steps.push(StopAction::SignalDescendants { signal: SignalKind::Interrupt, pid });
    steps.push(StopAction::Wait { secs: grace_secs });
    steps.push(StopAction::SignalDescendants { signal: SignalKind::Kill, pid });
    steps.push(StopAction::KillProcess { pid });
    proof {
        assert(steps@ =~= escalation(pid, grace_secs));
    }
    steps
}

/// The process table entries of `ws`, as (pid, handle) pairs.
pub open spec fn entries<H>(ws: Seq<Worker<H>>) -> Seq<(u32, H)> {
    ws.map_values(|w: Worker<H>| (w.pid, w.handle))
}

/// The supervisor of the backend worker: the table of live worker
/// processes, in registration order, and the settings fixed at
/// construction. `H` is the capability that kills one process.
pub struct BackendManager<H> {
    processes: Vec<Worker<H>>,
    backend_path: String,
    log_dir: String,
    grace_secs: u64,
}

impl<H> BackendManager<H> {
    /// The tracked processes, as (pid, handle) pairs in registration order.
    pub closed spec fn table(&self) -> Seq<(u32, H)> {
        entries(self.processes@)
    }

    /// The worker's installation directory.
    pub closed spec fn backend_dir(&self) -> Seq<char> {
        self.backend_path@
    }

    /// The directory that holds the log file.
    pub closed spec fn log_directory(&self) -> Seq<char> {
        self.log_dir@
    }

    /// Seconds between interrupting and killing a worker's descendants.
    pub closed spec fn grace(&self) -> u64 {
        self.grace_secs
    }

    /// Builds a supervisor from what the host found on disk: the worker's
    /// installation directory and whether it exists, and the log directory
    /// once resolved and created. Nothing is spawned.
    pub fn new(
        backend_path: String,
        backend_exists: bool,
        log_dir: Result<String, SetupError>,
    ) -> (r: Result<Self, SetupError>)
        ensures
            !backend_exists ==> (match r {
                Err(SetupError::BackendNotFound(p)) => p@ == backend_path@,
                _ => false,
            }),
            backend_exists && log_dir is Err ==> (match r {
                Err(e) => e == log_dir->Err_0,
                _ => false,
            }),
            backend_exists && log_dir is Ok <==> r is Ok,
            r matches Ok(m) ==> m.table() == Seq::<(u32, H)>::empty()
                && m.backend_dir() == backend_path@
                && m.log_directory() == log_dir->Ok_0@
                && m.grace() == GRACE_PERIOD_SECS,
    {
        if !backend_exists {
            return Err(SetupError::BackendNotFound(backend_path));
        }
        match log_dir {
            Err(e) => Err(e),
            Ok(dir) => {
                let m = BackendManager {
                    processes: Vec::new(),
                    backend_path,
                    log_dir: dir,
                    grace_secs: GRACE_PERIOD_SECS,
                };
                proof {
                    assert(entries(m.processes@) =~= Seq::<(u32, H)>::empty());
                }
                Ok(m)
            },
        }
    }

    /// What a stop does: it hands out every tracked worker, in registration
    /// order, each with its full escalation, and leaves the table empty and
    /// the settings as they were.
    pub open spec fn stops(before: Self, after: Self, r: Seq<Teardown<H>>) -> bool {
        &&& r.len() == before.table().len()
        &&& forall|i: int| 0 <= i < r.len() ==> ((#[trigger] r[i]).pid, r[i].handle) == before.table()[i]
        &&& planned(r, before.grace())
        &&& after.table() == Seq::<(u32, H)>::empty()
        &&& after.same_settings(before)
    }

    /// The settings fixed at construction agree.
    pub open spec fn same_settings(&self, other: Self) -> bool {
        &&& self.backend_dir() == other.backend_dir()
        &&& self.log_directory() == other.log_directory()
        &&& self.grace() == other.grace()
    }

    /// Runs the start sequence after the dependency installation has ended.
    /// If the installer could not be launched, nothing else is attempted and
    /// the error is returned. Otherwise the worker is spawned once through
    /// `spawn`: on success it is added to the table and its output stream is
    /// returned for draining; a failed spawn leaves the table as it was and
    /// still counts as a successful start.
    pub fn start_all<S, F>(&mut self, install: InstallOutcome, spawn: F) -> (r: Result<Option<S>, StartError>)
        where
            F: FnOnce() -> Result<Spawned<H, S>, SpawnError>,
        requires
            install is Completed ==> spawn.requires(()),
        ensures
            final(self).same_settings(*old(self)),
            install is Unavailable ==> final(self).table() == old(self).table() && (match r {
                Err(StartError::InstallerUnavailable(msg)) => msg == install->Unavailable_0,
                _ => false,
            }),
            install is Completed ==> exists|out: Result<Spawned<H, S>, SpawnError>| #[trigger] spawn.ensures((), out) && match out {
                Ok(s) => final(self).table() == old(self).table().push((s.pid, s.handle))
                    && r == Ok::<Option<S>, StartError>(Some(s.stream)),
                Err(_) => final(self).table() == old(self).table()
                    && r == Ok::<Option<S>, StartError>(None),
            },
    {
        match install {
            InstallOutcome::Unavailable(msg) => Err(StartError::InstallerUnavailable(msg)),
            InstallOutcome::Completed => {
                let out = spawn();
                match out {
                    Ok(s) => {
                        let Spawned { pid, handle, stream } = s;
                        self.processes.push(Worker { pid, handle });
                        proof {
                            assert(self.table() =~= old(self).table().push((pid, handle)));
                        }
                        Ok(Some(stream))
                    },
                    Err(_) => Ok(None),
                }
            },
        }
    }

    /// Empties the table and hands out every tracked worker, in
    /// registration order, with the steps that tear it down: interrupt its
    /// descendants, wait out the grace window, kill its descendants, kill
    /// the worker. On an empty table it hands out nothing, so nothing waits.
    pub fn stop_all(&mut self) -> (r: Vec<Teardown<H>>)
        ensures
            Self::stops(*old(self), *final(self), r@),
    {
        let mut taken: Vec<Worker<H>> = Vec::new();
        std::mem::swap(&mut self.processes, &mut taken);
        let ghost all = taken@;
        let mut out: Vec<Teardown<H>> = Vec::new();
        while taken.len() > 0
            invariant
                entries(all) == released(out@) + entries(taken@),
                planned(out@, self.grace_secs),
                self.processes@.len() == 0,
                self.same_settings(*old(self)),
                all == old(self).processes@,
            decreases taken.len(),
        {
            let ghost before = taken@;
            let w = taken.remove(0);
            let Worker { pid, handle } = w;
            let steps = escalation_steps(pid, self.grace_secs);
            let ghost prev = out@;
            out.push(Teardown { pid, handle, steps });
            proof {
                assert(released(out@) =~= released(prev).push((pid, handle)));
                assert(entries(before) =~= seq![(pid, handle)] + entries(taken@));
                assert(released(out@) + entries(taken@) =~= released(prev) + entries(before));
            }
        }
        proof {
            assert(released(out@) =~= released(out@) + entries(taken@));
            assert(self.table() =~= Seq::<(u32, H)>::empty());
            assert(released(out@).len() == out@.len());
            assert forall|i: int| 0 <= i < out@.len() implies ((#[trigger] out@[i]).pid, out@[i].handle)
                == old(self).table()[i] by {
                assert(released(out@)[i] == (out@[i].pid, out@[i].handle));
            };
        }
        out
    }

    /// The same supervisor with a different grace window between
    /// interrupting and killing a worker's descendants.
    pub fn with_grace_secs(self, secs: u64) -> (r: Self)
        ensures
            r.table() == self.table(),
            r.backend_dir() == self.backend_dir(),
            r.log_directory() == self.log_directory(),
            r.grace() == secs,
    {
        BackendManager { grace_secs: secs, ..self }
    }

    /// The worker's installation directory, where it runs.
    pub fn backend_path(&self) -> (r: &String)
        ensures
            r@ == self.backend_dir(),
    {
        &self.backend_path
    }

    /// The directory that holds the log file.
    pub fn log_dir(&self) -> (r: &String)
        ensures
            r@ == self.log_directory(),
    {
        &self.log_dir
    }

    /// Seconds between interrupting and killing a worker's descendants.
    pub fn grace_secs(&self) -> (r: u64)
        ensures
            r == self.grace(),
    {
        self.grace_secs
    }

    /// The number of tracked processes.
    pub fn process_count(&self) -> (r: usize)
        ensures
            r == self.table().len(),
    {
        self.processes.len()
    }
}

/// Stopping a supervisor whose table is empty, as it is right after
/// construction, hands out no worker: no signal is sent and no grace window
/// is waited out.
pub proof fn lemma_stop_when_idle<H>(
    m: BackendManager<H>,
    after: BackendManager<H>,
    r: Seq<Teardown<H>>,
)
    requires
        m.table() == Seq::<(u32, H)>::empty(),
        BackendManager::stops(m, after, r),
    ensures
        r.len() == 0,
        after.table() == Seq::<(u32, H)>::empty(),
{
}

/// Two stops in a row release each tracked worker exactly once: the first
/// hands out every worker, in order, with exactly one kill of that worker;
/// the second finds the table empty and hands out nothing. Since the table
/// is only reached through `&mut`, two triggers that stop concurrently are
/// serialised in this way by the lock that guards it.
pub proof fn lemma_stop_twice<H>(
    m0: BackendManager<H>,
    m1: BackendManager<H>,
    r1: Seq<Teardown<H>>,
    m2: BackendManager<H>,
    r2: Seq<Teardown<H>>,
)
    requires
        BackendManager::stops(m0, m1, r1),
        BackendManager::stops(m1, m2, r2),
    ensures
        r1.len() == m0.table().len(),
        forall|i: int| 0 <= i < r1.len() ==> ((#[trigger] r1[i]).pid, r1[i].handle) == m0.table()[i],
        forall|i: int| 0 <= i < r1.len() ==> kills_once(#[trigger] r1[i].steps@, r1[i].pid),
        r2.len() == 0,
        m2.table() == Seq::<(u32, H)>::empty(),
{
    assert forall|i: int| 0 <= i < r1.len() implies kills_once(#[trigger] r1[i].steps@, r1[i].pid) by {
        assert(r1[i].steps@ == escalation(r1[i].pid, m0.grace()));
        lemma_escalation_order(r1[i].pid, m0.grace());
    };
}

/// A stop reaches every worker in the table, whatever happened to its log
/// drain: the worker at each position is handed out at that position, and
/// its steps end with the kill of that worker.
pub proof fn lemma_stop_reaches_every_worker<H>(
    m: BackendManager<H>,
    after: BackendManager<H>,
    r: Seq<Teardown<H>>,
    i: int,
)
    requires
        BackendManager::stops(m, after, r),
        0 <= i < m.table().len(),
    ensures
        i < r.len(),
        r[i].pid == m.table()[i].0,
        r[i].handle == m.table()[i].1,
        r[i].steps@.last() == (StopAction::KillProcess { pid: m.table()[i].0 }),
{
    assert(r[i].steps@ == escalation(r[i].pid, m.grace()));
}

/// The escalation of a process interrupts its descendants first, kills its
/// descendants next, and kills the process last, exactly once. The steps are
/// fixed before any of them runs, so the kill of the process comes even if
/// both signals to the descendants fail.
pub proof fn lemma_escalation_order(pid: u32, grace_secs: u64)
    ensures
        escalation(pid, grace_secs).len() == 4,
        escalation(pid, grace_secs)[0] == (StopAction::SignalDescendants { signal: SignalKind::Interrupt, pid }),
        escalation(pid, grace_secs)[2] == (StopAction::SignalDescendants { signal: SignalKind::Kill, pid }),
        escalation(pid, grace_secs)[3] == (StopAction::KillProcess { pid }),
        kills_once(escalation(pid, grace_secs), pid),
{
    let e = escalation(pid, grace_secs);
    assert(e[3] == (StopAction::KillProcess { pid }));
    assert forall|j: int, k: int|
        0 <= j < e.len() && 0 <= k < e.len() && #[trigger] e[j] is KillProcess
            && #[trigger] e[k] is KillProcess implies j == k by {
        assert(!(e[0] is KillProcess));
        assert(!(e[1] is KillProcess));
        assert(!(e[2] is KillProcess));
    };
}

} // verus!
