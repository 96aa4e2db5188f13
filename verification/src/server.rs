//! The rules of the task supervisor: which services are in flight, when
//! cancellation is signalled, and what a shutdown reports.
//!
//! The supervisor that runs the tasks performs what these rules decide: it
//! starts a task for every launch, sends the cancellation signal when `stop`
//! says so, and reports every task that it has joined.

use vstd::prelude::*;
use vstd::string::StringExecFns;

verus! {

/// Key file of the peer-to-peer networking service that `start` launches.
pub const DEFAULT_KEYPAIR_FILE: &'static str = "./keys.keypair";

/// Why a shutdown reports failure.
#[derive(Debug, Clone, PartialEq, Eq)]
pub enum ServerError {
    /// A task could not be joined; the text says why.
    TaskJoin(String),
    /// The peer-to-peer networking service failed; the text says why.
    P2pNetwork(String),
    /// The request front-end failed; the text says why.
    GrpcServer(String),
}

impl ServerError {
    /// A copy of the error.
    pub fn duplicate(&self) -> (copy: ServerError)
        ensures
            copy == *self,
    {
        match self {
            ServerError::TaskJoin(reason) => ServerError::TaskJoin(reason.clone()),
            ServerError::P2pNetwork(reason) => ServerError::P2pNetwork(reason.clone()),
            ServerError::GrpcServer(reason) => ServerError::GrpcServer(reason.clone()),
        }
    }
}

/// Where a managed task stands.
#[derive(Debug, Clone, Copy, PartialEq, Eq, Structural)]
pub enum TaskState {
    /// Spawned and not yet joined.
    Running,
    /// Joined; the service returned without error.
    CompletedOk,
    /// Joined; the service reported an error or the task could not be joined.
    CompletedError,
}

/// What joining a task gave.
#[derive(Debug, Clone, PartialEq, Eq)]
pub enum JoinOutcome {
    /// The service ran to its end without error.
    Finished,
    /// The service ran to its end and reported this error.
    Failed(ServerError),
    /// The task could not be joined; the text says why.
    JoinFailed(String),
}

/// The failure that a join outcome stands for, if it is one.
pub open spec fn failure_of(outcome: JoinOutcome) -> Option<ServerError> {
    match outcome {
        JoinOutcome::Finished => None,
        JoinOutcome::Failed(error) => Some(error),
        JoinOutcome::JoinFailed(reason) => Some(ServerError::TaskJoin(reason)),
    }
}

/// The state of a task after it was joined with this outcome.
pub open spec fn state_after(outcome: JoinOutcome) -> TaskState {
    if failure_of(outcome) is Some {
        TaskState::CompletedError
    } else {
        TaskState::CompletedOk
    }
}

/// Whether every task has been joined.
pub open spec fn all_joined(tasks: Seq<TaskState>) -> bool {
    forall|i: int| 0 <= i < tasks.len() ==> #[trigger] tasks[i] != TaskState::Running
}

/// Number of tasks that have not been joined.
pub open spec fn running(tasks: Seq<TaskState>) -> nat
    decreases tasks.len(),
{
    if tasks.len() == 0 {
        0
    } else {
        running(tasks.drop_last()) + if tasks.last() == TaskState::Running {
            1nat
        } else {
            0nat
        }
    }
}

/// Every task has been joined exactly when none is running.
pub proof fn lemma_drained_when_none_running(tasks: Seq<TaskState>)
    ensures
        all_joined(tasks) <==> running(tasks) == 0,
    decreases tasks.len(),
{
    if tasks.len() > 0 {
        let front = tasks.drop_last();
        lemma_drained_when_none_running(front);
        if running(tasks) == 0 {
            assert forall|i: int| 0 <= i < tasks.len() implies #[trigger] tasks[i]
                != TaskState::Running by {
                if i < front.len() {
                    assert(front[i] == tasks[i]);
                }
            }
        }
    }
}

/// A new task is one more that runs.
pub proof fn lemma_spawn_adds_one(tasks: Seq<TaskState>)
    ensures
        running(tasks.push(TaskState::Running)) == running(tasks) + 1,
{
    assert(tasks.push(TaskState::Running).drop_last() =~= tasks);
}

/// Joining a running task leaves one fewer that runs: a shutdown that joins
/// its tasks one by one comes to an end.
pub proof fn lemma_join_removes_one(tasks: Seq<TaskState>, task: int, state: TaskState)
    requires
        0 <= task < tasks.len(),
        tasks[task] == TaskState::Running,
        state != TaskState::Running,
    ensures
        running(tasks.update(task, state)) + 1 == running(tasks),
    decreases tasks.len(),
{
    let after = tasks.update(task, state);
    if task == tasks.len() - 1 {
        assert(after.drop_last() =~= tasks.drop_last());
    } else {
        lemma_join_removes_one(tasks.drop_last(), task, state);
        assert(after.drop_last() =~= tasks.drop_last().update(task, state));
    }
}

/// What is to be done for a newly spawned task: run the service as task
/// `task`, with a cancellation signal that has already fired if `cancelled`.
#[derive(Debug, Clone, Copy, PartialEq, Eq, Structural)]
pub struct Launch {
    pub task: usize,
    pub cancelled: bool,
}

/// Configuration of the peer-to-peer networking service.
#[derive(Debug, Clone, PartialEq, Eq)]
pub struct P2pServiceConfig {
    pub keypair_file: String,
}

/// The supervisor's view of its tasks.
pub struct Server {
    cancelled: bool,
    tasks: Vec<TaskState>,
    first_failure: Option<ServerError>,
}

impl Server {
    /// Whether cancellation has been requested.
    pub closed spec fn cancelled(&self) -> bool {
        self.cancelled
    }

    /// The state of every task spawned so far, by task number.
    pub closed spec fn tasks(&self) -> Seq<TaskState> {
        self.tasks@
    }

    /// The failure of the first task that was joined with one.
    pub closed spec fn failure(&self) -> Option<ServerError> {
        self.first_failure
    }

    /// What `stop` has to report: nothing before cancellation was requested
    /// or while a task is still running; then the first failure, or success.
    pub open spec fn outcome(&self) -> Option<Result<(), ServerError>> {
        if !self.cancelled() || !all_joined(self.tasks()) {
            None
        } else {
            match self.failure() {
                Some(error) => Some(Err(error)),
                None => Some(Ok(())),
            }
        }
    }

    /// A supervisor without tasks whose cancellation has not been requested.
    pub fn new() -> (server: Server)
        ensures
            !server.cancelled(),
            server.tasks() == Seq::<TaskState>::empty(),
            server.failure() is None,
    {
        Server { cancelled: false, tasks: Vec::new(), first_failure: None }
    }

    /// Registers a new task as running. A task spawned after cancellation was
    /// requested is launched with the signal already fired.
    pub fn spawn_task(&mut self) -> (launch: Launch)
        ensures
            launch.task == old(self).tasks().len(),
            launch.cancelled == old(self).cancelled(),
            final(self).tasks() == old(self).tasks().push(TaskState::Running),
            running(final(self).tasks()) == running(old(self).tasks()) + 1,
            final(self).cancelled() == old(self).cancelled(),
            final(self).failure() == old(self).failure(),
    {
        proof {
            lemma_spawn_adds_one(self.tasks@);
        }
        let task: usize = self.tasks.len();
        self.tasks.push(TaskState::Running);
        Launch { task, cancelled: self.cancelled }
    }

    /// Registers the baseline services: the peer-to-peer networking service,
    /// with its key file.
    pub fn start(&mut self) -> (started: (Launch, P2pServiceConfig))
        ensures
            started.0.task == old(self).tasks().len(),
            started.0.cancelled == old(self).cancelled(),
            started.1.keypair_file@ == DEFAULT_KEYPAIR_FILE@,
            final(self).tasks() == old(self).tasks().push(TaskState::Running),
            final(self).cancelled() == old(self).cancelled(),
            final(self).failure() == old(self).failure(),
    {
        let launch = self.spawn_task();
        (launch, P2pServiceConfig { keypair_file: String::from_str(DEFAULT_KEYPAIR_FILE) })
    }

    /// Requests cancellation. The result says whether the signal is to be
    /// sent: it is sent once, on the first request.
    pub fn stop(&mut self) -> (signal: bool)
        ensures
            signal == !old(self).cancelled(),
            final(self).cancelled(),
            final(self).tasks() == old(self).tasks(),
            final(self).failure() == old(self).failure(),
    {
        let signal = !self.cancelled;
        self.cancelled = true;
        signal
    }

    /// Records that a task was joined. The first failure is kept, later ones
    /// are not. A task that is unknown or was joined before changes nothing,
    /// and the result is false.
    pub fn task_joined(&mut self, task: usize, outcome: JoinOutcome) -> (recorded: bool)
        ensures
            final(self).cancelled() == old(self).cancelled(),
            recorded == (task < old(self).tasks().len() && old(self).tasks()[task as int]
                == TaskState::Running),
            recorded ==> final(self).tasks() == old(self).tasks().update(
                task as int,
                state_after(outcome),
            ),
            recorded ==> running(final(self).tasks()) + 1 == running(old(self).tasks()),
            recorded ==> final(self).failure() == if old(self).failure() is Some {
                old(self).failure()
            } else {
                failure_of(outcome)
            },
            !recorded ==> final(self).tasks() == old(self).tasks(),
            !recorded ==> final(self).failure() == old(self).failure(),
    {
        if task >= self.tasks.len() {
            return false;
        }
        match self.tasks[task] {
            TaskState::Running => {},
            _ => {
                return false;
            },
        }
        let failure = match outcome {
            JoinOutcome::Finished => None,
            JoinOutcome::Failed(error) => Some(error),
            JoinOutcome::JoinFailed(reason) => Some(ServerError::TaskJoin(reason)),
        };
        let state = match failure {
            Some(_) => TaskState::CompletedError,
            None => TaskState::CompletedOk,
        };
        proof {
            lemma_join_removes_one(self.tasks@, task as int, state);
        }
        self.tasks[task] = state;
        if self.first_failure.is_none() {
            self.first_failure = failure;
        }
        true
    }

    /// Number of tasks spawned so far.
    pub fn task_count(&self) -> (count: usize)
        ensures
            count == self.tasks().len(),
    {
        self.tasks.len()
    }

    /// The state of a task, where there is one of this number.
    pub fn task_state(&self, task: usize) -> (state: Option<TaskState>)
        ensures
            match state {
                Some(found) => task < self.tasks().len() && found == self.tasks()[task as int],
                None => task >= self.tasks().len(),
            },
    {
        if task < self.tasks.len() {
            Some(self.tasks[task])
        } else {
            None
        }
    }

    /// Whether cancellation has been requested.
    pub fn is_cancelled(&self) -> (cancelled: bool)
        ensures
            cancelled == self.cancelled(),
    {
        self.cancelled
    }

    /// Whether every task has been joined.
    pub fn is_drained(&self) -> (drained: bool)
        ensures
            drained == all_joined(self.tasks()),
            drained == (running(self.tasks()) == 0),
    {
        proof {
            lemma_drained_when_none_running(self.tasks@);
        }
        let mut i: usize = 0;
        while i < self.tasks.len()
            invariant
                i <= self.tasks@.len(),
                all_joined(self.tasks@) <==> running(self.tasks@) == 0,
                forall|k: int| 0 <= k < i ==> #[trigger] self.tasks@[k] != TaskState::Running,
            decreases self.tasks@.len() - i,
        {
            match self.tasks[i] {
                TaskState::Running => {
                    return false;
                },
                _ => {},
            }
            i += 1;
        }
        true
    }

    /// What `stop` reports once its work is done: none while cancellation
    /// was not requested or a task is still running; after that the first
    /// failure among the joined tasks, or success.
    pub fn stop_result(&self) -> (report: Option<Result<(), ServerError>>)
        ensures
            report == self.outcome(),
    {
        if !self.cancelled || !self.is_drained() {
            return None;
        }
        match &self.first_failure {
            Some(error) => Some(Err(error.duplicate())),
            None => Some(Ok(())),
        }
    }
}

} // verus!
