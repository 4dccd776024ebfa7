//! The life of the managed processes: what is running, and what starting, watching, stopping and
//! restarting an application asks for.
//!
//! The table of running processes is generic over the handle of a process, which the library
//! stores and hands back but never looks into.

use std::collections::HashMap;
use vstd::prelude::*;
use vstd::std_specs::iter::IteratorSpec;

use crate::config::AppItem;
use crate::shell::{build_shell, shell_command, Host, ShellCommand, ShellCommandView};
use crate::text::doubled_quotes;

verus! {

broadcast use vstd::std_specs::hash::group_hash_axioms;

/// How long the watch over a process rests between two looks at it, in milliseconds.
pub const POLL_INTERVAL_MS: u64 = 200;

/// How long a restart waits between the stop and the start, in milliseconds.
pub const RESTART_PAUSE_MS: u64 = 200;

/// The table of running processes: the handle of each, under the number of its application.
pub struct AppState<C> {
    pub procs: HashMap<usize, C>,
}

impl<C> View for AppState<C> {
    type V = Map<usize, C>;

    open spec fn view(&self) -> Map<usize, C> {
        self.procs@
    }
}

/// News for the menu: the number of an application, and whether it is running.
pub type Notice = (usize, bool);

/// A process to create, and where.
#[derive(Debug)]
pub struct SpawnPlan {
    pub shell: ShellCommand,
    /// The directory that the process is created in, if it is not the tray's own.
    pub current_dir: Option<String>,
}

/// The contents of a [`SpawnPlan`].
pub struct SpawnPlanView {
    pub shell: ShellCommandView,
    pub current_dir: Option<Seq<char>>,
}

impl View for SpawnPlan {
    type V = SpawnPlanView;

    open spec fn view(&self) -> SpawnPlanView {
        SpawnPlanView {
            shell: self.shell@,
            current_dir: match self.current_dir {
                Some(dir) => Some(dir@),
                None => None,
            },
        }
    }
}

/// What has come of a start so far.
pub enum StartEvent<C> {
    /// The start was asked for.
    Begin,
    /// The process was created; this is its handle.
    Spawned(C),
    /// The process could not be created.
    SpawnFailed,
    /// The watch over the process found that it is gone.
    Ended,
}

/// What a start asks for next.
pub enum StartAction {
    /// Nothing: the application is running already.
    AlreadyRunning,
    /// Create the process.
    Spawn(SpawnPlan),
    /// Pass the news on, then watch over the process until it is gone.
    Watch(Notice),
    /// Nothing: there is no process to watch over.
    GiveUp,
    /// Pass the news on; the start is over.
    Finish(Notice),
}

/// What a look at a process shows.
#[derive(Clone, Copy, Debug, PartialEq, Eq, Structural)]
pub enum PollStatus {
    /// It has ended.
    Exited,
    /// It is running.
    Running,
    /// The look failed.
    Failed,
}

/// What the watch over a process does next.
#[derive(Clone, Copy, Debug, PartialEq, Eq, Structural)]
pub enum WatchStep {
    /// Look again after this many milliseconds.
    Rest(u64),
    /// End the watch: the process is gone.
    Leave,
}

/// What a stop asks for.
pub struct StopStep<C> {
    /// The process to kill and to wait for, if the application has one.
    pub kill: Option<C>,
    /// The news to pass on after that.
    pub notice: Notice,
}

/// What a restart asks for, in this order.
pub struct RestartStep<C> {
    /// The stop.
    pub stop: StopStep<C>,
    /// A pause, in milliseconds.
    pub pause_ms: u64,
    /// The event that a start then goes on from.
    pub start: StartEvent<C>,
}

/// The process that starts an application on a host.
pub open spec fn spawn_plan(item: AppItem, host: Host) -> SpawnPlanView {
    SpawnPlanView {
        shell: shell_command(item.start@, host),
        current_dir: if item.home@.len() == 0 {
            None
        } else {
            Some(item.home@)
        },
    }
}

/// An application is started in its home, if one is configured, and in the tray's own directory
/// otherwise: on every host, and whatever the other settings of the application are.
pub proof fn law_home_decides_where_to_start(item: AppItem, host: Host)
    ensures
        spawn_plan(item, host).current_dir is Some <==> item.home@.len() > 0,
        spawn_plan(item, host).current_dir matches Some(dir) ==> dir == item.home@,
{
}

/// What is run is the configured command for a start, on every host and wherever it is started:
/// elsewhere than on Windows `sh -c` and the command as it stands, on Windows the script host on
/// a script whose text is fixed but for the command in it.
pub proof fn law_start_runs_the_configured_command(item: AppItem, host: Host)
    ensures
        !host.windows ==> {
            let shell = spawn_plan(item, host).shell;
            &&& shell.program == "sh"@
            &&& shell.args == seq!["-c"@, item.start@]
            &&& shell.script is None
        },
        host.windows ==> {
            let shell = spawn_plan(item, host).shell;
            &&& shell.program == "wscript.exe"@
            &&& shell.args.len() == 0
            &&& shell.script matches Some(script) && script.content
                == "CreateObject(\"Wscript.Shell\").Run \"cmd /C "@ + doubled_quotes(item.start@)
                + "\", 0, True"@
        },
{
}

/// The table after a start of application `id` met an event.
pub open spec fn table_after_start<C>(
    procs: Map<usize, C>,
    id: usize,
    event: StartEvent<C>,
) -> Map<usize, C> {
    match event {
        StartEvent::Begin => procs,
        StartEvent::Spawned(child) => procs.insert(id, child),
        StartEvent::SpawnFailed => procs,
        StartEvent::Ended => procs.remove(id),
    }
}

/// The news that a start of application `id` passes on when it meets an event.
pub open spec fn notices_of_start<C>(id: usize, event: StartEvent<C>) -> Seq<Notice> {
    match event {
        StartEvent::Begin => seq![],
        StartEvent::Spawned(_) => seq![(id, true)],
        StartEvent::SpawnFailed => seq![],
        StartEvent::Ended => seq![(id, false)],
    }
}

impl StartAction {
    /// The news that the action passes on.
    pub open spec fn notices(self) -> Seq<Notice> {
        match self {
            StartAction::Watch(notice) => seq![notice],
            StartAction::Finish(notice) => seq![notice],
            _ => seq![],
        }
    }
}

impl<C> AppState<C> {
    /// A table without processes.
    pub fn new() -> (state: Self)
        ensures
            state@ == Map::<usize, C>::empty(),
    {
        AppState { procs: HashMap::new() }
    }

    /// Lists every process of the table once, to be killed and waited for. The table stays as it
    /// is: what is killed leaves it when its own watch finds it gone.
    pub fn stop_all(&self) -> (list: Vec<(usize, &C)>)
        ensures
            list@.len() == self@.len(),
            forall|i: int|
                0 <= i < list@.len() ==> self@.contains_key((#[trigger] list@[i]).0)
                    && self@[list@[i].0] == *list@[i].1,
            forall|i: int, j: int|
                0 <= i < j < list@.len() ==> (#[trigger] list@[i]).0 != (#[trigger] list@[j]).0,
            forall|id: usize| #[trigger]
                self@.contains_key(id) ==> exists|i: int|
                    0 <= i < list@.len() && (#[trigger] list@[i]).0 == id,
    {
        let mut list: Vec<(usize, &C)> = Vec::new();
        let entries = self.procs.iter();
        let ghost all = entries.remaining();
        for entry in it: entries
            invariant
                it.seq() == all,
                list@.len() == it.index(),
                forall|i: int|
                    0 <= i < list@.len() ==> (#[trigger] list@[i]).0 == *all[i].0 && list@[i].1
                        == all[i].1,
        {
            list.push((*entry.0, entry.1));
        }
        proof {
            assert forall|i: int, j: int| 0 <= i < j < list@.len() implies (#[trigger] list@[i]).0
                != (#[trigger] list@[j]).0 by {
                assert(self@[*all[i].0] == *all[i].1);
                assert(self@[*all[j].0] == *all[j].1);
                assert(all[i] != all[j]);
            }
            assert forall|id: usize| #[trigger] self@.contains_key(id) implies exists|i: int|
                0 <= i < list@.len() && (#[trigger] list@[i]).0 == id by {
                assert(self.procs@.contains_key(id));
                assert(all.contains((&id, &self@[id])));
                let i = choose|i: int| 0 <= i < all.len() && all[i] == (&id, &self@[id]);
                assert(list@[i].0 == id);
            }
        }
        list
    }
}

/// Decides what the watch over a process does after a look at it. A look that fails counts as
/// the end of the process.
pub fn watch(status: PollStatus) -> (step: WatchStep)
    ensures
        step == (if status == PollStatus::Running {
            WatchStep::Rest(POLL_INTERVAL_MS)
        } else {
            WatchStep::Leave
        }),
        status == PollStatus::Running ==> step == WatchStep::Rest(200),
{
    match status {
        PollStatus::Exited => WatchStep::Leave,
        PollStatus::Running => WatchStep::Rest(POLL_INTERVAL_MS),
        PollStatus::Failed => WatchStep::Leave,
    }
}

impl AppItem {
    /// Takes a start one event further: brings the table up to date and says what comes next.
    pub fn a_start<C>(&self, state: &mut AppState<C>, event: StartEvent<C>, host: Host) -> (action:
        StartAction)
        ensures
            final(state)@ == table_after_start(old(state)@, self.uniq_id, event),
            action.notices() == notices_of_start(self.uniq_id, event),
            match event {
                StartEvent::Begin => if old(state)@.contains_key(self.uniq_id) {
                    action is AlreadyRunning
                } else {
                    action matches StartAction::Spawn(plan) && plan@ == spawn_plan(*self, host)
                },
                StartEvent::Spawned(_) => action == StartAction::Watch((self.uniq_id, true)),
                StartEvent::SpawnFailed => action is GiveUp,
                StartEvent::Ended => action == StartAction::Finish((self.uniq_id, false)),
            },
            match event {
                StartEvent::Spawned(child) => final(state).procs@ == old(state).procs@.insert(
                    self.uniq_id,
                    child,
                ),
                StartEvent::Ended => final(state).procs@ == old(state).procs@.remove(self.uniq_id),
                _ => final(state).procs@ == old(state).procs@,
            },
            action matches StartAction::Spawn(plan) ==> {
                &&& plan.current_dir is Some <==> self.home@.len() > 0
                &&& plan.current_dir matches Some(dir) ==> dir@ == self.home@
                &&& plan.shell@ == shell_command(self.start@, host)
            },
            action is Spawn <==> event is Begin && !old(state).procs@.contains_key(self.uniq_id),
    {
        match event {
            StartEvent::Begin => {
                if state.procs.contains_key(&self.uniq_id) {
                    return StartAction::AlreadyRunning;
                }
                let shell = build_shell(self.start.as_str(), host);
                let current_dir = if self.home.as_str().is_empty() {
                    None
                } else {
                    Some(self.home.clone())
                };
                StartAction::Spawn(SpawnPlan { shell, current_dir })
            },
            StartEvent::Spawned(child) => {
                state.procs.insert(self.uniq_id, child);
                StartAction::Watch((self.uniq_id, true))
            },
            StartEvent::SpawnFailed => StartAction::GiveUp,
            StartEvent::Ended => {
                state.procs.remove(&self.uniq_id);
                StartAction::Finish((self.uniq_id, false))
            },
        }
    }

    /// Stops the application: takes its process out of the table, hands it over to be killed, and
    /// says in any case that the application is not running.
    pub fn a_stop<C>(&self, state: &mut AppState<C>) -> (step: StopStep<C>)
        ensures
            final(state)@ == old(state)@.remove(self.uniq_id),
            step.kill == (if old(state)@.contains_key(self.uniq_id) {
                Some(old(state)@[self.uniq_id])
            } else {
                None
            }),
            step.notice == (self.uniq_id, false),
    {
        let kill = state.procs.remove(&self.uniq_id);
        StopStep { kill, notice: (self.uniq_id, false) }
    }

    /// Restarts the application: a stop, a pause, and a start.
    pub fn restart<C>(&self, state: &mut AppState<C>) -> (step: RestartStep<C>)
        ensures
            final(state)@ == old(state)@.remove(self.uniq_id),
            step.stop.kill == (if old(state)@.contains_key(self.uniq_id) {
                Some(old(state)@[self.uniq_id])
            } else {
                None
            }),
            step.stop.notice == (self.uniq_id, false),
            step.pause_ms == RESTART_PAUSE_MS,
            step.pause_ms == 200,
            step.start is Begin,
    {
        let stop = self.a_stop(state);
        RestartStep { stop, pause_ms: RESTART_PAUSE_MS, start: StartEvent::Begin }
    }
}

} // verus!
