//! The life of one watcher task: what it does with each thing that happens
//! to it, from its start to its last render.
//!
//! The task itself waits on its subscription and draws charts, which this
//! library does neither of. It reports here what happened and is told what
//! to do.

use vstd::prelude::*;

verus! {

/// A live task renders once for every this many snapshots.
pub const RENDER_EVERY: u64 = 5;

/// Where a watcher task stands.
#[derive(Clone, Copy, Debug, PartialEq, Eq, Structural)]
pub enum Phase {
    /// Made, not yet subscribed.
    Uninitialized,
    /// Subscribed, taking snapshots in.
    Running,
    /// Done with the subscription, the last render still to come.
    Draining,
    /// Done.
    Terminated,
}

/// What happened to a watcher task.
#[derive(Clone, Copy, Debug, PartialEq, Eq, Structural)]
pub enum Event {
    /// The task was started.
    Started,
    /// A receive attempt gave a snapshot.
    Received,
    /// A receive attempt failed because the producer is gone.
    Closed,
    /// A receive attempt failed because the task fell behind by this many
    /// snapshots, which are lost to it.
    Overrun(u64),
    /// The last render was attempted, whether or not it succeeded.
    Rendered,
}

/// What a watcher task has to do next.
#[derive(Clone, Copy, Debug, PartialEq, Eq, Structural)]
pub enum Action {
    /// Subscribe and build the group, then receive.
    Subscribe,
    /// Update the group with the snapshot, then receive again.
    Update,
    /// Update the group with the snapshot, render, then receive again. A
    /// failure to render is reported and changes nothing.
    UpdateAndRender,
    /// Render for the last time and report `Rendered`, without receiving
    /// again.
    RenderFinal,
    /// Leave.
    Exit,
    /// Nothing: the event has no meaning where the task stands.
    Ignore,
}

/// A watcher task as a contract sees it.
pub struct TaskView {
    pub phase: Phase,
    /// Whether the task follows a live source, and so renders as it goes.
    pub realtime: bool,
    /// The number of snapshots received since the count of all received was
    /// last a multiple of `RENDER_EVERY`.
    pub pending: nat,
}

/// Whether `event` is a receive attempt that failed.
pub open spec fn is_failure(event: Event) -> bool {
    event is Closed || event is Overrun
}

/// The task after `event`, and what it has to do.
///
/// A running task counts each snapshot, and every `RENDER_EVERY`th one makes
/// a live task render. Any failed receive, an overrun like a closed channel,
/// ends the receiving for good: one last render, then the exit.
pub open spec fn next(task: TaskView, event: Event) -> (TaskView, Action) {
    match (task.phase, event) {
        (Phase::Uninitialized, Event::Started) => (
            TaskView { phase: Phase::Running, ..task },
            Action::Subscribe,
        ),
        (Phase::Running, Event::Received) => {
            let pending = (task.pending + 1) % (RENDER_EVERY as nat);
            (
                TaskView { pending, ..task },
                if task.realtime && pending == 0 {
                    Action::UpdateAndRender
                } else {
                    Action::Update
                },
            )
        },
        (Phase::Running, Event::Closed) | (Phase::Running, Event::Overrun(_)) => (
            TaskView { phase: Phase::Draining, ..task },
            Action::RenderFinal,
        ),
        (Phase::Draining, Event::Rendered) => (
            TaskView { phase: Phase::Terminated, ..task },
            Action::Exit,
        ),
        _ => (task, Action::Ignore),
    }
}

/// The state of one watcher task.
pub struct WatcherTask {
    phase: Phase,
    realtime: bool,
    pending: u64,
}

impl View for WatcherTask {
    type V = TaskView;

    closed spec fn view(&self) -> TaskView {
        TaskView { phase: self.phase, realtime: self.realtime, pending: self.pending as nat }
    }
}

impl WatcherTask {
    #[verifier::type_invariant]
    spec fn in_cadence(self) -> bool {
        self.pending < RENDER_EVERY
    }

    /// A task that has not started. A task with `realtime` renders as it
    /// goes; one without renders only at its end.
    pub fn new(realtime: bool) -> (task: Self)
        ensures
            task@ == (TaskView { phase: Phase::Uninitialized, realtime, pending: 0 }),
    {
        WatcherTask { phase: Phase::Uninitialized, realtime, pending: 0 }
    }

    /// Where the task stands.
    pub fn phase(&self) -> (phase: Phase)
        ensures
            phase == self@.phase,
    {
        self.phase
    }

    /// Takes note of `event` and says what to do.
    pub fn step(&mut self, event: Event) -> (action: Action)
        ensures
            (final(self)@, action) == next(old(self)@, event),
            final(self)@.pending < RENDER_EVERY,
    {
        proof {
            use_type_invariant(&*self);
        }
        match (self.phase, event) {
            (Phase::Uninitialized, Event::Started) => {
                self.phase = Phase::Running;
                Action::Subscribe
            },
            (Phase::Running, Event::Received) => {
                self.pending = (self.pending + 1) % RENDER_EVERY;
                if self.realtime && self.pending == 0 {
                    Action::UpdateAndRender
                } else {
                    Action::Update
                }
            },
            (Phase::Running, Event::Closed) | (Phase::Running, Event::Overrun(_)) => {
                self.phase = Phase::Draining;
                Action::RenderFinal
            },
            (Phase::Draining, Event::Rendered) => {
                self.phase = Phase::Terminated;
                Action::Exit
            },
            _ => Action::Ignore,
        }
    }
}

/// The task after all of `events`, oldest first, and what it had to do for
/// each of them.
pub open spec fn run(task: TaskView, events: Seq<Event>) -> (TaskView, Seq<Action>)
    decreases events.len(),
{
    if events.len() == 0 {
        (task, Seq::empty())
    } else {
        let (before, actions) = run(task, events.drop_last());
        let (after, action) = next(before, events.last());
        (after, actions.push(action))
    }
}

/// How often `action` stands in `actions`.
pub open spec fn times(actions: Seq<Action>, action: Action) -> nat
    decreases actions.len(),
{
    if actions.len() == 0 {
        0
    } else {
        times(actions.drop_last(), action) + if actions.last() == action {
            1nat
        } else {
            0nat
        }
    }
}

/// A running task whose receive fails, because the channel is closed or
/// because the task was overrun, renders exactly once more and updates its
/// group never again, whatever happens after the failure. It has terminated
/// as soon as that render was reported.
pub proof fn law_failed_receive_ends_task(task: TaskView, events: Seq<Event>)
    requires
        task.phase == Phase::Running,
        events.len() > 0,
        is_failure(events[0]),
    ensures
        run(task, events).1.len() == events.len(),
        run(task, events).1[0] == Action::RenderFinal,
        times(run(task, events).1, Action::RenderFinal) == 1,
        times(run(task, events).1, Action::Update) == 0,
        times(run(task, events).1, Action::UpdateAndRender) == 0,
        run(task, events).0.phase == Phase::Draining || run(task, events).0.phase
            == Phase::Terminated,
        events.contains(Event::Rendered) ==> run(task, events).0.phase == Phase::Terminated,
    decreases events.len(),
{
    let earlier = events.drop_last();
    if earlier.len() == 0 {
        let actions = run(task, events).1;
        assert(times(actions.drop_last(), Action::RenderFinal) == 0);
        assert(times(actions.drop_last(), Action::Update) == 0);
        assert(times(actions.drop_last(), Action::UpdateAndRender) == 0);
    } else {
        law_failed_receive_ends_task(task, earlier);
        let actions = run(task, events).1;
        assert(actions.drop_last() =~= run(task, earlier).1);
        if events.contains(Event::Rendered) {
            let i = choose|i: int| 0 <= i < events.len() && events[i] == Event::Rendered;
            if i < earlier.len() {
                assert(earlier[i] == Event::Rendered);
            }
        }
    }
}

/// A task that has started and has received `n` snapshots and nothing else.
pub open spec fn after_snapshots(realtime: bool, n: nat) -> (TaskView, Seq<Action>) {
    run(
        TaskView { phase: Phase::Running, realtime, pending: 0 },
        Seq::new(n, |i: int| Event::Received),
    )
}

/// A live task renders after each snapshot whose number, counted from one,
/// is a multiple of `RENDER_EVERY`, and after no other. A task that replays
/// a recording renders after none. Either updates its group with each.
pub proof fn law_render_cadence(realtime: bool, n: nat)
    ensures
        after_snapshots(realtime, n).0 == (TaskView {
            phase: Phase::Running,
            realtime,
            pending: n % (RENDER_EVERY as nat),
        }),
        after_snapshots(realtime, n).1.len() == n,
        forall|k: int|
            0 <= k < n ==> #[trigger] after_snapshots(realtime, n).1[k] == if realtime && (k + 1)
                % (RENDER_EVERY as int) == 0 {
                Action::UpdateAndRender
            } else {
                Action::Update
            },
    decreases n,
{
    if n > 0 {
        let fewer = (n - 1) as nat;
        let events = Seq::new(n, |i: int| Event::Received);
        law_render_cadence(realtime, fewer);
        assert(events.drop_last() =~= Seq::new(fewer, |i: int| Event::Received));
    }
}

} // verus!
