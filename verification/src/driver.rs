//! The decisions of the loop that feeds the watchers: which watchers there
//! are, where the snapshots come from, and what becomes of each poll.

use crate::config::Settings;
use vstd::prelude::*;

verus! {

/// How many snapshots the channel to the watchers holds for one that has
/// fallen behind, before it counts as overrun.
pub const BACKLOG: usize = 100;

/// The kinds of watcher that a run can have.
#[derive(Clone, Copy, Debug, PartialEq, Eq, Structural)]
pub enum WatcherKind {
    Memory,
    ProcessDb,
    Pipeline,
    Output,
    KernelTracing,
    Custom,
}

/// One kind if `wanted`, none otherwise.
pub open spec fn when(wanted: bool, kind: WatcherKind) -> Seq<WatcherKind> {
    if wanted {
        seq![kind]
    } else {
        Seq::empty()
    }
}

/// The watchers that `settings` asks for, in the order in which they are
/// started.
pub open spec fn wanted(settings: Settings) -> Seq<WatcherKind> {
    when(settings.memory, WatcherKind::Memory) + when(settings.processdb, WatcherKind::ProcessDb)
        + when(settings.pipeline, WatcherKind::Pipeline) + when(
        settings.output,
        WatcherKind::Output,
    ) + when(settings.kernel_tracing, WatcherKind::KernelTracing) + when(
        settings.metrics.is_some(),
        WatcherKind::Custom,
    )
}

/// The watchers to start for `args`, in order.
pub fn generate_readers(args: &Settings) -> (kinds: Vec<WatcherKind>)
    ensures
        kinds@ == wanted(*args),
{
    let mut kinds: Vec<WatcherKind> = Vec::new();
    if args.memory {
        kinds.push(WatcherKind::Memory);
    }
    if args.processdb {
        kinds.push(WatcherKind::ProcessDb);
    }
    if args.pipeline {
        kinds.push(WatcherKind::Pipeline);
    }
    if args.output {
        kinds.push(WatcherKind::Output);
    }
    if args.kernel_tracing {
        kinds.push(WatcherKind::KernelTracing);
    }
    if args.metrics.is_some() {
        kinds.push(WatcherKind::Custom);
    }
    kinds
}

/// Where the snapshots of a run come from.
pub enum Source {
    /// The recording in the file at this path.
    Replay(String),
    /// The endpoint at this URL, polled as long as the run lasts.
    Live(String),
}

/// The URL at which the beat at `endpoint` serves its statistics.
pub fn stats_url(endpoint: &str) -> (url: String)
    ensures
        url@ == "http://"@ + endpoint@ + "/stats"@,
{
    let mut url = String::from_str("http://");
    url.append(endpoint);
    url.append("/stats");
    url
}

/// The source that `args` asks for: the recording if one is named, the
/// endpoint otherwise.
pub fn source(args: &Settings) -> (from: Source)
    ensures
        match args.read {
            Some(path) => from matches Source::Replay(file) && file@ == path@,
            None => from matches Source::Live(url) && url@ == "http://"@ + args.endpoint@
                + "/stats"@,
        },
{
    match &args.read {
        Some(path) => Source::Replay(path.clone()),
        None => Source::Live(stats_url(args.endpoint.as_str())),
    }
}

/// What wakes the loop of a live run.
#[derive(Clone, Copy, Debug, PartialEq, Eq, Structural)]
pub enum Wake {
    /// The run was cancelled.
    Cancelled,
    /// The time for the next poll has come.
    Tick,
}

/// What the loop of a live run does when it wakes.
#[derive(Clone, Copy, Debug, PartialEq, Eq, Structural)]
pub enum Turn {
    /// Stop producing and return, which closes the channel to the watchers.
    Stop,
    /// Fetch a snapshot.
    Poll,
}

/// What becomes of a poll.
#[derive(Clone, Copy, Debug, PartialEq, Eq, Structural)]
pub enum Relay {
    /// Nobody listens: the outcome is dropped.
    Drop,
    /// The snapshot is sent to the watchers.
    Send,
    /// The failure is reported, and the loop goes on.
    Report,
}

/// What the loop does when `wake` wakes it.
pub fn on_wake(wake: Wake) -> (turn: Turn)
    ensures
        turn == match wake {
            Wake::Cancelled => Turn::Stop,
            Wake::Tick => Turn::Poll,
        },
{
    match wake {
        Wake::Cancelled => Turn::Stop,
        Wake::Tick => Turn::Poll,
    }
}

/// What becomes of a poll that has `fetched` a snapshot or failed to, with
/// this many watchers listening.
pub fn on_poll(receivers: usize, fetched: bool) -> (relay: Relay)
    ensures
        relay == if receivers == 0 {
            Relay::Drop
        } else if fetched {
            Relay::Send
        } else {
            Relay::Report
        },
{
    if receivers == 0 {
        Relay::Drop
    } else if fetched {
        Relay::Send
    } else {
        Relay::Report
    }
}

} // verus!
