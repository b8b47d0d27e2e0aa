use beatperf::driver::BACKLOG;
use beatperf::groups::generic::{Generic, NoOpProcess};
use beatperf::watchers::{Action, Event, Phase, WatcherTask, RENDER_EVERY};
use serde_json::Value;
use tokio::sync::broadcast::error::TryRecvError;
use tokio::sync::broadcast::{channel, Receiver};

type Snapshot = serde_json::Map<String, Value>;

fn snapshot(n: u64) -> Snapshot {
    serde_json::from_str(&format!(r#"{{"n": {}}}"#, n)).unwrap()
}

/// What a watcher did in its life.
struct Seen {
    updates: usize,
    renders: usize,
    final_renders: usize,
    phase: Phase,
}

/// Runs a watcher on `rx` until it leaves or there is nothing to receive.
fn watch(rx: &mut Receiver<Snapshot>, realtime: bool) -> Seen {
    let mut group: Generic<u64, NoOpProcess<u64>> = Generic::from(vec!["n"]);
    let mut task = WatcherTask::new(realtime);
    let mut seen = Seen { updates: 0, renders: 0, final_renders: 0, phase: task.phase() };
    assert_eq!(task.step(Event::Started), Action::Subscribe);
    loop {
        let (event, snapshot) = match rx.try_recv() {
            Ok(snapshot) => (Event::Received, Some(snapshot)),
            Err(TryRecvError::Closed) => (Event::Closed, None),
            Err(TryRecvError::Lagged(n)) => (Event::Overrun(n), None),
            Err(TryRecvError::Empty) => break,
        };
        match task.step(event) {
            Action::Update => {
                group.update(&snapshot.unwrap());
                seen.updates += 1;
            }
            Action::UpdateAndRender => {
                group.update(&snapshot.unwrap());
                seen.updates += 1;
                seen.renders += 1;
            }
            Action::RenderFinal => {
                seen.final_renders += 1;
                assert_eq!(task.phase(), Phase::Draining);
                assert_eq!(task.step(Event::Rendered), Action::Exit);
                break;
            }
            other => panic!("unexpected {:?}", other),
        }
    }
    assert_eq!(group.datapoints(), seen.updates);
    seen.phase = task.phase();
    seen
}

#[test]
fn overrun_subscriber_terminates_after_one_final_render() {
    // The channel holds the next power of two of what it was asked for.
    for capacity in [1usize, 2, 4, 16, BACKLOG.next_power_of_two()] {
        let (tx, mut rx) = channel::<Snapshot>(capacity);
        for n in 0..=capacity {
            tx.send(snapshot(n as u64)).unwrap();
        }
        let seen = watch(&mut rx, true);
        assert_eq!(seen.phase, Phase::Terminated);
        assert_eq!(seen.final_renders, 1);
        assert_eq!(seen.updates, 0);
        assert_eq!(seen.renders, 0);
        assert!(rx.try_recv().is_ok());
    }
}

#[test]
fn subscriber_within_the_backlog_is_not_overrun() {
    let (tx, mut rx) = channel::<Snapshot>(BACKLOG);
    for n in 0..BACKLOG {
        tx.send(snapshot(n as u64)).unwrap();
    }
    let seen = watch(&mut rx, false);
    assert_eq!(seen.phase, Phase::Running);
    assert_eq!(seen.updates, BACKLOG);
    assert_eq!(seen.final_renders, 0);
}

#[test]
fn closed_channel_terminates_after_the_backlog() {
    let (tx, mut rx) = channel::<Snapshot>(BACKLOG);
    for n in 0..12 {
        tx.send(snapshot(n)).unwrap();
    }
    drop(tx);
    let seen = watch(&mut rx, true);
    assert_eq!(seen.phase, Phase::Terminated);
    assert_eq!(seen.updates, 12);
    assert_eq!(seen.renders, 2);
    assert_eq!(seen.final_renders, 1);
}

#[test]
fn replay_renders_only_at_the_end() {
    let (tx, mut rx) = channel::<Snapshot>(BACKLOG);
    for n in 0..12 {
        tx.send(snapshot(n)).unwrap();
    }
    drop(tx);
    let seen = watch(&mut rx, false);
    assert_eq!(seen.phase, Phase::Terminated);
    assert_eq!(seen.updates, 12);
    assert_eq!(seen.renders, 0);
    assert_eq!(seen.final_renders, 1);
}

#[test]
fn live_task_renders_every_fifth_snapshot() {
    assert_eq!(RENDER_EVERY, 5);
    let mut task = WatcherTask::new(true);
    assert_eq!(task.phase(), Phase::Uninitialized);
    assert_eq!(task.step(Event::Started), Action::Subscribe);
    assert_eq!(task.phase(), Phase::Running);
    for n in 1..=23 {
        let expected = if n % 5 == 0 { Action::UpdateAndRender } else { Action::Update };
        assert_eq!(task.step(Event::Received), expected);
        assert_eq!(task.phase(), Phase::Running);
    }
}

#[test]
fn events_out_of_place_are_ignored() {
    let mut task = WatcherTask::new(true);
    for event in [Event::Received, Event::Closed, Event::Overrun(3), Event::Rendered] {
        assert_eq!(task.step(event), Action::Ignore);
        assert_eq!(task.phase(), Phase::Uninitialized);
    }
    assert_eq!(task.step(Event::Started), Action::Subscribe);
    for event in [Event::Started, Event::Rendered] {
        assert_eq!(task.step(event), Action::Ignore);
        assert_eq!(task.phase(), Phase::Running);
    }
    assert_eq!(task.step(Event::Overrun(1)), Action::RenderFinal);
    for event in [Event::Started, Event::Received, Event::Closed, Event::Overrun(3)] {
        assert_eq!(task.step(event), Action::Ignore);
        assert_eq!(task.phase(), Phase::Draining);
    }
    assert_eq!(task.step(Event::Rendered), Action::Exit);
    for event in
        [Event::Started, Event::Received, Event::Closed, Event::Overrun(3), Event::Rendered]
    {
        assert_eq!(task.step(event), Action::Ignore);
        assert_eq!(task.phase(), Phase::Terminated);
    }
}
