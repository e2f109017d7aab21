//! The watcher that tells the user interface whether the Docker daemon is
//! reachable and forwards the daemon's events. The driver performs the
//! effects and feeds back what happened; this module decides.
use vstd::prelude::*;

verus! {

/// Where the watcher stands.
#[derive(PartialEq, Eq, Structural, Clone, Copy, Debug)]
pub enum MonitorState {
    /// Between attempts: the next event is a wake-up.
    Idle,
    /// A client for the daemon is being made.
    Connecting,
    /// The daemon is being pinged before events are followed.
    Checking,
    /// Waiting for the next daemon event or the heartbeat timer.
    Streaming,
    /// The heartbeat fired and the daemon is being pinged.
    Verifying,
}

/// What happened since the last decision.
#[derive(PartialEq, Eq, Structural, Clone, Copy, Debug)]
pub enum MonitorEvent {
    /// The watcher woke up; `stopped` tells whether the user stopped Docker on purpose.
    Wake { stopped: bool },
    /// Making a client succeeded or failed.
    Connected { ok: bool },
    /// A ping succeeded or failed.
    Pinged { ok: bool },
    /// The event stream gave an event (`ok`), or an error or its end.
    StreamItem { ok: bool },
    /// The heartbeat timer fired before the next event.
    Heartbeat,
}

/// What the driver is asked to do, in order.
#[derive(PartialEq, Eq, Structural, Clone, Copy, Debug)]
pub enum MonitorEffect {
    /// Tell the interface whether the daemon is reachable.
    ReportStatus(bool),
    /// Pass the event just received on to the interface.
    ForwardEvent,
    /// Wait this many seconds, then wake up.
    Sleep(u64),
    /// Make a client for the daemon.
    Connect,
    /// Ping the daemon.
    Ping,
    /// Subscribe to the daemon's events.
    Subscribe,
    /// Wait for the next event or for the three-second heartbeat.
    AwaitStream,
}

/// A decision: the next state and the effects to perform.
pub struct MonitorStep {
    pub next: MonitorState,
    pub effects: Vec<MonitorEffect>,
}

/// Seconds to wait after a failed connection, a lost stream or while Docker is stopped.
pub open spec fn retry_delay() -> u64 {
    5
}

/// Seconds to wait after a failed first ping.
pub open spec fn ping_retry_delay() -> u64 {
    2
}

/// Gives up on the daemon: report it unreachable and wait.
pub open spec fn give_up(delay: u64) -> (MonitorState, Seq<MonitorEffect>) {
    (MonitorState::Idle, seq![MonitorEffect::ReportStatus(false), MonitorEffect::Sleep(delay)])
}

/// The decision for `event` in `state`. An event that cannot occur in a
/// state changes nothing.
pub open spec fn monitor_next(state: MonitorState, event: MonitorEvent) -> (MonitorState, Seq<MonitorEffect>) {
    match (state, event) {
        (MonitorState::Idle, MonitorEvent::Wake { stopped }) => if stopped {
            give_up(retry_delay())
        } else {
            (MonitorState::Connecting, seq![MonitorEffect::Connect])
        },
        (MonitorState::Connecting, MonitorEvent::Connected { ok }) => if ok {
            (MonitorState::Checking, seq![MonitorEffect::Ping])
        } else {
            give_up(retry_delay())
        },
        (MonitorState::Checking, MonitorEvent::Pinged { ok }) => if ok {
            (
                MonitorState::Streaming,
                seq![
                    MonitorEffect::ReportStatus(true),
                    MonitorEffect::Subscribe,
                    MonitorEffect::AwaitStream,
                ],
            )
        } else {
            give_up(ping_retry_delay())
        },
        (MonitorState::Streaming, MonitorEvent::StreamItem { ok }) => if ok {
            (MonitorState::Streaming, seq![MonitorEffect::ForwardEvent, MonitorEffect::AwaitStream])
        } else {
            give_up(retry_delay())
        },
        (MonitorState::Streaming, MonitorEvent::Heartbeat) => (
            MonitorState::Verifying,
            seq![MonitorEffect::Ping],
        ),
        (MonitorState::Verifying, MonitorEvent::Pinged { ok }) => if ok {
            (MonitorState::Streaming, seq![MonitorEffect::AwaitStream])
        } else {
            give_up(retry_delay())
        },
        _ => (state, Seq::<MonitorEffect>::empty()),
    }
}

fn give_up_step(delay: u64) -> (step: MonitorStep)
    ensures
        (step.next, step.effects@) == give_up(delay),
{
    let mut effects: Vec<MonitorEffect> = Vec::new();
    effects.push(MonitorEffect::ReportStatus(false));
    effects.push(MonitorEffect::Sleep(delay));
    assert(effects@ =~= give_up(delay).1);
    MonitorStep { next: MonitorState::Idle, effects: effects }
}

fn single_step(next: MonitorState, e: MonitorEffect) -> (step: MonitorStep)
    ensures
        step.next == next,
        step.effects@ == seq![e],
{
    let mut effects: Vec<MonitorEffect> = Vec::new();
    effects.push(e);
    assert(effects@ =~= seq![e]);
    MonitorStep { next: next, effects: effects }
}

/// Decides what the watcher does after `event` in `state`.
pub fn monitor_step(state: MonitorState, event: MonitorEvent) -> (step: MonitorStep)
    ensures
        (step.next, step.effects@) == monitor_next(state, event),
{
    match (state, event) {
        (MonitorState::Idle, MonitorEvent::Wake { stopped }) => if stopped {
            give_up_step(5)
        } else {
            single_step(MonitorState::Connecting, MonitorEffect::Connect)
        },
        (MonitorState::Connecting, MonitorEvent::Connected { ok }) => if ok {
            single_step(MonitorState::Checking, MonitorEffect::Ping)
        } else {
            give_up_step(5)
        },
        (MonitorState::Checking, MonitorEvent::Pinged { ok }) => if ok {
            let mut effects: Vec<MonitorEffect> = Vec::new();
            effects.push(MonitorEffect::ReportStatus(true));
            effects.push(MonitorEffect::Subscribe);
            effects.push(MonitorEffect::AwaitStream);
            assert(effects@ =~= monitor_next(state, event).1);
            MonitorStep { next: MonitorState::Streaming, effects: effects }
        } else {
            give_up_step(2)
        },
        (MonitorState::Streaming, MonitorEvent::StreamItem { ok }) => if ok {
            let mut effects: Vec<MonitorEffect> = Vec::new();
            effects.push(MonitorEffect::ForwardEvent);
            effects.push(MonitorEffect::AwaitStream);
            assert(effects@ =~= monitor_next(state, event).1);
            MonitorStep { next: MonitorState::Streaming, effects: effects }
        } else {
            give_up_step(5)
        },
        (MonitorState::Streaming, MonitorEvent::Heartbeat) => single_step(
            MonitorState::Verifying,
            MonitorEffect::Ping,
        ),
        (MonitorState::Verifying, MonitorEvent::Pinged { ok }) => if ok {
            single_step(MonitorState::Streaming, MonitorEffect::AwaitStream)
        } else {
            give_up_step(5)
        },
        _ => {
            let effects: Vec<MonitorEffect> = Vec::new();
            assert(effects@ =~= Seq::<MonitorEffect>::empty());
            MonitorStep { next: state, effects: effects }
        },
    }
}

/// While Docker is stopped on purpose the watcher never contacts the daemon:
/// a wake-up then reports the daemon unreachable and waits five seconds.
pub proof fn lemma_stopped_never_connects(state: MonitorState)
    ensures
        state == MonitorState::Idle ==> monitor_next(state, MonitorEvent::Wake { stopped: true })
            == give_up(retry_delay()),
        !monitor_next(state, MonitorEvent::Wake { stopped: true }).1.contains(MonitorEffect::Connect),
        !monitor_next(state, MonitorEvent::Wake { stopped: true }).1.contains(MonitorEffect::Ping),
{
    let effs = monitor_next(state, MonitorEvent::Wake { stopped: true }).1;
    if state == MonitorState::Idle {
        assert(effs[0] != MonitorEffect::Connect && effs[1] != MonitorEffect::Connect);
        assert(effs[0] != MonitorEffect::Ping && effs[1] != MonitorEffect::Ping);
    }
}

/// The daemon is reported reachable only right after a ping that succeeded
/// before the events are followed, and that ping is sent only once a client
/// for the daemon was made.
pub proof fn lemma_reachable_only_after_ping(state: MonitorState, event: MonitorEvent)
    ensures
        monitor_next(state, event).1.contains(MonitorEffect::ReportStatus(true)) ==> state
            == MonitorState::Checking && event == (MonitorEvent::Pinged { ok: true }),
        monitor_next(state, event).0 == MonitorState::Checking && state != MonitorState::Checking
            ==> state == MonitorState::Connecting && event == (MonitorEvent::Connected { ok: true }),
{
    let effs = monitor_next(state, event).1;
    if effs.contains(MonitorEffect::ReportStatus(true)) {
        let i = choose|i: int| 0 <= i < effs.len() && effs[i] == MonitorEffect::ReportStatus(true);
        assert(effs[i] == MonitorEffect::ReportStatus(true));
    }
}

/// Whenever the watcher falls back to waiting between attempts (and does
/// anything at all), it first reports the daemon unreachable and then
/// sleeps, two seconds after a failed first ping and five otherwise.
pub proof fn lemma_fallback_reports_down(state: MonitorState, event: MonitorEvent)
    ensures
        ({
            let (next, effs) = monitor_next(state, event);
            next == MonitorState::Idle && effs.len() > 0 ==> effs == give_up(retry_delay()).1 || effs
                == give_up(ping_retry_delay()).1
        }),
        ({
            let (next, effs) = monitor_next(state, event);
            effs == give_up(ping_retry_delay()).1 ==> state == MonitorState::Checking && event == (
            MonitorEvent::Pinged { ok: false })
        }),
{
}

/// Events are forwarded only while they are being followed, and each
/// forwarded event is followed by waiting for the next one.
pub proof fn lemma_forward_only_while_streaming(state: MonitorState, event: MonitorEvent)
    ensures
        monitor_next(state, event).1.contains(MonitorEffect::ForwardEvent) ==> state
            == MonitorState::Streaming && event == (MonitorEvent::StreamItem { ok: true })
            && monitor_next(state, event) == (
        MonitorState::Streaming,
        seq![MonitorEffect::ForwardEvent, MonitorEffect::AwaitStream],
        ),
{
    let effs = monitor_next(state, event).1;
    if effs.contains(MonitorEffect::ForwardEvent) {
        let i = choose|i: int| 0 <= i < effs.len() && effs[i] == MonitorEffect::ForwardEvent;
        assert(effs[i] == MonitorEffect::ForwardEvent);
    }
}

/// The states in which the daemon was last reported reachable.
pub open spec fn reported_up(state: MonitorState) -> bool {
    state == MonitorState::Streaming || state == MonitorState::Verifying
}

/// The watcher follows events (or checks the daemon while following them)
/// only after reporting it reachable: entering those states reports
/// reachable, and leaving them reports unreachable.
pub proof fn lemma_status_matches_state(state: MonitorState, event: MonitorEvent)
    ensures
        !reported_up(state) && reported_up(monitor_next(state, event).0) ==> monitor_next(
            state,
            event,
        ).1.contains(MonitorEffect::ReportStatus(true)),
        reported_up(state) && !reported_up(monitor_next(state, event).0) ==> monitor_next(
            state,
            event,
        ).1.contains(MonitorEffect::ReportStatus(false)),
{
    let (next, effs) = monitor_next(state, event);
    if !reported_up(state) && reported_up(next) {
        assert(effs[0] == MonitorEffect::ReportStatus(true));
    }
    if reported_up(state) && !reported_up(next) {
        assert(effs[0] == MonitorEffect::ReportStatus(false));
    }
}

/// The watcher's state and the effects it asked for, in order, after
/// deciding on each of `events` in turn from `state`.
pub open spec fn run(state: MonitorState, events: Seq<MonitorEvent>) -> (MonitorState, Seq<MonitorEffect>)
    decreases events.len(),
{
    if events.len() == 0 {
        (state, Seq::<MonitorEffect>::empty())
    } else {
        let (s, effs) = run(state, events.drop_last());
        let (s2, more) = monitor_next(s, events.last());
        (s2, effs + more)
    }
}

/// Whether `effs` reports a status at all.
pub open spec fn has_status(effs: Seq<MonitorEffect>) -> bool
    decreases effs.len(),
{
    if effs.len() == 0 {
        false
    } else {
        match effs.last() {
            MonitorEffect::ReportStatus(_) => true,
            _ => has_status(effs.drop_last()),
        }
    }
}

/// Whether the last status that `effs` reports is "reachable" (false when
/// it reports none).
pub open spec fn last_up(effs: Seq<MonitorEffect>) -> bool
    decreases effs.len(),
{
    if effs.len() == 0 {
        false
    } else {
        match effs.last() {
            MonitorEffect::ReportStatus(up) => up,
            _ => last_up(effs.drop_last()),
        }
    }
}

/// The number of events that `effs` forwards.
pub open spec fn forward_count(effs: Seq<MonitorEffect>) -> nat
    decreases effs.len(),
{
    if effs.len() == 0 {
        0
    } else {
        forward_count(effs.drop_last()) + if effs.last() == MonitorEffect::ForwardEvent {
            1nat
        } else {
            0nat
        }
    }
}

/// The number of daemon events delivered to the watcher while it was
/// following the event stream, over a run.
pub open spec fn delivered(state: MonitorState, events: Seq<MonitorEvent>) -> nat
    decreases events.len(),
{
    if events.len() == 0 {
        0
    } else {
        delivered(state, events.drop_last()) + if run(state, events.drop_last()).0
            == MonitorState::Streaming && events.last() == (MonitorEvent::StreamItem { ok: true }) {
            1nat
        } else {
            0nat
        }
    }
}

/// Every event forwarded in `effs` comes after a "reachable" report with no
/// "unreachable" report in between.
pub open spec fn forwards_while_up(effs: Seq<MonitorEffect>) -> bool {
    forall|i: int|
        0 <= i < effs.len() && #[trigger] effs[i] == MonitorEffect::ForwardEvent ==> last_up(effs.take(i))
}

proof fn lemma_concat(e: Seq<MonitorEffect>, f: Seq<MonitorEffect>)
    ensures
        last_up(e + f) == if has_status(f) {
            last_up(f)
        } else {
            last_up(e)
        },
        forward_count(e + f) == forward_count(e) + forward_count(f),
    decreases f.len(),
{
    if f.len() == 0 {
        assert(e + f =~= e);
    } else {
        lemma_concat(e, f.drop_last());
        assert((e + f).drop_last() =~= e + f.drop_last());
        assert((e + f).last() == f.last());
    }
}

proof fn lemma_small_seqs(a: MonitorEffect, b: MonitorEffect, c: MonitorEffect)
    ensures
        seq![a].drop_last() =~= Seq::<MonitorEffect>::empty(),
        seq![a, b].drop_last() =~= seq![a],
        seq![a, b, c].drop_last() =~= seq![a, b],
{
}

/// One decision keeps the link between the state and the last reported
/// status, forwards only while the last report was "reachable", and
/// forwards exactly the event just delivered while following the stream.
proof fn lemma_step_trace(state: MonitorState, event: MonitorEvent, e: Seq<MonitorEffect>)
    requires
        reported_up(state) == last_up(e),
        forwards_while_up(e),
    ensures
        reported_up(monitor_next(state, event).0) == last_up(e + monitor_next(state, event).1),
        forwards_while_up(e + monitor_next(state, event).1),
        forward_count(monitor_next(state, event).1) == if state == MonitorState::Streaming && event
            == (MonitorEvent::StreamItem { ok: true }) {
            1nat
        } else {
            0nat
        },
{
    let (next, more) = monitor_next(state, event);
    let all = e + more;
    lemma_concat(e, more);
    reveal_with_fuel(has_status, 4);
    reveal_with_fuel(last_up, 4);
    reveal_with_fuel(forward_count, 4);
    lemma_small_seqs(MonitorEffect::ReportStatus(true), MonitorEffect::Subscribe, MonitorEffect::AwaitStream);
    lemma_small_seqs(MonitorEffect::ReportStatus(false), MonitorEffect::Sleep(5), MonitorEffect::Sleep(5));
    lemma_small_seqs(MonitorEffect::ReportStatus(false), MonitorEffect::Sleep(2), MonitorEffect::Sleep(2));
    lemma_small_seqs(MonitorEffect::ForwardEvent, MonitorEffect::AwaitStream, MonitorEffect::AwaitStream);
    lemma_small_seqs(MonitorEffect::Connect, MonitorEffect::Connect, MonitorEffect::Connect);
    lemma_small_seqs(MonitorEffect::Ping, MonitorEffect::Ping, MonitorEffect::Ping);
    lemma_small_seqs(MonitorEffect::AwaitStream, MonitorEffect::AwaitStream, MonitorEffect::AwaitStream);
    assert forall|i: int| 0 <= i < all.len() && #[trigger] all[i] == MonitorEffect::ForwardEvent implies last_up(all.take(i)) by {
        if i < e.len() {
            assert(all[i] == e[i]);
            assert(all.take(i) =~= e.take(i));
        } else {
            assert(more[i - e.len()] == MonitorEffect::ForwardEvent);
            assert(state == MonitorState::Streaming && event == (MonitorEvent::StreamItem { ok: true })) by {
                lemma_forward_only_while_streaming(state, event);
                assert(more.contains(MonitorEffect::ForwardEvent));
            }
            assert(more == seq![MonitorEffect::ForwardEvent, MonitorEffect::AwaitStream]);
            assert(i == e.len());
            assert(all.take(i) =~= e);
        }
    }
}

/// Over any run of decisions from the idle state: the watcher follows the
/// event stream exactly when the last status it reported was "reachable";
/// every forwarded event comes after a "reachable" report with no
/// "unreachable" report in between; and it forwards exactly one event for
/// each event the stream delivered while it was following it.
pub proof fn lemma_run_forwards_only_while_up(events: Seq<MonitorEvent>)
    ensures
        reported_up(run(MonitorState::Idle, events).0) == last_up(run(MonitorState::Idle, events).1),
        forwards_while_up(run(MonitorState::Idle, events).1),
        forward_count(run(MonitorState::Idle, events).1) == delivered(MonitorState::Idle, events),
    decreases events.len(),
{
    if events.len() > 0 {
        let prev = events.drop_last();
        lemma_run_forwards_only_while_up(prev);
        let (s, effs) = run(MonitorState::Idle, prev);
        lemma_step_trace(s, events.last(), effs);
        lemma_concat(effs, monitor_next(s, events.last()).1);
    }
}

} // verus!
