//! The boot-event monitor: reads one workload's event stream and decides
//! whether it became healthy or failed to.
use vstd::prelude::*;

verus! {

/// The kind of a message on a workload's event stream.
#[derive(Clone, Copy, Debug, PartialEq, Eq, Structural)]
pub enum InstanceLogType {
    State,
    System,
    Stdout,
    Stderr,
}

/// The lifecycle states a booting workload reports.
#[derive(Clone, Copy, Debug, PartialEq, Eq, Structural)]
pub enum VmInitState {
    Online,
    PullingContainerImage,
    ExecutingContainer,
}

/// One message of the event stream.
#[derive(Debug)]
pub struct InstanceLogMessage {
    pub log_type: InstanceLogType,
    pub timestamp_ms: u64,
    pub message: Option<String>,
    pub state: Option<VmInitState>,
}

impl InstanceLogMessage {
    /// The whole seconds and the remaining nanoseconds of the timestamp.
    pub fn timestamp_parts(&self) -> (r: (u64, u32))
        ensures
            r.0 == self.timestamp_ms / 1000,
            r.1 == (self.timestamp_ms % 1000) * 1_000_000,
    {
        let millis = self.timestamp_ms % 1000;
        assert(millis * 1_000_000 < 1_000_000_000) by (nonlinear_arith)
            requires
                millis < 1000,
        ;
        (self.timestamp_ms / 1000, (millis * 1_000_000) as u32)
    }
}

/// What the monitor is told: a message, the end of the stream (clean or by
/// error), or the elapse of the health deadline it asked for.
#[derive(Debug)]
pub enum StreamEvent {
    Message(InstanceLogMessage),
    Closed,
    DeadlineElapsed,
}

/// Why a workload failed to become healthy.
#[derive(Clone, Copy, Debug, PartialEq, Eq, Structural)]
pub enum BootFailure {
    /// The stream ended before the container was executing.
    ClosedBeforeRunning,
    /// The stream ended during the health window.
    ClosedDuringHealthCheck,
}

/// Where a workload stands in its boot.
#[derive(Clone, Copy, Debug, PartialEq, Eq, Structural)]
pub enum BootStatus {
    Booting,
    Confirming { deadline_ms: u64 },
    Healthy,
    Failed(BootFailure),
}

/// How many log lines are kept for display while booting.
pub const RECENT_LINES: usize = 5;

/// Whether the event reports that the container is executing.
pub open spec fn starts_container(e: StreamEvent) -> bool {
    e matches StreamEvent::Message(m) && m.log_type == InstanceLogType::State && m.state
        == Some(VmInitState::ExecutingContainer)
}

/// The end of a health window that opens at `now`.
pub open spec fn deadline_after(now: u64, window: u64) -> u64 {
    if now as int + window as int <= u64::MAX as int {
        (now + window) as u64
    } else {
        u64::MAX
    }
}

/// The status after an event observed at `now`. The window opens when the
/// container starts executing; later messages neither reset nor extend it.
/// Once the deadline has passed, the deadline won the race, whatever the
/// event.
pub open spec fn next_status(window: u64, s: BootStatus, e: StreamEvent, now: u64) -> BootStatus {
    match s {
        BootStatus::Booting => {
            if starts_container(e) {
                BootStatus::Confirming { deadline_ms: deadline_after(now, window) }
            } else if e is Closed {
                BootStatus::Failed(BootFailure::ClosedBeforeRunning)
            } else {
                s
            }
        },
        BootStatus::Confirming { deadline_ms } => {
            if now >= deadline_ms {
                BootStatus::Healthy
            } else if e is Closed {
                BootStatus::Failed(BootFailure::ClosedDuringHealthCheck)
            } else {
                s
            }
        },
        _ => s,
    }
}

/// The status after a sequence of timed events.
pub open spec fn run_status(window: u64, s: BootStatus, evs: Seq<(StreamEvent, u64)>) -> BootStatus
    decreases evs.len(),
{
    if evs.len() == 0 {
        s
    } else {
        run_status(window, next_status(window, s, evs[0].0, evs[0].1), evs.drop_first())
    }
}

/// The texts of the kept log lines.
pub open spec fn texts(lines: Seq<String>) -> Seq<Seq<char>> {
    lines.map_values(|l: String| l@)
}

/// The kept lines after `line` arrives: the newest `RECENT_LINES` of them.
pub open spec fn keep_recent(lines: Seq<Seq<char>>, line: Seq<char>) -> Seq<Seq<char>> {
    let all = lines.push(line);
    if all.len() > RECENT_LINES {
        all.drop_first()
    } else {
        all
    }
}

/// The text a log message carries, empty when it carries none.
pub open spec fn message_text(m: InstanceLogMessage) -> Seq<char> {
    match m.message {
        Some(t) => t@,
        None => seq![],
    }
}

/// Whether the event is a log line (system, stdout or stderr).
pub open spec fn carries_line(e: StreamEvent) -> bool {
    e matches StreamEvent::Message(m) && m.log_type != InstanceLogType::State
}

/// Whether the event is a lifecycle message that names a state.
pub open spec fn sets_phase(e: StreamEvent) -> bool {
    e matches StreamEvent::Message(m) && m.log_type == InstanceLogType::State && m.state is Some
}

/// Watches one workload's event stream.
#[derive(Debug)]
pub struct BootMonitor {
    pub window_ms: u64,
    pub status: BootStatus,
    pub phase: Option<VmInitState>,
    pub recent: Vec<String>,
}

impl BootMonitor {
    /// A monitor for a workload that has just been created.
    pub fn new(window_ms: u64) -> (r: BootMonitor)
        ensures
            r.window_ms == window_ms,
            r.status == BootStatus::Booting,
            r.phase is None,
            r.recent@.len() == 0,
    {
        BootMonitor { window_ms, status: BootStatus::Booting, phase: None, recent: Vec::new() }
    }

    /// Takes in one event, observed at `now_ms`. While booting, a log
    /// message is kept for display and a lifecycle message sets the phase.
    pub fn observe(&mut self, event: StreamEvent, now_ms: u64)
        requires
            old(self).recent@.len() <= RECENT_LINES,
        ensures
            final(self).window_ms == old(self).window_ms,
            final(self).status == next_status(old(self).window_ms, old(self).status, event, now_ms),
            final(self).recent@.len() <= RECENT_LINES,
            carries_line(event) && old(self).status is Booting ==> texts(final(self).recent@)
                == keep_recent(texts(old(self).recent@), message_text(event->Message_0)),
            !(carries_line(event) && old(self).status is Booting) ==> final(self).recent@ == old(
                self,
            ).recent@,
            sets_phase(event) ==> final(self).phase == event->Message_0.state,
            !sets_phase(event) ==> final(self).phase == old(self).phase,
    {
        let ghost ev = event;
        let status = self.status;
        let next = match status {
            BootStatus::Booting => {
                match &event {
                    StreamEvent::Message(m) => {
                        if m.log_type == InstanceLogType::State && m.state == Some(
                            VmInitState::ExecutingContainer,
                        ) {
                            let deadline_ms = if now_ms <= u64::MAX - self.window_ms {
                                now_ms + self.window_ms
                            } else {
                                u64::MAX
                            };
                            BootStatus::Confirming { deadline_ms }
                        } else {
                            status
                        }
                    },
                    StreamEvent::Closed => BootStatus::Failed(BootFailure::ClosedBeforeRunning),
                    StreamEvent::DeadlineElapsed => status,
                }
            },
            BootStatus::Confirming { deadline_ms } => {
                if now_ms >= deadline_ms {
                    BootStatus::Healthy
                } else {
                    match &event {
                        StreamEvent::Closed => BootStatus::Failed(
                            BootFailure::ClosedDuringHealthCheck,
                        ),
                        _ => status,
                    }
                }
            },
            _ => status,
        };
        self.status = next;
        match event {
            StreamEvent::Message(m) => {
                if let Some(st) = m.state {
                    if m.log_type == InstanceLogType::State {
                        self.phase = Some(st);
                    }
                }
                if m.log_type != InstanceLogType::State && status == BootStatus::Booting {
                    let ghost before = texts(self.recent@);
                    let line = match m.message {
                        Some(t) => t,
                        None => String::new(),
                    };
                    self.recent.push(line);
                    assert(texts(self.recent@) == before.push(message_text(ev->Message_0)));
                    if self.recent.len() > RECENT_LINES {
                        let ghost pushed = self.recent@;
                        self.recent.remove(0);
                        assert(self.recent@ == pushed.drop_first());
                        assert(texts(self.recent@) == texts(pushed).drop_first());
                    }
                }
            },
            _ => {},
        }
    }

    /// The deadline of the health window, once it has opened.
    pub fn deadline(&self) -> (r: Option<u64>)
        ensures
            r == (match self.status {
                BootStatus::Confirming { deadline_ms } => Some(deadline_ms),
                _ => None,
            }),
    {
        match self.status {
            BootStatus::Confirming { deadline_ms } => Some(deadline_ms),
            _ => None,
        }
    }

    /// Whether the monitor has reached a verdict.
    pub fn is_settled(&self) -> (r: bool)
        ensures
            r == (self.status is Healthy || self.status is Failed),
    {
        match self.status {
            BootStatus::Healthy | BootStatus::Failed(_) => true,
            _ => false,
        }
    }
}

/// A monitor waiting for its health window to close at `deadline`.
pub open spec fn waiting_until(deadline: u64) -> BootStatus {
    BootStatus::Confirming { deadline_ms: deadline }
}

/// An event that is no end of stream, observed before `deadline`.
pub open spec fn open_before(ev: (StreamEvent, u64), deadline: u64) -> bool {
    !(ev.0 is Closed) && ev.1 < deadline
}

/// An event that neither ends the stream nor reports an executing container.
pub open spec fn still_booting(e: StreamEvent) -> bool {
    !starts_container(e) && !(e is Closed)
}

/// Running a sequence in two parts is running it whole.
pub proof fn lemma_run_status_split(
    window: u64,
    s: BootStatus,
    a: Seq<(StreamEvent, u64)>,
    b: Seq<(StreamEvent, u64)>,
)
    ensures
        run_status(window, s, a + b) == run_status(window, run_status(window, s, a), b),
    decreases a.len(),
{
    if a.len() > 0 {
        assert((a + b).drop_first() == a.drop_first() + b);
        lemma_run_status_split(window, next_status(window, s, a[0].0, a[0].1), a.drop_first(), b);
    } else {
        assert(a + b == b);
    }
}

/// A workload whose stream stays quiet, or merely goes on talking, until the
/// whole health window has passed after the container started, is healthy:
/// whatever is observed first at or after the deadline, the deadline won.
pub proof fn lemma_quiet_window_is_healthy(
    window: u64,
    start: StreamEvent,
    started_at: u64,
    next: StreamEvent,
    next_at: u64,
)
    requires
        starts_container(start),
        next_at >= deadline_after(started_at, window),
    ensures
        run_status(window, BootStatus::Booting, seq![(start, started_at), (next, next_at)])
            == BootStatus::Healthy,
{
    reveal_with_fuel(run_status, 3);
    let evs = seq![(start, started_at), (next, next_at)];
    assert(evs.drop_first().drop_first().len() == 0);
    assert(evs.drop_first()[0] == (next, next_at));
}

/// Messages inside the health window neither end nor move it: a monitor
/// whose window closes at `deadline` is still waiting on that same deadline.
pub proof fn lemma_window_not_sliding(window: u64, deadline: u64, evs: Seq<(StreamEvent, u64)>)
    requires
        forall|i: int| 0 <= i < evs.len() ==> open_before(#[trigger] evs[i], deadline),
    ensures
        run_status(window, waiting_until(deadline), evs) == waiting_until(deadline),
    decreases evs.len(),
{
    if evs.len() > 0 {
        assert(open_before(evs[0], deadline));
        let rest = evs.drop_first();
        assert forall|i: int| 0 <= i < rest.len() implies open_before(#[trigger] rest[i], deadline) by {
            assert(rest[i] == evs[i + 1]);
        }
        lemma_window_not_sliding(window, deadline, rest);
    }
}

/// A stream that closes inside the health window, after any number of
/// messages inside it, is a hard failure.
pub proof fn lemma_close_in_window_fails(
    window: u64,
    start: StreamEvent,
    started_at: u64,
    evs: Seq<(StreamEvent, u64)>,
    closed_at: u64,
)
    requires
        starts_container(start),
        forall|i: int| 0 <= i < evs.len() ==> open_before(#[trigger] evs[i], deadline_after(started_at, window)),
        closed_at < deadline_after(started_at, window),
    ensures
        run_status(
            window,
            BootStatus::Booting,
            seq![(start, started_at)] + evs + seq![(StreamEvent::Closed, closed_at)],
        ) == BootStatus::Failed(BootFailure::ClosedDuringHealthCheck),
{
    reveal_with_fuel(run_status, 3);
    let d = deadline_after(started_at, window);
    let first = seq![(start, started_at)];
    let last = seq![(StreamEvent::Closed, closed_at)];
    lemma_run_status_split(window, BootStatus::Booting, first + evs, last);
    lemma_run_status_split(window, BootStatus::Booting, first, evs);
    assert(first.drop_first().len() == 0);
    assert(run_status(window, BootStatus::Booting, first) == waiting_until(d));
    lemma_window_not_sliding(window, d, evs);
    assert(last.drop_first().len() == 0);
}

/// Whatever log activity and lifecycle progress came first, a stream that
/// closes before the container starts executing is a hard failure.
pub proof fn lemma_close_before_running_fails(
    window: u64,
    evs: Seq<(StreamEvent, u64)>,
    closed_at: u64,
)
    requires
        forall|i: int| 0 <= i < evs.len() ==> still_booting((#[trigger] evs[i]).0),
    ensures
        run_status(window, BootStatus::Booting, evs + seq![(StreamEvent::Closed, closed_at)])
            == BootStatus::Failed(BootFailure::ClosedBeforeRunning),
    decreases evs.len(),
{
    reveal_with_fuel(run_status, 3);
    let last = seq![(StreamEvent::Closed, closed_at)];
    if evs.len() == 0 {
        assert(evs + last == last);
        assert(last.drop_first().len() == 0);
    } else {
        assert(still_booting(evs[0].0));
        let rest = evs.drop_first();
        assert forall|i: int| 0 <= i < rest.len() implies still_booting((#[trigger] rest[i]).0) by {
            assert(rest[i] == evs[i + 1]);
        }
        assert((evs + last).drop_first() == rest + last);
        assert((evs + last)[0] == evs[0]);
        lemma_close_before_running_fails(window, rest, closed_at);
    }
}

/// A verdict is final: once healthy or failed, nothing observed later
/// changes the status.
pub proof fn lemma_verdict_is_final(window: u64, s: BootStatus, evs: Seq<(StreamEvent, u64)>)
    requires
        s is Healthy || s is Failed,
    ensures
        run_status(window, s, evs) == s,
    decreases evs.len(),
{
    if evs.len() > 0 {
        lemma_verdict_is_final(window, s, evs.drop_first());
    }
}

} // verus!
