use unisrv::monitor::{
    BootFailure, BootMonitor, BootStatus, InstanceLogMessage, InstanceLogType, StreamEvent,
    VmInitState,
};

fn state(s: VmInitState) -> StreamEvent {
    StreamEvent::Message(InstanceLogMessage {
        log_type: InstanceLogType::State,
        timestamp_ms: 0,
        message: None,
        state: Some(s),
    })
}

fn line(kind: InstanceLogType, text: &str) -> StreamEvent {
    StreamEvent::Message(InstanceLogMessage {
        log_type: kind,
        timestamp_ms: 0,
        message: Some(text.to_string()),
        state: None,
    })
}

#[test]
fn quiet_health_window_is_healthy() {
    let mut m = BootMonitor::new(1000);
    m.observe(state(VmInitState::PullingContainerImage), 10);
    m.observe(state(VmInitState::ExecutingContainer), 100);
    assert_eq!(m.status, BootStatus::Confirming { deadline_ms: 1100 });
    assert_eq!(m.deadline(), Some(1100));
    m.observe(StreamEvent::DeadlineElapsed, 1100);
    assert_eq!(m.status, BootStatus::Healthy);
    assert!(m.is_settled());
}

#[test]
fn close_at_half_window_fails() {
    let mut m = BootMonitor::new(1000);
    m.observe(state(VmInitState::ExecutingContainer), 100);
    m.observe(line(InstanceLogType::Stdout, "listening"), 300);
    m.observe(StreamEvent::Closed, 600);
    assert_eq!(m.status, BootStatus::Failed(BootFailure::ClosedDuringHealthCheck));
}

#[test]
fn messages_do_not_extend_window() {
    let mut m = BootMonitor::new(1000);
    m.observe(state(VmInitState::ExecutingContainer), 0);
    m.observe(line(InstanceLogType::Stderr, "warming up"), 900);
    assert_eq!(m.deadline(), Some(1000));
    m.observe(line(InstanceLogType::Stdout, "late"), 1000);
    assert_eq!(m.status, BootStatus::Healthy);
}

#[test]
fn close_before_running_fails_despite_logs() {
    let mut m = BootMonitor::new(1000);
    m.observe(state(VmInitState::Online), 1);
    m.observe(line(InstanceLogType::System, "pulling nginx"), 2);
    m.observe(state(VmInitState::PullingContainerImage), 3);
    m.observe(StreamEvent::Closed, 4);
    assert_eq!(m.status, BootStatus::Failed(BootFailure::ClosedBeforeRunning));
    assert_eq!(m.phase, Some(VmInitState::PullingContainerImage));
}

#[test]
fn recent_lines_keep_newest_five() {
    let mut m = BootMonitor::new(1000);
    for i in 0..7u64 {
        m.observe(line(InstanceLogType::System, &format!("line {i}")), i);
    }
    assert_eq!(m.recent.len(), 5);
    assert_eq!(m.recent[0], "line 2");
    assert_eq!(m.recent[4], "line 6");
}

#[test]
fn timestamp_splits_into_seconds_and_nanos() {
    let msg = InstanceLogMessage {
        log_type: InstanceLogType::System,
        timestamp_ms: 1_700_000_123_456,
        message: None,
        state: None,
    };
    assert_eq!(msg.timestamp_parts(), (1_700_000_123, 456_000_000));
}

#[test]
fn deadline_saturates() {
    let mut m = BootMonitor::new(10);
    m.observe(state(VmInitState::ExecutingContainer), u64::MAX - 3);
    assert_eq!(m.deadline(), Some(u64::MAX));
}
