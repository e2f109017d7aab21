use docker_native_manager::monitor::{monitor_step, MonitorEffect, MonitorEvent, MonitorState};


#[test]
fn stopped_docker_is_never_contacted() {
    let step = monitor_step(MonitorState::Idle, MonitorEvent::Wake { stopped: true });
    assert_eq!(step.next, MonitorState::Idle);
    assert_eq!(step.effects, vec![MonitorEffect::ReportStatus(false), MonitorEffect::Sleep(5)]);
}

#[test]
fn healthy_daemon_is_followed() {
    let s1 = monitor_step(MonitorState::Idle, MonitorEvent::Wake { stopped: false });
    assert_eq!(s1.next, MonitorState::Connecting);
    assert_eq!(s1.effects, vec![MonitorEffect::Connect]);
    let s2 = monitor_step(s1.next, MonitorEvent::Connected { ok: true });
    assert_eq!(s2.next, MonitorState::Checking);
    assert_eq!(s2.effects, vec![MonitorEffect::Ping]);
    let s3 = monitor_step(s2.next, MonitorEvent::Pinged { ok: true });
    assert_eq!(s3.next, MonitorState::Streaming);
    assert_eq!(s3.effects, vec![MonitorEffect::ReportStatus(true), MonitorEffect::Subscribe, MonitorEffect::AwaitStream]);
    let s4 = monitor_step(s3.next, MonitorEvent::StreamItem { ok: true });
    assert_eq!(s4.next, MonitorState::Streaming);
    assert_eq!(s4.effects, vec![MonitorEffect::ForwardEvent, MonitorEffect::AwaitStream]);
    let s5 = monitor_step(s4.next, MonitorEvent::Heartbeat);
    assert_eq!(s5.next, MonitorState::Verifying);
    assert_eq!(s5.effects, vec![MonitorEffect::Ping]);
    let s6 = monitor_step(s5.next, MonitorEvent::Pinged { ok: true });
    assert_eq!(s6.next, MonitorState::Streaming);
    assert_eq!(s6.effects, vec![MonitorEffect::AwaitStream]);
}

#[test]
fn failures_report_down_and_wait() {
    let a = monitor_step(MonitorState::Connecting, MonitorEvent::Connected { ok: false });
    assert_eq!((a.next, a.effects), (MonitorState::Idle, vec![MonitorEffect::ReportStatus(false), MonitorEffect::Sleep(5)]));
    let b = monitor_step(MonitorState::Checking, MonitorEvent::Pinged { ok: false });
    assert_eq!((b.next, b.effects), (MonitorState::Idle, vec![MonitorEffect::ReportStatus(false), MonitorEffect::Sleep(2)]));
    let c = monitor_step(MonitorState::Streaming, MonitorEvent::StreamItem { ok: false });
    assert_eq!((c.next, c.effects), (MonitorState::Idle, vec![MonitorEffect::ReportStatus(false), MonitorEffect::Sleep(5)]));
    let d = monitor_step(MonitorState::Verifying, MonitorEvent::Pinged { ok: false });
    assert_eq!((d.next, d.effects), (MonitorState::Idle, vec![MonitorEffect::ReportStatus(false), MonitorEffect::Sleep(5)]));
}

#[test]
fn unexpected_events_change_nothing() {
    let s = monitor_step(MonitorState::Idle, MonitorEvent::Heartbeat);
    assert_eq!(s.next, MonitorState::Idle);
    assert!(s.effects.is_empty());
}

#[test]
fn events_are_forwarded_only_between_up_and_down_reports() {
    let events = vec![
        MonitorEvent::StreamItem { ok: true },
        MonitorEvent::Wake { stopped: false },
        MonitorEvent::Connected { ok: true },
        MonitorEvent::Pinged { ok: true },
        MonitorEvent::StreamItem { ok: true },
        MonitorEvent::Heartbeat,
        MonitorEvent::Pinged { ok: true },
        MonitorEvent::StreamItem { ok: true },
        MonitorEvent::StreamItem { ok: false },
        MonitorEvent::StreamItem { ok: true },
        MonitorEvent::Wake { stopped: true },
    ];
    let mut state = MonitorState::Idle;
    let mut last_up = false;
    let mut forwarded = 0;
    let mut delivered = 0;
    for e in events {
        if state == MonitorState::Streaming && e == (MonitorEvent::StreamItem { ok: true }) {
            delivered += 1;
        }
        let step = monitor_step(state, e);
        for eff in step.effects {
            match eff {
                MonitorEffect::ReportStatus(up) => last_up = up,
                MonitorEffect::ForwardEvent => {
                    assert!(last_up);
                    forwarded += 1;
                }
                _ => {}
            }
        }
        state = step.next;
        assert_eq!(state == MonitorState::Streaming || state == MonitorState::Verifying, last_up);
    }
    assert_eq!(forwarded, 2);
    assert_eq!(forwarded, delivered);
}
