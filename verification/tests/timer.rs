use motion_sensor_lifx::timer::{TimerCore, TimerEvent};
use motion_sensor_lifx::{ACTION, SIGNAL};

#[test]
fn test_set_timeout() {
    let mut core = TimerCore::new(5000);
    assert_eq!(core.timeout(), 5000);
    core.set_timeout(10000);
    assert_eq!(core.timeout(), 10000);
    // changing the timeout never changes the phase
    assert!(core.is_running());
}

#[test]
fn test_starts_armed() {
    let core = TimerCore::new(100);
    assert!(core.is_running());
    assert!(!core.is_stopped());
}

#[test]
fn test_timeout_fires_once_until_start() {
    // with no start signal, one expiry gives exactly one timeout action and
    // everything after it is silent
    let mut core = TimerCore::new(100);
    let first = core.handle_event::<String>(&TimerEvent::Elapsed);
    assert_eq!(first, Some(ACTION::TIMEOUT));
    assert!(!core.is_running());
    assert_eq!(core.handle_event::<String>(&TimerEvent::Elapsed), None);
    assert_eq!(
        core.handle_event(&TimerEvent::Signal(SIGNAL::OTHER("ping".to_string()))),
        None
    );
    assert_eq!(core.handle_event::<String>(&TimerEvent::Elapsed), None);
}

#[test]
fn test_rapid_restarts_never_time_out() {
    // start signals arriving before any expiry all report restarted == true
    // and never produce a timeout
    let mut core = TimerCore::new(100);
    for _ in 0..5 {
        let action = core.handle_event::<String>(&TimerEvent::Signal(SIGNAL::START));
        assert_eq!(action, Some(ACTION::START { restarted: true }));
        assert!(core.is_running());
    }
}

#[test]
fn test_start_after_timeout_is_a_wake() {
    // the first start after a timeout reports restarted == false, the next
    // ones before another expiry report restarted == true
    let mut core = TimerCore::new(100);
    assert_eq!(
        core.handle_event::<String>(&TimerEvent::Elapsed),
        Some(ACTION::TIMEOUT)
    );
    assert_eq!(
        core.handle_event::<String>(&TimerEvent::Signal(SIGNAL::START)),
        Some(ACTION::START { restarted: false })
    );
    assert_eq!(
        core.handle_event::<String>(&TimerEvent::Signal(SIGNAL::START)),
        Some(ACTION::START { restarted: true })
    );
}

#[test]
fn test_custom_signal_changes_nothing() {
    let mut core = TimerCore::new(100);
    assert_eq!(
        core.handle_event(&TimerEvent::Signal(SIGNAL::OTHER("hello".to_string()))),
        None
    );
    assert!(core.is_running());
}

#[test]
fn test_terminate_is_final() {
    // a terminate signal emits nothing, and nothing fires after it
    let mut core = TimerCore::new(100);
    assert_eq!(
        core.handle_event::<String>(&TimerEvent::Signal(SIGNAL::TERMINATE)),
        None
    );
    assert!(core.is_stopped());
    assert_eq!(core.handle_event::<String>(&TimerEvent::Elapsed), None);
    assert_eq!(
        core.handle_event::<String>(&TimerEvent::Signal(SIGNAL::START)),
        None
    );
    assert!(core.is_stopped());
}
