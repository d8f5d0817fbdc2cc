use epiphyte::lifecycle::{ExitReason, Lifecycle, LifecycleAction, LifecycleEvent, Phase};

fn ejections(events: &[LifecycleEvent]) -> usize {
    let mut l = Lifecycle::attached();
    events.iter().filter(|e| l.step(**e) == LifecycleAction::Eject).count()
}

#[test]
fn ejects_once_on_normal_completion() {
    let evs = [
        LifecycleEvent::ServeStarted,
        LifecycleEvent::ServeEnded(ExitReason::Completed),
        LifecycleEvent::ServeEnded(ExitReason::Completed),
    ];
    assert_eq!(ejections(&evs), 1);
}

#[test]
fn ejects_once_on_cancellation() {
    let evs = [
        LifecycleEvent::ServeStarted,
        LifecycleEvent::ServeEnded(ExitReason::Cancelled),
        LifecycleEvent::ServeStarted,
        LifecycleEvent::ServeEnded(ExitReason::HostFailed),
    ];
    assert_eq!(ejections(&evs), 1);
}

#[test]
fn ejects_once_when_host_fails() {
    let mut l = Lifecycle::attached();
    assert_eq!(l.step(LifecycleEvent::ServeStarted), LifecycleAction::Serve);
    assert_eq!(l.phase(), Phase::Serving);
    assert_eq!(l.step(LifecycleEvent::ServeEnded(ExitReason::HostFailed)), LifecycleAction::Eject);
    assert_eq!(l.phase(), Phase::Ejected);
    assert_eq!(l.step(LifecycleEvent::ServeEnded(ExitReason::Completed)), LifecycleAction::Nothing);
}

#[test]
fn no_ejection_while_serving() {
    assert_eq!(ejections(&[LifecycleEvent::ServeStarted]), 0);
}
