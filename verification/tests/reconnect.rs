use herdr_federation::reconnect::{
    Supervisor, SupervisorAction, SupervisorEvent, RECONNECT_DELAY_SECS,
};

fn step(supervisor: &mut Supervisor, event: SupervisorEvent) -> SupervisorAction {
    assert!(supervisor.awaits(event));
    supervisor.step(event)
}

#[test]
fn sessions_are_rerun_after_a_delay() {
    let (mut supervisor, action) = Supervisor::start();
    assert_eq!(action, SupervisorAction::RunSession);
    for _ in 0..3 {
        assert_eq!(
            step(&mut supervisor, SupervisorEvent::SessionEnded),
            SupervisorAction::CheckListening
        );
        assert_eq!(
            step(&mut supervisor, SupervisorEvent::Listening { open: true }),
            SupervisorAction::Sleep { seconds: RECONNECT_DELAY_SECS }
        );
        assert_eq!(step(&mut supervisor, SupervisorEvent::Slept), SupervisorAction::CheckListening);
        assert_eq!(
            step(&mut supervisor, SupervisorEvent::Listening { open: true }),
            SupervisorAction::RunSession
        );
    }
    assert_eq!(RECONNECT_DELAY_SECS, 2);
}

#[test]
fn a_panic_stops_the_supervisor() {
    let (mut supervisor, _) = Supervisor::start();
    assert_eq!(step(&mut supervisor, SupervisorEvent::SessionPanicked), SupervisorAction::Stop);
    assert!(!supervisor.awaits(SupervisorEvent::SessionEnded));
}

#[test]
fn nobody_listening_stops_the_supervisor() {
    let (mut supervisor, _) = Supervisor::start();
    step(&mut supervisor, SupervisorEvent::SessionEnded);
    assert_eq!(
        step(&mut supervisor, SupervisorEvent::Listening { open: false }),
        SupervisorAction::Stop
    );

    let (mut supervisor, _) = Supervisor::start();
    step(&mut supervisor, SupervisorEvent::SessionEnded);
    step(&mut supervisor, SupervisorEvent::Listening { open: true });
    step(&mut supervisor, SupervisorEvent::Slept);
    assert_eq!(
        step(&mut supervisor, SupervisorEvent::Listening { open: false }),
        SupervisorAction::Stop
    );
}
