use office_queue::lifecycle::Action;
use office_queue::lifecycle::Lifecycle;
use office_queue::lifecycle::LifecycleState;
use office_queue::lifecycle::ServerControlMessage;
use office_queue::textfmt::connection_hint;
use office_queue::textfmt::decimal;

#[test]
fn start_opens_the_scan_at_the_base_port() {
    let mut c = Lifecycle::new();
    let a = c.on_command(ServerControlMessage::Start);
    assert_eq!(a, Action::TryBind { port: 3000 });
    assert_eq!(c.state, LifecycleState::Scanning { port: 3000 });
}

#[test]
fn scan_binds_the_first_free_port() {
    let mut c = Lifecycle::new();
    let mut a = c.on_command(ServerControlMessage::Start);
    // Ports 3000 through 3005 are taken by other listeners.
    for next in 3001..=3006u16 {
        a = c.on_bind_outcome(false);
        assert_eq!(a, Action::TryBind { port: next });
    }
    // Port 3006 is free.
    a = c.on_bind_outcome(true);
    assert_eq!(a, Action::WriteHint { port: 3006 });
    assert_eq!(c.state, LifecycleState::Running { port: 3006 });
    assert!(c.is_running());
    let hint = connection_hint(3006, "myhost");
    assert!(hint.contains("3006"));
}

#[test]
fn exhausted_scan_reports_no_available_port() {
    let mut c = Lifecycle::new();
    let mut a = c.on_command(ServerControlMessage::Start);
    assert_eq!(a, Action::TryBind { port: 3000 });
    // All 51 candidate ports are occupied.
    for _ in 0..50 {
        a = c.on_bind_outcome(false);
        assert!(matches!(a, Action::TryBind { .. }));
    }
    a = c.on_bind_outcome(false);
    assert_eq!(a, Action::NoAvailablePort);
    assert_eq!(c.state, LifecycleState::Stopped);
    assert!(!c.is_running());
}

#[test]
fn second_start_is_a_no_op() {
    let mut c = Lifecycle::new();
    c.on_command(ServerControlMessage::Start);
    let a = c.on_bind_outcome(true);
    assert_eq!(a, Action::WriteHint { port: 3000 });
    let a = c.on_command(ServerControlMessage::Start);
    assert_eq!(a, Action::AlreadyRunning);
    assert_eq!(c.state, LifecycleState::Running { port: 3000 });
}

#[test]
fn stop_when_stopped_is_a_no_op() {
    let mut c = Lifecycle::new();
    let a = c.on_command(ServerControlMessage::Stop);
    assert_eq!(a, Action::NotRunning);
    assert_eq!(c.state, LifecycleState::Stopped);
}

#[test]
fn stop_releases_the_running_listener() {
    let mut c = Lifecycle::new();
    c.on_command(ServerControlMessage::Start);
    c.on_bind_outcome(true);
    let a = c.on_command(ServerControlMessage::Stop);
    assert_eq!(a, Action::StopListener);
    assert_eq!(c.state, LifecycleState::Stopped);
    // A start afterwards scans again from the base port.
    let a = c.on_command(ServerControlMessage::Start);
    assert_eq!(a, Action::TryBind { port: 3000 });
}

#[test]
fn decimal_renders_exact_numerals() {
    assert_eq!(decimal(0), "0");
    assert_eq!(decimal(7), "7");
    assert_eq!(decimal(3006), "3006");
    assert_eq!(decimal(65535), "65535");
}

#[test]
fn hint_text_is_exactly_the_connect_instruction() {
    let hint = connection_hint(3006, "myhost");
    assert_eq!(
        hint,
        "Connect via:\n\tssh -N -L 3006:myhost:3000 <your-username>@<your-machine>\n\
         Visit http://localhost:3000 to join the office hours queue.\n"
    );
}
