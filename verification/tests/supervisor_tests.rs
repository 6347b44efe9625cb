use sidecar_supervisor::supervisor::ExitInfo;
use sidecar_supervisor::supervisor::Notification;
use sidecar_supervisor::supervisor::Supervisor;
use sidecar_supervisor::supervisor::WorkerEvent;
use sidecar_supervisor::supervisor::greet;

fn running_supervisor() -> Supervisor {
    let mut sup = Supervisor::new();
    sup.begin_launch();
    sup.launch_succeeded();
    sup
}

fn stdout(line: &str) -> WorkerEvent {
    WorkerEvent::StdoutLine(line.to_string())
}

#[test]
fn query_before_launch_is_empty() {
    let sup = Supervisor::new();
    assert!(sup.get_sidecar_config().is_none());
    assert!(sup.get_sidecar_port().is_none());
}

#[test]
fn handshake_emits_one_ready_notification() {
    let mut sup = running_supervisor();
    let lines = ["starting up", "PORT: 4821", "other log", "TOKEN: abc123", "PORT: 4821"];
    let mut ready_count = 0;
    for line in lines {
        assert!(sup.get_sidecar_port().is_none() || ready_count > 0);
        if let Some(note) = sup.handle_event(stdout(line)) {
            match note {
                Notification::Ready(config) => {
                    ready_count += 1;
                    assert_eq!(config.port, "4821");
                    assert_eq!(config.token, "abc123");
                }
                _ => panic!("unexpected notification"),
            }
        }
    }
    assert_eq!(ready_count, 1);
    let config = sup.get_sidecar_config().expect("configured");
    assert_eq!(config.port, "4821");
    assert_eq!(config.token, "abc123");
    assert_eq!(sup.get_sidecar_port(), Some("4821".to_string()));
}

#[test]
fn query_empty_before_ready_and_set_at_ready() {
    let mut sup = running_supervisor();
    assert!(sup.get_sidecar_config().is_none());
    assert!(sup.handle_event(stdout("PORT: 7")).is_none());
    assert!(sup.get_sidecar_config().is_none());
    let note = sup.handle_event(stdout("TOKEN: t"));
    assert!(matches!(note, Some(Notification::Ready(_))));
    assert_eq!(sup.get_sidecar_port(), Some("7".to_string()));
}

#[test]
fn later_lines_never_change_the_configuration() {
    let mut sup = running_supervisor();
    sup.handle_event(stdout("PORT: 1"));
    sup.handle_event(stdout("PORT: 2"));
    let note = sup.handle_event(stdout("TOKEN: t"));
    assert!(matches!(note, Some(Notification::Ready(_))));
    assert!(sup.handle_event(stdout("PORT: 3")).is_none());
    assert!(sup.handle_event(stdout("PORT: 4 TOKEN: u")).is_none());
    let config = sup.get_sidecar_config().expect("configured");
    assert_eq!(config.port, "2");
    assert_eq!(config.token, "t");
}

#[test]
fn termination_before_both_markers_reports_error() {
    let mut sup = running_supervisor();
    assert!(sup.handle_event(stdout("TOKEN: xyz")).is_none());
    let note = sup.handle_event(WorkerEvent::Terminated(ExitInfo::Code(1)));
    assert!(matches!(note, Some(Notification::ProcessTerminated(ExitInfo::Code(1)))));
    assert!(sup.get_sidecar_config().is_none());
    assert!(sup.get_sidecar_port().is_none());
}

#[test]
fn termination_after_ready_keeps_the_configuration() {
    let mut sup = running_supervisor();
    sup.handle_event(stdout("PORT: 5"));
    sup.handle_event(stdout("TOKEN: s3cr3t"));
    let note = sup.handle_event(WorkerEvent::Terminated(ExitInfo::Code(0)));
    assert!(matches!(note, Some(Notification::ProcessTerminated(ExitInfo::Code(0)))));
    let config = sup.get_sidecar_config().expect("still configured");
    assert_eq!(config.token, "s3cr3t");
    assert_eq!(sup.get_sidecar_port(), Some("5".to_string()));
}

#[test]
fn both_markers_on_one_line() {
    let mut sup = running_supervisor();
    let note = sup.handle_event(stdout("PORT: 5  TOKEN: s3cr3t"));
    match note {
        Some(Notification::Ready(config)) => {
            assert_eq!(config.port, "5  TOKEN: s3cr3t");
            assert_eq!(config.token, "s3cr3t");
        }
        _ => panic!("expected the ready notification"),
    }
}

#[test]
fn empty_marker_value_leaves_field_unset() {
    let mut sup = running_supervisor();
    assert!(sup.handle_event(stdout("PORT:  ")).is_none());
    assert!(sup.handle_event(stdout("TOKEN: t")).is_none());
    assert!(sup.get_sidecar_config().is_none());
    let note = sup.handle_event(stdout("PORT: 9"));
    assert!(matches!(note, Some(Notification::Ready(_))));
    assert_eq!(sup.get_sidecar_port(), Some("9".to_string()));
}

#[test]
fn stderr_is_forwarded_verbatim_and_never_parsed() {
    let mut sup = running_supervisor();
    let note = sup.handle_event(WorkerEvent::StderrLine("PORT: 1 TOKEN: 2".to_string()));
    match note {
        Some(Notification::Diagnostic(text)) => assert_eq!(text, "PORT: 1 TOKEN: 2"),
        _ => panic!("expected a diagnostic"),
    }
    assert!(sup.get_sidecar_config().is_none());
}

#[test]
fn launch_failure_is_terminal() {
    let mut sup = Supervisor::new();
    sup.begin_launch();
    sup.launch_failed("executable not found".to_string());
    assert!(sup.get_sidecar_config().is_none());
    assert!(sup.handle_event(stdout("PORT: 1")).is_none());
    assert!(sup.handle_event(WorkerEvent::Terminated(ExitInfo::Unknown)).is_none());
    assert!(sup.get_sidecar_config().is_none());
}

#[test]
fn second_termination_is_absorbed() {
    let mut sup = running_supervisor();
    let first = sup.handle_event(WorkerEvent::Terminated(ExitInfo::Unknown));
    assert!(matches!(first, Some(Notification::ProcessTerminated(ExitInfo::Unknown))));
    let second = sup.handle_event(WorkerEvent::Terminated(ExitInfo::Code(9)));
    assert!(second.is_none());
}

#[test]
fn chunk_is_processed_line_by_line() {
    let mut sup = running_supervisor();
    let notes = sup.handle_stdout_chunk("starting up\nPORT: 4821\r\nTOKEN: abc123\nPORT: 9\n");
    assert_eq!(notes.len(), 1);
    match &notes[0] {
        Notification::Ready(config) => {
            assert_eq!(config.port, "4821");
            assert_eq!(config.token, "abc123");
        }
        _ => panic!("expected the ready notification"),
    }
    assert_eq!(sup.get_sidecar_port(), Some("4821".to_string()));
}

#[test]
fn greet_formats_the_greeting() {
    assert_eq!(greet("World"), "Hello, World! You've been greeted from Rust!");
}
