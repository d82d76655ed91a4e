use antielectrophile::capture::{
    CaptureAction, CaptureEvent, CaptureLoop, CaptureState, SessionError,
};
use antielectrophile::frame::{DecodeError, DecodedFrame, UpperLayers};
use antielectrophile::link::{ExtractionError, LinkLayerView};
use antielectrophile::registry::HostRegistry;

fn udp_frame(source: [u8; 6], destination: [u8; 6]) -> Vec<u8> {
    let builder = etherparse::PacketBuilder::ethernet2(source, destination)
        .ipv4([192, 168, 1, 1], [192, 168, 1, 2], 20)
        .udp(21, 1234);
    let payload = [1u8, 2, 3, 4];
    let mut frame = Vec::with_capacity(builder.size(payload.len()));
    builder.write(&mut frame, &payload).unwrap();
    frame
}

fn failure(description: &str) -> SessionError {
    SessionError { description: description.to_string() }
}

fn awaiting() -> CaptureLoop {
    let mut capture = CaptureLoop::new();
    assert!(capture.session_opened());
    capture
}

#[test]
fn loop_starts_idle_and_awaits_once_opened() {
    let mut capture = CaptureLoop::new();
    assert_eq!(capture.state(), CaptureState::Idle);
    assert!(capture.registry().is_empty());
    assert!(!capture.is_terminated());
    assert!(capture.session_opened());
    assert_eq!(capture.state(), CaptureState::Awaiting);
    assert!(!capture.session_opened());
    assert_eq!(capture.state(), CaptureState::Awaiting);
}

#[test]
fn idle_loop_takes_no_event() {
    let mut capture = CaptureLoop::new();
    let frame = udp_frame([1, 2, 3, 4, 5, 6], [7, 8, 9, 10, 11, 12]);
    assert_eq!(capture.step(CaptureEvent::FrameDelivered(frame)), CaptureAction::Ignore);
    assert_eq!(capture.step(CaptureEvent::SessionFailed(failure("gone"))), CaptureAction::Ignore);
    assert_eq!(capture.state(), CaptureState::Idle);
    assert!(capture.registry().is_empty());
    assert!(!capture.frame_delivered());
    assert_eq!(capture.record(Err(DecodeError::Malformed("x".to_string()))), CaptureAction::Ignore);
}

#[test]
fn frame_is_reported_and_its_addresses_recorded() {
    let mut capture = awaiting();
    let raw = udp_frame([1, 2, 3, 4, 5, 6], [7, 8, 9, 10, 11, 12]);
    match capture.step(CaptureEvent::FrameDelivered(raw)) {
        CaptureAction::ReportFrame(report) => {
            assert_eq!(
                report.addresses,
                Ok(("01:02:03:04:05:06".to_string(), "07:08:09:0A:0B:0C".to_string()))
            );
            assert_eq!(report.frame.link().ether_type, Some(0x0800));
            assert!(report.frame.network().is_some());
            assert!(report.frame.transport().is_some());
        }
        other => panic!("unexpected action {:?}", other),
    }
    assert_eq!(capture.state(), CaptureState::Awaiting);
    assert_eq!(
        capture.registry().snapshot_in_order(),
        vec!["01:02:03:04:05:06".to_string(), "07:08:09:0A:0B:0C".to_string()]
    );
}

#[test]
fn frame_from_a_host_to_itself_is_recorded_once() {
    let mut capture = awaiting();
    let raw = udp_frame([9, 9, 9, 9, 9, 9], [9, 9, 9, 9, 9, 9]);
    capture.step(CaptureEvent::FrameDelivered(raw));
    assert_eq!(capture.registry().snapshot_in_order(), vec!["09:09:09:09:09:09".to_string()]);
}

#[test]
fn malformed_frame_is_reported_without_terminating() {
    let mut capture = awaiting();
    let mut raw = udp_frame([1, 2, 3, 4, 5, 6], [7, 8, 9, 10, 11, 12]);
    let full = raw.len();
    raw.truncate(full - 2);
    match capture.step(CaptureEvent::FrameDelivered(raw)) {
        CaptureAction::ReportDecodeFailure(DecodeError::Malformed(reason)) => {
            assert!(!reason.is_empty())
        }
        other => panic!("unexpected action {:?}", other),
    }
    assert_eq!(capture.state(), CaptureState::Awaiting);
    assert!(capture.registry().is_empty());
    let raw = udp_frame([1, 2, 3, 4, 5, 6], [7, 8, 9, 10, 11, 12]);
    assert!(matches!(
        capture.step(CaptureEvent::FrameDelivered(raw)),
        CaptureAction::ReportFrame(_)
    ));
    assert_eq!(capture.registry().len(), 2);
}

#[test]
fn missing_destination_is_reported_without_registry_change() {
    let mut capture = awaiting();
    capture.step(CaptureEvent::FrameDelivered(udp_frame([1; 6], [2; 6])));
    let before = capture.registry().snapshot_in_order();
    let link = LinkLayerView { source: Some([3; 6]), destination: None, ether_type: Some(0x0800) };
    let upper = UpperLayers {
        link_extensions: vec![],
        network: Some("Ipv4".to_string()),
        transport: None,
    };
    let frame = DecodedFrame::new(link, upper).unwrap();
    assert!(capture.frame_delivered());
    assert_eq!(capture.state(), CaptureState::ProcessingFrame);
    match capture.record(Ok(frame)) {
        CaptureAction::ReportFrame(report) => {
            assert_eq!(report.addresses, Err(ExtractionError::MissingField));
            assert_eq!(report.frame.link(), link);
            assert_eq!(report.frame.network(), &Some("Ipv4".to_string()));
        }
        other => panic!("unexpected action {:?}", other),
    }
    assert_eq!(capture.state(), CaptureState::Awaiting);
    assert_eq!(capture.registry().snapshot_in_order(), before);
    capture.step(CaptureEvent::FrameDelivered(udp_frame([4; 6], [1; 6])));
    assert_eq!(capture.registry().len(), 3);
}

#[test]
fn three_frames_then_a_session_error() {
    let mut capture = awaiting();
    let frames = vec![
        udp_frame([0x0a, 0, 0, 0, 0, 1], [0x0a, 0, 0, 0, 0, 2]),
        udp_frame([0x0a, 0, 0, 0, 0, 2], [0x0a, 0, 0, 0, 0, 3]),
        udp_frame([0x0a, 0, 0, 0, 0, 1], [0x0a, 0, 0, 0, 0, 3]),
    ];
    for raw in frames {
        assert!(!capture.is_terminated());
        assert!(matches!(
            capture.step(CaptureEvent::FrameDelivered(raw)),
            CaptureAction::ReportFrame(_)
        ));
    }
    let action = capture.step(CaptureEvent::SessionFailed(failure("device disconnected")));
    assert_eq!(action, CaptureAction::ReportSessionFailure(failure("device disconnected")));
    assert!(capture.is_terminated());
    assert_eq!(capture.state(), CaptureState::Terminated);
    assert_eq!(
        capture.registry().snapshot_in_order(),
        vec![
            "0A:00:00:00:00:01".to_string(),
            "0A:00:00:00:00:02".to_string(),
            "0A:00:00:00:00:03".to_string()
        ]
    );
    let late = udp_frame([0x0b; 6], [0x0c; 6]);
    assert_eq!(capture.step(CaptureEvent::FrameDelivered(late)), CaptureAction::Ignore);
    assert_eq!(capture.step(CaptureEvent::SessionFailed(failure("again"))), CaptureAction::Ignore);
    assert!(capture.is_terminated());
    assert_eq!(capture.into_registry().len(), 3);
}

#[test]
fn sessions_do_not_share_registries() {
    let mut first = awaiting();
    let mut second = awaiting();
    first.step(CaptureEvent::FrameDelivered(udp_frame([1; 6], [2; 6])));
    assert_eq!(first.registry().len(), 2);
    assert!(second.registry().is_empty());
    second.step(CaptureEvent::FrameDelivered(udp_frame([3; 6], [3; 6])));
    assert_eq!(first.registry().len(), 2);
    assert_eq!(second.registry().len(), 1);
}

#[test]
fn injected_registry_is_extended() {
    let mut registry = HostRegistry::new();
    registry.observe("02:02:02:02:02:02".to_string());
    let mut capture = CaptureLoop::with_registry(registry);
    assert_eq!(capture.state(), CaptureState::Idle);
    capture.session_opened();
    capture.step(CaptureEvent::FrameDelivered(udp_frame([1; 6], [2; 6])));
    assert_eq!(
        capture.into_registry().snapshot_in_order(),
        vec!["02:02:02:02:02:02".to_string(), "01:01:01:01:01:01".to_string()]
    );
}

#[test]
fn session_failure_outside_a_wait_changes_nothing() {
    let mut capture = awaiting();
    assert!(capture.frame_delivered());
    assert_eq!(capture.session_failed(failure("gone")), CaptureAction::Ignore);
    assert_eq!(capture.state(), CaptureState::ProcessingFrame);
    assert!(!capture.frame_delivered());
    assert!(matches!(
        capture.record(Err(DecodeError::Malformed("bad".to_string()))),
        CaptureAction::ReportDecodeFailure(_)
    ));
    assert_eq!(
        capture.session_failed(failure("gone")),
        CaptureAction::ReportSessionFailure(failure("gone"))
    );
    assert!(capture.is_terminated());
}
