use base64::Engine;
use blumbotron::capture::{CaptureSession, DeviceAction, DeviceEvent, Goal, Phase, Step};
use blumbotron::encoding::decode_payload;
use blumbotron::error::CaptureError;
use blumbotron::frame::{encode_frame, RgbFrame};

fn gradient(width: u32, height: u32) -> RgbFrame {
    let mut pixels = Vec::new();
    for row in 0..height {
        for column in 0..width {
            pixels.push((row * 16 + column) as u8);
            pixels.push(100);
            pixels.push(200);
        }
    }
    RgbFrame::new(width, height, pixels).unwrap()
}

fn action(step: Step) -> DeviceAction {
    match step {
        Step::Perform(action) => action,
        Step::Finished(outcome) => panic!("finished early with {:?}", outcome),
    }
}

fn outcome(step: Step) -> Result<String, CaptureError> {
    match step {
        Step::Finished(outcome) => outcome,
        Step::Perform(action) => panic!("asked for {:?}", action),
    }
}

#[test]
fn frame_needs_three_bytes_a_pixel() {
    assert!(RgbFrame::new(2, 2, vec![0; 11]).is_none());
    assert!(RgbFrame::new(u32::MAX, u32::MAX, vec![0; 64]).is_none());
    let exact = RgbFrame::new(2, 2, vec![7; 12]).unwrap();
    assert_eq!((exact.width(), exact.height(), exact.pixels().len()), (2, 2, 12));
    let longer = RgbFrame::new(2, 1, vec![1, 2, 3, 4, 5, 6, 7, 8]).unwrap();
    assert_eq!(longer.pixels(), &vec![1, 2, 3, 4, 5, 6]);
    let empty = RgbFrame::new(0, 5, vec![]).unwrap();
    assert_eq!(empty.pixels().len(), 0);
}

#[test]
fn wide_frame_is_cut_in_the_middle() {
    let square = gradient(5, 2).crop_to_square();
    assert_eq!((square.width(), square.height()), (2, 2));
    assert_eq!(
        square.pixels(),
        &vec![1, 100, 200, 2, 100, 200, 17, 100, 200, 18, 100, 200]
    );
}

#[test]
fn tall_frame_is_cut_in_the_middle() {
    let square = gradient(2, 6).crop_to_square();
    assert_eq!((square.width(), square.height()), (2, 2));
    assert_eq!(
        square.pixels(),
        &vec![32, 100, 200, 33, 100, 200, 48, 100, 200, 49, 100, 200]
    );
}

#[test]
fn square_frame_stays_whole() {
    let frame = gradient(3, 3);
    let before = frame.pixels().clone();
    let square = frame.crop_to_square();
    assert_eq!((square.width(), square.height()), (3, 3));
    assert_eq!(square.pixels(), &before);
}

#[test]
fn frame_becomes_a_square_jpeg_url() {
    let url = encode_frame(gradient(12, 8)).unwrap();
    assert!(url.starts_with("data:image/jpeg;base64,"));
    let file = decode_payload(&url).unwrap();
    assert_eq!(&file[..2], &[0xff, 0xd8]);
    assert_eq!(&file[file.len() - 2..], &[0xff, 0xd9]);
    let again = base64::engine::general_purpose::STANDARD.encode(&file);
    assert_eq!(url, format!("data:image/jpeg;base64,{}", again));
    let decoded = image::load_from_memory(&file).unwrap().into_rgb8();
    assert_eq!((decoded.width(), decoded.height()), (8, 8));
    let middle = decoded.get_pixel(4, 4);
    assert!(middle.0[1] > 60 && middle.0[1] < 140);
    assert!(middle.0[2] > 160);
    assert_eq!(encode_frame(gradient(12, 8)).unwrap(), url);
}

#[test]
fn empty_frame_cannot_be_encoded() {
    match encode_frame(RgbFrame::new(0, 4, vec![]).unwrap()) {
        Err(CaptureError::Device(message)) => {
            assert!(message.starts_with("Failed to encode JPEG: "));
            assert!(message.len() > "Failed to encode JPEG: ".len());
        }
        other => panic!("unexpected {:?}", other),
    }
}

#[test]
fn capture_runs_through_all_phases() {
    let mut session = CaptureSession::new(Goal::Capture, 3, 0);
    assert_eq!(session.phase(), Phase::Idle);
    assert_eq!(action(session.advance(DeviceEvent::Start)), DeviceAction::Open(3));
    assert_eq!(session.phase(), Phase::Opening);
    assert_eq!(action(session.advance(DeviceEvent::Succeeded)), DeviceAction::OpenStream);
    assert_eq!(session.phase(), Phase::Streaming);
    assert_eq!(action(session.advance(DeviceEvent::Succeeded)), DeviceAction::PullFrame);
    assert_eq!(session.phase(), Phase::Capturing);
    assert_eq!(
        action(session.advance(DeviceEvent::Frame(gradient(4, 4)))),
        DeviceAction::Release
    );
    assert_eq!(session.phase(), Phase::Closing);
    assert!(!session.is_done());
    let url = outcome(session.advance(DeviceEvent::Succeeded)).unwrap();
    assert_eq!(url, encode_frame(gradient(4, 4)).unwrap());
    assert_eq!(session.phase(), Phase::Done);
    assert!(session.is_done());
}

#[test]
fn probe_releases_without_a_frame() {
    let mut session = CaptureSession::new(Goal::Probe, 1, 1700000000);
    assert_eq!(action(session.advance(DeviceEvent::Start)), DeviceAction::Open(1));
    assert_eq!(action(session.advance(DeviceEvent::Succeeded)), DeviceAction::OpenStream);
    assert_eq!(action(session.advance(DeviceEvent::Succeeded)), DeviceAction::Release);
    assert_eq!(
        outcome(session.advance(DeviceEvent::Failed("stop failed".to_string()))),
        Ok("camera_1_1700000000".to_string())
    );
    assert!(session.is_done());
}

#[test]
fn failure_mid_stream_still_releases_the_device() {
    let mut session = CaptureSession::new(Goal::Capture, 0, 0);
    session.advance(DeviceEvent::Start);
    session.advance(DeviceEvent::Succeeded);
    session.advance(DeviceEvent::Succeeded);
    assert_eq!(
        action(session.advance(DeviceEvent::Failed("cable pulled".to_string()))),
        DeviceAction::Release
    );
    assert_eq!(
        outcome(session.advance(DeviceEvent::Succeeded)),
        Err(CaptureError::Device("Failed to capture frame: cable pulled".to_string()))
    );

    let mut probe = CaptureSession::new(Goal::Probe, 0, 5);
    probe.advance(DeviceEvent::Start);
    probe.advance(DeviceEvent::Succeeded);
    assert_eq!(action(probe.advance(DeviceEvent::Succeeded)), DeviceAction::Release);
    assert_eq!(outcome(probe.advance(DeviceEvent::Succeeded)), Ok("camera_0_5".to_string()));
}

#[test]
fn stream_failure_releases_and_is_classified() {
    let mut busy = CaptureSession::new(Goal::Probe, 0, 0);
    busy.advance(DeviceEvent::Start);
    busy.advance(DeviceEvent::Succeeded);
    assert_eq!(
        action(busy.advance(DeviceEvent::Failed("lockForConfiguration failed".to_string()))),
        DeviceAction::Release
    );
    assert_eq!(outcome(busy.advance(DeviceEvent::Succeeded)), Err(CaptureError::Busy));

    let mut probe = CaptureSession::new(Goal::Probe, 0, 0);
    probe.advance(DeviceEvent::Start);
    probe.advance(DeviceEvent::Succeeded);
    probe.advance(DeviceEvent::Failed("nope".to_string()));
    assert_eq!(
        outcome(probe.advance(DeviceEvent::Succeeded)),
        Err(CaptureError::Device("Failed to access camera: nope".to_string()))
    );

    let mut capture = CaptureSession::new(Goal::Capture, 0, 0);
    capture.advance(DeviceEvent::Start);
    capture.advance(DeviceEvent::Succeeded);
    assert_eq!(
        action(capture.advance(DeviceEvent::Failed("nope".to_string()))),
        DeviceAction::Release
    );
    assert_eq!(
        outcome(capture.advance(DeviceEvent::Succeeded)),
        Err(CaptureError::Device("Failed to open camera stream: nope".to_string()))
    );
}

#[test]
fn open_failure_ends_at_once() {
    let mut capture = CaptureSession::new(Goal::Capture, 9, 0);
    capture.advance(DeviceEvent::Start);
    assert_eq!(
        outcome(capture.advance(DeviceEvent::Failed("no such device".to_string()))),
        Err(CaptureError::Device("Failed to create camera: no such device".to_string()))
    );
    assert!(capture.is_done());

    let mut probe = CaptureSession::new(Goal::Probe, 9, 0);
    probe.advance(DeviceEvent::Start);
    assert_eq!(
        outcome(probe.advance(DeviceEvent::Failed("no such device".to_string()))),
        Err(CaptureError::Device("Failed to initialize camera: no such device".to_string()))
    );
}

#[test]
fn unreadable_and_unencodable_frames_release_the_device() {
    let mut session = CaptureSession::new(Goal::Capture, 0, 0);
    session.advance(DeviceEvent::Start);
    session.advance(DeviceEvent::Succeeded);
    session.advance(DeviceEvent::Succeeded);
    assert_eq!(
        action(session.advance(DeviceEvent::Unreadable("bad marker".to_string()))),
        DeviceAction::Release
    );
    assert_eq!(
        outcome(session.advance(DeviceEvent::Succeeded)),
        Err(CaptureError::Device("Failed to decode frame: bad marker".to_string()))
    );

    let mut empty = CaptureSession::new(Goal::Capture, 0, 0);
    empty.advance(DeviceEvent::Start);
    empty.advance(DeviceEvent::Succeeded);
    empty.advance(DeviceEvent::Succeeded);
    let frame = RgbFrame::new(3, 0, vec![]).unwrap();
    assert_eq!(action(empty.advance(DeviceEvent::Frame(frame))), DeviceAction::Release);
    match outcome(empty.advance(DeviceEvent::Succeeded)) {
        Err(CaptureError::Device(message)) => assert!(message.starts_with("Failed to encode JPEG: ")),
        other => panic!("unexpected {:?}", other),
    }
}

#[test]
fn events_out_of_order_fail_the_session() {
    let stray = Err(CaptureError::Device("Camera event out of order".to_string()));
    let mut idle = CaptureSession::new(Goal::Capture, 0, 0);
    assert_eq!(outcome(idle.advance(DeviceEvent::Succeeded)), stray);
    assert!(idle.is_done());
    assert_eq!(outcome(idle.advance(DeviceEvent::Start)), stray);

    let mut streaming = CaptureSession::new(Goal::Capture, 0, 0);
    streaming.advance(DeviceEvent::Start);
    streaming.advance(DeviceEvent::Succeeded);
    assert_eq!(action(streaming.advance(DeviceEvent::Start)), DeviceAction::Release);
    assert_eq!(outcome(streaming.advance(DeviceEvent::Succeeded)), stray);

    let mut capturing = CaptureSession::new(Goal::Capture, 0, 0);
    capturing.advance(DeviceEvent::Start);
    capturing.advance(DeviceEvent::Succeeded);
    capturing.advance(DeviceEvent::Succeeded);
    assert_eq!(action(capturing.advance(DeviceEvent::Succeeded)), DeviceAction::Release);
    assert_eq!(outcome(capturing.advance(DeviceEvent::Succeeded)), stray);
}

#[test]
fn session_is_made_from_a_label() {
    let session = CaptureSession::for_label(Goal::Capture, "FaceTime HD Camera (2)", 0).unwrap();
    assert_eq!(session.device(), 2);
    assert_eq!(session.goal(), Goal::Capture);
    assert_eq!(session.phase(), Phase::Idle);
    match CaptureSession::for_label(Goal::Probe, "No cameras detected", 0) {
        Err(error) => assert_eq!(error, CaptureError::Device("No valid camera available".to_string())),
        Ok(_) => panic!("a sentinel picked a device"),
    }
}
