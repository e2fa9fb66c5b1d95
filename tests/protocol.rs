use rfb::buffer::InboundBuffer;
use rfb::frame::{clip, framebuffer_update, Rect};
use rfb::message::{decode_message, ClientMessage, Decoded, UpdateRequest};
use rfb::session::{CaptureOutcome, CaptureTarget, CloseReason, Session, Stage, Waiting};
use rfb::wire::{decode_pixel_format, encode_pixel_format, push_server_init};
use rfb::{PixelFormat, Resolution, ScreenShot, ServerInit};

const VERSION: &[u8] = b"RFB 003.008\n";

fn shot(width: u16, height: u16) -> ScreenShot {
    let n = width as usize * height as usize * 4;
    let data: Vec<u8> = (0..n).map(|i| (i % 251) as u8).collect();
    ScreenShot { width, height, data }
}

fn operating_session(width: u16, height: u16) -> Session {
    let mut s = Session::new(b"test");
    s.receive(VERSION);
    s.receive(&[1]);
    s.receive(&[1]);
    s.on_capture(CaptureOutcome::Frame(shot(width, height)));
    assert_eq!(s.stage(), Stage::Operating);
    let n = s.pending_output().len();
    s.on_written(n);
    s
}

fn update_request(x: u16, y: u16, w: u16, h: u16) -> Vec<u8> {
    let mut b = vec![3u8, 0];
    for v in [x, y, w, h] {
        b.extend_from_slice(&v.to_be_bytes());
    }
    b
}

#[test]
fn it_works() {
    let init = ServerInit::new(1920, 1080, String::from("screen"));
    assert_eq!(init.resolution, Resolution { width: 1920, height: 1080 });
    assert_eq!(init.pixel_format.bits_per_pixel, 16);
    assert_eq!(init.pixel_format.red_shift, 10);
    assert_eq!(init.pixel_format.green_shift, 5);
    assert_eq!(init.pixel_format.blue_shift, 0);
    assert_eq!(init.pixel_format.red_max, 0x1f);
    assert_eq!(init.name, "screen");
}

#[test]
fn pixel_format_round_trip() {
    let block: Vec<u8> = vec![32, 24, 0, 1, 0, 255, 0, 255, 0, 255, 16, 8, 0, 0, 0, 0];
    let pf = decode_pixel_format(&block).unwrap();
    assert_eq!(pf, PixelFormat::native());
    assert_eq!(encode_pixel_format(&pf), block);
    let init = ServerInit::new(4, 3, String::new());
    let bytes = encode_pixel_format(&init.pixel_format);
    assert_eq!(bytes, vec![16, 16, 0, 1, 0, 0x1f, 0, 0x1f, 0, 0x1f, 10, 5, 0, 0, 0, 0]);
    assert_eq!(decode_pixel_format(&bytes), Some(init.pixel_format));
    assert_eq!(decode_pixel_format(&bytes[..15]), None);
}

#[test]
fn pixel_format_validity() {
    assert!(PixelFormat::native().is_valid());
    assert!(ServerInit::new(1, 1, String::new()).pixel_format.is_valid());
    let mut bad = PixelFormat::native();
    bad.red_shift = 25;
    assert!(!bad.is_valid());
    let mut odd = PixelFormat::native();
    odd.bits_per_pixel = 24;
    assert!(!odd.is_valid());
}

#[test]
fn server_init_encoding() {
    let init = ServerInit::new(0x0102, 0x0304, String::from("ab"));
    let mut out = Vec::new();
    push_server_init(&mut out, &init);
    let mut expected = vec![1u8, 2, 3, 4];
    expected.extend_from_slice(&[16, 16, 0, 1, 0, 0x1f, 0, 0x1f, 0, 0x1f, 10, 5, 0, 0, 0, 0]);
    expected.extend_from_slice(&[0, 0, 0, 2, b'a', b'b']);
    assert_eq!(out, expected);
}

#[test]
fn decode_each_message() {
    match decode_message(&[3, 1, 0, 1, 0, 2, 0, 3, 0, 4, 9]) {
        Decoded::Message(ClientMessage::FramebufferUpdateRequest(r), 10) => {
            assert_eq!(r, UpdateRequest { incremental: true, x: 1, y: 2, width: 3, height: 4 })
        }
        other => panic!("unexpected {:?}", other),
    }
    match decode_message(&[2, 0, 0, 2, 0, 0, 0, 0, 0xff, 0xff, 0xff, 0x11]) {
        Decoded::Message(ClientMessage::SetEncodings(list), 12) => assert_eq!(list, vec![0, -239]),
        other => panic!("unexpected {:?}", other),
    }
    match decode_message(&[4, 1, 0, 0, 0, 0, 0xff, 0x0d]) {
        Decoded::Message(ClientMessage::KeyEvent { down: true, key: 0xff0d }, 8) => {}
        other => panic!("unexpected {:?}", other),
    }
    match decode_message(&[5, 3, 0, 10, 0, 20]) {
        Decoded::Message(ClientMessage::PointerEvent { buttons: 3, x: 10, y: 20 }, 6) => {}
        other => panic!("unexpected {:?}", other),
    }
    match decode_message(&[6, 0, 0, 0, 0, 0, 0, 2, b'h', b'i', 7]) {
        Decoded::Message(ClientMessage::ClientCutText(t), 10) => assert_eq!(t, b"hi".to_vec()),
        other => panic!("unexpected {:?}", other),
    }
    let mut spf = vec![0u8, 0, 0, 0];
    spf.extend_from_slice(&encode_pixel_format(&PixelFormat::native()));
    match decode_message(&spf) {
        Decoded::Message(ClientMessage::SetPixelFormat(pf), 20) => assert_eq!(pf, PixelFormat::native()),
        other => panic!("unexpected {:?}", other),
    }
}

#[test]
fn decode_incomplete_and_malformed() {
    assert!(matches!(decode_message(&[]), Decoded::Incomplete));
    assert!(matches!(decode_message(&[3, 0, 0]), Decoded::Incomplete));
    assert!(matches!(decode_message(&[6, 0, 0, 0, 0, 0, 0, 5, b'a']), Decoded::Incomplete));
    // Declared lengths over the bounds are refused before anything is allocated.
    assert!(matches!(decode_message(&[2, 0, 0x04, 0x01]), Decoded::Malformed));
    assert!(matches!(decode_message(&[6, 0, 0, 0, 0x7f, 0, 0, 0]), Decoded::Malformed));
    assert!(matches!(decode_message(&[1, 0, 0, 0]), Decoded::Malformed));
    assert!(matches!(decode_message(&[200]), Decoded::Malformed));
}

fn stream() -> Vec<u8> {
    let mut s = update_request(0, 0, 10, 10);
    s.extend_from_slice(&[5, 1, 0, 2, 0, 3]);
    s.extend_from_slice(&[2, 0, 0, 1, 0, 0, 0, 0]);
    s.extend_from_slice(&[6, 0, 0, 0, 0, 0, 0, 3, b'x', b'y', b'z']);
    s.extend_from_slice(&[4, 0, 0, 0, 0, 0, 0, 65]);
    s
}

fn summary(msgs: &[ClientMessage]) -> Vec<String> {
    msgs.iter().map(|m| format!("{:?}", m)).collect()
}

#[test]
fn chunked_stream_decodes_like_whole() {
    let bytes = stream();
    let mut whole = InboundBuffer::new();
    whole.push_inbound(&bytes);
    let (all, bad) = whole.drain_messages();
    assert!(!bad);
    assert_eq!(all.len(), 5);
    assert_eq!(whole.len(), 0);
    for size in 1..bytes.len() {
        let mut buf = InboundBuffer::new();
        let mut got = Vec::new();
        for chunk in bytes.chunks(size) {
            buf.push_inbound(chunk);
            let (msgs, bad) = buf.drain_messages();
            assert!(!bad);
            got.extend(msgs);
        }
        assert_eq!(summary(&got), summary(&all));
        assert_eq!(buf.len(), 0);
    }
}

#[test]
fn try_decode_one_consumes_only_a_message() {
    let mut buf = InboundBuffer::new();
    buf.push_inbound(&[5, 1, 0, 2]);
    assert!(matches!(buf.try_decode_one(), Decoded::Incomplete));
    assert_eq!(buf.len(), 4);
    buf.push_inbound(&[0, 3, 9]);
    assert!(matches!(buf.try_decode_one(), Decoded::Message(ClientMessage::PointerEvent { .. }, 6)));
    assert_eq!(buf.as_slice(), &[9]);
    assert!(matches!(buf.try_decode_one(), Decoded::Malformed));
    assert_eq!(buf.len(), 1);
}

#[test]
fn new_session_sends_version() {
    let s = Session::new(b"name");
    assert_eq!(s.stage(), Stage::AwaitingVersion);
    assert_eq!(s.pending_output(), VERSION);
    assert!(s.wants_read());
    assert!(s.wants_write());
    assert!(!s.wants_capture());
}

#[test]
fn version_line_accepted() {
    let mut s = Session::new(b"n");
    s.on_written(12);
    s.receive(VERSION);
    assert_eq!(s.stage(), Stage::AwaitingSecurityChoice);
    assert_eq!(s.pending_output(), &[1, 1]);
}

#[test]
fn version_line_mismatch() {
    let mut s = Session::new(b"n");
    s.on_written(12);
    s.receive(b"RFB 003.003\n");
    assert_eq!(s.stage(), Stage::Closed(CloseReason::VersionMismatch));
    assert!(s.pending_output().is_empty());
    assert!(s.is_finished());
}

#[test]
fn version_line_split_across_reads() {
    let mut s = Session::new(b"n");
    s.receive(&VERSION[..5]);
    assert_eq!(s.stage(), Stage::AwaitingVersion);
    s.receive(&VERSION[5..]);
    assert_eq!(s.stage(), Stage::AwaitingSecurityChoice);
}

#[test]
fn security_none_accepted() {
    let mut s = Session::new(b"n");
    s.receive(VERSION);
    s.on_written(14);
    s.receive(&[1]);
    assert_eq!(s.stage(), Stage::AwaitingClientInit);
    assert_eq!(s.pending_output(), &[0, 0, 0, 0]);
}

#[test]
fn security_other_rejected() {
    for choice in [2u8, 0, 16] {
        let mut s = Session::new(b"n");
        s.receive(VERSION);
        s.on_written(14);
        s.receive(&[choice]);
        assert_eq!(s.stage(), Stage::Closed(CloseReason::SecurityRejected));
        let out = s.pending_output();
        assert_eq!(&out[..4], &[0, 0, 0, 1]);
        let len = u32::from_be_bytes([out[4], out[5], out[6], out[7]]) as usize;
        assert_eq!(&out[8..], b"security type not supported");
        assert_eq!(len, out.len() - 8);
        assert!(!s.is_finished());
        let n = out.len();
        s.on_written(n);
        assert!(s.is_finished());
    }
}

#[test]
fn end_to_end_handshake() {
    let mut s = Session::new(b"desk");
    let mut bytes = VERSION.to_vec();
    bytes.extend_from_slice(&[1, 1]);
    s.receive(&bytes);
    assert!(s.wants_capture());
    assert_eq!(s.waiting(), Some(Waiting { target: CaptureTarget::Init, attempts: 0 }));
    s.on_capture(CaptureOutcome::Frame(shot(640, 480)));
    assert_eq!(s.stage(), Stage::Operating);
    assert_eq!(s.resolution(), Some(Resolution { width: 640, height: 480 }));
    let mut expected = VERSION.to_vec();
    expected.extend_from_slice(&[1, 1, 0, 0, 0, 0]);
    expected.extend_from_slice(&[2, 128, 1, 224]);
    expected.extend_from_slice(&encode_pixel_format(&PixelFormat::native()));
    expected.extend_from_slice(&[0, 0, 0, 4]);
    expected.extend_from_slice(b"desk");
    assert_eq!(s.pending_output(), expected.as_slice());
}

#[test]
fn full_frame_update() {
    let mut s = operating_session(100, 50);
    s.receive(&update_request(0, 0, 100, 50));
    assert!(s.wants_capture());
    let frame = shot(100, 50);
    let data = frame.data.clone();
    s.on_capture(CaptureOutcome::Frame(frame));
    let out = s.pending_output();
    assert_eq!(&out[..4], &[0, 0, 0, 1]);
    assert_eq!(&out[4..16], &[0, 0, 0, 0, 0, 100, 0, 50, 0, 0, 0, 0]);
    assert_eq!(out.len() - 16, 100 * 50 * 4);
    assert_eq!(&out[16..], data.as_slice());
}

#[test]
fn request_is_clipped() {
    let res = Resolution { width: 100, height: 50 };
    let r = clip(&UpdateRequest { incremental: false, x: 90, y: 40, width: 30, height: 30 }, res);
    assert_eq!(r, Rect { x: 90, y: 40, width: 10, height: 10 });
    let r = clip(&UpdateRequest { incremental: true, x: 200, y: 5, width: 30, height: 60 }, res);
    assert_eq!(r, Rect { x: 100, y: 5, width: 0, height: 45 });

    let frame = shot(4, 3);
    let msg = framebuffer_update(&frame, &UpdateRequest { incremental: false, x: 2, y: 1, width: 9, height: 9 });
    assert_eq!(&msg[..16], &[0, 0, 0, 1, 0, 2, 0, 1, 0, 2, 0, 2, 0, 0, 0, 0]);
    let mut expected = Vec::new();
    for row in 1..3usize {
        let start = (row * 4 + 2) * 4;
        expected.extend_from_slice(&frame.data[start..start + 8]);
    }
    assert_eq!(&msg[16..], expected.as_slice());
}

#[test]
fn unknown_opcode_closes_session() {
    let mut s = operating_session(8, 8);
    s.receive(&[7, 0, 0, 0, 3, 0, 0, 0, 0, 0, 1, 0, 1]);
    assert_eq!(s.stage(), Stage::Closed(CloseReason::Malformed));
    assert!(!s.wants_capture());
    assert!(!s.wants_read());
}

#[test]
fn set_pixel_format_and_encodings() {
    let mut s = operating_session(8, 8);
    let init = ServerInit::new(1, 1, String::new());
    let mut msg = vec![0u8, 0, 0, 0];
    msg.extend_from_slice(&encode_pixel_format(&init.pixel_format));
    s.receive(&msg);
    assert_eq!(s.pixel_format(), init.pixel_format);
    let mut bad = PixelFormat::native();
    bad.blue_shift = 30;
    let mut msg = vec![0u8, 0, 0, 0];
    msg.extend_from_slice(&encode_pixel_format(&bad));
    s.receive(&msg);
    assert_eq!(s.pixel_format(), init.pixel_format);
    s.receive(&[2, 0, 0, 2, 0, 0, 0, 5, 0, 0, 0, 0]);
    assert_eq!(s.encodings(), &[5, 0]);
    assert_eq!(s.stage(), Stage::Operating);
}

#[test]
fn messages_wait_behind_a_capture() {
    let mut s = operating_session(2, 2);
    let mut bytes = update_request(0, 0, 1, 1);
    bytes.extend_from_slice(&update_request(1, 1, 1, 1));
    s.receive(&bytes);
    assert_eq!(s.waiting().map(|w| w.target), Some(CaptureTarget::Update(UpdateRequest { incremental: false, x: 0, y: 0, width: 1, height: 1 })));
    s.on_capture(CaptureOutcome::Frame(shot(2, 2)));
    assert_eq!(s.waiting().map(|w| w.target), Some(CaptureTarget::Update(UpdateRequest { incremental: false, x: 1, y: 1, width: 1, height: 1 })));
    s.on_capture(CaptureOutcome::Frame(shot(2, 2)));
    assert_eq!(s.waiting(), None);
    assert_eq!(s.pending_output().len(), 2 * (16 + 4));
}

#[test]
fn capture_retries_are_bounded() {
    let mut s = operating_session(2, 2);
    s.receive(&update_request(0, 0, 2, 2));
    for attempt in 1..5u8 {
        s.on_capture(CaptureOutcome::Unavailable);
        assert_eq!(s.waiting().map(|w| w.attempts), Some(attempt));
    }
    s.on_capture(CaptureOutcome::Unavailable);
    assert_eq!(s.waiting(), None);
    assert_eq!(s.stage(), Stage::Operating);
    assert!(s.pending_output().is_empty());
}

#[test]
fn fatal_capture_during_handshake_closes() {
    let mut s = Session::new(b"n");
    s.receive(VERSION);
    s.receive(&[1, 0]);
    s.on_capture(CaptureOutcome::Fatal);
    assert_eq!(s.stage(), Stage::Closed(CloseReason::CaptureFailed));
    let mut t = operating_session(2, 2);
    t.receive(&update_request(0, 0, 2, 2));
    t.on_capture(CaptureOutcome::Fatal);
    assert_eq!(t.stage(), Stage::Operating);
}

#[test]
fn malformed_frame_counts_as_failure() {
    let mut s = Session::new(b"n");
    s.receive(VERSION);
    s.receive(&[1, 0]);
    s.on_capture(CaptureOutcome::Frame(ScreenShot { width: 2, height: 2, data: vec![0; 3] }));
    assert_eq!(s.stage(), Stage::Closed(CloseReason::CaptureFailed));
}

#[test]
fn peer_close_and_io_error() {
    let mut s = Session::new(b"n");
    s.on_read_closed();
    assert_eq!(s.stage(), Stage::Closed(CloseReason::ClientDisconnected));
    assert!(!s.is_finished());
    assert!(s.wants_write());
    let mut t = Session::new(b"n");
    t.on_io_error();
    assert_eq!(t.stage(), Stage::Closed(CloseReason::IoError));
    assert!(t.is_finished());
}

#[test]
fn late_capture_is_dropped() {
    let mut s = operating_session(2, 2);
    s.receive(&update_request(0, 0, 2, 2));
    s.on_read_closed();
    s.on_capture(CaptureOutcome::Frame(shot(2, 2)));
    assert!(s.pending_output().is_empty());
    assert_eq!(s.waiting(), None);
}
