use vstd::prelude::*;
use crate::buffer::{InboundBuffer, OutboundBuffer};
use crate::frame::{clip_spec, framebuffer_update, rect_pixels, update_bytes};
use crate::message::{lemma_parse_consumes, parse, ClientMessage, Decoded, MessageView, Parse, UpdateRequest};
use crate::types::{PixelFormat, Resolution, ScreenShot};
use crate::wire::{
    push_security_offer, push_security_result, push_server_init_parts, security_failed,
    security_offer, security_ok, server_init_bytes, version_bytes, version_line,
};

verus! {

/// Capture attempts made for one request before it is given up.
pub const MAX_CAPTURE_ATTEMPTS: u8 = 5;

/// Why a session ended.
#[derive(Clone, Copy, Debug, PartialEq, Eq, Structural)]
pub enum CloseReason {
    VersionMismatch,
    SecurityRejected,
    Malformed,
    ClientDisconnected,
    IoError,
    CaptureFailed,
}

/// Where a session stands in the protocol.
#[derive(Clone, Copy, Debug, PartialEq, Eq, Structural)]
pub enum Stage {
    AwaitingVersion,
    AwaitingSecurityChoice,
    AwaitingClientInit,
    Operating,
    Closed(CloseReason),
}

/// What a screen capture is wanted for.
#[derive(Clone, Copy, Debug, PartialEq, Eq, Structural)]
pub enum CaptureTarget {
    /// The server-init message that ends the handshake.
    Init,
    /// A framebuffer update that answers a request.
    Update(UpdateRequest),
}

/// A capture the session waits for, with the attempts already failed.
#[derive(Clone, Copy, Debug, PartialEq, Eq, Structural)]
pub struct Waiting {
    pub target: CaptureTarget,
    pub attempts: u8,
}

/// What one attempt to capture the screen gave.
pub enum CaptureOutcome {
    Frame(ScreenShot),
    /// No frame now; another attempt may succeed.
    Unavailable,
    /// No frame can be had.
    Fatal,
}

/// A session in mathematical terms.
pub struct SessionView {
    pub stage: Stage,
    pub pixel_format: PixelFormat,
    pub encodings: Seq<i32>,
    pub shared: bool,
    pub inbound: Seq<u8>,
    pub outbound: Seq<u8>,
    pub waiting: Option<Waiting>,
    pub resolution: Option<Resolution>,
    pub name: Seq<u8>,
}

impl SessionView {
    /// The name fits its length field, and a capture is never retried past
    /// the bound.
    pub open spec fn wf(self) -> bool {
        &&& self.name.len() <= u32::MAX
        &&& self.waiting matches Some(w) ==> w.attempts < MAX_CAPTURE_ATTEMPTS
    }
}

/// The reason sent to a client whose security type is refused.
pub open spec fn reject_reason() -> Seq<u8> {
    seq![115u8, 101, 99, 117, 114, 105, 116, 121, 32, 116, 121, 112, 101, 32, 110, 111, 116, 32,
        115, 117, 112, 112, 111, 114, 116, 101, 100]
}

pub open spec fn is_closed(s: Stage) -> bool {
    s is Closed
}

/// The session after message `m` of the operating stage. A pixel format
/// that breaks the rules of `PixelFormat::valid` is ignored and the
/// previous one kept; a list of encodings is recorded as sent, while raw
/// encoding stays in use whatever it holds; an update request waits for a
/// capture; input events and cut text are read and dropped.
pub open spec fn apply(v: SessionView, m: MessageView) -> SessionView {
    match m {
        MessageView::SetPixelFormat(pf) => if pf.valid() {
            SessionView { pixel_format: pf, ..v }
        } else {
            v
        },
        MessageView::SetEncodings(list) => SessionView { encodings: list, ..v },
        MessageView::FramebufferUpdateRequest(req) => SessionView {
            waiting: Some(Waiting { target: CaptureTarget::Update(req), attempts: 0 }),
            ..v
        },
        _ => v,
    }
}

/// One step of the session on the bytes it holds, or `None` when it cannot
/// move: it waits for bytes or for a capture, or it is closed.
pub open spec fn advance(v: SessionView) -> Option<SessionView> {
    if v.waiting is Some {
        None
    } else {
        match v.stage {
            Stage::AwaitingVersion => if v.inbound.len() < 12 {
                None
            } else if v.inbound.take(12) == version_line() {
                Some(
                    SessionView {
                        stage: Stage::AwaitingSecurityChoice,
                        inbound: v.inbound.skip(12),
                        outbound: v.outbound + security_offer(),
                        ..v
                    },
                )
            } else {
                Some(
                    SessionView {
                        stage: Stage::Closed(CloseReason::VersionMismatch),
                        inbound: v.inbound.skip(12),
                        ..v
                    },
                )
            },
            Stage::AwaitingSecurityChoice => if v.inbound.len() < 1 {
                None
            } else if v.inbound[0] == 1 {
                Some(
                    SessionView {
                        stage: Stage::AwaitingClientInit,
                        inbound: v.inbound.skip(1),
                        outbound: v.outbound + security_ok(),
                        ..v
                    },
                )
            } else {
                Some(
                    SessionView {
                        stage: Stage::Closed(CloseReason::SecurityRejected),
                        inbound: v.inbound.skip(1),
                        outbound: v.outbound + security_failed(reject_reason()),
                        ..v
                    },
                )
            },
            Stage::AwaitingClientInit => if v.inbound.len() < 1 {
                None
            } else {
                Some(
                    SessionView {
                        shared: v.inbound[0] != 0,
                        inbound: v.inbound.skip(1),
                        waiting: Some(Waiting { target: CaptureTarget::Init, attempts: 0 }),
                        ..v
                    },
                )
            },
            Stage::Operating => match parse(v.inbound) {
                Parse::Incomplete => None,
                Parse::Malformed => Some(
                    SessionView { stage: Stage::Closed(CloseReason::Malformed), ..v },
                ),
                Parse::Message(m, n) => Some(
                    apply(SessionView { inbound: v.inbound.skip(n as int), ..v }, m),
                ),
            },
            Stage::Closed(_) => None,
        }
    }
}

/// A measure that every step of `advance` lowers.
pub open spec fn measure(v: SessionView) -> nat {
    v.inbound.len() + if is_closed(v.stage) {
        0nat
    } else {
        1nat
    }
}

/// The session after every step it can take on the bytes it holds, in
/// arrival order.
pub open spec fn run(v: SessionView) -> SessionView
    decreases measure(v),
{
    match advance(v) {
        None => v,
        Some(w) => if measure(w) < measure(v) {
            run(w)
        } else {
            w
        },
    }
}

pub proof fn lemma_advance_decreases(v: SessionView)
    ensures
        advance(v) matches Some(w) ==> measure(w) < measure(v),
{
    lemma_parse_consumes(v.inbound);
}

/// Every step keeps a session well formed.
pub proof fn lemma_run_wf(v: SessionView)
    requires
        v.wf(),
    ensures
        run(v).wf(),
    decreases measure(v),
{
    lemma_advance_decreases(v);
    if let Some(w) = advance(v) {
        lemma_run_wf(w);
    }
}

/// The session once it holds `bytes` in place of what it held.
pub open spec fn with_inbound(v: SessionView, bytes: Seq<u8>) -> SessionView {
    SessionView { inbound: bytes, ..v }
}

proof fn lemma_run_step(v: SessionView)
    requires
        advance(v) is Some,
    ensures
        run(v) == run(advance(v)->0),
{
    lemma_advance_decreases(v);
}

/// A session that waits for the client's version line and gets twelve
/// bytes moves on to the security choice, having offered its security
/// type, exactly when they are `RFB 003.008\n`; any other line closes it
/// for a version mismatch.
pub proof fn lemma_version_line(v: SessionView, line: Seq<u8>)
    requires
        v.stage == Stage::AwaitingVersion,
        v.waiting is None,
        line.len() == 12,
    ensures
        line == version_line() ==> run(with_inbound(v, line)) == (SessionView {
            stage: Stage::AwaitingSecurityChoice,
            inbound: Seq::empty(),
            outbound: v.outbound + security_offer(),
            ..v
        }),
        line != version_line() ==> run(with_inbound(v, line)) == (SessionView {
            stage: Stage::Closed(CloseReason::VersionMismatch),
            inbound: Seq::empty(),
            ..v
        }),
{
    let v1 = with_inbound(v, line);
    assert(line.take(12) =~= line);
    lemma_run_step(v1);
    let w = advance(v1)->0;
    assert(w.inbound =~= Seq::<u8>::empty());
    assert(advance(w) is None);
}

/// A session that waits for the security choice and gets the byte `1`
/// (None) sends a success result and waits for the client-init; any other
/// byte sends a failure with its reason and closes the session.
pub proof fn lemma_security_choice(v: SessionView, choice: u8)
    requires
        v.stage == Stage::AwaitingSecurityChoice,
        v.waiting is None,
    ensures
        choice == 1 ==> run(with_inbound(v, seq![choice])) == (SessionView {
            stage: Stage::AwaitingClientInit,
            inbound: Seq::empty(),
            outbound: v.outbound + security_ok(),
            ..v
        }),
        choice != 1 ==> run(with_inbound(v, seq![choice])) == (SessionView {
            stage: Stage::Closed(CloseReason::SecurityRejected),
            inbound: Seq::empty(),
            outbound: v.outbound + security_failed(reject_reason()),
            ..v
        }),
{
    let v1 = with_inbound(v, seq![choice]);
    lemma_run_step(v1);
    let w = advance(v1)->0;
    assert(w.inbound =~= Seq::<u8>::empty());
    assert(advance(w) is None);
}

/// After the client-init byte a session asks for a frame; a well-formed
/// frame then brings it to the operating stage with a server-init that
/// carries the frame's resolution.
pub proof fn lemma_client_init(v: SessionView, flag: u8, shot: ScreenShot)
    requires
        v.stage == Stage::AwaitingClientInit,
        v.waiting is None,
        shot.wf(),
    ensures
        run(with_inbound(v, seq![flag])).waiting == Some(
            Waiting { target: CaptureTarget::Init, attempts: 0 },
        ),
        run(after_capture(run(with_inbound(v, seq![flag])), CaptureOutcome::Frame(shot))) == (
        SessionView {
            stage: Stage::Operating,
            shared: flag != 0,
            inbound: Seq::empty(),
            outbound: v.outbound + server_init_bytes(shot_resolution(shot), v.pixel_format, v.name),
            waiting: None,
            resolution: Some(shot_resolution(shot)),
            ..v
        }),
{
    let v1 = with_inbound(v, seq![flag]);
    lemma_run_step(v1);
    let w = advance(v1)->0;
    assert(w.inbound =~= Seq::<u8>::empty());
    assert(advance(w) is None);
    let x = after_capture(w, CaptureOutcome::Frame(shot));
    assert(parse(x.inbound) is Incomplete);
    assert(advance(x) is None);
}

/// The whole handshake: a new session that reads the version line, the
/// choice of security type None and a client-init, and then gets a frame,
/// has sent its version line, the security offer, a success result and a
/// server-init with the frame's resolution, and is operating.
pub proof fn lemma_handshake(v: SessionView, flag: u8, shot: ScreenShot)
    requires
        v.stage == Stage::AwaitingVersion,
        v.waiting is None,
        v.inbound.len() == 0,
        v.outbound == version_line(),
        shot.wf(),
    ensures
        ({
            let s = run(with_inbound(v, version_line() + seq![1u8, flag]));
            let t = run(after_capture(s, CaptureOutcome::Frame(shot)));
            &&& s.waiting == Some(Waiting { target: CaptureTarget::Init, attempts: 0 })
            &&& t.stage == Stage::Operating
            &&& t.outbound == version_line() + security_offer() + security_ok() + server_init_bytes(
                shot_resolution(shot),
                v.pixel_format,
                v.name,
            )
        }),
{
    let bytes = version_line() + seq![1u8, flag];
    let v0 = with_inbound(v, bytes);
    assert(bytes.take(12) =~= version_line());
    lemma_run_step(v0);
    let v1 = advance(v0)->0;
    assert(v1.inbound =~= seq![1u8, flag]);
    lemma_run_step(v1);
    let v2 = advance(v1)->0;
    assert(v2.inbound =~= seq![flag]);
    assert(v2 == with_inbound(SessionView { inbound: Seq::empty(), ..v2 }, seq![flag]));
    lemma_client_init(SessionView { inbound: Seq::empty(), ..v2 }, flag, shot);
}

/// An operating session whose next message has a type it does not know
/// closes as malformed instead of guessing where the next message starts.
pub proof fn lemma_unknown_opcode(v: SessionView, bytes: Seq<u8>)
    requires
        v.stage == Stage::Operating,
        v.waiting is None,
        bytes.len() > 0,
        bytes[0] != 0 && bytes[0] != 2 && bytes[0] != 3 && bytes[0] != 4 && bytes[0] != 5
            && bytes[0] != 6,
    ensures
        run(with_inbound(v, bytes)).stage == Stage::Closed(CloseReason::Malformed),
{
    let v1 = with_inbound(v, bytes);
    lemma_run_step(v1);
    assert(advance(advance(v1)->0) is None);
}

/// The resolution of a frame.
pub open spec fn shot_resolution(shot: ScreenShot) -> Resolution {
    Resolution { width: shot.width, height: shot.height }
}

/// The session after the capture it waited for gave up for good: a
/// handshake cannot end, an update is skipped.
pub open spec fn capture_failed(v: SessionView) -> SessionView {
    match v.waiting {
        Some(Waiting { target: CaptureTarget::Init, .. }) => SessionView {
            stage: Stage::Closed(CloseReason::CaptureFailed),
            waiting: None,
            ..v
        },
        _ => SessionView { waiting: None, ..v },
    }
}

/// The session once a capture attempt has given `outcome`. A result that
/// comes when nothing waits for it, or after the session closed, is
/// dropped; a frame that is not well formed counts as a fatal failure.
pub open spec fn after_capture(v: SessionView, outcome: CaptureOutcome) -> SessionView {
    if v.waiting is None || is_closed(v.stage) {
        SessionView { waiting: None, ..v }
    } else {
        let w = v.waiting->0;
        match outcome {
            CaptureOutcome::Frame(shot) => if !shot.wf() {
                capture_failed(v)
            } else {
                let res = shot_resolution(shot);
                match w.target {
                    CaptureTarget::Init => SessionView {
                        stage: Stage::Operating,
                        outbound: v.outbound + server_init_bytes(res, v.pixel_format, v.name),
                        waiting: None,
                        resolution: Some(res),
                        ..v
                    },
                    CaptureTarget::Update(req) => SessionView {
                        outbound: v.outbound + update_bytes(
                            clip_spec(req, res),
                            rect_pixels(shot, clip_spec(req, res)),
                        ),
                        waiting: None,
                        resolution: Some(res),
                        ..v
                    },
                }
            },
            CaptureOutcome::Unavailable => if w.attempts + 1 < MAX_CAPTURE_ATTEMPTS {
                SessionView {
                    waiting: Some(Waiting { target: w.target, attempts: (w.attempts + 1) as u8 }),
                    ..v
                }
            } else {
                capture_failed(v)
            },
            CaptureOutcome::Fatal => capture_failed(v),
        }
    }
}

/// The state of one client connection: its protocol stage, what it has
/// negotiated, and its inbound and outbound bytes.
pub struct Session {
    stage: Stage,
    pixel_format: PixelFormat,
    encodings: Vec<i32>,
    shared: bool,
    inbound: InboundBuffer,
    outbound: OutboundBuffer,
    waiting: Option<Waiting>,
    resolution: Option<Resolution>,
    name: Vec<u8>,
}

impl View for Session {
    type V = SessionView;

    closed spec fn view(&self) -> SessionView {
        SessionView {
            stage: self.stage,
            pixel_format: self.pixel_format,
            encodings: self.encodings@,
            shared: self.shared,
            inbound: self.inbound@,
            outbound: self.outbound@,
            waiting: self.waiting,
            resolution: self.resolution,
            name: self.name@,
        }
    }
}

impl Session {
    /// A session that has just been accepted: it has queued the server's
    /// version line and waits for the client's.
    pub fn new(name: &[u8]) -> (r: Session)
        requires
            name@.len() <= u32::MAX,
        ensures
            r@.stage == Stage::AwaitingVersion,
            r@.pixel_format == PixelFormat::native_spec(),
            r@.encodings == Seq::<i32>::empty(),
            !r@.shared,
            r@.inbound == Seq::<u8>::empty(),
            r@.outbound == version_line(),
            r@.waiting is None,
            r@.resolution is None,
            r@.name == name@,
            r@.wf(),
    {
        let mut outbound = OutboundBuffer::new();
        let version = version_bytes();
        outbound.queue_outbound(version.as_slice());
        let mut own: Vec<u8> = Vec::new();
        crate::wire::push_all(&mut own, name);
        assert(outbound@ =~= version_line());
        Session {
            stage: Stage::AwaitingVersion,
            pixel_format: PixelFormat::native(),
            encodings: Vec::new(),
            shared: false,
            inbound: InboundBuffer::new(),
            outbound,
            waiting: None,
            resolution: None,
            name: own,
        }
    }

    pub fn stage(&self) -> (r: Stage)
        ensures
            r == self@.stage,
    {
        self.stage
    }

    pub fn pixel_format(&self) -> (r: PixelFormat)
        ensures
            r == self@.pixel_format,
    {
        self.pixel_format
    }

    pub fn encodings(&self) -> (r: &[i32])
        ensures
            r@ == self@.encodings,
    {
        self.encodings.as_slice()
    }

    /// The resolution of the latest frame used.
    pub fn resolution(&self) -> (r: Option<Resolution>)
        ensures
            r == self@.resolution,
    {
        self.resolution
    }

    /// The capture the session waits for, if any.
    pub fn waiting(&self) -> (r: Option<Waiting>)
        ensures
            r == self@.waiting,
    {
        self.waiting
    }

    /// Whether a capture should be made for this session now.
    pub fn wants_capture(&self) -> (r: bool)
        ensures
            r == (self@.waiting is Some && !is_closed(self@.stage)),
    {
        self.waiting.is_some() && !matches!(self.stage, Stage::Closed(_))
    }

    /// The bytes waiting to be written to the client.
    pub fn pending_output(&self) -> (r: &[u8])
        ensures
            r@ == self@.outbound,
    {
        self.outbound.pending()
    }

    /// Whether the socket should be watched for reading.
    pub fn wants_read(&self) -> (r: bool)
        ensures
            r == !is_closed(self@.stage),
    {
        !matches!(self.stage, Stage::Closed(_))
    }

    /// Whether the socket should be watched for writing.
    pub fn wants_write(&self) -> (r: bool)
        ensures
            r == (self@.outbound.len() > 0),
    {
        !self.outbound.is_empty()
    }

    /// Whether the connection can be dropped: it is closed and all that was
    /// queued for the client has been written.
    pub fn is_finished(&self) -> (r: bool)
        ensures
            r == (is_closed(self@.stage) && self@.outbound.len() == 0),
    {
        matches!(self.stage, Stage::Closed(_)) && self.outbound.is_empty()
    }

    /// Records that the first `n` pending bytes were written.
    pub fn on_written(&mut self, n: usize)
        requires
            old(self)@.wf(),
            n <= old(self)@.outbound.len(),
        ensures
            final(self)@.wf(),
            final(self)@ == (SessionView { outbound: old(self)@.outbound.skip(n as int), ..old(self)@ }),
    {
        self.outbound.consume(n);
    }

    /// The client closed its side: nothing more is read; what is queued is
    /// still to be written.
    pub fn on_read_closed(&mut self)
        requires
            old(self)@.wf(),
        ensures
            final(self)@.wf(),
            final(self)@ == (if is_closed(old(self)@.stage) {
                old(self)@
            } else {
                SessionView { stage: Stage::Closed(CloseReason::ClientDisconnected), ..old(self)@ }
            }),
    {
        if !matches!(self.stage, Stage::Closed(_)) {
            self.stage = Stage::Closed(CloseReason::ClientDisconnected);
        }
    }

    /// The socket failed: the session closes and drops what it had queued.
    pub fn on_io_error(&mut self)
        requires
            old(self)@.wf(),
        ensures
            final(self)@.wf(),
            final(self)@ == (SessionView {
                stage: Stage::Closed(CloseReason::IoError),
                outbound: Seq::empty(),
                ..old(self)@
            }),
    {
        self.stage = Stage::Closed(CloseReason::IoError);
        self.outbound = OutboundBuffer::new();
    }

    /// Bytes read from the client: they are appended to what is held, and
    /// the session takes every step it can, in arrival order.
    pub fn receive(&mut self, bytes: &[u8])
        requires
            old(self)@.wf(),
        ensures
            final(self)@.wf(),
            final(self)@ == run(SessionView { inbound: old(self)@.inbound + bytes@, ..old(self)@ }),
    {
        self.inbound.push_inbound(bytes);
        self.run_steps();
    }

    /// The outcome of a capture attempt: applied as `after_capture` says,
    /// after which the session takes every step it can.
    pub fn on_capture(&mut self, outcome: CaptureOutcome)
        requires
            old(self)@.wf(),
        ensures
            final(self)@.wf(),
            final(self)@ == run(after_capture(old(self)@, outcome)),
    {
        self.apply_capture(outcome);
        self.run_steps();
    }

    fn apply_capture(&mut self, outcome: CaptureOutcome)
        requires
            old(self)@.wf(),
        ensures
            final(self)@.wf(),
            final(self)@ == after_capture(old(self)@, outcome),
    {
        let w = match self.waiting {
            None => {
                return;
            },
            Some(w) => w,
        };
        if matches!(self.stage, Stage::Closed(_)) {
            self.waiting = None;
            return;
        }
        match outcome {
            CaptureOutcome::Frame(shot) => {
                let w64 = shot.width as u64;
                let h64 = shot.height as u64;
                assert(w64 * h64 <= 65535 * 65535) by (nonlinear_arith)
                    requires
                        w64 <= 65535,
                        h64 <= 65535,
                ;
                let ok = shot.width > 0 && shot.height > 0 && shot.data.len() as u64 == w64 * h64
                    * 4;
                if !ok {
                    self.fail_capture();
                    return;
                }
                let res = Resolution { width: shot.width, height: shot.height };
                match w.target {
                    CaptureTarget::Init => {
                        let mut msg: Vec<u8> = Vec::new();
                        push_server_init_parts(&mut msg, res, &self.pixel_format, self.name.as_slice());
                        self.outbound.queue_outbound(msg.as_slice());
                        self.stage = Stage::Operating;
                    },
                    CaptureTarget::Update(req) => {
                        let msg = framebuffer_update(&shot, &req);
                        self.outbound.queue_outbound(msg.as_slice());
                    },
                }
                self.waiting = None;
                self.resolution = Some(res);
            },
            CaptureOutcome::Unavailable => {
                if w.attempts + 1 < MAX_CAPTURE_ATTEMPTS {
                    self.waiting = Some(Waiting { target: w.target, attempts: w.attempts + 1 });
                } else {
                    self.fail_capture();
                }
            },
            CaptureOutcome::Fatal => {
                self.fail_capture();
            },
        }
    }

    fn fail_capture(&mut self)
        requires
            old(self)@.wf(),
            old(self)@.waiting is Some,
        ensures
            final(self)@.wf(),
            final(self)@ == capture_failed(old(self)@),
    {
        if let Some(Waiting { target: CaptureTarget::Init, .. }) = self.waiting {
            self.stage = Stage::Closed(CloseReason::CaptureFailed);
        }
        self.waiting = None;
    }

    fn run_steps(&mut self)
        requires
            old(self)@.wf(),
        ensures
            final(self)@.wf(),
            final(self)@ == run(old(self)@),
    {
        proof {
            lemma_run_wf(old(self)@);
        }
        loop
            invariant
                run(self@) == run(old(self)@),
                self@.wf(),
            decreases measure(self@),
        {
            let ghost before = self@;
            proof {
                lemma_advance_decreases(before);
            }
            if !self.step() {
                return;
            }
        }
    }

    /// Takes one step of `advance`, if there is one.
    fn step(&mut self) -> (progress: bool)
        requires
            old(self)@.wf(),
        ensures
            final(self)@.wf(),
            progress ==> advance(old(self)@) == Some(final(self)@),
            !progress ==> advance(old(self)@) is None && final(self)@ == old(self)@,
    {
        if self.waiting.is_some() {
            return false;
        }
        match self.stage {
            Stage::AwaitingVersion => {
                if self.inbound.len() < 12 {
                    return false;
                }
                let matched = starts_with(self.inbound.as_slice(), version_bytes().as_slice());
                self.inbound.consume(12);
                if matched {
                    let mut msg: Vec<u8> = Vec::new();
                    push_security_offer(&mut msg);
                    assert(msg@ =~= security_offer());
                    self.outbound.queue_outbound(msg.as_slice());
                    self.stage = Stage::AwaitingSecurityChoice;
                } else {
                    self.stage = Stage::Closed(CloseReason::VersionMismatch);
                }
                true
            },
            Stage::AwaitingSecurityChoice => {
                if self.inbound.len() < 1 {
                    return false;
                }
                let choice = self.inbound.as_slice()[0];
                self.inbound.consume(1);
                let mut msg: Vec<u8> = Vec::new();
                if choice == 1 {
                    push_security_result(&mut msg, None);
                    assert(msg@ =~= security_ok());
                    self.stage = Stage::AwaitingClientInit;
                } else {
                    let reason = reject_reason_bytes();
                    push_security_result(&mut msg, Some(reason.as_slice()));
                    assert(msg@ =~= security_failed(reject_reason()));
                    self.stage = Stage::Closed(CloseReason::SecurityRejected);
                }
                self.outbound.queue_outbound(msg.as_slice());
                true
            },
            Stage::AwaitingClientInit => {
                if self.inbound.len() < 1 {
                    return false;
                }
                let flag = self.inbound.as_slice()[0];
                self.inbound.consume(1);
                self.shared = flag != 0;
                self.waiting = Some(Waiting { target: CaptureTarget::Init, attempts: 0 });
                true
            },
            Stage::Operating => {
                match self.inbound.try_decode_one() {
                    Decoded::Incomplete => false,
                    Decoded::Malformed => {
                        self.stage = Stage::Closed(CloseReason::Malformed);
                        true
                    },
                    Decoded::Message(m, _) => {
                        self.handle(m);
                        true
                    },
                }
            },
            Stage::Closed(_) => false,
        }
    }

    /// Applies one message of the operating stage.
    fn handle(&mut self, m: ClientMessage)
        requires
            old(self)@.wf(),
        ensures
            final(self)@.wf(),
            final(self)@ == apply(old(self)@, m@),
    {
        match m {
            ClientMessage::SetPixelFormat(pf) => {
                if pf.is_valid() {
                    self.pixel_format = pf;
                }
            },
            ClientMessage::SetEncodings(list) => {
                self.encodings = list;
            },
            ClientMessage::FramebufferUpdateRequest(req) => {
                self.waiting = Some(Waiting { target: CaptureTarget::Update(req), attempts: 0 });
            },
            _ => {},
        }
    }
}

/// Whether `b` begins with `prefix`.
fn starts_with(b: &[u8], prefix: &[u8]) -> (r: bool)
    requires
        prefix@.len() <= b@.len(),
    ensures
        r == (b@.take(prefix@.len() as int) == prefix@),
{
    let mut i: usize = 0;
    while i < prefix.len()
        invariant
            i <= prefix@.len(),
            prefix@.len() <= b@.len(),
            forall|k: int| 0 <= k < i ==> b@[k] == prefix@[k],
        decreases prefix@.len() - i,
    {
        if b[i] != prefix[i] {
            assert(b@.take(prefix@.len() as int)[i as int] != prefix@[i as int]);
            return false;
        }
        i = i + 1;
    }
    assert(b@.take(prefix@.len() as int) =~= prefix@);
    true
}

fn reject_reason_bytes() -> (r: Vec<u8>)
    ensures
        r@ == reject_reason(),
{
    let r: Vec<u8> = vec![115u8, 101, 99, 117, 114, 105, 116, 121, 32, 116, 121, 112, 101, 32,
        110, 111, 116, 32, 115, 117, 112, 112, 111, 114, 116, 101, 100];
    assert(r@ =~= reject_reason());
    r
}

} // verus!
