use vstd::prelude::*;
use crate::types::PixelFormat;
use crate::wire::{get_pixel_format, get_u16, get_u32, pixel_format_at, push_all, read16, read32};

verus! {

/// Most encodings a `SetEncodings` message may list.
pub const MAX_ENCODINGS: u16 = 1024;

/// Longest text a `ClientCutText` message may carry.
pub const MAX_CUT_TEXT: u32 = 1048576;

/// A request for the pixels of one rectangle of the screen.
#[derive(Clone, Copy, Debug, PartialEq, Eq, Structural)]
pub struct UpdateRequest {
    pub incremental: bool,
    pub x: u16,
    pub y: u16,
    pub width: u16,
    pub height: u16,
}

/// A message sent by the client once the handshake is done.
#[derive(Debug)]
pub enum ClientMessage {
    SetPixelFormat(PixelFormat),
    SetEncodings(Vec<i32>),
    FramebufferUpdateRequest(UpdateRequest),
    KeyEvent { down: bool, key: u32 },
    PointerEvent { buttons: u8, x: u16, y: u16 },
    ClientCutText(Vec<u8>),
}

/// A client message with its lists seen as sequences.
pub enum MessageView {
    SetPixelFormat(PixelFormat),
    SetEncodings(Seq<i32>),
    FramebufferUpdateRequest(UpdateRequest),
    KeyEvent { down: bool, key: u32 },
    PointerEvent { buttons: u8, x: u16, y: u16 },
    ClientCutText(Seq<u8>),
}

impl View for ClientMessage {
    type V = MessageView;

    open spec fn view(&self) -> MessageView {
        match self {
            ClientMessage::SetPixelFormat(pf) => MessageView::SetPixelFormat(*pf),
            ClientMessage::SetEncodings(v) => MessageView::SetEncodings(v@),
            ClientMessage::FramebufferUpdateRequest(r) => MessageView::FramebufferUpdateRequest(*r),
            ClientMessage::KeyEvent { down, key } => MessageView::KeyEvent { down: *down, key: *key },
            ClientMessage::PointerEvent { buttons, x, y } => MessageView::PointerEvent {
                buttons: *buttons,
                x: *x,
                y: *y,
            },
            ClientMessage::ClientCutText(t) => MessageView::ClientCutText(t@),
        }
    }
}

/// The outcome of trying to decode one client message from the front of a
/// byte sequence.
#[derive(Debug)]
pub enum Decoded {
    /// More bytes are needed; nothing is consumed.
    Incomplete,
    /// The bytes break the protocol; the session cannot go on.
    Malformed,
    /// A message and the number of bytes it took.
    Message(ClientMessage, usize),
}

/// `Decoded` in mathematical terms.
pub enum Parse {
    Incomplete,
    Malformed,
    Message(MessageView, nat),
}

impl View for Decoded {
    type V = Parse;

    open spec fn view(&self) -> Parse {
        match self {
            Decoded::Incomplete => Parse::Incomplete,
            Decoded::Malformed => Parse::Malformed,
            Decoded::Message(m, n) => Parse::Message(m@, *n as nat),
        }
    }
}

/// The signed big-endian 32-bit value at `i`.
pub open spec fn read_i32(b: Seq<u8>, i: int) -> i32 {
    let u = read32(b, i) as int;
    (if u >= 0x8000_0000 {
        u - 0x1_0000_0000
    } else {
        u
    }) as i32
}

/// The encodings listed by a `SetEncodings` message of `n` entries.
pub open spec fn encodings_at(b: Seq<u8>, n: nat) -> Seq<i32> {
    Seq::new(n, |k: int| read_i32(b, 4 + 4 * k))
}

/// What the front of `b` holds as a client message. The first byte is the
/// message type; an unknown type has no known length, so it is malformed.
pub open spec fn parse(b: Seq<u8>) -> Parse {
    if b.len() == 0 {
        Parse::Incomplete
    } else if b[0] == 0 {
        if b.len() < 20 {
            Parse::Incomplete
        } else {
            Parse::Message(MessageView::SetPixelFormat(pixel_format_at(b, 4)), 20)
        }
    } else if b[0] == 2 {
        if b.len() < 4 {
            Parse::Incomplete
        } else if read16(b, 2) > MAX_ENCODINGS {
            Parse::Malformed
        } else if b.len() < 4 + 4 * read16(b, 2) {
            Parse::Incomplete
        } else {
            Parse::Message(
                MessageView::SetEncodings(encodings_at(b, read16(b, 2) as nat)),
                (4 + 4 * read16(b, 2)) as nat,
            )
        }
    } else if b[0] == 3 {
        if b.len() < 10 {
            Parse::Incomplete
        } else {
            Parse::Message(
                MessageView::FramebufferUpdateRequest(
                    UpdateRequest {
                        incremental: b[1] != 0,
                        x: read16(b, 2),
                        y: read16(b, 4),
                        width: read16(b, 6),
                        height: read16(b, 8),
                    },
                ),
                10,
            )
        }
    } else if b[0] == 4 {
        if b.len() < 8 {
            Parse::Incomplete
        } else {
            Parse::Message(MessageView::KeyEvent { down: b[1] != 0, key: read32(b, 4) }, 8)
        }
    } else if b[0] == 5 {
        if b.len() < 6 {
            Parse::Incomplete
        } else {
            Parse::Message(
                MessageView::PointerEvent { buttons: b[1], x: read16(b, 2), y: read16(b, 4) },
                6,
            )
        }
    } else if b[0] == 6 {
        if b.len() < 8 {
            Parse::Incomplete
        } else if read32(b, 4) > MAX_CUT_TEXT {
            Parse::Malformed
        } else if b.len() < 8 + read32(b, 4) {
            Parse::Incomplete
        } else {
            Parse::Message(
                MessageView::ClientCutText(b.subrange(8, 8 + read32(b, 4))),
                (8 + read32(b, 4)) as nat,
            )
        }
    } else {
        Parse::Malformed
    }
}

/// A decoded message always takes at least one byte and no more than
/// there are.
pub proof fn lemma_parse_consumes(b: Seq<u8>)
    ensures
        parse(b) matches Parse::Message(_, n) ==> 0 < n <= b.len(),
{
}

/// Once the front of `b` decides a message or a violation, bytes that
/// arrive after it change nothing.
pub proof fn lemma_parse_extend(b: Seq<u8>, c: Seq<u8>)
    requires
        !(parse(b) is Incomplete),
    ensures
        parse(b + c) == parse(b),
{
    let bc = b + c;
    assert(forall|i: int| 0 <= i < b.len() ==> bc[i] == b[i]);
    if b[0] == 2 && read16(b, 2) <= MAX_ENCODINGS && b.len() >= 4 + 4 * read16(b, 2) {
        let n = read16(b, 2) as nat;
        assert(encodings_at(bc, n) =~= encodings_at(b, n));
    }
    if b[0] == 6 && read32(b, 4) <= MAX_CUT_TEXT && b.len() >= 8 + read32(b, 4) {
        assert(bc.subrange(8, 8 + read32(b, 4)) =~= b.subrange(8, 8 + read32(b, 4)));
    }
}

fn get_i32(b: &[u8], i: usize) -> (r: i32)
    requires
        i + 4 <= b@.len(),
    ensures
        r == read_i32(b@, i as int),
{
    let u = get_u32(b, i);
    if u >= 0x8000_0000 {
        (u as i64 - 0x1_0000_0000i64) as i32
    } else {
        u as i32
    }
}

/// Decodes the client message at the front of `b`.
pub fn decode_message(b: &[u8]) -> (r: Decoded)
    ensures
        r@ == parse(b@),
{
    let len = b.len();
    if len == 0 {
        return Decoded::Incomplete;
    }
    let op = b[0];
    if op == 0 {
        if len < 20 {
            Decoded::Incomplete
        } else {
            Decoded::Message(ClientMessage::SetPixelFormat(get_pixel_format(b, 4)), 20)
        }
    } else if op == 2 {
        if len < 4 {
            return Decoded::Incomplete;
        }
        let n = get_u16(b, 2);
        if n > MAX_ENCODINGS {
            Decoded::Malformed
        } else if len < 4 + 4 * (n as usize) {
            Decoded::Incomplete
        } else {
            let mut list: Vec<i32> = Vec::new();
            let mut k: usize = 0;
            while k < n as usize
                invariant
                    k <= n,
                    n <= MAX_ENCODINGS,
                    4 + 4 * (n as int) <= b@.len(),
                    list@ =~= encodings_at(b@, k as nat),
                decreases n - k,
            {
                let e = get_i32(b, 4 + 4 * k);
                list.push(e);
                k = k + 1;
            }
            Decoded::Message(ClientMessage::SetEncodings(list), 4 + 4 * (n as usize))
        }
    } else if op == 3 {
        if len < 10 {
            Decoded::Incomplete
        } else {
            Decoded::Message(
                ClientMessage::FramebufferUpdateRequest(
                    UpdateRequest {
                        incremental: b[1] != 0,
                        x: get_u16(b, 2),
                        y: get_u16(b, 4),
                        width: get_u16(b, 6),
                        height: get_u16(b, 8),
                    },
                ),
                10,
            )
        }
    } else if op == 4 {
        if len < 8 {
            Decoded::Incomplete
        } else {
            Decoded::Message(ClientMessage::KeyEvent { down: b[1] != 0, key: get_u32(b, 4) }, 8)
        }
    } else if op == 5 {
        if len < 6 {
            Decoded::Incomplete
        } else {
            Decoded::Message(
                ClientMessage::PointerEvent { buttons: b[1], x: get_u16(b, 2), y: get_u16(b, 4) },
                6,
            )
        }
    } else if op == 6 {
        if len < 8 {
            return Decoded::Incomplete;
        }
        let t = get_u32(b, 4);
        if t > MAX_CUT_TEXT {
            Decoded::Malformed
        } else if len < 8 + t as usize {
            Decoded::Incomplete
        } else {
            let end = 8 + t as usize;
            let mut text: Vec<u8> = Vec::new();
            push_all(&mut text, vstd::slice::slice_subrange(b, 8, end));
            assert(text@ =~= b@.subrange(8, end as int));
            Decoded::Message(ClientMessage::ClientCutText(text), end)
        }
    } else {
        Decoded::Malformed
    }
}

} // verus!
