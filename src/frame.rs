use vstd::prelude::*;
use crate::message::UpdateRequest;
use crate::types::{Resolution, ScreenShot};
use crate::wire::{be16, be32, push_all, push_u16, push_u32};

verus! {

/// A rectangle of the screen, in pixels.
#[derive(Clone, Copy, Debug, PartialEq, Eq, Structural)]
pub struct Rect {
    pub x: u16,
    pub y: u16,
    pub width: u16,
    pub height: u16,
}

pub open spec fn min(a: int, b: int) -> int {
    if a <= b {
        a
    } else {
        b
    }
}

/// The part of the requested rectangle that lies on a screen of `res`.
pub open spec fn clip_spec(req: UpdateRequest, res: Resolution) -> Rect {
    let x = min(req.x as int, res.width as int);
    let y = min(req.y as int, res.height as int);
    Rect {
        x: x as u16,
        y: y as u16,
        width: min(req.width as int, res.width - x) as u16,
        height: min(req.height as int, res.height - y) as u16,
    }
}

/// `r` lies inside a screen of `res`.
pub open spec fn inside(r: Rect, res: Resolution) -> bool {
    &&& r.x as int + r.width as int <= res.width as int
    &&& r.y as int + r.height as int <= res.height as int
}

/// Clips a requested rectangle to a screen of `res`: the result is the
/// intersection of the two, and lies inside the screen.
pub fn clip(req: &UpdateRequest, res: Resolution) -> (r: Rect)
    ensures
        r == clip_spec(*req, res),
        inside(r, res),
{
    let x = if req.x <= res.width { req.x } else { res.width };
    let y = if req.y <= res.height { req.y } else { res.height };
    let width = if req.width <= res.width - x { req.width } else { res.width - x };
    let height = if req.height <= res.height - y { req.height } else { res.height - y };
    Rect { x, y, width, height }
}

/// The bytes of row `row` of `r` in a frame `stride` pixels wide.
pub open spec fn row_bytes(data: Seq<u8>, stride: nat, r: Rect, row: nat) -> Seq<u8> {
    let start = ((r.y as nat + row) * stride + r.x as nat) * 4;
    data.subrange(start as int, (start + r.width as nat * 4) as int)
}

/// The first `rows` rows of `r`, top to bottom.
pub open spec fn rows_bytes(data: Seq<u8>, stride: nat, r: Rect, rows: nat) -> Seq<u8>
    decreases rows,
{
    if rows == 0 {
        Seq::empty()
    } else {
        rows_bytes(data, stride, r, (rows - 1) as nat) + row_bytes(data, stride, r, (rows - 1) as nat)
    }
}

/// The pixels of `r` in a frame, row-major, four bytes each.
pub open spec fn rect_pixels(shot: ScreenShot, r: Rect) -> Seq<u8> {
    rows_bytes(shot.data@, shot.width as nat, r, r.height as nat)
}

/// A framebuffer-update message that carries one raw rectangle.
pub open spec fn update_bytes(r: Rect, pixels: Seq<u8>) -> Seq<u8> {
    seq![0u8, 0u8] + be16(1) + be16(r.x) + be16(r.y) + be16(r.width) + be16(r.height) + be32(0)
        + pixels
}

proof fn lemma_row_in_frame(w: nat, h: nat, r: Rect, row: nat)
    requires
        r.x as nat + r.width as nat <= w,
        r.y as nat + r.height as nat <= h,
        row < r.height,
    ensures
        ((r.y as nat + row) * w + r.x as nat) * 4 + r.width as nat * 4 <= w * h * 4,
        (r.y as nat + row) * w + r.x as nat <= w * h,
{
    let yy = r.y as nat + row;
    assert(yy + 1 <= h);
    assert((yy + 1) * w <= h * w) by (nonlinear_arith)
        requires
            yy + 1 <= h,
    ;
    assert((yy + 1) * w == yy * w + w) by (nonlinear_arith);
    assert(h * w == w * h) by (nonlinear_arith);
}

proof fn lemma_rows_len(data: Seq<u8>, w: nat, h: nat, r: Rect, rows: nat)
    requires
        data.len() == w * h * 4,
        r.x as nat + r.width as nat <= w,
        r.y as nat + r.height as nat <= h,
        rows <= r.height,
    ensures
        rows_bytes(data, w, r, rows).len() == rows * (r.width as nat * 4),
    decreases rows,
{
    if rows > 0 {
        lemma_rows_len(data, w, h, r, (rows - 1) as nat);
        lemma_row_in_frame(w, h, r, (rows - 1) as nat);
        let p = (rows - 1) as nat;
        let k = r.width as nat * 4;
        assert(row_bytes(data, w, r, p).len() == k);
        assert(rows_bytes(data, w, r, rows) == rows_bytes(data, w, r, p) + row_bytes(data, w, r, p));
        assert(rows * k == p * k + k) by (nonlinear_arith)
            requires
                p + 1 == rows,
        ;
    } else {
        assert(0 * (r.width as nat * 4) == 0);
    }
}

/// The pixels of a rectangle that lies inside a well-formed frame take
/// exactly four bytes for each of its pixels.
pub proof fn lemma_rect_pixels_len(shot: ScreenShot, r: Rect)
    requires
        shot.wf(),
        inside(r, Resolution { width: shot.width, height: shot.height }),
    ensures
        rect_pixels(shot, r).len() == r.width as nat * r.height as nat * 4,
{
    lemma_rows_len(shot.data@, shot.width as nat, shot.height as nat, r, r.height as nat);
    assert(r.height as nat * (r.width as nat * 4) == r.width as nat * r.height as nat * 4)
        by (nonlinear_arith);
}

/// A request for the whole frame is answered with exactly that rectangle,
/// and the message carries four bytes for each of its pixels after a
/// sixteen-byte header.
pub proof fn lemma_full_request(shot: ScreenShot, req: UpdateRequest)
    requires
        shot.wf(),
        req.x == 0,
        req.y == 0,
        req.width == shot.width,
        req.height == shot.height,
    ensures
        clip_spec(req, Resolution { width: shot.width, height: shot.height }) == (Rect {
            x: 0,
            y: 0,
            width: shot.width,
            height: shot.height,
        }),
        update_bytes(
            clip_spec(req, Resolution { width: shot.width, height: shot.height }),
            rect_pixels(shot, clip_spec(req, Resolution { width: shot.width, height: shot.height })),
        ).len() == 16 + shot.width as nat * shot.height as nat * 4,
{
    let r = clip_spec(req, Resolution { width: shot.width, height: shot.height });
    assert(r == Rect { x: 0, y: 0, width: shot.width, height: shot.height });
    lemma_rect_pixels_len(shot, r);
    let h0 = seq![0u8, 0u8];
    let h1 = h0 + be16(1);
    let h2 = h1 + be16(r.x);
    let h3 = h2 + be16(r.y);
    let h4 = h3 + be16(r.width);
    let h5 = h4 + be16(r.height);
    let head = h5 + be32(0);
    assert(h0.len() == 2);
    assert(h1.len() == 4);
    assert(h2.len() == 6);
    assert(h3.len() == 8);
    assert(h4.len() == 10);
    assert(h5.len() == 12);
    assert(head.len() == 16);
    assert(update_bytes(r, rect_pixels(shot, r)) == head + rect_pixels(shot, r));
}

/// Appends the pixels of `r`, which lies inside `shot`.
fn push_rect_pixels(out: &mut Vec<u8>, shot: &ScreenShot, r: Rect)
    requires
        shot.wf(),
        inside(r, Resolution { width: shot.width, height: shot.height }),
    ensures
        final(out)@ == old(out)@ + rect_pixels(*shot, r),
{
    let ghost w = shot.width as nat;
    let ghost h = shot.height as nat;
    let total = shot.data.len();
    let mut row: u16 = 0;
    while row < r.height
        invariant
            total == shot.data@.len(),
            shot.wf(),
            w == shot.width,
            h == shot.height,
            inside(r, Resolution { width: shot.width, height: shot.height }),
            row <= r.height,
            out@ == old(out)@ + rows_bytes(shot.data@, w, r, row as nat),
        decreases r.height - row,
    {
        proof {
            lemma_row_in_frame(w, h, r, row as nat);
            assert((r.y as nat + row as nat) * w <= (r.y as nat + row as nat) * w + r.x as nat);
            assert(w * h <= w * h * 4);
        }
        let line = (r.y as usize + row as usize) * (shot.width as usize);
        let start = (line + r.x as usize) * 4;
        let end = start + (r.width as usize) * 4;
        push_all(out, vstd::slice::slice_subrange(shot.data.as_slice(), start, end));
        row = row + 1;
        assert(out@ =~= old(out)@ + rows_bytes(shot.data@, w, r, row as nat));
    }
}

/// The framebuffer-update message that answers `req` from `shot`: one raw
/// rectangle, the request clipped to the frame, with its pixels.
pub fn framebuffer_update(shot: &ScreenShot, req: &UpdateRequest) -> (r: Vec<u8>)
    requires
        shot.wf(),
    ensures
        r@ == update_bytes(
            clip_spec(*req, Resolution { width: shot.width, height: shot.height }),
            rect_pixels(*shot, clip_spec(*req, Resolution { width: shot.width, height: shot.height })),
        ),
{
    let rect = clip(req, Resolution { width: shot.width, height: shot.height });
    let mut out: Vec<u8> = Vec::new();
    out.push(0);
    out.push(0);
    push_u16(&mut out, 1);
    push_u16(&mut out, rect.x);
    push_u16(&mut out, rect.y);
    push_u16(&mut out, rect.width);
    push_u16(&mut out, rect.height);
    push_u32(&mut out, 0);
    push_rect_pixels(&mut out, shot, rect);
    assert(out@ =~= update_bytes(rect, rect_pixels(*shot, rect)));
    out
}

} // verus!
