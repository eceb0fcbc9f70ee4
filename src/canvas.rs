use clipline::Clip;
use vstd::prelude::*;

verus! {

/// Index of the first of the four RGBA bytes of pixel `(x, y)` in a frame
/// that is `width` pixels wide, rows stored top to bottom.
pub open spec fn pixel_offset(width: int, x: int, y: int) -> int {
    (y * width + x) * 4
}

/// The pixel lies on a canvas of `width` by `height` pixels.
pub open spec fn on_canvas(width: u32, height: u32, p: (u32, u32)) -> bool {
    p.0 < width && p.1 < height
}

/// `frame` with the pixel `p` set to `color`.
pub open spec fn paint_pixel(frame: Seq<u8>, width: int, p: (u32, u32), color: [u8; 4]) -> Seq<u8> {
    let o = pixel_offset(width, p.0 as int, p.1 as int);
    frame.update(o, color[0]).update(o + 1, color[1]).update(o + 2, color[2]).update(
        o + 3,
        color[3],
    )
}

/// `frame` with each pixel of `points` set to `color`, in order.
pub open spec fn paint(frame: Seq<u8>, width: int, points: Seq<(u32, u32)>, color: [u8; 4]) -> Seq<
    u8,
>
    decreases points.len(),
{
    if points.len() == 0 {
        frame
    } else {
        paint_pixel(paint(frame, width, points.drop_last(), color), width, points.last(), color)
    }
}

/// Byte `b` of the frame belongs to the pixel `p`.
pub open spec fn covers(width: int, p: (u32, u32), b: int) -> bool {
    let o = pixel_offset(width, p.0 as int, p.1 as int);
    o <= b < o + 4
}

/// What painting leaves in a frame: its length is kept, every painted
/// pixel shows the color, and every byte outside the painted pixels is
/// unchanged.
pub proof fn lemma_paint_effect(
    frame: Seq<u8>,
    width: u32,
    height: u32,
    points: Seq<(u32, u32)>,
    color: [u8; 4],
)
    requires
        frame.len() == width * height * 4,
        forall|i: int| 0 <= i < points.len() ==> on_canvas(width, height, #[trigger] points[i]),
    ensures
        paint(frame, width as int, points, color).len() == frame.len(),
        forall|i: int, k: int|
            0 <= i < points.len() && 0 <= k < 4 ==> #[trigger] paint(
                frame,
                width as int,
                points,
                color,
            )[pixel_offset(width as int, points[i].0 as int, points[i].1 as int) + k] == color[k],
        forall|b: int|
            0 <= b < frame.len() && !(exists|i: int|
                0 <= i < points.len() && #[trigger] covers(width as int, points[i], b))
                ==> #[trigger] paint(frame, width as int, points, color)[b] == frame[b],
    decreases points.len(),
{
    if points.len() > 0 {
        let rest = points.drop_last();
        let last = points.last();
        lemma_paint_effect(frame, width, height, rest, color);
        lemma_pixel_in_frame(width, height, last);
        let inner = paint(frame, width as int, rest, color);
        let outer = paint(frame, width as int, points, color);
        let w = width as int;
        assert(outer == paint_pixel(inner, w, last, color));
        assert forall|i: int, k: int| 0 <= i < points.len() && 0 <= k < 4 implies #[trigger] outer[
            pixel_offset(w, points[i].0 as int, points[i].1 as int) + k] == color[k] by {
            if i < points.len() - 1 {
                assert(rest[i] == points[i]);
                lemma_pixel_in_frame(width, height, points[i]);
                assert(inner[pixel_offset(w, rest[i].0 as int, rest[i].1 as int) + k]
                    == color[k]);
            }
        }
        assert forall|b: int|
            0 <= b < frame.len() && !(exists|i: int|
                0 <= i < points.len() && #[trigger] covers(w, points[i], b)) implies #[trigger] outer[b]
            == frame[b] by {
            assert(!covers(w, points[points.len() - 1], b));
            assert forall|i: int| 0 <= i < rest.len() implies !#[trigger] covers(w, rest[i], b) by {
                assert(rest[i] == points[i]);
                assert(!covers(w, points[i], b));
            }
        }
    }
}

/// Screen row of a point `y` units above the bottom edge of a canvas
/// `height` pixels tall; points above the top edge land on row 0.
pub open spec fn screen_row(height: u32, y: u32) -> u32 {
    if y <= height {
        (height - y) as u32
    } else {
        0
    }
}

/// The pixels that clipline rasterises for the half-open segment from
/// `start` to `end`, clipped to the canvas, in drawing order; `None` where
/// the segment misses the canvas.
pub uninterp spec fn line_pixels(width: u32, height: u32, start: (u32, u32), end: (u32, u32)) -> Option<
    Seq<(u32, u32)>,
>;

/// The pixels a rasterisation returned, as a sequence.
pub open spec fn points_view(r: Option<Vec<(u32, u32)>>) -> Option<Seq<(u32, u32)>> {
    match r {
        Some(v) => Some(v@),
        None => None,
    }
}

/// Relies on clipline's `Clip::<u32>::any_octant` over the region
/// `(0, 0)..=(width - 1, height - 1)`: the pixels of the clipped segment,
/// which the crate documents to lie within the region.
#[verifier::external_body]
fn clipped_line(width: u32, height: u32, start: (u32, u32), end: (u32, u32)) -> (r: Option<
    Vec<(u32, u32)>,
>)
    requires
        width > 0,
        height > 0,
    ensures
        points_view(r) == line_pixels(width, height, start, end),
        r matches Some(v) ==> forall|i: int|
            0 <= i < v@.len() ==> on_canvas(width, height, #[trigger] v@[i]),
{
    let clip = Clip::<u32>::new((0, 0), (width - 1, height - 1))?;
    Some(clip.any_octant(start, end)?.collect())
}

proof fn lemma_pixel_in_frame(width: u32, height: u32, p: (u32, u32))
    requires
        on_canvas(width, height, p),
    ensures
        0 <= pixel_offset(width as int, p.0 as int, p.1 as int),
        pixel_offset(width as int, p.0 as int, p.1 as int) + 4 <= width * height * 4,
{
    let (w, h, x, y) = (width as int, height as int, p.0 as int, p.1 as int);
    assert(0 <= y * w + x) by (nonlinear_arith)
        requires
            0 <= x,
            0 <= y,
            0 <= w,
    ;
    assert(y * w + x + 1 <= w * h) by (nonlinear_arith)
        requires
            x < w,
            y < h,
            0 <= x,
            0 <= y,
    ;
}

/// Sets every byte of the frame to zero.
pub fn clear(frame: &mut [u8])
    ensures
        final(frame)@ == Seq::new(old(frame)@.len(), |_k: int| 0u8),
{
    let n = frame.len();
    let mut i: usize = 0;
    while i < n
        invariant
            n == frame@.len(),
            i <= n,
            forall|k: int| 0 <= k < i ==> frame@[k] == 0u8,
        decreases n - i,
    {
        frame[i] = 0;
        i += 1;
    }
    assert(frame@ =~= Seq::new(n as nat, |_k: int| 0u8));
}

/// Paints each of `points` with `color` on a frame of `width` by `height`
/// RGBA pixels.
pub fn plot(frame: &mut [u8], width: u32, height: u32, points: &Vec<(u32, u32)>, color: [u8; 4])
    requires
        old(frame)@.len() == width * height * 4,
        forall|i: int| 0 <= i < points@.len() ==> on_canvas(width, height, #[trigger] points@[i]),
    ensures
        final(frame)@ == paint(old(frame)@, width as int, points@, color),
{
    let n = frame.len();
    let mut i: usize = 0;
    while i < points.len()
        invariant
            i <= points@.len(),
            n == frame@.len(),
            frame@.len() == width * height * 4,
            forall|j: int| 0 <= j < points@.len() ==> on_canvas(width, height, #[trigger] points@[j]),
            frame@ == paint(old(frame)@, width as int, points@.take(i as int), color),
        decreases points@.len() - i,
    {
        let (x, y) = points[i];
        proof {
            lemma_pixel_in_frame(width, height, points@[i as int]);
            assert(points@.take(i as int + 1).drop_last() =~= points@.take(i as int));
            assert((y as int) * (width as int) <= (y as int) * (width as int) + (x as int));
        }
        let o: usize = ((y as usize) * (width as usize) + (x as usize)) * 4;
        frame[o] = color[0];
        frame[o + 1] = color[1];
        frame[o + 2] = color[2];
        frame[o + 3] = color[3];
        i += 1;
    }
    assert(points@.take(points@.len() as int) =~= points@);
}

/// Draws the segment from `start` to `end`, clipped to the canvas, in
/// `color`; a segment that misses the canvas leaves the frame as it was.
pub fn draw_line(
    frame: &mut [u8],
    width: u32,
    height: u32,
    start: (u32, u32),
    end: (u32, u32),
    color: [u8; 4],
)
    requires
        width > 0,
        height > 0,
        old(frame)@.len() == width * height * 4,
    ensures
        final(frame)@ == match line_pixels(width, height, start, end) {
            Some(points) => paint(old(frame)@, width as int, points, color),
            None => old(frame)@,
        },
{
    if let Some(points) = clipped_line(width, height, start, end) {
        plot(frame, width, height, &points, color);
    }
}

/// Turns a point given upward from the bottom edge into screen coordinates,
/// whose rows count downward from the top edge.
pub fn to_screen(height: u32, p: (u32, u32)) -> (r: (u32, u32))
    ensures
        r == (p.0, screen_row(height, p.1)),
{
    let row = match height.checked_sub(p.1) {
        Some(row) => row,
        None => 0,
    };
    (p.0, row)
}

} // verus!
