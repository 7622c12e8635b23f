//! What drawing needs to keep track of: which picture of an animation is
//! shown.

use vstd::prelude::*;

verus! {

/// What names a texture.
#[derive(Clone, Copy, PartialEq, Eq, PartialOrd, Ord, Structural, Debug)]
pub struct TexID(pub u32);

/// One strip of an animation: its pictures in order, and whether it starts
/// over behind the last.
#[derive(Debug)]
pub struct AnimData {
    pub frames: Vec<TexID>,
    pub loops: bool,
}

/// An animation: its strips, and which picture of which strip is shown.
#[derive(Debug)]
pub struct Animation {
    pub animations: Vec<AnimData>,
    /// The strip that is shown, and the picture of that strip.
    pub current_frame: (usize, usize),
}

/// The picture that follows picture `frame` of a strip of `len` pictures: the
/// next one; behind the last, the first where the strip loops, and the last
/// again where it does not.
pub open spec fn spec_next_frame(frame: int, len: int, loops: bool) -> int {
    if loops {
        (frame + 1) % len
    } else if frame < len - 1 {
        frame + 1
    } else {
        frame
    }
}

/// The picture that follows picture `frame` of a strip of `len` pictures.
pub fn next_frame(frame: usize, len: usize, loops: bool) -> (next: usize)
    requires
        frame < len,
    ensures
        next == spec_next_frame(frame as int, len as int, loops),
        next < len,
{
    if loops {
        (frame + 1) % len
    } else if frame < len - 1 {
        frame + 1
    } else {
        frame
    }
}

impl Animation {
    /// The strip that is shown exists, and so does the picture of it.
    pub open spec fn wf(&self) -> bool {
        self.current_frame.0 < self.animations@.len() && self.current_frame.1
            < self.animations@[self.current_frame.0 as int].frames@.len()
    }

    /// Tests `wf`.
    pub fn is_wf(&self) -> (b: bool)
        ensures
            b == self.wf(),
    {
        self.current_frame.0 < self.animations.len() && self.current_frame.1
            < self.animations[self.current_frame.0].frames.len()
    }

    /// The texture of the picture that is shown.
    pub fn current_texture(&self) -> (id: TexID)
        requires
            self.wf(),
        ensures
            id == self.animations@[self.current_frame.0 as int].frames@[self.current_frame.1 as int],
    {
        self.animations[self.current_frame.0].frames[self.current_frame.1]
    }

    /// Goes on to the next picture of the strip that is shown.
    pub fn advance(&mut self)
        requires
            old(self).wf(),
        ensures
            final(self).wf(),
            final(self).animations == old(self).animations,
            final(self).current_frame.0 == old(self).current_frame.0,
            final(self).current_frame.1 == spec_next_frame(
                old(self).current_frame.1 as int,
                old(self).animations@[old(self).current_frame.0 as int].frames@.len() as int,
                old(self).animations@[old(self).current_frame.0 as int].loops,
            ),
    {
        let strip = &self.animations[self.current_frame.0];
        let next = next_frame(self.current_frame.1, strip.frames.len(), strip.loops);
        self.current_frame.1 = next;
    }
}

/// How many pixels a row of a frame has.
pub const WIDTH: u8 = 255;

/// How many rows a frame has.
pub const HEIGHT: u8 = 255;

/// A rectangle of pixels within a frame: its corner of least coordinates, and
/// how wide and how high it is.
pub struct PixelRect {
    pub x: int,
    pub y: int,
    pub w: int,
    pub h: int,
}

/// The part of a rectangle that lies within the frame. A corner past the last
/// column or row is taken for the last one.
pub open spec fn clipped(x: u8, y: u8, w: u8, h: u8) -> PixelRect {
    let left = if x < WIDTH - 1 {
        x as int
    } else {
        WIDTH - 1
    };
    let top = if y < HEIGHT - 1 {
        y as int
    } else {
        HEIGHT - 1
    };
    PixelRect {
        x: left,
        y: top,
        w: if w < WIDTH - left {
            w as int
        } else {
            WIDTH - left
        },
        h: if h < HEIGHT - top {
            h as int
        } else {
            HEIGHT - top
        },
    }
}

/// How many bytes a frame must have for the rectangle to be drawn: up to the
/// end of the rectangle's last row.
pub open spec fn bytes_needed(rect: PixelRect) -> int {
    if rect.h <= 0 {
        0
    } else {
        4 * (WIDTH * (rect.y + rect.h - 1) + rect.x + rect.w)
    }
}

/// Byte `b` of a frame belongs to a pixel of the rectangle. A pixel is four
/// bytes, and the pixels of a frame stand row by row.
pub open spec fn covers(rect: PixelRect, b: int) -> bool {
    let column = (b / 4) % (WIDTH as int);
    let row = (b / 4) / (WIDTH as int);
    rect.x <= column < rect.x + rect.w && rect.y <= row < rect.y + rect.h
}

/// The frame with the rectangle drawn in one color.
pub open spec fn painted(frame: Seq<u8>, rect: PixelRect, color: [u8; 4]) -> Seq<u8> {
    Seq::new(
        frame.len(),
        |b: int|
            if covers(rect, b) {
                color[b % 4]
            } else {
                frame[b]
            },
    )
}

/// Draws a rectangle in one color into a frame of four bytes to the pixel.
/// What of the rectangle lies past the last column or row is left out.
pub fn draw_rect(x: u8, y: u8, w: u8, h: u8, color: [u8; 4], frame: &mut Vec<u8>)
    requires
        old(frame)@.len() >= bytes_needed(clipped(x, y, w, h)),
    ensures
        final(frame)@ == painted(old(frame)@, clipped(x, y, w, h), color),
{
    let ghost rect = clipped(x, y, w, h);
    let width: usize = 255;
    let left: usize = if x < WIDTH - 1 {
        x as usize
    } else {
        254
    };
    let top: usize = if y < HEIGHT - 1 {
        y as usize
    } else {
        254
    };
    let wide: usize = if (w as usize) < width - left {
        w as usize
    } else {
        width - left
    };
    let high: usize = if (h as usize) < width - top {
        h as usize
    } else {
        width - top
    };
    let mut row: usize = 0;
    while row < high
        invariant
            row <= high,
            width == 255,
            rect == clipped(x, y, w, h),
            left == rect.x,
            top == rect.y,
            wide == rect.w,
            high == rect.h,
            frame@.len() == old(frame)@.len(),
            frame@.len() >= bytes_needed(rect),
            forall|b: int|
                0 <= b < frame@.len() ==> #[trigger] frame@[b] == if covers(rect, b) && (b / 4) / 255
                    < top + row {
                    color[b % 4]
                } else {
                    old(frame)@[b]
                },
        decreases high - row,
    {
        let start: usize = 4 * (width * (top + row) + left);
        let mut offset: usize = 0;
        while offset < 4 * wide
            invariant
                offset <= 4 * wide,
                row < high,
                width == 255,
                rect == clipped(x, y, w, h),
                left == rect.x,
                top == rect.y,
                wide == rect.w,
                high == rect.h,
                start == 4 * (width * (top + row) + left),
                frame@.len() == old(frame)@.len(),
                frame@.len() >= bytes_needed(rect),
                forall|b: int|
                    0 <= b < frame@.len() ==> #[trigger] frame@[b] == if covers(rect, b) && ((b
                        / 4) / 255 < top + row || ((b / 4) / 255 == top + row && b < start
                        + offset)) {
                        color[b % 4]
                    } else {
                        old(frame)@[b]
                    },
            decreases 4 * wide - offset,
        {
            frame.set(start + offset, color[offset % 4]);
            offset += 1;
        }
        row += 1;
    }
    assert(frame@ =~= painted(old(frame)@, rect, color));
}

} // verus!
