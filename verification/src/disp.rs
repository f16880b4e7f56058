//! The monochrome display: a grid of pixels stored row after row, and its
//! rendering into a frame of RGBA bytes.

use vstd::prelude::*;
use crate::mem::filled;
use crate::sprite::{blit, collided, plotted, rows_at};

verus! {

/// Display width in pixels.
pub const WIDTH: u8 = 64;

/// Display height in pixels.
pub const HEIGHT: u8 = 32;

/// Bytes per pixel in a frame: red, green, blue, alpha.
pub const PIXEL_BYTES: usize = 4;

/// The frame after rendering: pixel `p` fills bytes `4p` to `4p + 3`, all
/// 0xFF where the pixel is lit and 0x00, 0x00, 0x00, 0xFF where it is not.
/// As many pixels are rendered as the frame holds whole; bytes that are left
/// over at the end keep their value.
pub open spec fn painted(screen: Seq<bool>, frame: Seq<u8>) -> Seq<u8> {
    Seq::new(
        frame.len(),
        |b: int|
            if b / 4 < frame.len() / 4 {
                if b % 4 == 3 || screen[b / 4] {
                    0xFFu8
                } else {
                    0x00u8
                }
            } else {
                frame[b]
            },
    )
}

/// Renders `screen` into `frame`, one pixel to four bytes.
pub fn paint(screen: &Vec<bool>, frame: &mut [u8])
    requires
        old(frame).len() / 4 <= screen.len(),
    ensures
        final(frame)@ == painted(screen@, old(frame)@),
{
    let pixels = frame.len() / PIXEL_BYTES;
    let mut idx: usize = 0;
    while idx < pixels
        invariant
            idx <= pixels,
            pixels == old(frame).len() / 4,
            pixels <= screen.len(),
            frame.len() == old(frame).len(),
            forall|b: int|
                0 <= b < frame.len() ==> frame[b] == if b / 4 < idx {
                    painted(screen@, old(frame)@)[b]
                } else {
                    old(frame)[b]
                },
        decreases pixels - idx,
    {
        let shade: u8 = if screen[idx] {
            0xFF
        } else {
            0x00
        };
        let at = idx * PIXEL_BYTES;
        frame[at] = shade;
        frame[at + 1] = shade;
        frame[at + 2] = shade;
        frame[at + 3] = 0xFF;
        idx += 1;
    }
}

/// A pixel grid with its dimensions.
pub struct Display {
    /// Height in pixels.
    pub height: u8,
    /// Width in pixels.
    pub width: u8,
    /// Pixels, row after row: pixel (`x`, `y`) is entry `y * width + x`.
    pub screen: Vec<bool>,
}

impl Display {
    /// The grid is not empty and holds one pixel per position.
    pub open spec fn wf(&self) -> bool {
        self.width > 0 && self.height > 0 && self.screen.len() == self.width * self.height
    }

    /// A blank display of 64 by 32 pixels.
    pub fn init() -> (display: Display)
        ensures
            display.wf(),
            display.width == WIDTH,
            display.height == HEIGHT,
            display.screen@ == Seq::new((WIDTH * HEIGHT) as nat, |i: int| false),
    {
        Display { height: HEIGHT, width: WIDTH, screen: filled(false, 64 * 32) }
    }

    /// Draws the `n` sprite rows found in `ram` from `ir` on with the
    /// sprite's top left corner at (`x`, `y`), by exclusive or and with each
    /// pixel wrapping round the edges on its own. Register 0xF of `vx` is set
    /// to 1 if a lit pixel was put out, and is left alone otherwise.
    pub fn update(&mut self, x: u8, y: u8, n: u16, vx: &mut Vec<u8>, ir: u16, ram: &Vec<u8>)
        requires
            old(self).wf(),
            old(vx).len() > 0xF,
            ir + n <= ram.len(),
        ensures
            final(self).wf(),
            final(self).width == old(self).width,
            final(self).height == old(self).height,
            final(self).screen@ == plotted(
                old(self).screen@,
                rows_at(ram@, ir as int, n as nat),
                x as int,
                y as int,
                old(self).width as int,
                old(self).height as int,
                8 * n as nat,
            ),
            final(vx)@ == if collided(
                old(self).screen@,
                rows_at(ram@, ir as int, n as nat),
                x as int,
                y as int,
                old(self).width as int,
                old(self).height as int,
                8 * n as nat,
            ) {
                old(vx)@.update(0xF, 1u8)
            } else {
                old(vx)@
            },
    {
        let hit = blit(&mut self.screen, self.width, self.height, ram, ir as usize, n, x, y);
        if hit {
            vx[0xF] = 1;
        }
    }

    /// Renders the display into `frame`, one pixel to four RGBA bytes.
    pub fn draw(&self, frame: &mut [u8])
        requires
            old(frame).len() / 4 <= self.screen.len(),
        ensures
            final(frame)@ == painted(self.screen@, old(frame)@),
    {
        paint(&self.screen, frame);
    }
}

} // verus!
