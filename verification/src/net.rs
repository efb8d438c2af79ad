//! The net: a dashed vertical line across the middle of the playfield.
//! The dash layout is computed here; the caller only draws the rectangles.

use vstd::prelude::*;

verus! {

use crate::Rgb;
use crate::MAX_COORD;

/// Most dashes a net can be configured with.
pub const MAX_NET_DOTS: i32 = 10_000;

pub struct Net {
    pub color: Rgb,
    /// x subpixel coordinate of the dashes' left edge.
    pub x: i64,
    pub dot_width: i64,
    pub dot_height: i64,
    pub num_dots: i32,
}

impl Net {
    pub open spec fn wf(self) -> bool {
        &&& 0 <= self.x <= MAX_COORD
        &&& 0 < self.dot_width <= MAX_COORD
        &&& 0 < self.dot_height <= MAX_COORD
        &&& 0 <= self.num_dots <= MAX_NET_DOTS
    }

    pub fn new(color: Rgb, x: i64, dot_width: i64, dot_height: i64, num_dots: i32) -> (net: Net)
        requires
            0 <= x <= MAX_COORD,
            0 < dot_width <= MAX_COORD,
            0 < dot_height <= MAX_COORD,
            0 <= num_dots <= MAX_NET_DOTS,
        ensures
            net.wf(),
            net.color == color,
            net.x == x,
            net.dot_width == dot_width,
            net.dot_height == dot_height,
            net.num_dots == num_dots,
    {
        Net { color, x, dot_width, dot_height, num_dots }
    }

    /// The top-left corners of the net's dashes: one dash per dot, each a
    /// `dot_width` by `dot_height` rectangle, with a dash-sized gap
    /// between consecutive dashes.
    pub fn dot_positions(&self) -> (dots: Vec<(i64, i64)>)
        requires
            self.wf(),
        ensures
            dots@.len() == self.num_dots,
            forall|k: int|
                0 <= k < dots@.len() ==> dots@[k].0 == self.x && dots@[k].1 == 2 * k
                    * self.dot_height,
    {
        let mut dots: Vec<(i64, i64)> = Vec::new();
        let mut i: i32 = 0;
        while i < self.num_dots
            invariant
                self.wf(),
                0 <= i <= self.num_dots,
                dots@.len() == i,
                forall|k: int|
                    0 <= k < dots@.len() ==> dots@[k].0 == self.x && dots@[k].1 == 2 * k
                        * self.dot_height,
            decreases self.num_dots - i,
        {
            proof {
                assert(2 * (i as int) * self.dot_height <= 2 * MAX_NET_DOTS * MAX_COORD)
                    by (nonlinear_arith)
                    requires
                        0 <= i < MAX_NET_DOTS,
                        0 < self.dot_height <= MAX_COORD,
                ;
                assert(2 * (i as int) * self.dot_height >= 0) by (nonlinear_arith)
                    requires
                        0 <= i,
                        0 < self.dot_height,
                ;
            }
            let y: i64 = 2 * (i as i64) * self.dot_height;
            dots.push((self.x, y));
            i = i + 1;
        }
        dots
    }
}

} // verus!
