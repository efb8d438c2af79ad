//! A score card: one player's point count, with the rectangle where the
//! caller renders it.

use vstd::prelude::*;

verus! {

use crate::Resettable;
use crate::Rgb;
use crate::MAX_COORD;

pub struct ScoreCard {
    pub color: Rgb,
    pub x: i64,
    pub y: i64,
    pub width: i64,
    pub height: i64,
    pub score: i32,
}

impl ScoreCard {
    pub open spec fn wf(self) -> bool {
        &&& 0 <= self.x <= MAX_COORD
        &&& 0 <= self.y <= MAX_COORD
        &&& 0 <= self.width <= MAX_COORD
        &&& 0 <= self.height <= MAX_COORD
        &&& 0 <= self.score
    }

    pub fn new(color: Rgb, x: i64, y: i64, width: i64, height: i64) -> (card: ScoreCard)
        requires
            0 <= x <= MAX_COORD,
            0 <= y <= MAX_COORD,
            0 <= width <= MAX_COORD,
            0 <= height <= MAX_COORD,
        ensures
            card.wf(),
            card.color == color,
            card.x == x,
            card.y == y,
            card.width == width,
            card.height == height,
            card.score == 0,
    {
        ScoreCard { color, x, y, width, height, score: 0 }
    }

    /// A new round starts from a clean score.
    pub fn reset(&mut self)
        ensures
            *final(self) == (ScoreCard { score: 0, ..*old(self) }),
    {
        self.score = 0;
    }
}

impl Resettable for ScoreCard {
    open spec fn reset_ready(&self) -> bool {
        true
    }

    fn reset(&mut self) {
        self.reset();
    }
}

} // verus!
