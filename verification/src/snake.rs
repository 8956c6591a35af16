//! The snake: a head, a heading and a length. Its body is not stored; it is
//! the trail of markers that the head leaves on the board.

use vstd::prelude::*;
use crate::types::{Coord, Dir};

verus! {

#[derive(Debug)]
pub struct Snake {
    head: Coord,
    dir: Dir,
    len: usize,
}

impl Snake {
    pub closed spec fn spec_head_pos(&self) -> Coord {
        self.head
    }

    pub closed spec fn spec_direction(&self) -> Dir {
        self.dir
    }

    pub closed spec fn spec_len(&self) -> usize {
        self.len
    }

    pub fn new(head: Coord, dir: Dir, len: usize) -> (snake: Snake)
        ensures
            snake.head_pos() == head,
            snake.direction() == dir,
            snake.len() == len,
    {
        Snake { head, dir, len }
    }

    /// Moves the head one cell along the heading, across an edge to the other
    /// side of the board.
    pub fn advance(&mut self)
        ensures
            final(self).head_pos() == old(self).head_pos().plus_wrapped(old(self).direction()),
            final(self).head_pos().in_bounds(),
            final(self).direction() == old(self).direction(),
            final(self).len() == old(self).len(),
    {
        self.head = self.head.add_wrapped(self.dir);
    }

    pub fn add_food(&mut self, food: usize)
        requires
            old(self).len() + food <= usize::MAX,
        ensures
            final(self).len() == old(self).len() + food,
            final(self).head_pos() == old(self).head_pos(),
            final(self).direction() == old(self).direction(),
    {
        self.len += food;
    }

    /// Turns the snake to `dir`, unless that would reverse it on the spot.
    pub fn point(&mut self, dir: Dir)
        ensures
            final(self).direction() == if dir == old(self).direction().opposite() {
                old(self).direction()
            } else {
                dir
            },
            final(self).head_pos() == old(self).head_pos(),
            final(self).len() == old(self).len(),
    {
        if !self.dir.is_opposite(dir) {
            self.dir = dir;
        }
    }

    #[verifier::when_used_as_spec(spec_len)]
    pub fn len(&self) -> (n: usize)
        ensures
            n == self.spec_len(),
    {
        self.len
    }

    #[verifier::when_used_as_spec(spec_head_pos)]
    pub fn head_pos(&self) -> (c: Coord)
        ensures
            c == self.spec_head_pos(),
    {
        self.head
    }

    #[verifier::when_used_as_spec(spec_direction)]
    pub fn direction(&self) -> (d: Dir)
        ensures
            d == self.spec_direction(),
    {
        self.dir
    }
}

} // verus!
