//! The player: a box that falls, jumps, and leaves the screen when it is hit.

use vstd::prelude::*;
use crate::geom::Rectangle;
use crate::geom::Vector;
use crate::object::DrawCall;
use crate::object::Frame;
use crate::object::GameError;
use crate::object::GameObject;
use crate::object::ImageHandle;

verus! {

/// Both coordinates of a player that is out of play: far off every screen.
pub const OUT_OF_PLAY: i64 = 9999 * 65536;

/// The player's box.
#[derive(Clone, Copy, Debug, PartialEq, Eq, Structural)]
pub struct Player {
    pub pos: Vector,
    pub size: Vector,
}

impl Player {
    /// A player at `pos` with extent `size`.
    pub fn new(pos: Vector, size: Vector) -> (player: Player)
        ensures
            player == (Player { pos, size }),
    {
        Player { pos, size }
    }

    /// The box that the player fills.
    pub open spec fn bounds(self) -> Rectangle {
        Rectangle { pos: self.pos, size: self.size }
    }

    /// The player after it ran into something: out of play, its extent kept.
    pub open spec fn hit(self) -> Player {
        Player { pos: Vector { x: OUT_OF_PLAY, y: OUT_OF_PLAY }, size: self.size }
    }

    /// What there is to draw of the player: its whole image over its box.
    pub open spec fn drawn(self, image: Option<ImageHandle>) -> Seq<DrawCall> {
        match image {
            Some(image) => seq![
                DrawCall { target: self.bounds(), image, region: None },
            ],
            None => Seq::empty(),
        }
    }
}

impl GameObject for Player {
    open spec fn updatable(&self, frame: &Frame) -> bool {
        true
    }

    open spec fn drawable(&self) -> bool {
        true
    }

    fn resource(&self) -> (name: &'static str)
        ensures
            name@ == "ferris.png"@,
    {
        "ferris.png"
    }

    /// The player does not move by itself.
    fn update(&mut self, frame: &Frame) -> (done: Result<(), GameError>)
        ensures
            done is Ok,
            *final(self) == *old(self),
    {
        Ok(())
    }

    fn draw(&mut self, image: Option<ImageHandle>) -> (calls: Result<Vec<DrawCall>, GameError>)
        ensures
            *final(self) == *old(self),
            calls is Ok,
            calls->Ok_0@ == old(self).drawn(image),
    {
        let mut calls: Vec<DrawCall> = Vec::new();
        if let Some(image) = image {
            calls.push(DrawCall { target: Rectangle::new(self.pos, self.size), image, region: None });
        }
        assert(calls@ =~= self.drawn(image));
        Ok(calls)
    }

    fn area(&self) -> (area: Rectangle)
        ensures
            area == self.bounds(),
    {
        Rectangle::new(self.pos, self.size)
    }

    /// Whatever the player runs into puts it out of play.
    fn on_collided(&mut self, other: &Rectangle)
        ensures
            *final(self) == old(self).hit(),
    {
        self.pos.x = OUT_OF_PLAY;
        self.pos.y = OUT_OF_PLAY;
    }
}

} // verus!
