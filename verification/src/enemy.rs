//! Pipes: the obstacles that drift towards the player.

use vstd::prelude::*;
use crate::geom::floor_units;
use crate::geom::scaled;
use crate::geom::Rectangle;
use crate::geom::Vector;
use crate::geom::HALF;
use crate::object::DrawCall;
use crate::object::Frame;
use crate::object::GameError;
use crate::object::GameObject;
use crate::object::ImageHandle;

verus! {

/// Width of a pipe on the screen: one and a half times its 26 pixels.
pub const PIPE_WIDTH: i64 = 39 * 65536;

/// Height of a pipe on the screen: one and a half times its 135 pixels.
pub const PIPE_HEIGHT: i64 = 405 * 32768;

/// How far a pipe moves to the left in one frame.
pub const PIPE_SPEED: i64 = 32768;

/// One pipe.
#[derive(Clone, Copy, Debug, PartialEq, Eq, Structural)]
pub struct Pipe {
    pub pos: Vector,
    pub size: Vector,
}

/// The part of the sprite sheet that shows a pipe.
pub open spec fn pipe_region() -> Rectangle {
    Rectangle { pos: Vector::of_pixels(302, 0), size: Vector::of_pixels(26, 135) }
}

impl Pipe {
    /// What `new` returns: a pipe of the fixed extent, raised from `pos` by
    /// the fraction `len` of its height.
    pub open spec fn spawned(pos: Vector, len: i64) -> Pipe {
        Pipe {
            pos: Vector { x: pos.x, y: (pos.y - scaled(PIPE_HEIGHT as int, len as int)) as i64 },
            size: Vector { x: PIPE_WIDTH, y: PIPE_HEIGHT },
        }
    }

    /// Whether the raised corner still lies within `i64`.
    pub open spec fn spawnable(pos: Vector, len: i64) -> bool {
        i64::MIN <= pos.y - scaled(PIPE_HEIGHT as int, len as int) <= i64::MAX
    }

    /// A pipe whose corner lies the fraction `len` of a pipe's height above `pos`.
    pub fn new(pos: Vector, len: i64) -> (pipe: Pipe)
        requires
            Pipe::spawnable(pos, len),
        ensures
            pipe == Pipe::spawned(pos, len),
    {
        let rise: i128 = floor_units((PIPE_HEIGHT as i128) * (len as i128));
        Pipe {
            pos: Vector { x: pos.x, y: (pos.y as i128 - rise) as i64 },
            size: Vector { x: PIPE_WIDTH, y: PIPE_HEIGHT },
        }
    }

    /// The box that the pipe fills.
    pub open spec fn bounds(self) -> Rectangle {
        Rectangle { pos: self.pos, size: self.size }
    }

    /// The pipe one frame later.
    pub open spec fn moved(self) -> Pipe {
        Pipe { pos: Vector { x: (self.pos.x - PIPE_SPEED) as i64, y: self.pos.y }, size: self.size }
    }

    /// What there is to draw of the pipe: its picture over its box.
    pub open spec fn drawn(self, image: Option<ImageHandle>) -> Seq<DrawCall> {
        match image {
            Some(image) => seq![
                DrawCall {
                    target: self.bounds(),
                    image,
                    region: Some(pipe_region()),
                },
            ],
            None => Seq::empty(),
        }
    }
}

impl GameObject for Pipe {
    open spec fn updatable(&self, frame: &Frame) -> bool {
        self.pos.x - PIPE_SPEED >= i64::MIN
    }

    open spec fn drawable(&self) -> bool {
        true
    }

    fn resource(&self) -> (name: &'static str)
        ensures
            name@ == "sprite.png"@,
    {
        "sprite.png"
    }

    /// Moves the pipe to the left.
    fn update(&mut self, frame: &Frame) -> (done: Result<(), GameError>)
        ensures
            done is Ok,
            *final(self) == old(self).moved(),
    {
        self.pos.x = self.pos.x - PIPE_SPEED;
        Ok(())
    }

    fn draw(&mut self, image: Option<ImageHandle>) -> (calls: Result<Vec<DrawCall>, GameError>)
        ensures
            *final(self) == *old(self),
            calls is Ok,
            calls->Ok_0@ == old(self).drawn(image),
    {
        let mut calls: Vec<DrawCall> = Vec::new();
        if let Some(image) = image {
            let region = Rectangle::new(Vector::from_pixels(302, 0), Vector::from_pixels(26, 135));
            calls.push(
                DrawCall { target: Rectangle::new(self.pos, self.size), image, region: Some(region) },
            );
        }
        assert(calls@ =~= self.drawn(image));
        Ok(calls)
    }

    fn area(&self) -> (area: Rectangle)
        ensures
            area == self.bounds(),
    {
        Rectangle::new(self.pos, self.size)
    }

    /// A pipe stays as it is, whatever runs into it.
    fn on_collided(&mut self, other: &Rectangle)
        ensures
            *final(self) == *old(self),
    {
    }
}

} // verus!
