//! The scrolling background: one picture shown twice, side by side, that
//! slides to the left and starts over once it has left the screen.

use vstd::prelude::*;
use crate::geom::Rectangle;
use crate::geom::Vector;
use crate::geom::HALF;
use crate::object::DrawCall;
use crate::object::Frame;
use crate::object::GameError;
use crate::object::GameObject;
use crate::object::ImageHandle;

verus! {

/// How far the background moves in one frame: half a pixel to the left.
pub const SCROLL_STEP: i64 = -32768;

/// The background.
#[derive(Clone, Copy, Debug, PartialEq, Eq, Structural)]
pub struct Background {
    pub pos: Vector,
    pub size: Vector,
    pub screen_size: Vector,
}

/// The part of the sprite sheet that shows the sky.
pub open spec fn sky_region() -> Rectangle {
    Rectangle { pos: Vector::zero(), size: Vector::of_pixels(144, 256) }
}

/// The part of the sprite sheet that shows the ground.
pub open spec fn ground_region() -> Rectangle {
    Rectangle { pos: Vector::of_pixels(146, 0), size: Vector::of_pixels(154, 56) }
}

/// Where on the screen the ground is shown.
pub open spec fn ground_target() -> Rectangle {
    Rectangle { pos: Vector::of_pixels(0, 400), size: Vector::of_pixels(308, 112) }
}

impl Background {
    /// A background of extent `size` at the origin, for a screen whose
    /// extent is not known yet.
    pub fn new(size: Vector) -> (bg: Background)
        ensures
            bg == (Background { pos: Vector::zero(), size, screen_size: Vector::zero() }),
    {
        Background { pos: Vector::new(0, 0), size, screen_size: Vector::new(0, 0) }
    }

    /// Tells the background the extent of the screen.
    pub fn set_screen_size(&mut self, size: Vector)
        ensures
            *final(self) == (Background { screen_size: size, ..*old(self) }),
    {
        self.screen_size = size;
    }

    /// `xy`, or the right edge of the screen in its place once `xy` lies
    /// more than a screen's width left of the origin.
    pub open spec fn fitted(self, xy: Vector) -> Vector {
        if xy.x < -self.screen_size.x {
            Vector { x: self.screen_size.x, y: xy.y }
        } else {
            xy
        }
    }

    /// Brings a point that has left the screen on the left back in on the right.
    pub fn fit(&self, xy: &Vector) -> (fitted: Vector)
        ensures
            fitted == self.fitted(*xy),
    {
        let mut xy = *xy;
        if (xy.x as i128) < -(self.screen_size.x as i128) {
            xy.x = self.screen_size.x;
        }
        xy
    }

    /// The extent of either copy of the picture: the screen's, and half a
    /// pixel more in width so that no gap shows between the two.
    pub open spec fn tile_size(self) -> Vector {
        Vector { x: (self.screen_size.x + HALF) as i64, y: self.screen_size.y }
    }

    /// Where the second copy stands before `fit`: a screen's width from the
    /// first, on the side where the screen is not yet covered.
    pub open spec fn beside(self) -> int {
        if self.pos.x < 0 {
            self.pos.x + self.screen_size.x
        } else {
            self.pos.x - self.screen_size.x
        }
    }

    /// The box of the first copy.
    pub open spec fn left_tile(self) -> Rectangle {
        Rectangle { pos: self.pos, size: self.tile_size() }
    }

    /// The box of the second copy.
    pub open spec fn right_tile(self) -> Rectangle {
        Rectangle {
            pos: self.fitted(Vector { x: self.beside() as i64, y: self.pos.y }),
            size: self.tile_size(),
        }
    }

    /// Whether the width of a copy lies within `i64`.
    pub open spec fn tile_fits(self) -> bool {
        self.screen_size.x + HALF <= i64::MAX
    }

    /// Whether the place of the second copy lies within `i64`.
    pub open spec fn beside_fits(self) -> bool {
        i64::MIN <= self.beside() <= i64::MAX
    }

    /// The box of the first copy of the picture.
    pub fn left(&self) -> (tile: Rectangle)
        requires
            self.tile_fits(),
        ensures
            tile == self.left_tile(),
    {
        Rectangle::new(self.pos, Vector::new(self.screen_size.x + HALF, self.screen_size.y))
    }

    /// The box of the second copy of the picture.
    pub fn right(&self) -> (tile: Rectangle)
        requires
            self.tile_fits(),
            self.beside_fits(),
        ensures
            tile == self.right_tile(),
    {
        let right = if self.pos.x < 0 {
            Vector::new(self.pos.x + self.screen_size.x, self.pos.y)
        } else {
            Vector::new(self.pos.x - self.screen_size.x, self.pos.y)
        };
        Rectangle::new(self.fit(&right), Vector::new(self.screen_size.x + HALF, self.screen_size.y))
    }

    /// The background after it has moved by `dx`.
    pub open spec fn scrolled(self, dx: i64) -> Background {
        Background {
            pos: self.fitted(Vector { x: (self.pos.x + dx) as i64, y: self.pos.y }),
            ..self
        }
    }

    /// Moves the background by `dx` and brings it back in on the right once
    /// it has left the screen. `screen_width` is not looked at: the width
    /// that counts is the one that `set_screen_size` was given.
    pub fn scroll(&mut self, dx: i64, screen_width: i64)
        requires
            i64::MIN <= old(self).pos.x + dx <= i64::MAX,
        ensures
            *final(self) == old(self).scrolled(dx),
    {
        self.pos.x = self.pos.x + dx;
        self.pos = self.fit(&self.pos);
    }

    /// The box that the background fills: none.
    pub open spec fn bounds(self) -> Rectangle {
        Rectangle { pos: Vector::zero(), size: Vector::zero() }
    }

    /// The background one frame later, on a screen of extent `screen_size`.
    pub open spec fn stepped(self, screen_size: Vector) -> Background {
        (Background { screen_size, ..self }).scrolled(SCROLL_STEP)
    }

    /// What there is to draw of the background: the sky twice, then the ground.
    pub open spec fn drawn(self, image: Option<ImageHandle>) -> Seq<DrawCall> {
        match image {
            Some(image) => seq![
                DrawCall { target: self.left_tile(), image, region: Some(sky_region()) },
                DrawCall { target: self.right_tile(), image, region: Some(sky_region()) },
                DrawCall { target: ground_target(), image, region: Some(ground_region()) },
            ],
            None => Seq::empty(),
        }
    }
}

impl GameObject for Background {
    open spec fn updatable(&self, frame: &Frame) -> bool {
        self.pos.x + SCROLL_STEP >= i64::MIN
    }

    open spec fn drawable(&self) -> bool {
        self.tile_fits() && self.beside_fits()
    }

    fn resource(&self) -> (name: &'static str)
        ensures
            name@ == "sprite.png"@,
    {
        "sprite.png"
    }

    /// Takes the screen's extent from `frame` and scrolls one step.
    fn update(&mut self, frame: &Frame) -> (done: Result<(), GameError>)
        ensures
            done is Ok,
            *final(self) == old(self).stepped(frame.screen_size),
    {
        self.set_screen_size(frame.screen_size);
        self.scroll(SCROLL_STEP, frame.screen_size.x);
        Ok(())
    }

    fn draw(&mut self, image: Option<ImageHandle>) -> (calls: Result<Vec<DrawCall>, GameError>)
        ensures
            *final(self) == *old(self),
            calls is Ok,
            calls->Ok_0@ == old(self).drawn(image),
    {
        let mut calls: Vec<DrawCall> = Vec::new();
        if let Some(image) = image {
            let left = self.left();
            let right = self.right();
            let sky = Rectangle::new(Vector::new(0, 0), Vector::from_pixels(144, 256));
            let ground = Rectangle::new(Vector::from_pixels(146, 0), Vector::from_pixels(154, 56));
            let floor = Rectangle::new(Vector::from_pixels(0, 400), Vector::from_pixels(308, 112));
            calls.push(DrawCall { target: left, image, region: Some(sky) });
            calls.push(DrawCall { target: right, image, region: Some(sky) });
            calls.push(DrawCall { target: floor, image, region: Some(ground) });
        }
        assert(calls@ =~= self.drawn(image));
        Ok(calls)
    }

    /// The background fills no box: nothing runs into it.
    fn area(&self) -> (area: Rectangle)
        ensures
            area == self.bounds(),
    {
        Rectangle::new(Vector::new(0, 0), Vector::new(0, 0))
    }

    /// The background stays as it is, whatever runs into it.
    fn on_collided(&mut self, other: &Rectangle)
        ensures
            *final(self) == *old(self),
    {
    }
}

/// The background after `n` moves of `dx` each.
pub open spec fn scrolled_times(bg: Background, dx: i64, n: nat) -> Background
    decreases n,
{
    if n == 0 {
        bg
    } else {
        scrolled_times(bg, dx, (n - 1) as nat).scrolled(dx)
    }
}

/// A background that lies within a screen's width of the origin and moves
/// to the left stays within a screen's width of the origin: it reaches the
/// right edge exactly when a move would have taken it past the left one.
pub proof fn lemma_scroll_wraps(bg: Background, dx: i64)
    requires
        bg.screen_size.x >= 0,
        -bg.screen_size.x <= bg.pos.x <= bg.screen_size.x,
        dx <= 0,
        i64::MIN <= bg.pos.x + dx,
    ensures
        -bg.screen_size.x <= bg.scrolled(dx).pos.x <= bg.screen_size.x,
        bg.scrolled(dx).pos.x == if bg.pos.x + dx < -bg.screen_size.x {
            bg.screen_size.x as int
        } else {
            bg.pos.x + dx
        },
        bg.scrolled(dx).pos.y == bg.pos.y,
        bg.scrolled(dx).screen_size == bg.screen_size,
{
}

/// However often a background moves to the left, it never drifts away: after
/// every move it lies within a screen's width of the origin.
pub proof fn lemma_scroll_never_drifts(bg: Background, dx: i64, n: nat)
    requires
        bg.screen_size.x >= 0,
        -bg.screen_size.x <= bg.pos.x <= bg.screen_size.x,
        dx <= 0,
        i64::MIN <= -bg.screen_size.x + dx,
    ensures
        -bg.screen_size.x <= scrolled_times(bg, dx, n).pos.x <= bg.screen_size.x,
        scrolled_times(bg, dx, n).screen_size == bg.screen_size,
    decreases n,
{
    if n > 0 {
        lemma_scroll_never_drifts(bg, dx, (n - 1) as nat);
        lemma_scroll_wraps(scrolled_times(bg, dx, (n - 1) as nat), dx);
    }
}

} // verus!
