//! What every object of the game can do, and the plain values that pass
//! between the game and whoever shows it.

use vstd::prelude::*;
use crate::geom::Rectangle;
use crate::geom::Vector;

verus! {

/// Width of the screen that the game is laid out for, in units.
pub const SCREEN_WIDTH: i64 = 288 * 65536;

/// Height of the screen that the game is laid out for, in units.
pub const SCREEN_HEIGHT: i64 = 382 * 65536;

/// A loaded image, by the number under which its owner keeps it.
#[derive(Clone, Copy, Debug, PartialEq, Eq, Structural)]
pub struct ImageHandle {
    pub id: u64,
}

/// What the host reports at each frame.
#[derive(Clone, Copy, Debug, PartialEq, Eq, Structural)]
pub struct Frame {
    /// The extent of the screen.
    pub screen_size: Vector,
    /// Frames per second on average, `ONE` units to one frame per second.
    pub average_fps: i64,
}

/// One image, or one part of it, to be shown in one place.
#[derive(Clone, Copy, Debug, PartialEq, Eq, Structural)]
pub struct DrawCall {
    /// Where on the screen.
    pub target: Rectangle,
    /// Which image.
    pub image: ImageHandle,
    /// Which part of the image; the whole of it when absent.
    pub region: Option<Rectangle>,
}

/// A button of the pointer.
#[derive(Clone, Copy, Debug, PartialEq, Eq, Structural)]
pub enum MouseButton {
    Left,
    Right,
    Middle,
}

/// What a button is doing in this frame.
#[derive(Clone, Copy, Debug, PartialEq, Eq, Structural)]
pub enum ButtonState {
    /// It went down in this frame.
    Pressed,
    /// It is down and was down before.
    Held,
    /// It came up in this frame.
    Released,
    /// It is up and was up before.
    NotPressed,
}

/// Something that the person at the screen did.
#[derive(Clone, Copy, Debug, PartialEq, Eq, Structural)]
pub enum Event {
    /// A button of the pointer has changed its state.
    MouseButton(MouseButton, ButtonState),
    /// Anything else.
    Other,
}

/// Why a frame was given up.
#[derive(Clone, Copy, Debug, PartialEq, Eq, Structural)]
pub enum GameError {
    /// An image could not be loaded.
    LoadFailed,
}

/// Something that is shown, moves from frame to frame, and can be run into.
pub trait GameObject: Sized {
    /// Whether one more frame keeps every coordinate within `i64`.
    spec fn updatable(&self, frame: &Frame) -> bool;

    /// Whether the places to draw at lie within `i64`.
    spec fn drawable(&self) -> bool;

    /// The name of the image that the object is drawn with.
    fn resource(&self) -> (name: &'static str);

    /// Moves the object on by one frame. An object that says nothing of
    /// its own stays where it is.
    fn update(&mut self, frame: &Frame) -> (done: Result<(), GameError>)
        requires
            old(self).updatable(frame),
        default_ensures
            done is Ok,
            *final(self) == *old(self),
    {
        Ok(())
    }

    /// What to show for the object as it stands. Drawing leaves the object
    /// as it is, and while the image is absent there is nothing to show,
    /// which is no failure. An object that says nothing of its own shows
    /// nothing at all.
    fn draw(&mut self, image: Option<ImageHandle>) -> (calls: Result<Vec<DrawCall>, GameError>)
        requires
            image.is_some() ==> old(self).drawable(),
        ensures
            *final(self) == *old(self),
            image is None ==> calls is Ok && calls->Ok_0@ == Seq::<DrawCall>::empty(),
        default_ensures
            calls is Ok,
            calls->Ok_0@ == Seq::<DrawCall>::empty(),
    {
        Ok(Vec::new())
    }

    /// The box that the object fills, for drawing and for collisions alike.
    fn area(&self) -> (area: Rectangle);

    /// Told when the object's box overlaps that of another, `other`.
    fn on_collided(&mut self, other: &Rectangle) {
    }
}

} // verus!
