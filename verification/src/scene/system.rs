//! The holder through which the host drives the game. The host only ever
//! lends the holder out; for the length of a call the game is taken from
//! it and then put back.

use vstd::prelude::*;
use crate::asset::LoadEvent;
use crate::geom::HALF;
use crate::object::DrawCall;
use crate::object::Event;
use crate::object::Frame;
use crate::object::GameError;
use crate::scene::game::Game;
use crate::scene::game::GameView;
use crate::scene::game::IMPULSE;

verus! {

/// Holds the one game.
pub struct System {
    pub game: Option<Game>,
}

impl System {
    /// The game is there and in order.
    pub open spec fn wf(&self) -> bool {
        self.game is Some && self.game->Some_0.wf()
    }

    /// The held game as plain values.
    pub open spec fn held(&self) -> GameView {
        self.game->Some_0@
    }

    /// A holder with a game before its first frame.
    pub fn new() -> (system: Result<System, GameError>)
        ensures
            system is Ok,
            system->Ok_0.wf(),
            system->Ok_0.held() == GameView::initial(),
    {
        match Game::new() {
            Err(error) => Err(error),
            Ok(game) => Ok(System { game: Some(game) }),
        }
    }

    /// One frame of the held game.
    pub fn update(&mut self, frame: &Frame, events: &Vec<LoadEvent>) -> (done: Result<(), GameError>)
        requires
            old(self).wf(),
            old(self).held().updatable(*frame),
        ensures
            final(self).wf(),
            exists|len: i64|
                0 <= len < HALF && final(self).held() == #[trigger] old(self).held().framed(
                    *frame,
                    events@,
                    len,
                ),
            done == if old(self).held().loads_ok(events@) {
                Ok::<(), GameError>(())
            } else {
                Err::<(), GameError>(GameError::LoadFailed)
            },
    {
        let mut game = self.game.take().unwrap();
        let done = game.update(frame, events);
        self.game = Some(game);
        done
    }

    /// What to show of the held game; the game stays as it is.
    pub fn draw(&mut self) -> (calls: Result<Vec<DrawCall>, GameError>)
        requires
            old(self).wf(),
            old(self).held().drawable(),
        ensures
            final(self).wf(),
            final(self).held() == old(self).held(),
            calls is Ok,
            calls->Ok_0@ == old(self).held().drawn(),
    {
        let mut game = self.game.take().unwrap();
        let calls = game.draw();
        self.game = Some(game);
        calls
    }

    /// Hands what the person at the screen did to the held game.
    pub fn event(&mut self, event: &Event, frame: &Frame) -> (done: Result<(), GameError>)
        requires
            old(self).wf(),
            old(self).held().player.pos.y - IMPULSE >= i64::MIN,
        ensures
            final(self).wf(),
            done is Ok,
            final(self).held() == old(self).held().reacted(*event),
    {
        let mut game = self.game.take().unwrap();
        let done = game.event(event, frame);
        self.game = Some(game);
        done
    }
}

} // verus!
