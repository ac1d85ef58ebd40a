//! One frame of the game after the other: images arrive, everything moves,
//! a pipe appears when its time has come, and the player is taken out of
//! play when it touches one.

use vstd::prelude::*;
use crate::asset::all_loaded;
use crate::asset::delivered_all;
use crate::asset::image_of;
use crate::asset::AssetLoader;
use crate::asset::LoadEvent;
use crate::background::Background;
use crate::compat::between;
use crate::compat::lemma_between_bounds;
use crate::compat::randrng;
use crate::enemy::Pipe;
use crate::enemy::PIPE_HEIGHT;
use crate::geom::Vector;
use crate::geom::HALF;
use crate::geom::ONE;
use crate::object::DrawCall;
use crate::object::Event;
use crate::object::ButtonState;
use crate::object::Frame;
use crate::object::GameError;
use crate::object::GameObject;
use crate::object::ImageHandle;
use crate::object::SCREEN_HEIGHT;
use crate::object::SCREEN_WIDTH;
use crate::player::Player;

verus! {

/// How far the player falls in one frame.
pub const GRAVITY: i64 = 2 * 65536;

/// How far the player jumps when the pointer's button comes up.
pub const IMPULSE: i64 = 64 * 65536;

/// Seconds from one pipe to the next.
pub const SPAWN_SECONDS: i64 = 3;

/// The whole game.
pub struct Game {
    pub bg: Background,
    pub player: Player,
    pub enemies: Vec<Pipe>,
    pub asset_loader: AssetLoader,
    pub last_spawned: u64,
    pub frame_count: u64,
}

/// The game as plain values.
pub struct GameView {
    pub bg: Background,
    pub player: Player,
    /// The pipes, oldest first.
    pub pipes: Seq<Pipe>,
    /// The registered images, each with its handle once it is there.
    pub images: Map<Seq<char>, Option<ImageHandle>>,
    /// The loader's remembered answer to "is every image there?".
    pub loaded: bool,
    /// The number of the frame in which the last pipe appeared.
    pub last_spawned: int,
    /// The number of frames so far.
    pub frame_count: int,
}

/// Whether a pipe is due: `elapsed` frames at `fps` frames per second
/// (`ONE` units each) have taken three seconds or more.
pub open spec fn spawn_due(elapsed: int, fps: int) -> bool {
    elapsed > 0 && fps >= 0 && elapsed * ONE >= SPAWN_SECONDS * fps
}

/// Whether anything touches the player: a pipe, or the background's box.
pub open spec fn collides(player: Player, pipes: Seq<Pipe>, bg: Background) -> bool {
    (exists|i: int| 0 <= i < pipes.len() && (#[trigger] pipes[i]).bounds().overlaps_spec(player.bounds()))
        || bg.bounds().overlaps_spec(player.bounds())
}

/// The player once collisions are settled: out of play if anything touches
/// it, and as it was if nothing does.
pub open spec fn resolved(player: Player, pipes: Seq<Pipe>, bg: Background) -> Player {
    if collides(player, pipes, bg) {
        player.hit()
    } else {
        player
    }
}

/// The player one frame further down.
pub open spec fn fallen(player: Player) -> Player {
    Player { pos: Vector { x: player.pos.x, y: (player.pos.y + GRAVITY) as i64 }, size: player.size }
}

/// The player one jump further up.
pub open spec fn jumped(player: Player) -> Player {
    Player { pos: Vector { x: player.pos.x, y: (player.pos.y - IMPULSE) as i64 }, size: player.size }
}

/// What there is to draw of the pipes, oldest first.
pub open spec fn pipes_drawn(pipes: Seq<Pipe>, image: Option<ImageHandle>) -> Seq<DrawCall>
    decreases pipes.len(),
{
    if pipes.len() == 0 {
        Seq::empty()
    } else {
        pipes_drawn(pipes.drop_last(), image) + pipes.last().drawn(image)
    }
}

impl GameView {
    /// The game before its first frame.
    pub open spec fn initial() -> GameView {
        GameView {
            bg: Background {
                pos: Vector::zero(),
                size: Vector { x: SCREEN_WIDTH, y: SCREEN_HEIGHT },
                screen_size: Vector::zero(),
            },
            player: Player { pos: Vector::of_pixels(40, 20), size: Vector::of_pixels(60, 40) },
            pipes: Seq::empty(),
            images: Map::empty().insert("sprite.png"@, None).insert("ferris.png"@, None),
            loaded: false,
            last_spawned: 0,
            frame_count: 0,
        }
    }

    /// Whether this frame's polls bring no failure that counts.
    pub open spec fn loads_ok(self, events: Seq<LoadEvent>) -> bool {
        self.loaded || delivered_all(self.images, events).1
    }

    /// The game after the loader has taken in this frame's polls, and
    /// nothing else has happened.
    pub open spec fn polled(self, events: Seq<LoadEvent>) -> GameView {
        if self.loaded {
            self
        } else {
            let images = delivered_all(self.images, events).0;
            GameView {
                images,
                loaded: delivered_all(self.images, events).1 && all_loaded(images),
                ..self
            }
        }
    }

    /// Whether the frame after this one brings a pipe.
    pub open spec fn due(self, frame: Frame) -> bool {
        spawn_due(self.frame_count + 1 - self.last_spawned, frame.average_fps as int)
    }

    /// The game one frame later. `len` is the fraction of its height by
    /// which a pipe is raised if one appears in this frame.
    pub open spec fn stepped(self, frame: Frame, events: Seq<LoadEvent>, len: i64) -> GameView {
        let bg = self.bg.stepped(frame.screen_size);
        let moved = self.pipes.map_values(|pipe: Pipe| pipe.moved());
        let pipes = if self.due(frame) {
            moved.push(Pipe::spawned(Vector { x: frame.screen_size.x, y: 0 }, len))
        } else {
            moved
        };
        GameView {
            bg,
            player: resolved(fallen(self.player), pipes, bg),
            pipes,
            images: self.polled(events).images,
            loaded: self.polled(events).loaded,
            last_spawned: if self.due(frame) {
                self.frame_count + 1
            } else {
                self.last_spawned
            },
            frame_count: self.frame_count + 1,
        }
    }

    /// Whether one more frame keeps every number within its type.
    pub open spec fn updatable(self, frame: Frame) -> bool {
        &&& self.frame_count < u64::MAX
        &&& self.bg.updatable(&frame)
        &&& forall|i: int| 0 <= i < self.pipes.len() ==> (#[trigger] self.pipes[i]).updatable(&frame)
        &&& self.player.pos.y + GRAVITY <= i64::MAX
    }

    /// Whether the places to draw at lie within `i64`.
    pub open spec fn drawable(self) -> bool {
        image_of(self.images, "sprite.png"@) is Some ==> self.bg.drawable()
    }

    /// What there is to draw: the background, the player over it, and the
    /// pipes over both, oldest first.
    pub open spec fn drawn(self) -> Seq<DrawCall> {
        let sprite = image_of(self.images, "sprite.png"@);
        let ferris = image_of(self.images, "ferris.png"@);
        self.bg.drawn(sprite) + self.player.drawn(ferris) + pipes_drawn(self.pipes, sprite)
    }

    /// The game after the person at the screen did `event`: the release of
    /// a button of the pointer makes the player jump, nothing else counts.
    pub open spec fn reacted(self, event: Event) -> GameView {
        match event {
            Event::MouseButton(_, ButtonState::Released) => GameView {
                player: jumped(self.player),
                ..self
            },
            _ => self,
        }
    }

    /// The game after one call of `update`: a frame later, or, where a load
    /// failed, only the loader's step further.
    pub open spec fn framed(self, frame: Frame, events: Seq<LoadEvent>, len: i64) -> GameView {
        if self.loads_ok(events) {
            self.stepped(frame, events, len)
        } else {
            self.polled(events)
        }
    }

    /// Whether the pipes so far have kept their time at `fps` frames per
    /// second: three seconds' worth of frames lie between any two, so the
    /// last of them appeared no earlier than its number times that many
    /// frames, and not in a frame that is yet to come.
    pub open spec fn on_time(self, fps: int) -> bool {
        &&& 0 <= self.last_spawned <= self.frame_count
        &&& self.pipes.len() * (SPAWN_SECONDS * fps) <= self.last_spawned * ONE
    }
}

/// What one call of `update` is given, and the fraction that it draws.
pub struct FrameInput {
    pub frame: Frame,
    pub events: Seq<LoadEvent>,
    pub len: i64,
}

/// The game after one call of `update` for each of `inputs`.
pub open spec fn played(game: GameView, inputs: Seq<FrameInput>) -> GameView
    decreases inputs.len(),
{
    if inputs.len() == 0 {
        game
    } else {
        let last = inputs.last();
        played(game, inputs.drop_last()).framed(last.frame, last.events, last.len)
    }
}

/// A frame brings one pipe if one is due and none if not: never two.
pub proof fn lemma_one_pipe_at_most(game: GameView, frame: Frame, events: Seq<LoadEvent>, len: i64)
    ensures
        game.framed(frame, events, len).pipes.len() == game.pipes.len() + (if game.loads_ok(events)
            && game.due(frame) {
            1int
        } else {
            0int
        }),
        game.framed(frame, events, len).pipes.len() > game.pipes.len() ==> spawn_due(
            game.framed(frame, events, len).frame_count - game.last_spawned,
            frame.average_fps as int,
        ) && game.framed(frame, events, len).last_spawned == game.framed(
            frame,
            events,
            len,
        ).frame_count,
{
}

/// A game whose pipes have kept their time keeps it through one more call
/// of `update` at the same frame rate.
pub proof fn lemma_frame_keeps_time(game: GameView, frame: Frame, events: Seq<LoadEvent>, len: i64)
    requires
        game.on_time(frame.average_fps as int),
        frame.average_fps >= 0,
    ensures
        game.framed(frame, events, len).on_time(frame.average_fps as int),
{
    let fps = frame.average_fps as int;
    let n = game.pipes.len() as int;
    let after = game.framed(frame, events, len);
    if game.loads_ok(events) && game.due(frame) {
        let elapsed = game.frame_count + 1 - game.last_spawned;
        assert(elapsed * ONE >= SPAWN_SECONDS * fps);
        assert((n + 1) * (SPAWN_SECONDS * fps) == n * (SPAWN_SECONDS * fps) + SPAWN_SECONDS * fps)
            by (nonlinear_arith);
        assert(elapsed * ONE + game.last_spawned * ONE == (game.frame_count + 1) * ONE)
            by (nonlinear_arith)
            requires
                elapsed == game.frame_count + 1 - game.last_spawned,
        ;
        assert(after.pipes.len() == n + 1);
    }
}

/// At a steady frame rate the pipes keep their time from the first frame
/// on: when `update` has been called any number of times at `fps` frames
/// per second, the number of pipes times three seconds' worth of frames is
/// at most the number of the frame in which the last one appeared, and so
/// at most the number of frames played.
pub proof fn lemma_spawns_keep_time(inputs: Seq<FrameInput>, fps: i64)
    requires
        fps >= 0,
        forall|k: int| 0 <= k < inputs.len() ==> (#[trigger] inputs[k]).frame.average_fps == fps,
    ensures
        played(GameView::initial(), inputs).on_time(fps as int),
        played(GameView::initial(), inputs).frame_count <= inputs.len(),
        played(GameView::initial(), inputs).pipes.len() * (SPAWN_SECONDS * fps) <= inputs.len()
            * ONE,
    decreases inputs.len(),
{
    let game = played(GameView::initial(), inputs);
    if inputs.len() == 0 {
        assert(game.pipes.len() * (SPAWN_SECONDS * fps) == 0) by (nonlinear_arith)
            requires
                game.pipes.len() == 0,
        ;
    } else {
        let last = inputs.last();
        let before = played(GameView::initial(), inputs.drop_last());
        assert forall|k: int| 0 <= k < inputs.drop_last().len() implies (#[trigger] inputs.drop_last()[k]).frame.average_fps
            == fps by {
            assert(inputs.drop_last()[k] == inputs[k]);
        }
        lemma_spawns_keep_time(inputs.drop_last(), fps);
        assert(last == inputs[inputs.len() - 1]);
        lemma_frame_keeps_time(before, last.frame, last.events, last.len);
        assert(game.last_spawned * ONE <= inputs.len() * ONE) by (nonlinear_arith)
            requires
                game.last_spawned <= inputs.len(),
        ;
    }
}

/// What decides a collision: the player leaves play as soon as one pipe's
/// box overlaps its own, and stays where it is when no pipe's does and the
/// origin does not lie strictly inside its box.
pub proof fn lemma_collision_decides(player: Player, pipes: Seq<Pipe>, bg: Background)
    ensures
        (exists|i: int| 0 <= i < pipes.len() && (#[trigger] pipes[i]).bounds().overlaps_spec(player.bounds()))
            ==> resolved(player, pipes, bg) == player.hit(),
        (forall|i: int| 0 <= i < pipes.len() ==> !(#[trigger] pipes[i]).bounds().overlaps_spec(player.bounds()))
            && !(player.pos.x < 0 < player.pos.x + player.size.x && player.pos.y < 0 < player.pos.y
            + player.size.y) ==> resolved(player, pipes, bg) == player,
{
}

impl View for Game {
    type V = GameView;

    open spec fn view(&self) -> GameView {
        GameView {
            bg: self.bg,
            player: self.player,
            pipes: self.enemies@,
            images: self.asset_loader@,
            loaded: self.asset_loader.flag(),
            last_spawned: self.last_spawned as int,
            frame_count: self.frame_count as int,
        }
    }
}

/// Whether a pipe is due after `elapsed` frames at `fps` frames per second.
pub fn is_spawn_due(elapsed: u64, fps: i64) -> (due: bool)
    ensures
        due == spawn_due(elapsed as int, fps as int),
{
    elapsed > 0 && fps >= 0 && (elapsed as i128) * 65536 >= 3 * (fps as i128)
}

impl Game {
    /// The loader is in order, and the last pipe did not appear in a frame
    /// that is yet to come.
    pub open spec fn wf(&self) -> bool {
        self.asset_loader.wf() && self.last_spawned <= self.frame_count
    }

    /// A game before its first frame: both images asked for, no pipe yet.
    pub fn new() -> (game: Result<Game, GameError>)
        ensures
            game is Ok,
            game->Ok_0.wf(),
            game->Ok_0@ == GameView::initial(),
    {
        let mut asset_loader = AssetLoader::new();
        asset_loader.load("sprite.png".to_owned());
        asset_loader.load("ferris.png".to_owned());
        Ok(
            Game {
                bg: Background::new(Vector::new(SCREEN_WIDTH, SCREEN_HEIGHT)),
                player: Player::new(Vector::from_pixels(40, 20), Vector::from_pixels(60, 40)),
                enemies: Vec::new(),
                asset_loader,
                last_spawned: 0,
                frame_count: 0,
            },
        )
    }

    /// Adds a pipe at the right edge of the screen, raised by the fraction
    /// `len` of its height.
    pub fn spawn_with(&mut self, frame: &Frame, len: i64)
        requires
            old(self).wf(),
            Pipe::spawnable(Vector { x: frame.screen_size.x, y: 0 }, len),
        ensures
            final(self).wf(),
            final(self)@ == (GameView {
                pipes: old(self)@.pipes.push(
                    Pipe::spawned(Vector { x: frame.screen_size.x, y: 0 }, len),
                ),
                ..old(self)@
            }),
    {
        self.enemies.push(Pipe::new(Vector::new(frame.screen_size.x, 0), len));
    }

    /// Adds a pipe at the right edge of the screen, raised by a random
    /// fraction of its height that is less than a half.
    pub fn spawn(&mut self, frame: &Frame)
        requires
            old(self).wf(),
        ensures
            final(self).wf(),
            exists|len: i64|
                0 <= len < HALF && final(self)@ == (GameView {
                    pipes: old(self)@.pipes.push(
                        #[trigger] Pipe::spawned(Vector { x: frame.screen_size.x, y: 0 }, len),
                    ),
                    ..old(self)@
                }),
    {
        let len = randrng(0, HALF);
        proof {
            lemma_raise_fits(frame.screen_size.x, len);
        }
        self.spawn_with(frame, len);
    }

    /// Settles collisions: every pipe is held against the player, then the
    /// background is, and each two whose boxes overlap are told of each
    /// other. The player leaves play if anything touched it; pipes and
    /// background stay as they are.
    pub fn check_collision(&mut self)
        requires
            old(self).wf(),
        ensures
            final(self).wf(),
            final(self)@ == (GameView {
                player: resolved(old(self)@.player, old(self)@.pipes, old(self)@.bg),
                ..old(self)@
            }),
    {
        let ghost before = self.player;
        let ghost pipes = self.enemies@;
        let mut i: usize = 0;
        while i < self.enemies.len()
            invariant
                i <= pipes.len(),
                self.enemies@ == pipes,
                self.bg == old(self).bg,
                self.asset_loader == old(self).asset_loader,
                self.last_spawned == old(self).last_spawned,
                self.frame_count == old(self).frame_count,
                self.player == if exists|j: int|
                    0 <= j < i && (#[trigger] pipes[j]).bounds().overlaps_spec(before.bounds()) {
                    before.hit()
                } else {
                    before
                },
            decreases pipes.len() - i,
        {
            let mine = self.player.area();
            let theirs = self.enemies[i].area();
            if theirs.overlaps(&mine) {
                self.enemies[i].on_collided(&mine);
                self.player.on_collided(&theirs);
                assert(self.enemies@ =~= pipes);
            }
            proof {
                if self.player == before.hit() && !(exists|j: int|
                    0 <= j < i + 1 && (#[trigger] pipes[j]).bounds().overlaps_spec(before.bounds())) {
                    // Nothing touched the player up to here, so it was held
                    // against the pipe as it stood at first.
                    assert(!pipes[i as int].bounds().overlaps_spec(before.bounds()));
                }
                if exists|j: int|
                    0 <= j < i + 1 && (#[trigger] pipes[j]).bounds().overlaps_spec(before.bounds()) {
                    let j = choose|j: int|
                        0 <= j < i + 1 && (#[trigger] pipes[j]).bounds().overlaps_spec(before.bounds());
                    if j < i {
                        assert(before.hit().hit() == before.hit());
                    }
                }
            }
            i += 1;
        }
        let mine = self.player.area();
        let theirs = self.bg.area();
        if theirs.overlaps(&mine) {
            self.bg.on_collided(&mine);
            self.player.on_collided(&theirs);
        }
        proof {
            assert(before.hit().hit() == before.hit());
        }
    }

    /// Takes in this frame's polls, moves the background, the pipes and
    /// the player, and counts the frame. Says whether a pipe is due.
    fn advance(&mut self, frame: &Frame, events: &Vec<LoadEvent>) -> (due: Result<bool, GameError>)
        requires
            old(self).wf(),
            old(self)@.updatable(*frame),
        ensures
            final(self).asset_loader.wf(),
            !old(self)@.loads_ok(events@) ==> due == Err::<bool, GameError>(GameError::LoadFailed)
                && final(self)@ == old(self)@.polled(events@),
            old(self)@.loads_ok(events@) ==> due == Ok::<bool, GameError>(old(self)@.due(*frame))
                && final(self)@ == (GameView {
                bg: old(self)@.bg.stepped(frame.screen_size),
                player: fallen(old(self)@.player),
                pipes: old(self)@.pipes.map_values(|pipe: Pipe| pipe.moved()),
                frame_count: old(self)@.frame_count + 1,
                ..old(self)@.polled(events@)
            }),
    {
        match self.asset_loader.update(events) {
            Err(error) => {
                return Err(error);
            },
            Ok(_) => {},
        }
        match self.bg.update(frame) {
            Err(error) => {
                return Err(error);
            },
            Ok(()) => {},
        }
        let ghost pipes = self.enemies@;
        let mut i: usize = 0;
        while i < self.enemies.len()
            invariant
                i <= pipes.len(),
                self.enemies@.len() == pipes.len(),
                forall|j: int| 0 <= j < i ==> self.enemies@[j] == (#[trigger] pipes[j]).moved(),
                forall|j: int| i <= j < pipes.len() ==> self.enemies@[j] == #[trigger] pipes[j],
                forall|j: int| 0 <= j < pipes.len() ==> (#[trigger] pipes[j]).updatable(frame),
                self.bg == old(self).bg.stepped(frame.screen_size),
                self.player == old(self).player,
                self.asset_loader.wf(),
                self.asset_loader@ == old(self)@.polled(events@).images,
                self.asset_loader.flag() == old(self)@.polled(events@).loaded,
                self.last_spawned == old(self).last_spawned,
                self.frame_count == old(self).frame_count,
                old(self)@.loads_ok(events@),
            decreases pipes.len() - i,
        {
            assert(self.enemies@[i as int] == pipes[i as int]);
            match self.enemies[i].update(frame) {
                Err(error) => {
                    return Err(error);
                },
                Ok(()) => {},
            }
            i += 1;
        }
        assert(self.enemies@ =~= pipes.map_values(|pipe: Pipe| pipe.moved()));
        self.player.pos.y = self.player.pos.y + GRAVITY;
        self.frame_count = self.frame_count + 1;
        Ok(is_spawn_due(self.frame_count - self.last_spawned, frame.average_fps))
    }

    /// One frame, with `len` for the fraction by which a new pipe is raised.
    ///
    /// In this order: the loader takes in `events`; the background scrolls;
    /// every pipe moves; the player falls; the frame is counted, and if
    /// three seconds' worth of frames have passed since the last pipe, one
    /// appears and the count starts anew; collisions are settled. A load
    /// that failed ends the frame after the loader's step.
    pub fn update_with(&mut self, frame: &Frame, events: &Vec<LoadEvent>, len: i64) -> (done: Result<
        (),
        GameError,
    >)
        requires
            old(self).wf(),
            old(self)@.updatable(*frame),
            old(self)@.due(*frame) ==> Pipe::spawnable(Vector { x: frame.screen_size.x, y: 0 }, len),
        ensures
            final(self).wf(),
            final(self)@ == old(self)@.framed(*frame, events@, len),
            done == if old(self)@.loads_ok(events@) {
                Ok::<(), GameError>(())
            } else {
                Err::<(), GameError>(GameError::LoadFailed)
            },
    {
        match self.advance(frame, events) {
            Err(error) => {
                return Err(error);
            },
            Ok(due) => {
                if due {
                    self.spawn_with(frame, len);
                    self.last_spawned = self.frame_count;
                }
            },
        }
        self.check_collision();
        Ok(())
    }

    /// One frame: as `update_with`, the fraction by which a new pipe is
    /// raised being random and less than a half.
    pub fn update(&mut self, frame: &Frame, events: &Vec<LoadEvent>) -> (done: Result<(), GameError>)
        requires
            old(self).wf(),
            old(self)@.updatable(*frame),
        ensures
            final(self).wf(),
            exists|len: i64|
                0 <= len < HALF && final(self)@ == #[trigger] old(self)@.framed(*frame, events@, len),
            done == if old(self)@.loads_ok(events@) {
                Ok::<(), GameError>(())
            } else {
                Err::<(), GameError>(GameError::LoadFailed)
            },
    {
        let ghost mut raised: i64 = 0;
        match self.advance(frame, events) {
            Err(error) => {
                assert(self@ == old(self)@.framed(*frame, events@, 0));
                return Err(error);
            },
            Ok(due) => {
                if due {
                    let ghost moved = self@;
                    self.spawn(frame);
                    proof {
                        raised = choose|len: i64|
                            0 <= len < HALF && self@ == (GameView {
                                pipes: moved.pipes.push(
                                    #[trigger] Pipe::spawned(
                                        Vector { x: frame.screen_size.x, y: 0 },
                                        len,
                                    ),
                                ),
                                ..moved
                            });
                    }
                    self.last_spawned = self.frame_count;
                }
            },
        }
        self.check_collision();
        proof {
            assert(self@ == old(self)@.framed(*frame, events@, raised));
        }
        Ok(())
    }

    /// Whether `update` may be called for `frame`.
    pub fn can_update(&self, frame: &Frame) -> (ok: bool)
        ensures
            ok == self@.updatable(*frame),
    {
        if self.frame_count == u64::MAX || self.bg.pos.x < i64::MIN + HALF || self.player.pos.y
            > i64::MAX - GRAVITY {
            return false;
        }
        let mut i: usize = 0;
        while i < self.enemies.len()
            invariant
                i <= self.enemies@.len(),
                forall|j: int| 0 <= j < i ==> (#[trigger] self.enemies@[j]).updatable(frame),
            decreases self.enemies@.len() - i,
        {
            if self.enemies[i].pos.x < i64::MIN + HALF {
                assert(!self@.pipes[i as int].updatable(frame));
                return false;
            }
            i += 1;
        }
        true
    }

    /// Whether `draw` may be called.
    pub fn can_draw(&self) -> (ok: bool)
        requires
            self.wf(),
        ensures
            ok == self@.drawable(),
    {
        if self.asset_loader.get(self.bg.resource()).is_none() {
            return true;
        }
        let width: i128 = self.bg.screen_size.x as i128;
        let x: i128 = self.bg.pos.x as i128;
        let beside: i128 = if x < 0 {
            x + width
        } else {
            x - width
        };
        width + (HALF as i128) <= i64::MAX as i128 && i64::MIN as i128 <= beside && beside
            <= i64::MAX as i128
    }

    /// What to show of the game as it stands; the game stays as it is.
    pub fn draw(&mut self) -> (calls: Result<Vec<DrawCall>, GameError>)
        requires
            old(self).wf(),
            old(self)@.drawable(),
        ensures
            final(self).wf(),
            final(self)@ == old(self)@,
            calls is Ok,
            calls->Ok_0@ == old(self)@.drawn(),
    {
        let sprite = self.asset_loader.get(self.bg.resource());
        let ferris = self.asset_loader.get(self.player.resource());
        let mut calls: Vec<DrawCall> = Vec::new();
        match self.bg.draw(sprite) {
            Err(error) => {
                return Err(error);
            },
            Ok(mut more) => {
                calls.append(&mut more);
            },
        }
        match self.player.draw(ferris) {
            Err(error) => {
                return Err(error);
            },
            Ok(mut more) => {
                calls.append(&mut more);
            },
        }
        let ghost pipes = self.enemies@;
        let ghost first = calls@;
        assert(pipes.take(0) =~= Seq::<Pipe>::empty());
        let mut i: usize = 0;
        while i < self.enemies.len()
            invariant
                i <= pipes.len(),
                self.enemies@ == pipes,
                self.bg == old(self).bg,
                self.player == old(self).player,
                self.asset_loader == old(self).asset_loader,
                self.asset_loader.wf(),
                sprite == image_of(self.asset_loader@, "sprite.png"@),
                self.last_spawned == old(self).last_spawned,
                self.frame_count == old(self).frame_count,
                calls@ == first + pipes_drawn(pipes.take(i as int), sprite),
            decreases pipes.len() - i,
        {
            let image = self.asset_loader.get(self.enemies[i].resource());
            match self.enemies[i].draw(image) {
                Err(error) => {
                    return Err(error);
                },
                Ok(mut more) => {
                    calls.append(&mut more);
                },
            }
            proof {
                assert(self.enemies@ =~= pipes);
                assert(pipes.take(i + 1).drop_last() =~= pipes.take(i as int));
                assert(pipes.take(i + 1).last() == pipes[i as int]);
                assert(calls@ =~= first + pipes_drawn(pipes.take(i + 1), sprite));
            }
            i += 1;
        }
        assert(pipes.take(pipes.len() as int) =~= pipes);
        Ok(calls)
    }

    /// Takes in what the person at the screen did: the release of a button
    /// of the pointer makes the player jump, nothing else counts.
    pub fn event(&mut self, event: &Event, frame: &Frame) -> (done: Result<(), GameError>)
        requires
            old(self).wf(),
            old(self).player.pos.y - IMPULSE >= i64::MIN,
        ensures
            final(self).wf(),
            done is Ok,
            final(self)@ == old(self)@.reacted(*event),
    {
        if let Event::MouseButton(_, ButtonState::Released) = event {
            self.player.pos.y = self.player.pos.y - IMPULSE;
        }
        Ok(())
    }
}

/// A pipe that is raised by less than its height from the top of the
/// screen lies within `i64`.
pub proof fn lemma_raise_fits(x: i64, len: i64)
    requires
        0 <= len <= ONE,
    ensures
        Pipe::spawnable(Vector { x, y: 0 }, len),
{
    lemma_between_bounds(0, PIPE_HEIGHT as int, len as int);
    assert(between(0, PIPE_HEIGHT as int, len as int) == crate::geom::scaled(
        PIPE_HEIGHT as int,
        len as int,
    ));
}

} // verus!
