//! One game session, frame by frame: what the player's keys and the
//! passing of time make of the board, and which screen is showing.

use vstd::prelude::*;
use crate::board::Board;
use crate::constants::BUFFER_ROWS;
use crate::laws::{lemma_moved_wf, lemma_ticked_wf};
use crate::tetrus::{BlockType, Movement, Tetrus};

verus! {

/// The screen that is showing.
#[derive(Clone, Copy, Debug, PartialEq, Eq, Structural)]
pub enum State {
    Welcome,
    Running,
    GameOver,
}

/// A sound for the front end to play.
#[derive(Clone, Copy, Debug, PartialEq, Eq, Structural)]
pub enum Sound {
    Drop,
    Rotate,
}

/// What the front end saw during one frame.
#[derive(Clone, Copy, Debug, PartialEq, Eq, Structural)]
pub struct Input {
    /// The key for a move to the left went down.
    pub left: bool,
    /// The key for a move to the right went down.
    pub right: bool,
    /// The key for a hard drop went down.  The same key starts a game
    /// from the welcome screen and from the game-over screen.
    pub drop: bool,
    /// The key for a rotation went down.
    pub rotate: bool,
    /// The key for soft drop went down or came up.
    pub soft_drop: bool,
    /// Milliseconds since the last tick, or since the game began to run.
    pub elapsed: u64,
}

/// What one frame did, for the front end to act on.
#[derive(Clone, Copy, Debug, PartialEq, Eq, Structural)]
pub struct Report {
    /// The sound to play, if any.
    pub sound: Option<Sound>,
    /// Whether the frame held a tick, so that the time since the last
    /// tick starts anew.
    pub ticked: bool,
}

/// A session: a board and the screen that is showing.
pub struct Game {
    pub tetrus: Tetrus,
    pub state: State,
}

/// A session as the rules see it.
pub struct Session {
    pub board: Board,
    pub state: State,
}

impl View for Game {
    type V = Session;

    open spec fn view(&self) -> Session {
        Session { board: self.tetrus@, state: self.state }
    }
}

impl Input {
    /// The one request the frame makes of the falling piece: of several
    /// keys, left goes before right, right before drop, drop before
    /// rotate.
    pub open spec fn intent(self) -> Option<Movement> {
        if self.left {
            Some(Movement::Left)
        } else if self.right {
            Some(Movement::Right)
        } else if self.drop {
            Some(Movement::Drop)
        } else if self.rotate {
            Some(Movement::Rotate)
        } else {
            None
        }
    }

    /// The request of this frame, if it makes one.
    pub fn request(&self) -> (intent: Option<Movement>)
        ensures
            intent == self.intent(),
    {
        if self.left {
            Some(Movement::Left)
        } else if self.right {
            Some(Movement::Right)
        } else if self.drop {
            Some(Movement::Drop)
        } else if self.rotate {
            Some(Movement::Rotate)
        } else {
            None
        }
    }
}

impl Board {
    /// The sound that goes with the player's input: a drop and a rotation
    /// of a falling piece have one each.
    pub open spec fn cue(self, input: Input) -> Option<Sound> {
        if !self.is_active() {
            None
        } else if input.intent() == Some(Movement::Drop) {
            Some(Sound::Drop)
        } else if input.intent() == Some(Movement::Rotate) {
            Some(Sound::Rotate)
        } else {
            None
        }
    }

    /// The board after the player's input: the request of the frame is
    /// carried out, then soft drop is switched if its key moved.
    pub open spec fn heard(self, input: Input) -> Board {
        let acted = match input.intent() {
            Some(direction) => self.moved(direction),
            None => self,
        };
        if input.soft_drop {
            acted.toggled()
        } else {
            acted
        }
    }
}

impl Session {
    /// The invariant of a session: the board is well formed, and the
    /// game-over screen shows exactly while the game on it is over.
    pub open spec fn wf(self) -> bool {
        &&& self.board.wf()
        &&& self.state == State::GameOver <==> self.board.game_over()
    }

    /// The session a front end starts with.
    pub open spec fn start() -> Session {
        Session { board: Board::start(), state: State::Welcome }
    }

    /// A tick is due in this frame: more time has passed since the last
    /// one than the fall interval in force once the input is dealt with.
    pub open spec fn due(self, input: Input) -> bool {
        input.elapsed > self.board.heard(input).tick_interval()
    }

    /// A running session after one frame, if a piece of kind `id` is the
    /// one to spawn: the player's input first, then the tick if one is
    /// due, then the test for the end of the game.
    pub open spec fn played(self, input: Input, id: BlockType) -> Session {
        let heard = self.board.heard(input);
        let board = if self.due(input) {
            heard.ticked(id)
        } else {
            heard
        };
        Session {
            board,
            state: if board.game_over() {
                State::GameOver
            } else {
                State::Running
            },
        }
    }

    /// The session after one frame, if a piece of kind `id` is the one to
    /// spawn.  The welcome screen waits for the start key; so does the
    /// game-over screen, and starts a fresh game.
    pub open spec fn after(self, input: Input, id: BlockType) -> Session {
        match self.state {
            State::Welcome => if input.drop {
                Session { state: State::Running, ..self }
            } else {
                self
            },
            State::Running => self.played(input, id),
            State::GameOver => if input.drop {
                Session { board: Board::start(), state: State::Running }
            } else {
                self
            },
        }
    }

    /// The session after the frames `inputs`, played from the start, if
    /// `kinds[i]` is the kind of piece to spawn in frame `i`.
    pub open spec fn replay(inputs: Seq<Input>, kinds: Seq<BlockType>) -> Session
        decreases inputs.len(),
    {
        if inputs.len() == 0 {
            Session::start()
        } else {
            Session::replay(inputs.drop_last(), kinds).after(
                inputs.last(),
                kinds[inputs.len() - 1],
            )
        }
    }

    /// The frame leaves the score within the range of the counter.
    pub open spec fn fits(self, input: Input) -> bool {
        self.state == State::Running && self.due(input) ==> self.board.heard(input).tick_score()
            <= u32::MAX
    }
}

/// The player's input leaves a well-formed board well formed, and leaves
/// the pile and the score alone.
pub proof fn lemma_heard_wf(b: Board, input: Input)
    requires
        b.wf(),
    ensures
        b.heard(input).wf(),
        b.heard(input).inactive == b.inactive,
        b.heard(input).score == b.score,
        b.heard(input).is_active() == b.is_active(),
{
    match input.intent() {
        Some(direction) => {
            lemma_moved_wf(b, direction);
        },
        None => {},
    }
}

/// Every frame leaves a well-formed session well formed: whatever the
/// player does and whatever pieces spawn, no session that began with
/// `Session::start()` ever holds a board that is not well formed.
pub proof fn lemma_after_wf(s: Session, input: Input, id: BlockType)
    requires
        s.wf(),
    ensures
        s.after(input, id).wf(),
{
    if s.state == State::Running {
        lemma_heard_wf(s.board, input);
        let heard = s.board.heard(input);
        assert(!heard.game_over()) by {
            if heard.game_over() {
                let i = choose|i: int|
                    #![trigger heard.inactive[i]]
                    0 <= i < heard.inactive.len() && heard.inactive[i].position.y
                        < BUFFER_ROWS;
                assert(s.board.inactive[i].position.y < BUFFER_ROWS);
            }
        }
        if s.due(input) {
            lemma_ticked_wf(heard, id);
        }
    }
}

/// Every session that can be reached is well formed: whatever frames are
/// played from the start and whatever pieces spawn, the falling piece
/// and the pile share no cell, every block lies on the board, and no
/// screen but the game-over screen shows a game that is over.
pub proof fn lemma_replay_wf(inputs: Seq<Input>, kinds: Seq<BlockType>)
    ensures
        Session::replay(inputs, kinds).wf(),
    decreases inputs.len(),
{
    if inputs.len() > 0 {
        lemma_replay_wf(inputs.drop_last(), kinds);
        lemma_after_wf(
            Session::replay(inputs.drop_last(), kinds),
            inputs.last(),
            kinds[inputs.len() - 1],
        );
    }
}

impl Game {
    /// A session on the welcome screen, with a fresh board.
    pub fn new() -> (game: Self)
        ensures
            game@ == Session::start(),
            game@.wf(),
    {
        Game { tetrus: Tetrus::new(), state: State::Welcome }
    }

    /// Whether the session is well formed: its board is, and the
    /// game-over screen shows exactly while the game on it is over.
    pub fn is_well_formed(&self) -> (valid: bool)
        ensures
            valid == self@.wf(),
    {
        let over = self.tetrus.is_game_over();
        self.tetrus.is_well_formed() && match self.state {
            State::GameOver => over,
            _ => !over,
        }
    }

    /// Deals with the player's input on a running session: carries out
    /// the request of the frame if a piece is falling, switches soft drop
    /// if its key moved, and names the sound to play.
    pub fn player_input(&mut self, input: &Input) -> (sound: Option<Sound>)
        requires
            old(self)@.board.wf(),
        ensures
            final(self)@ == (Session {
                board: old(self)@.board.heard(*input),
                state: old(self).state,
            }),
            final(self)@.board.wf(),
            sound == old(self)@.board.cue(*input),
            final(self).tetrus.rng == old(self).tetrus.rng,
    {
        let mut sound: Option<Sound> = None;
        proof {
            lemma_heard_wf(self@.board, *input);
        }
        if self.tetrus.is_active() {
            match input.request() {
                Some(direction) => {
                    self.tetrus.player_move(direction);
                    match direction {
                        Movement::Drop => {
                            sound = Some(Sound::Drop);
                        },
                        Movement::Rotate => {
                            sound = Some(Sound::Rotate);
                        },
                        _ => {},
                    }
                },
                None => {},
            }
        }
        if input.soft_drop {
            self.tetrus.swap_tick();
        }
        sound
    }

    /// One frame of a running session: the player's input first, then
    /// the tick if one is due, then the test for the end of the game,
    /// which shows the game-over screen.
    pub fn running(&mut self, input: &Input) -> (report: Report)
        requires
            old(self).state == State::Running,
            old(self)@.wf(),
            old(self)@.fits(*input),
        ensures
            final(self)@ == old(self)@.played(*input, final(self).tetrus.block_id),
            final(self)@.wf(),
            report.sound == old(self)@.board.cue(*input),
            report.ticked == old(self)@.due(*input),
    {
        let ghost before = self@;
        let sound = self.player_input(input);
        let ticked = input.elapsed > self.tetrus.tick_interval();
        if ticked {
            self.tetrus.tick();
        }
        if self.tetrus.is_game_over() {
            self.state = State::GameOver;
        }
        proof {
            lemma_after_wf(before, *input, self.tetrus.block_id);
        }
        Report { sound, ticked }
    }

    /// One frame of the welcome screen: the start key sets the game
    /// running.
    pub fn welcome(&mut self, input: &Input)
        requires
            old(self).state == State::Welcome,
        ensures
            final(self)@ == old(self)@.after(*input, final(self).tetrus.block_id),
            final(self).tetrus.rng == old(self).tetrus.rng,
    {
        if input.drop {
            self.state = State::Running;
        }
    }

    /// One frame of the game-over screen: the start key sets a fresh game
    /// running.
    pub fn game_over(&mut self, input: &Input)
        requires
            old(self).state == State::GameOver,
        ensures
            final(self)@ == old(self)@.after(*input, final(self).tetrus.block_id),
    {
        if input.drop {
            self.state = State::Running;
            self.tetrus = Tetrus::new();
        }
    }

    /// One frame of the session, whatever screen is showing.
    pub fn run(&mut self, input: &Input) -> (report: Report)
        requires
            old(self)@.wf(),
            old(self)@.fits(*input),
        ensures
            final(self)@ == old(self)@.after(*input, final(self).tetrus.block_id),
            final(self)@.wf(),
            report.sound == (if old(self).state == State::Running {
                old(self)@.board.cue(*input)
            } else {
                None
            }),
            report.ticked == (old(self).state == State::Running && old(self)@.due(*input)),
    {
        let ghost before = self@;
        proof {
            lemma_after_wf(before, *input, BlockType::I);
        }
        match self.state {
            State::Welcome => {
                self.welcome(input);
                Report { sound: None, ticked: false }
            },
            State::Running => self.running(input),
            State::GameOver => {
                self.game_over(input);
                Report { sound: None, ticked: false }
            },
        }
    }
}

} // verus!
