//! The animation: which frame of which sequence is on show, and how a tick
//! or a button moves it on.

use vstd::prelude::*;

verus! {

/// What the sign is doing.
#[derive(Clone, Copy, Debug, PartialEq, Eq, Structural)]
pub enum State {
    /// Playing the message, once.
    Message,
    /// Showing the waiting frame until a button is pressed.
    Waiting,
    /// Playing the animation for an acceptance.
    Accepted,
    /// Playing the animation for a rejection, once.
    Rejected,
}

/// What follows the last frame of the accepted animation.
#[derive(Clone, Copy, Debug, PartialEq, Eq, Structural)]
pub enum AcceptedExit {
    /// The animation starts over and plays until the sign is reset.
    Hold,
    /// The sign goes back to the message.
    Restart,
}

/// The number of frames of each animation. The waiting state has one frame.
#[derive(Clone, Copy, Debug, PartialEq, Eq, Structural)]
pub struct Lengths {
    pub message: usize,
    pub accepted: usize,
    pub rejected: usize,
}

/// The frame on show: a state and a position in its sequence.
#[derive(Clone, Copy, Debug, PartialEq, Eq, Structural)]
pub struct Cursor {
    pub state: State,
    pub index: usize,
}

impl Lengths {
    /// The number of frames that `state` has.
    pub open spec fn of(self, state: State) -> int {
        match state {
            State::Message => self.message as int,
            State::Waiting => 1,
            State::Accepted => self.accepted as int,
            State::Rejected => self.rejected as int,
        }
    }

    /// Every animation has a frame.
    pub open spec fn wf(self) -> bool {
        self.message >= 1 && self.accepted >= 1 && self.rejected >= 1
    }
}

/// The first frame of `state`.
pub open spec fn first_of(state: State) -> Cursor {
    Cursor { state, index: 0 }
}

/// The cursor at the start: the first frame of the message.
pub open spec fn start() -> Cursor {
    first_of(State::Message)
}

/// `cursor` stands on the last frame of its sequence, or beyond it.
pub open spec fn at_end(cursor: Cursor, lengths: Lengths) -> bool {
    cursor.index + 1 >= lengths.of(cursor.state)
}

/// The state that follows the last frame of `state`.
pub open spec fn successor(state: State, exit: AcceptedExit) -> State {
    match state {
        State::Message => State::Waiting,
        State::Waiting => State::Waiting,
        State::Accepted => match exit {
            AcceptedExit::Hold => State::Accepted,
            AcceptedExit::Restart => State::Message,
        },
        State::Rejected => State::Message,
    }
}

/// The cursor after one tick. Waiting does not move. Elsewhere the next
/// frame of the sequence comes on, and after the last frame the first frame
/// of the state that follows.
pub open spec fn after_tick(cursor: Cursor, lengths: Lengths, exit: AcceptedExit) -> Cursor {
    if cursor.state == State::Waiting {
        cursor
    } else if at_end(cursor, lengths) {
        first_of(successor(cursor.state, exit))
    } else {
        Cursor { state: cursor.state, index: (cursor.index + 1) as usize }
    }
}

/// The cursor after `ticks` ticks.
pub open spec fn after_ticks(
    cursor: Cursor,
    lengths: Lengths,
    exit: AcceptedExit,
    ticks: nat,
) -> Cursor
    decreases ticks,
{
    if ticks == 0 {
        cursor
    } else {
        after_tick(after_ticks(cursor, lengths, exit, (ticks - 1) as nat), lengths, exit)
    }
}

/// The cursor after the buttons were looked at. Only Waiting looks at them.
/// An acceptance starts the accepted animation; failing that, a rejection
/// starts the rejected one. Where both are asserted the acceptance wins.
pub open spec fn after_buttons(cursor: Cursor, accept: bool, reject: bool) -> Cursor {
    if cursor.state != State::Waiting {
        cursor
    } else if accept {
        first_of(State::Accepted)
    } else if reject {
        first_of(State::Rejected)
    } else {
        cursor
    }
}

impl Cursor {
    /// The cursor at the start.
    pub fn new() -> (cursor: Cursor)
        ensures
            cursor == start(),
    {
        Cursor { state: State::Message, index: 0 }
    }

    /// The cursor after one tick.
    pub fn tick(self, lengths: Lengths, exit: AcceptedExit) -> (next: Cursor)
        ensures
            next == after_tick(self, lengths, exit),
    {
        let frames = match self.state {
            State::Message => lengths.message,
            State::Waiting => {
                return self;
            },
            State::Accepted => lengths.accepted,
            State::Rejected => lengths.rejected,
        };
        if frames <= 1 || self.index >= frames - 1 {
            let state = match self.state {
                State::Message => State::Waiting,
                State::Waiting => State::Waiting,
                State::Accepted => match exit {
                    AcceptedExit::Hold => State::Accepted,
                    AcceptedExit::Restart => State::Message,
                },
                State::Rejected => State::Message,
            };
            Cursor { state, index: 0 }
        } else {
            Cursor { state: self.state, index: self.index + 1 }
        }
    }

    /// The cursor after the buttons were looked at.
    pub fn buttons(self, accept: bool, reject: bool) -> (next: Cursor)
        ensures
            next == after_buttons(self, accept, reject),
    {
        match self.state {
            State::Waiting => {
                if accept {
                    Cursor { state: State::Accepted, index: 0 }
                } else if reject {
                    Cursor { state: State::Rejected, index: 0 }
                } else {
                    self
                }
            },
            _ => self,
        }
    }
}

/// A tick keeps the cursor inside the sequences.
pub proof fn lemma_tick_stays_inside(cursor: Cursor, lengths: Lengths, exit: AcceptedExit)
    requires
        lengths.wf(),
        cursor.index < lengths.of(cursor.state),
    ensures
        after_tick(cursor, lengths, exit).index < lengths.of(
            after_tick(cursor, lengths, exit).state,
        ),
{
}

/// A sequence plays frame by frame: from its first frame, each of the first
/// ticks brings the next frame on, and the tick after the last frame brings
/// the first frame of the state that follows.
proof fn lemma_plays_once(state: State, lengths: Lengths, exit: AcceptedExit, ticks: nat)
    requires
        state != State::Waiting,
        lengths.of(state) >= 1,
        ticks <= lengths.of(state),
    ensures
        ticks < lengths.of(state) ==> after_ticks(first_of(state), lengths, exit, ticks) == (
        Cursor { state, index: ticks as usize }),
        ticks == lengths.of(state) ==> after_ticks(first_of(state), lengths, exit, ticks)
            == first_of(successor(state, exit)),
    decreases ticks,
{
    if ticks > 0 {
        lemma_plays_once(state, lengths, exit, (ticks - 1) as nat);
    }
}

/// The message plays once and then gives way to Waiting: `ticks` ticks after
/// its first frame its frame `ticks` is on, and after as many ticks as it has
/// frames the sign waits, at index 0.
pub proof fn lemma_message_runs_into_waiting(lengths: Lengths, exit: AcceptedExit, ticks: nat)
    requires
        lengths.message >= 1,
        ticks <= lengths.message,
    ensures
        ticks < lengths.message ==> after_ticks(start(), lengths, exit, ticks) == (Cursor {
            state: State::Message,
            index: ticks as usize,
        }),
        ticks == lengths.message ==> after_ticks(start(), lengths, exit, ticks) == first_of(
            State::Waiting,
        ),
{
    lemma_plays_once(State::Message, lengths, exit, ticks);
}

/// The rejected animation plays once and then gives way to the message.
pub proof fn lemma_rejected_runs_into_message(lengths: Lengths, exit: AcceptedExit, ticks: nat)
    requires
        lengths.rejected >= 1,
        ticks <= lengths.rejected,
    ensures
        ticks < lengths.rejected ==> after_ticks(
            first_of(State::Rejected),
            lengths,
            exit,
            ticks,
        ) == (Cursor { state: State::Rejected, index: ticks as usize }),
        ticks == lengths.rejected ==> after_ticks(
            first_of(State::Rejected),
            lengths,
            exit,
            ticks,
        ) == start(),
{
    lemma_plays_once(State::Rejected, lengths, exit, ticks);
}

/// Held, the accepted animation goes round for ever: `ticks` ticks after its
/// first frame, the frame on show is `ticks` modulo the number of frames.
pub proof fn lemma_accepted_cycles(lengths: Lengths, ticks: nat)
    requires
        lengths.accepted >= 1,
    ensures
        after_ticks(first_of(State::Accepted), lengths, AcceptedExit::Hold, ticks) == (Cursor {
            state: State::Accepted,
            index: (ticks as int % lengths.accepted as int) as usize,
        }),
    decreases ticks,
{
    let frames = lengths.accepted as int;
    if ticks > 0 {
        let before = (ticks - 1) as nat;
        lemma_accepted_cycles(lengths, before);
        assert(0 <= before as int % frames < frames && ticks as int % frames == (if before as int
            % frames + 1 == frames {
            0
        } else {
            before as int % frames + 1
        })) by (nonlinear_arith)
            requires
                frames >= 1,
                before == ticks - 1,
                ticks >= 1,
        ;
    } else {
        assert(0int % frames == 0) by (nonlinear_arith)
            requires
                frames >= 1,
        ;
    }
}

/// With the exit back to the message, the accepted animation plays once.
pub proof fn lemma_accepted_restarts(lengths: Lengths, ticks: nat)
    requires
        lengths.accepted >= 1,
        ticks <= lengths.accepted,
    ensures
        ticks < lengths.accepted ==> after_ticks(
            first_of(State::Accepted),
            lengths,
            AcceptedExit::Restart,
            ticks,
        ) == (Cursor { state: State::Accepted, index: ticks as usize }),
        ticks == lengths.accepted ==> after_ticks(
            first_of(State::Accepted),
            lengths,
            AcceptedExit::Restart,
            ticks,
        ) == start(),
{
    lemma_plays_once(State::Accepted, lengths, AcceptedExit::Restart, ticks);
}

/// Ticks do not move a waiting sign.
pub proof fn lemma_waiting_sits_out_ticks(
    cursor: Cursor,
    lengths: Lengths,
    exit: AcceptedExit,
    ticks: nat,
)
    requires
        cursor.state == State::Waiting,
    ensures
        after_ticks(cursor, lengths, exit, ticks) == cursor,
    decreases ticks,
{
    if ticks > 0 {
        lemma_waiting_sits_out_ticks(cursor, lengths, exit, (ticks - 1) as nat);
    }
}

/// In Waiting an asserted acceptance starts the accepted animation at its
/// first frame, whatever the rejection input reads.
pub proof fn lemma_acceptance_wins(cursor: Cursor, reject: bool)
    requires
        cursor.state == State::Waiting,
    ensures
        after_buttons(cursor, true, reject) == first_of(State::Accepted),
        after_buttons(cursor, false, true) == first_of(State::Rejected),
        after_buttons(cursor, false, false) == cursor,
{
}

} // verus!
