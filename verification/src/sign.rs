//! The sign as a whole: one call per turn of the main loop.
//!
//! A turn that finds a tick in the mailbox moves the animation on by one
//! frame and leaves the lines alone. A turn that finds the mailbox empty
//! looks at the buttons, if the sign is waiting for them, and then moves the
//! light to the next lit cell. The sign touches no hardware: each turn says
//! what is to be done on the lines and to the timer.

use crate::animation::{after_buttons, after_tick, after_ticks, start, AcceptedExit, Cursor, State};
use crate::animation::lemma_tick_stays_inside;
use crate::bank::{FrameBank, Frames};
use crate::button::Debounce;
use crate::driver::{line_count, pair_at, Charlieplex, Grid};
use crate::error::{ConfigError, UnexpectedSignal};
use crate::line::{startup_ops, Deactivation, LineOp};
use crate::mailbox::{after_post, after_receive, Mailbox};
use crate::scan::{has_lit, lemma_scan_reaches_lit};
use crate::tick::TICK_TOKEN;
use vstd::prelude::*;

verus! {

/// The choices that the wiring and the taste leave open.
#[derive(Clone, Copy, Debug, PartialEq, Eq, Structural)]
pub struct Options {
    /// How lines are put to rest.
    pub policy: Deactivation,
    /// What follows the last frame of the accepted animation.
    pub exit: AcceptedExit,
    /// The number of high samples in a row that make a button press; 0 and 1
    /// both take the level as it reads.
    pub debounce: u32,
}

impl Default for Options {
    /// Lines rest at inert levels, the accepted animation is held, and the
    /// buttons are taken as they read.
    fn default() -> (options: Options)
        ensures
            options == (Options {
                policy: Deactivation::DriveInert,
                exit: AcceptedExit::Hold,
                debounce: 1,
            }),
    {
        Options { policy: Deactivation::DriveInert, exit: AcceptedExit::Hold, debounce: 1 }
    }
}

/// What is to be done after a turn.
#[derive(Debug, PartialEq, Eq)]
pub struct Reaction {
    /// Set the counter of the tick timer back to zero, so that the first
    /// frame of the new animation gets its full time.
    pub restart_timer: bool,
    /// The line operations to carry out, in order.
    pub lines: Vec<LineOp>,
}

/// What a sign holds, as plain values.
pub struct Panel {
    /// The frames of the animations.
    pub frames: Frames,
    /// The driver of the matrix.
    pub grid: Grid,
    /// The frame on show.
    pub cursor: Cursor,
    /// What follows the last frame of the accepted animation.
    pub exit: AcceptedExit,
    /// The reading of the acceptance button.
    pub accept: Debounce,
    /// The reading of the rejection button.
    pub reject: Debounce,
}

impl Panel {
    /// The bank and the driver are well formed and of one layout, the driver
    /// shows the frame of the cursor, and nothing is counted on the buttons
    /// while the sign does not wait for them.
    pub open spec fn wf(self) -> bool {
        &&& self.frames.wf()
        &&& self.grid.wf()
        &&& self.grid.layout == self.frames.layout
        &&& self.frames.holds(self.cursor)
        &&& self.grid.reference == self.frames.frame_at(self.cursor)
        &&& self.cursor.state != State::Waiting ==> self.accept.run == 0 && self.reject.run == 0
    }

    /// The sign with the frame of `cursor` on show.
    pub open spec fn moved_to(self, cursor: Cursor) -> Panel {
        Panel { cursor, grid: self.grid.showing(self.frames.frame_at(cursor)), ..self }
    }

    /// The sign after a turn that found a tick. A waiting sign stays as it
    /// is; any other shows the next frame. The scan is not moved.
    pub open spec fn after_tick(self) -> Panel {
        if self.cursor.state == State::Waiting {
            self
        } else {
            self.moved_to(after_tick(self.cursor, self.frames.lengths(), self.exit))
        }
    }

    /// The sign after the buttons were looked at. Only a waiting sign looks
    /// at them. A press starts its animation at the first frame and clears
    /// both readings; without a press both readings count on.
    pub open spec fn after_buttons(self, accept: bool, reject: bool) -> Panel {
        let next = after_buttons(
            self.cursor,
            self.accept.pressed_by(accept),
            self.reject.pressed_by(reject),
        );
        if self.cursor.state != State::Waiting {
            self
        } else if next.state == State::Waiting {
            Panel {
                accept: self.accept.after_sample(accept),
                reject: self.reject.after_sample(reject),
                ..self
            }
        } else {
            Panel {
                accept: self.accept.cleared(),
                reject: self.reject.cleared(),
                ..self.moved_to(next)
            }
        }
    }

    /// The sign after a turn that found the mailbox empty: the buttons are
    /// looked at, then the driver steps.
    pub open spec fn after_idle(self, accept: bool, reject: bool) -> Panel {
        let looked = self.after_buttons(accept, reject);
        Panel { grid: looked.grid.after_step(), ..looked }
    }

    /// The line operations of a turn that found the mailbox empty.
    pub open spec fn idle_lines(self, accept: bool, reject: bool) -> Seq<LineOp> {
        self.after_buttons(accept, reject).grid.step_lines()
    }

    /// Whether a turn that found the mailbox empty starts an animation, and
    /// with it the tick timer anew.
    pub open spec fn starts_animation(self, accept: bool, reject: bool) -> bool {
        self.after_buttons(accept, reject).cursor.state != self.cursor.state
    }

    /// The sign after a turn that found `token` in the mailbox. A token that
    /// is not the tick leaves the sign as it is.
    pub open spec fn after_poll(self, token: Option<u32>, accept: bool, reject: bool) -> Panel {
        match token {
            None => self.after_idle(accept, reject),
            Some(t) => if t == TICK_TOKEN {
                self.after_tick()
            } else {
                self
            },
        }
    }

    /// The sign after `ticks` turns that each found a tick.
    pub open spec fn after_ticks(self, ticks: nat) -> Panel
        decreases ticks,
    {
        if ticks == 0 {
            self
        } else {
            self.after_ticks((ticks - 1) as nat).after_tick()
        }
    }

    /// The sign after a turn on a mailbox with `slot` in it, and what is
    /// left in the mailbox.
    pub open spec fn after_service(self, slot: Option<u32>, accept: bool, reject: bool) -> (
        Panel,
        Option<u32>,
    ) {
        (self.after_poll(after_receive(slot).0, accept, reject), after_receive(slot).1)
    }
}

/// A charlieplexed sign that plays a message, waits for one of two buttons
/// and answers with an animation.
pub struct Sign<'a> {
    bank: &'a FrameBank,
    grid: Charlieplex<'a>,
    cursor: Cursor,
    exit: AcceptedExit,
    accept: Debounce,
    reject: Debounce,
}

impl<'a> View for Sign<'a> {
    type V = Panel;

    closed spec fn view(&self) -> Panel {
        Panel {
            frames: self.bank@,
            grid: self.grid@,
            cursor: self.cursor,
            exit: self.exit,
            accept: self.accept,
            reject: self.reject,
        }
    }
}

impl<'a> Sign<'a> {
    /// The sign is well formed.
    pub open spec fn wf(&self) -> bool {
        self@.wf()
    }

    /// A sign on the matrix that is wired to `pins`, with the frames of
    /// `bank`.
    ///
    /// It is made exactly when `pins` holds one line for each row and each
    /// column of the bank's layout. It starts on the first frame of the
    /// message. With it come the operations that put every line to rest.
    pub fn new(pins: Vec<i32>, bank: &'a FrameBank, options: Options) -> (made: Result<
        (Self, Vec<LineOp>),
        ConfigError,
    >)
        requires
            bank.wf(),
        ensures
            made is Ok <==> pins@.len() == line_count(bank@.layout),
            made matches Ok((sign, ops)) ==> {
                &&& sign.wf()
                &&& sign@ == (Panel {
                    frames: bank@,
                    grid: Grid {
                        pins: pins@,
                        active: None,
                        reference: bank@.frame_at(start()),
                        layout: bank@.layout,
                        index: 0,
                        policy: options.policy,
                    },
                    cursor: start(),
                    exit: options.exit,
                    accept: Debounce { need: options.debounce, run: 0 },
                    reject: Debounce { need: options.debounce, run: 0 },
                })
                &&& ops@ == startup_ops(options.policy, pins@, bank@.layout.0 as int)
            },
            made matches Err(e) ==> e == ConfigError::PinCount,
    {
        let cursor = Cursor::new();
        let first = bank.frame(cursor);
        match Charlieplex::with_policy(pins, first, bank.layout(), options.policy) {
            Ok((grid, ops)) => {
                let sign = Sign {
                    bank,
                    grid,
                    cursor,
                    exit: options.exit,
                    accept: Debounce::new(options.debounce),
                    reject: Debounce::new(options.debounce),
                };
                Ok((sign, ops))
            },
            Err(e) => Err(e),
        }
    }

    /// Shows the frame of `cursor`.
    fn show(&mut self, cursor: Cursor)
        requires
            old(self).wf(),
            old(self)@.frames.holds(cursor),
            cursor.state != State::Waiting ==> old(self)@.accept.run == 0 && old(self)@.reject.run
                == 0,
        ensures
            final(self).wf(),
            final(self)@ == old(self)@.moved_to(cursor),
    {
        let bank: &'a FrameBank = self.bank;
        let frame = bank.frame(cursor);
        let taken = self.grid.reference(frame);
        assert(taken is Ok);
        self.cursor = cursor;
    }

    /// A turn that found a tick in the mailbox.
    fn on_tick(&mut self)
        requires
            old(self).wf(),
        ensures
            final(self).wf(),
            final(self)@ == old(self)@.after_tick(),
    {
        if self.cursor.state != State::Waiting {
            let lengths = self.bank.lengths();
            let next = self.cursor.tick(lengths, self.exit);
            proof {
                assert(lengths.of(State::Message) >= 1);
                assert(lengths.of(State::Accepted) >= 1);
                assert(lengths.of(State::Rejected) >= 1);
                lemma_tick_stays_inside(self.cursor, lengths, self.exit);
            }
            self.show(next);
        }
    }

    /// Looks at the buttons, if the sign waits for them. Says whether an
    /// animation starts.
    fn on_buttons(&mut self, accept: bool, reject: bool) -> (started: bool)
        requires
            old(self).wf(),
        ensures
            final(self).wf(),
            final(self)@ == old(self)@.after_buttons(accept, reject),
            started == old(self)@.starts_animation(accept, reject),
    {
        if self.cursor.state != State::Waiting {
            return false;
        }
        let accepted = self.accept.sample(accept);
        let rejected = self.reject.sample(reject);
        let next = self.cursor.buttons(accepted, rejected);
        if next.state == State::Waiting {
            return false;
        }
        self.accept.clear();
        self.reject.clear();
        self.show(next);
        true
    }

    /// One turn of the main loop.
    ///
    /// `token` is what the mailbox held, `accept` and `reject` are the levels
    /// of the two buttons; they are looked at only where the sign is waiting
    /// and the mailbox was empty.
    ///
    /// A tick moves the animation on by one frame. An empty mailbox makes
    /// the sign look at the buttons and then step the light; the reaction
    /// holds the line operations of the step, and says whether the timer
    /// starts anew. Any other token is refused and changes nothing.
    pub fn poll(&mut self, token: Option<u32>, accept: bool, reject: bool) -> (out: Result<
        Reaction,
        UnexpectedSignal,
    >)
        requires
            old(self).wf(),
        ensures
            final(self).wf(),
            final(self)@ == old(self)@.after_poll(token, accept, reject),
            token is None ==> final(self)@.grid.reference[final(self)@.grid.index as int],
            out is Err <==> token is Some && token != Some(TICK_TOKEN),
            out matches Err(e) ==> token == Some(e.token),
            out matches Ok(reaction) ==> {
                &&& token is Some ==> !reaction.restart_timer && reaction.lines@.len() == 0
                &&& token is None ==> {
                    &&& reaction.restart_timer == old(self)@.starts_animation(accept, reject)
                    &&& reaction.lines@ == old(self)@.idle_lines(accept, reject)
                }
            },
    {
        match token {
            Some(t) => {
                if t != TICK_TOKEN {
                    return Err(UnexpectedSignal { token: t });
                }
                self.on_tick();
                Ok(Reaction { restart_timer: false, lines: Vec::new() })
            },
            None => {
                let started = self.on_buttons(accept, reject);
                let lines = self.grid.step();
                Ok(Reaction { restart_timer: started, lines })
            },
        }
    }

    /// One turn of the main loop on a mailbox: receives what the mailbox
    /// holds and polls with it. The mailbox is empty afterwards.
    pub fn service(&mut self, mailbox: &mut Mailbox, accept: bool, reject: bool) -> (out: Result<
        Reaction,
        UnexpectedSignal,
    >)
        requires
            old(self).wf(),
        ensures
            final(self).wf(),
            (final(self)@, final(mailbox)@) == old(self)@.after_service(
                old(mailbox)@,
                accept,
                reject,
            ),
            final(mailbox)@ is None,
            out is Err <==> old(mailbox)@ is Some && old(mailbox)@ != Some(TICK_TOKEN),
            out matches Err(e) ==> old(mailbox)@ == Some(e.token),
            out matches Ok(reaction) ==> {
                &&& old(mailbox)@ is Some ==> !reaction.restart_timer && reaction.lines@.len() == 0
                &&& old(mailbox)@ is None ==> {
                    &&& reaction.restart_timer == old(self)@.starts_animation(accept, reject)
                    &&& reaction.lines@ == old(self)@.idle_lines(accept, reject)
                }
            },
    {
        let token = mailbox.try_receive();
        self.poll(token, accept, reject)
    }

    /// What the sign is doing.
    pub fn state(&self) -> (state: State)
        ensures
            state == self@.cursor.state,
    {
        self.cursor.state
    }

    /// The position of the frame on show in its animation.
    pub fn index(&self) -> (index: usize)
        ensures
            index == self@.cursor.index,
    {
        self.cursor.index
    }

    /// Whether the sign waits for a button, so that an idle turn looks at
    /// the levels it is given.
    pub fn wants_buttons(&self) -> (wanted: bool)
        ensures
            wanted == (self@.cursor.state == State::Waiting),
    {
        self.cursor.state == State::Waiting
    }

    /// The driver of the matrix.
    pub fn grid(&self) -> (grid: &Charlieplex<'a>)
        ensures
            grid@ == self@.grid,
    {
        &self.grid
    }
}

/// A turn keeps the sign well formed.
pub proof fn lemma_poll_keeps_wf(panel: Panel, token: Option<u32>, accept: bool, reject: bool)
    requires
        panel.wf(),
    ensures
        panel.after_poll(token, accept, reject).wf(),
        panel.after_buttons(accept, reject).wf(),
{
    let lengths = panel.frames.lengths();
    assert(lengths.of(State::Message) >= 1);
    assert(lengths.of(State::Accepted) >= 1);
    assert(lengths.of(State::Rejected) >= 1);
    lemma_tick_stays_inside(panel.cursor, lengths, panel.exit);
    let looked = panel.after_buttons(accept, reject);
    assert(looked.wf());
    lemma_frame_on_show_is_lit(looked);
    lemma_scan_reaches_lit(looked.grid.reference, looked.grid.index as int);
}

/// The frame that a well-formed sign shows has a lit cell, and the scan
/// stands inside it.
pub proof fn lemma_frame_on_show_is_lit(panel: Panel)
    requires
        panel.wf(),
    ensures
        has_lit(panel.grid.reference),
        0 <= panel.grid.index < panel.grid.reference.len(),
{
    let frame = panel.frames.frame_at(panel.cursor);
    match panel.cursor.state {
        State::Message => {
            assert(has_lit(panel.frames.message[panel.cursor.index as int]));
        },
        State::Waiting => {},
        State::Accepted => {
            assert(has_lit(panel.frames.accepted[panel.cursor.index as int]));
        },
        State::Rejected => {
            assert(has_lit(panel.frames.rejected[panel.cursor.index as int]));
        },
    }
}

/// Turns that find a tick move the frame on show as ticks move the cursor,
/// and the driver shows the frame that the cursor stands on. The scan and
/// the pair in use stay as they are.
pub proof fn lemma_tick_turns_follow_cursor(panel: Panel, ticks: nat)
    requires
        panel.wf(),
    ensures
        panel.after_ticks(ticks).wf(),
        panel.after_ticks(ticks).cursor == after_ticks(
            panel.cursor,
            panel.frames.lengths(),
            panel.exit,
            ticks,
        ),
        panel.after_ticks(ticks).grid == panel.grid.showing(
            panel.frames.frame_at(panel.after_ticks(ticks).cursor),
        ),
        panel.after_ticks(ticks).frames == panel.frames,
        panel.after_ticks(ticks).exit == panel.exit,
    decreases ticks,
{
    if ticks > 0 {
        let before = panel.after_ticks((ticks - 1) as nat);
        lemma_tick_turns_follow_cursor(panel, (ticks - 1) as nat);
        lemma_poll_keeps_wf(before, Some(TICK_TOKEN), false, false);
    }
}

/// The light only ever falls on a lit cell: after a turn that found the
/// mailbox empty, the scan stands on a cell that is lit in the frame on
/// show, and the pair in use is the pair of that cell.
pub proof fn lemma_idle_lights_lit_cell(panel: Panel, accept: bool, reject: bool)
    requires
        panel.wf(),
    ensures
        ({
            let after = panel.after_idle(accept, reject);
            &&& 0 <= after.grid.index < after.grid.reference.len()
            &&& after.grid.reference[after.grid.index as int]
            &&& after.grid.reference == after.frames.frame_at(after.cursor)
            &&& after.grid.active == Some(
                pair_at(after.grid.pins, after.grid.layout.0 as int, after.grid.index as int),
            )
        }),
{
    lemma_poll_keeps_wf(panel, None, accept, reject);
    let looked = panel.after_buttons(accept, reject);
    lemma_frame_on_show_is_lit(looked);
    lemma_scan_reaches_lit(looked.grid.reference, looked.grid.index as int);
}

/// Ticks coalesce: two ticks that are posted before the sign takes its turn
/// move the animation by one frame, not by two. The turn finds one tick and
/// empties the mailbox, and the turn after it finds no tick.
pub proof fn lemma_two_posts_one_tick(panel: Panel, slot: Option<u32>, accept: bool, reject: bool)
    ensures
        ({
            let posted = after_post(after_post(slot, TICK_TOKEN), TICK_TOKEN);
            let (first, left) = panel.after_service(posted, accept, reject);
            let (second, empty) = first.after_service(left, accept, reject);
            &&& first == panel.after_tick()
            &&& first.cursor == (if panel.cursor.state == State::Waiting {
                panel.cursor
            } else {
                after_tick(panel.cursor, panel.frames.lengths(), panel.exit)
            })
            &&& left is None
            &&& second == first.after_idle(accept, reject)
            &&& empty is None
        }),
{
}

} // verus!
