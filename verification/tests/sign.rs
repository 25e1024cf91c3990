use charlieplex::animation::{AcceptedExit, State};
use charlieplex::bank::FrameBank;
use charlieplex::error::{ConfigError, UnexpectedSignal};
use charlieplex::line::{Deactivation, LineOp};
use charlieplex::mailbox::Mailbox;
use charlieplex::sign::{Options, Reaction, Sign};
use charlieplex::tick::TICK_TOKEN;

const PINS: [i32; 16] = [22, 21, 19, 18, 5, 4, 2, 15, 23, 13, 12, 14, 27, 26, 25, 33];

fn frame_with(lit: &[usize]) -> Vec<bool> {
    let mut frame = vec![false; 64];
    for &i in lit {
        frame[i] = true;
    }
    frame
}

/// Frame `i` of an animation lights the cells `base + i` and `base + i + 8`.
fn animation(count: usize, base: usize) -> Vec<Vec<bool>> {
    (0..count).map(|i| frame_with(&[base + i, base + i + 8])).collect()
}

fn bank() -> FrameBank {
    FrameBank::new(
        (8, 8),
        animation(5, 0),
        frame_with(&[0, 2, 9, 63]),
        animation(6, 16),
        animation(8, 40),
    )
    .unwrap()
}

fn tick(sign: &mut Sign) -> Reaction {
    sign.poll(Some(TICK_TOKEN), false, false).unwrap()
}

fn idle(sign: &mut Sign, accept: bool, reject: bool) -> Reaction {
    sign.poll(None, accept, reject).unwrap()
}

fn nothing() -> Reaction {
    Reaction { restart_timer: false, lines: Vec::new() }
}

#[test]
fn sign_starts_on_the_first_message_frame() {
    let bank = bank();
    let (sign, ops) = Sign::new(PINS.to_vec(), &bank, Options::default()).unwrap();
    assert_eq!(sign.state(), State::Message);
    assert_eq!(sign.index(), 0);
    assert!(!sign.wants_buttons());
    assert_eq!(sign.grid().frame(), &animation(5, 0)[0][..]);
    assert_eq!(sign.grid().index(), 0);
    assert_eq!(sign.grid().active(), None);
    assert_eq!(ops.len(), 48);
    assert_eq!(ops[2], LineOp::SetLevel { pin: 22, high: true });
    assert_eq!(ops[47], LineOp::SetLevel { pin: 33, high: false });
}

#[test]
fn sign_is_refused_when_the_pins_do_not_fit_the_layout() {
    let bank = bank();
    let made = Sign::new(PINS[..15].to_vec(), &bank, Options::default());
    assert_eq!(made.err(), Some(ConfigError::PinCount));
    let mut pins = PINS.to_vec();
    pins.push(32);
    let made = Sign::new(pins, &bank, Options::default());
    assert_eq!(made.err(), Some(ConfigError::PinCount));
}

#[test]
fn default_options_are_inert_held_and_raw() {
    let options = Options::default();
    assert_eq!(options.policy, Deactivation::DriveInert);
    assert_eq!(options.exit, AcceptedExit::Hold);
    assert_eq!(options.debounce, 1);
}

#[test]
fn five_ticks_take_the_message_into_waiting() {
    let bank = bank();
    let (mut sign, _) = Sign::new(PINS.to_vec(), &bank, Options::default()).unwrap();
    for expected in 1..5usize {
        assert_eq!(tick(&mut sign), nothing());
        assert_eq!(sign.state(), State::Message);
        assert_eq!(sign.index(), expected);
        assert_eq!(sign.grid().frame(), &animation(5, 0)[expected][..]);
    }
    assert_eq!(tick(&mut sign), nothing());
    assert_eq!(sign.state(), State::Waiting);
    assert_eq!(sign.index(), 0);
    assert_eq!(sign.grid().frame(), &frame_with(&[0, 2, 9, 63])[..]);
    assert!(sign.wants_buttons());
}

fn waiting_sign(bank: &FrameBank, options: Options) -> Sign<'_> {
    let (mut sign, _) = Sign::new(PINS.to_vec(), bank, options).unwrap();
    for _ in 0..5 {
        tick(&mut sign);
    }
    assert_eq!(sign.state(), State::Waiting);
    sign
}

#[test]
fn ticks_do_not_move_a_waiting_sign() {
    let bank = bank();
    let mut sign = waiting_sign(&bank, Options::default());
    for _ in 0..10 {
        assert_eq!(tick(&mut sign), nothing());
        assert_eq!(sign.state(), State::Waiting);
        assert_eq!(sign.index(), 0);
    }
}

#[test]
fn buttons_are_ignored_while_the_message_plays() {
    let bank = bank();
    let (mut sign, _) = Sign::new(PINS.to_vec(), &bank, Options::default()).unwrap();
    let reaction = idle(&mut sign, true, true);
    assert!(!reaction.restart_timer);
    assert_eq!(sign.state(), State::Message);
    assert_eq!(sign.index(), 0);
}

#[test]
fn acceptance_on_an_idle_turn_starts_the_accepted_animation() {
    let bank = bank();
    let mut sign = waiting_sign(&bank, Options::default());
    let reaction = idle(&mut sign, true, false);
    assert_eq!(sign.state(), State::Accepted);
    assert_eq!(sign.index(), 0);
    assert!(reaction.restart_timer);
    assert_eq!(sign.grid().frame(), &animation(6, 16)[0][..]);
    // The step of the same turn already scans the new frame.
    assert_eq!(sign.grid().index(), 16);
}

#[test]
fn rejection_on_an_idle_turn_starts_the_rejected_animation() {
    let bank = bank();
    let mut sign = waiting_sign(&bank, Options::default());
    let reaction = idle(&mut sign, false, true);
    assert_eq!(sign.state(), State::Rejected);
    assert_eq!(sign.index(), 0);
    assert!(reaction.restart_timer);
    assert_eq!(sign.grid().frame(), &animation(8, 40)[0][..]);
}

#[test]
fn acceptance_wins_over_a_rejection_in_the_same_turn() {
    let bank = bank();
    let mut sign = waiting_sign(&bank, Options::default());
    let reaction = idle(&mut sign, true, true);
    assert_eq!(sign.state(), State::Accepted);
    assert!(reaction.restart_timer);
}

#[test]
fn an_idle_turn_without_a_button_only_steps() {
    let bank = bank();
    let mut sign = waiting_sign(&bank, Options::default());
    let mut visited: Vec<usize> = Vec::new();
    for _ in 0..5 {
        let reaction = idle(&mut sign, false, false);
        assert!(!reaction.restart_timer);
        assert!(!reaction.lines.is_empty());
        assert_eq!(sign.state(), State::Waiting);
        visited.push(sign.grid().index());
    }
    assert_eq!(visited, vec![2, 9, 63, 0, 2]);
}

#[test]
fn a_pressed_button_on_a_tick_turn_is_not_looked_at() {
    let bank = bank();
    let mut sign = waiting_sign(&bank, Options::default());
    let reaction = sign.poll(Some(TICK_TOKEN), true, true).unwrap();
    assert_eq!(reaction, nothing());
    assert_eq!(sign.state(), State::Waiting);
}

#[test]
fn seven_ticks_take_the_accepted_animation_round_to_index_one() {
    let bank = bank();
    let mut sign = waiting_sign(&bank, Options::default());
    idle(&mut sign, true, false);
    for _ in 0..7 {
        tick(&mut sign);
        assert_eq!(sign.state(), State::Accepted);
    }
    assert_eq!(sign.index(), 1);
    assert_eq!(sign.grid().frame(), &animation(6, 16)[1][..]);
}

#[test]
fn accepted_animation_returns_to_the_message_when_told_to_restart() {
    let bank = bank();
    let options = Options { exit: AcceptedExit::Restart, ..Options::default() };
    let mut sign = waiting_sign(&bank, options);
    idle(&mut sign, true, false);
    for _ in 0..5 {
        tick(&mut sign);
        assert_eq!(sign.state(), State::Accepted);
    }
    tick(&mut sign);
    assert_eq!(sign.state(), State::Message);
    assert_eq!(sign.index(), 0);
    assert_eq!(sign.grid().frame(), &animation(5, 0)[0][..]);
}

#[test]
fn eight_ticks_take_the_rejected_animation_back_to_the_message() {
    let bank = bank();
    let mut sign = waiting_sign(&bank, Options::default());
    idle(&mut sign, false, true);
    for expected in 1..8usize {
        tick(&mut sign);
        assert_eq!(sign.state(), State::Rejected);
        assert_eq!(sign.index(), expected);
    }
    tick(&mut sign);
    assert_eq!(sign.state(), State::Message);
    assert_eq!(sign.index(), 0);
    assert_eq!(sign.grid().frame(), &animation(5, 0)[0][..]);
}

#[test]
fn an_unexpected_token_is_refused_and_changes_nothing() {
    let bank = bank();
    let (mut sign, _) = Sign::new(PINS.to_vec(), &bank, Options::default()).unwrap();
    tick(&mut sign);
    idle(&mut sign, false, false);
    let scan = sign.grid().index();
    for token in [0u32, 1, 0xbeee, 0xbef0, u32::MAX] {
        assert_eq!(sign.poll(Some(token), true, true), Err(UnexpectedSignal { token }));
        assert_eq!(sign.state(), State::Message);
        assert_eq!(sign.index(), 1);
        assert_eq!(sign.grid().index(), scan);
    }
}

#[test]
fn a_tick_turn_leaves_the_lines_and_the_scan_alone() {
    let bank = bank();
    let (mut sign, _) = Sign::new(PINS.to_vec(), &bank, Options::default()).unwrap();
    idle(&mut sign, false, false);
    let scan = sign.grid().index();
    let active = sign.grid().active();
    assert_eq!(tick(&mut sign), nothing());
    assert_eq!(sign.grid().index(), scan);
    assert_eq!(sign.grid().active(), active);
}

#[test]
fn an_idle_turn_lights_only_cells_of_the_frame_on_show() {
    let bank = bank();
    let (mut sign, _) = Sign::new(PINS.to_vec(), &bank, Options::default()).unwrap();
    for turn in 0..400usize {
        if turn % 7 == 6 {
            tick(&mut sign);
        } else {
            idle(&mut sign, turn % 50 == 49, false);
            let frame = sign.grid().frame();
            assert!(frame[sign.grid().index()]);
        }
    }
}

#[test]
fn idle_turn_hands_out_the_line_operations_of_the_step() {
    let bank = bank();
    let (mut sign, _) = Sign::new(PINS.to_vec(), &bank, Options::default()).unwrap();
    // The first message frame lights the cells 0 and 8; the scan stands on 0.
    let reaction = idle(&mut sign, false, false);
    assert_eq!(sign.grid().index(), 8);
    assert_eq!(
        reaction.lines,
        vec![
            LineOp::SetLevel { pin: 13, high: true },
            LineOp::SetLevel { pin: 22, high: false },
        ]
    );
    let reaction = idle(&mut sign, false, false);
    assert_eq!(sign.grid().index(), 0);
    assert_eq!(
        reaction.lines,
        vec![
            LineOp::SetLevel { pin: 13, high: false },
            LineOp::SetLevel { pin: 22, high: true },
            LineOp::SetLevel { pin: 23, high: true },
            LineOp::SetLevel { pin: 22, high: false },
        ]
    );
}

#[test]
fn two_ticks_posted_before_a_turn_move_one_frame() {
    let bank = bank();
    let (mut sign, _) = Sign::new(PINS.to_vec(), &bank, Options::default()).unwrap();
    let mut mailbox = Mailbox::new();
    mailbox.post(TICK_TOKEN);
    mailbox.post(TICK_TOKEN);
    let reaction = sign.service(&mut mailbox, false, false).unwrap();
    assert_eq!(reaction, nothing());
    assert_eq!(sign.state(), State::Message);
    assert_eq!(sign.index(), 1);
    assert!(mailbox.is_empty());
    let reaction = sign.service(&mut mailbox, false, false).unwrap();
    assert!(!reaction.lines.is_empty());
    assert_eq!(sign.index(), 1);
}

#[test]
fn service_refuses_an_unexpected_token_and_empties_the_mailbox() {
    let bank = bank();
    let (mut sign, _) = Sign::new(PINS.to_vec(), &bank, Options::default()).unwrap();
    let mut mailbox = Mailbox::new();
    mailbox.post(7);
    assert_eq!(sign.service(&mut mailbox, false, false), Err(UnexpectedSignal { token: 7 }));
    assert!(mailbox.is_empty());
    assert_eq!(sign.state(), State::Message);
    assert_eq!(sign.index(), 0);
}

#[test]
fn debounced_buttons_need_a_run_of_idle_turns() {
    let bank = bank();
    let options = Options { debounce: 3, ..Options::default() };
    let mut sign = waiting_sign(&bank, options);
    assert!(!idle(&mut sign, true, false).restart_timer);
    assert!(!idle(&mut sign, true, false).restart_timer);
    assert_eq!(sign.state(), State::Waiting);
    // A tick between the samples does not break the run.
    tick(&mut sign);
    assert!(idle(&mut sign, true, false).restart_timer);
    assert_eq!(sign.state(), State::Accepted);
}

#[test]
fn a_bouncing_button_is_not_a_press() {
    let bank = bank();
    let options = Options { debounce: 2, ..Options::default() };
    let mut sign = waiting_sign(&bank, options);
    for _ in 0..6 {
        assert!(!idle(&mut sign, false, true).restart_timer);
        assert!(!idle(&mut sign, false, false).restart_timer);
    }
    assert_eq!(sign.state(), State::Waiting);
    idle(&mut sign, false, true);
    assert!(idle(&mut sign, false, true).restart_timer);
    assert_eq!(sign.state(), State::Rejected);
}

#[test]
fn debounced_acceptance_still_wins_a_tie() {
    let bank = bank();
    let options = Options { debounce: 2, ..Options::default() };
    let mut sign = waiting_sign(&bank, options);
    idle(&mut sign, true, true);
    idle(&mut sign, true, true);
    assert_eq!(sign.state(), State::Accepted);
}

#[test]
fn a_rejection_that_is_ready_first_wins_over_a_later_acceptance() {
    let bank = bank();
    let options = Options { debounce: 2, ..Options::default() };
    let mut sign = waiting_sign(&bank, options);
    idle(&mut sign, false, true);
    idle(&mut sign, true, true);
    assert_eq!(sign.state(), State::Rejected);
}

#[test]
fn readings_start_afresh_with_every_wait() {
    let bank = bank();
    let options = Options { debounce: 2, ..Options::default() };
    let mut sign = waiting_sign(&bank, options);
    // One high sample of the acceptance, then the rejection is pressed.
    idle(&mut sign, true, false);
    idle(&mut sign, false, true);
    idle(&mut sign, false, true);
    assert_eq!(sign.state(), State::Rejected);
    for _ in 0..8 {
        tick(&mut sign);
    }
    for _ in 0..5 {
        tick(&mut sign);
    }
    assert_eq!(sign.state(), State::Waiting);
    assert!(!idle(&mut sign, true, false).restart_timer);
    assert!(idle(&mut sign, true, false).restart_timer);
}
