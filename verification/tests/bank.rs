use charlieplex::animation::{Cursor, Lengths, State};
use charlieplex::bank::FrameBank;
use charlieplex::error::ConfigError;

fn frame_with(cells: usize, lit: &[usize]) -> Vec<bool> {
    let mut frame = vec![false; cells];
    for &i in lit {
        frame[i] = true;
    }
    frame
}

fn frames(count: usize) -> Vec<Vec<bool>> {
    (0..count).map(|i| frame_with(4, &[i % 4])).collect()
}

#[test]
fn bank_of_fitting_lit_frames_is_made() {
    let bank = FrameBank::new((2, 2), frames(5), frame_with(4, &[1, 2]), frames(6), frames(8));
    let bank = bank.unwrap();
    assert_eq!(bank.layout(), (2, 2));
    assert_eq!(bank.lengths(), Lengths { message: 5, accepted: 6, rejected: 8 });
}

#[test]
fn bank_hands_out_the_frame_of_a_cursor() {
    let bank =
        FrameBank::new((2, 2), frames(5), frame_with(4, &[1, 2]), frames(6), frames(8)).unwrap();
    assert_eq!(bank.frame(Cursor { state: State::Message, index: 0 }), &[true, false, false, false]);
    assert_eq!(bank.frame(Cursor { state: State::Message, index: 3 }), &[false, false, false, true]);
    assert_eq!(bank.frame(Cursor { state: State::Waiting, index: 0 }), &[false, true, true, false]);
    assert_eq!(bank.frame(Cursor { state: State::Accepted, index: 5 }), &[false, true, false, false]);
    assert_eq!(bank.frame(Cursor { state: State::Rejected, index: 6 }), &[false, false, true, false]);
}

#[test]
fn bank_without_a_message_is_refused() {
    let made = FrameBank::new((2, 2), Vec::new(), frame_with(4, &[0]), frames(1), frames(1));
    assert_eq!(made.err(), Some(ConfigError::EmptySequence));
}

#[test]
fn bank_without_an_accepted_or_rejected_animation_is_refused() {
    let made = FrameBank::new((2, 2), frames(1), frame_with(4, &[0]), Vec::new(), frames(1));
    assert_eq!(made.err(), Some(ConfigError::EmptySequence));
    let made = FrameBank::new((2, 2), frames(1), frame_with(4, &[0]), frames(1), Vec::new());
    assert_eq!(made.err(), Some(ConfigError::EmptySequence));
}

#[test]
fn bank_with_a_frame_of_the_wrong_length_is_refused() {
    let mut message = frames(3);
    message[2].push(true);
    let made = FrameBank::new((2, 2), message, frame_with(4, &[0]), frames(1), frames(1));
    assert_eq!(made.err(), Some(ConfigError::FrameLength));
    let made = FrameBank::new((2, 2), frames(1), frame_with(3, &[0]), frames(1), frames(1));
    assert_eq!(made.err(), Some(ConfigError::FrameLength));
    let mut accepted = frames(2);
    accepted[0].pop();
    let made = FrameBank::new((2, 2), frames(1), frame_with(4, &[0]), accepted, frames(1));
    assert_eq!(made.err(), Some(ConfigError::FrameLength));
    let mut rejected = frames(2);
    rejected[1].clear();
    let made = FrameBank::new((2, 2), frames(1), frame_with(4, &[0]), frames(1), rejected);
    assert_eq!(made.err(), Some(ConfigError::FrameLength));
}

#[test]
fn bank_for_a_layout_beyond_counting_is_refused() {
    let made =
        FrameBank::new((usize::MAX, 2), frames(1), frame_with(4, &[0]), frames(1), frames(1));
    assert_eq!(made.err(), Some(ConfigError::FrameLength));
}

#[test]
fn bank_with_a_dark_frame_is_refused() {
    let mut message = frames(3);
    message[1] = vec![false; 4];
    let made = FrameBank::new((2, 2), message, frame_with(4, &[0]), frames(1), frames(1));
    assert_eq!(made.err(), Some(ConfigError::DarkFrame));
    let made = FrameBank::new((2, 2), frames(1), vec![false; 4], frames(1), frames(1));
    assert_eq!(made.err(), Some(ConfigError::DarkFrame));
    let mut rejected = frames(8);
    rejected[7] = vec![false; 4];
    let made = FrameBank::new((2, 2), frames(1), frame_with(4, &[0]), frames(1), rejected);
    assert_eq!(made.err(), Some(ConfigError::DarkFrame));
}

#[test]
fn bank_reports_the_first_defect_in_order() {
    let made = FrameBank::new((2, 2), Vec::new(), vec![false; 3], frames(1), frames(1));
    assert_eq!(made.err(), Some(ConfigError::EmptySequence));
    let made = FrameBank::new((2, 2), frames(1), vec![false; 3], frames(1), frames(1));
    assert_eq!(made.err(), Some(ConfigError::FrameLength));
}

#[test]
fn bank_for_a_matrix_without_cells_is_refused_as_dark() {
    let none: Vec<Vec<bool>> = vec![Vec::new()];
    let made = FrameBank::new((0, 3), none.clone(), Vec::new(), none.clone(), none);
    assert_eq!(made.err(), Some(ConfigError::DarkFrame));
}
