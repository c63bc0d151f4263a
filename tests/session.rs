use xlock::{
    color_of, Auth, Command, Feedback, Key, Session, Setup, Stage, FAILURE_COLOR, IDLE_COLOR,
    MAX_BUF_SIZE, STAGE_COUNT, SUCCESS_COLOR, TYPING_COLOR,
};

// MD5-crypt hash of "password".
const HASH: &str = "$1$5pZSV9va$azfrPr6af3Fc7dLblQXVa0";

fn locked_setup() -> Setup {
    let mut s = Setup::new();
    while let Some(stage) = s.next_stage() {
        assert!(s.complete(stage));
    }
    s
}

fn locked() -> Session {
    Session::start(locked_setup()).ok().unwrap()
}

fn type_text(s: &mut Session, text: &str) {
    for c in text.chars() {
        assert_eq!(s.on_key(Key::Text(c), HASH), Command::Wait);
    }
}

#[test]
fn session_needs_a_complete_lock() {
    let mut partial = Setup::new();
    assert!(partial.complete(Stage::Surface));
    let back = Session::start(partial).err().unwrap();
    assert!(!back.is_locked());
    let s = locked();
    assert!(s.is_locked());
    assert_eq!(s.feedback(), Feedback::Idle);
    assert_eq!(s.typed_len(), 0);
}

#[test]
fn scenario_wrong_password_clears_and_continues() {
    let mut s = locked();
    type_text(&mut s, "hi");
    assert_eq!(s.feedback(), Feedback::Typing);
    assert_eq!(s.on_key(Key::Submit, HASH), Command::Reject);
    assert_eq!(s.typed_len(), 0);
    assert_eq!(s.feedback(), Feedback::Failure);
    s.settle();
    assert_eq!(s.feedback(), Feedback::Idle);
    assert!(s.is_locked());
}

#[test]
fn scenario_escape_clears_to_idle() {
    let mut s = locked();
    assert_eq!(s.on_key(Key::Text('a'), HASH), Command::Wait);
    assert_eq!(s.on_key(Key::Cancel, HASH), Command::Wait);
    assert_eq!(s.typed_len(), 0);
    assert_eq!(s.feedback(), Feedback::Idle);
}

#[test]
fn scenario_empty_submit_does_nothing() {
    let mut s = locked();
    assert_eq!(s.on_key(Key::Submit, HASH), Command::Wait);
    assert_eq!(s.typed_len(), 0);
    assert_eq!(s.feedback(), Feedback::Idle);
    // A hash that matches nothing cannot matter when nothing is submitted.
    assert_eq!(s.on_key(Key::Submit, "not a hash"), Command::Wait);
    assert_eq!(s.feedback(), Feedback::Idle);
}

#[test]
fn scenario_overflow_keeps_only_newest_char() {
    let mut s = locked();
    for _ in 0..MAX_BUF_SIZE {
        assert_eq!(s.on_key(Key::Text('x'), HASH), Command::Wait);
    }
    assert_eq!(s.typed_len(), MAX_BUF_SIZE);
    assert_eq!(s.on_key(Key::Text('p'), HASH), Command::Wait);
    assert_eq!(s.typed_len(), 1);
    assert_eq!(s.feedback(), Feedback::Typing);
    // The buffer now holds "p" alone: erasing it empties the buffer.
    s.on_key(Key::Erase, HASH);
    assert_eq!(s.typed_len(), 0);
    assert_eq!(s.feedback(), Feedback::Idle);
}

#[test]
fn scenario_correct_password_unlocks_and_releases_once() {
    let mut s = locked();
    type_text(&mut s, "password");
    assert_eq!(s.on_key(Key::Submit, HASH), Command::Unlock);
    assert_eq!(s.feedback(), Feedback::Success);
    assert_eq!(s.typed_len(), 0);
    assert_eq!(
        s.release(),
        vec![Stage::KeyboardGrab, Stage::PointerGrab, Stage::Cursor, Stage::Context, Stage::Surface]
    );
    assert!(!s.is_locked());
    assert_eq!(s.release(), Vec::<Stage>::new());
}

#[test]
fn unlocked_session_stays_unlocked() {
    let mut s = locked();
    assert_eq!(s.on_verdict(Auth::Correct), Command::Unlock);
    assert_eq!(s.on_key(Key::Text('a'), HASH), Command::Unlock);
    assert_eq!(s.on_key(Key::Cancel, HASH), Command::Unlock);
    assert_eq!(s.on_verdict(Auth::Incorrect), Command::Unlock);
    assert_eq!(s.feedback(), Feedback::Success);
    assert_eq!(s.typed_len(), 0);
}

#[test]
fn backspace_edits_before_submit() {
    let mut s = locked();
    type_text(&mut s, "passwordd");
    assert_eq!(s.on_key(Key::Erase, HASH), Command::Wait);
    assert_eq!(s.on_key(Key::Submit, HASH), Command::Unlock);
}

#[test]
fn surrounding_space_is_trimmed_on_submit() {
    let mut s = locked();
    type_text(&mut s, " password ");
    assert_eq!(s.on_key(Key::Submit, HASH), Command::Unlock);
}

#[test]
fn modifier_keys_are_ignored() {
    let mut s = locked();
    type_text(&mut s, "ab");
    assert_eq!(s.on_key(Key::Modifier, HASH), Command::Wait);
    assert_eq!(s.typed_len(), 2);
    assert_eq!(s.feedback(), Feedback::Typing);
}

#[test]
fn unresolved_key_fails_the_attempt() {
    let mut s = locked();
    type_text(&mut s, "pass");
    assert_eq!(s.on_key(Key::Unresolved, HASH), Command::Reject);
    assert_eq!(s.typed_len(), 0);
    assert_eq!(s.feedback(), Feedback::Failure);
    s.settle();
    assert_eq!(s.feedback(), Feedback::Idle);
}

#[test]
fn same_wrong_text_twice_gives_same_outcome() {
    let mut s = locked();
    type_text(&mut s, "nope");
    assert_eq!(s.on_key(Key::Submit, HASH), Command::Reject);
    s.settle();
    type_text(&mut s, "nope");
    assert_eq!(s.on_key(Key::Submit, HASH), Command::Reject);
    assert_eq!(s.feedback(), Feedback::Failure);
    s.settle();
    type_text(&mut s, "password");
    assert_eq!(s.on_key(Key::Submit, HASH), Command::Unlock);
}

#[test]
fn release_mid_attempt_drops_credential() {
    let mut s = locked();
    type_text(&mut s, "secr");
    assert_eq!(s.release().len(), STAGE_COUNT);
    assert_eq!(s.typed_len(), 0);
    assert_eq!(s.feedback(), Feedback::Idle);
    assert!(s.release().is_empty());
}

#[test]
fn feedback_colors_are_distinct() {
    assert_eq!(color_of(Feedback::Idle), IDLE_COLOR);
    assert_eq!(color_of(Feedback::Typing), TYPING_COLOR);
    assert_eq!(color_of(Feedback::Success), SUCCESS_COLOR);
    assert_eq!(color_of(Feedback::Failure), FAILURE_COLOR);
    assert_eq!(IDLE_COLOR, 0x000000);
    let all = [IDLE_COLOR, TYPING_COLOR, SUCCESS_COLOR, FAILURE_COLOR];
    for i in 0..all.len() {
        for j in 0..i {
            assert_ne!(all[i], all[j]);
        }
    }
}

#[test]
fn submit_against_unusable_hash_is_rejected() {
    let mut s = locked();
    type_text(&mut s, "password");
    assert_eq!(s.on_key(Key::Submit, "\u{1}\u{1}"), Command::Reject);
    assert_eq!(s.typed_len(), 0);
    assert_eq!(s.feedback(), Feedback::Failure);
}
