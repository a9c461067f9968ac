use rurdle::grid::CellState;
use rurdle::grid::Dictionary;
use rurdle::grid::LetterState;
use rurdle::score::score;
use rurdle::session::Session;
use rurdle::session::SessionStatus;

fn chars(s: &str) -> Vec<char> {
    s.chars().collect()
}

fn dict(words: &[&str]) -> Dictionary {
    Dictionary::new(words.iter().map(|w| w.to_string()).collect())
}

#[test]
fn score_all_correct() {
    let r = score(&chars("RENEW"), &chars("RENEW"));
    assert_eq!(r, vec![CellState::CorrectPosition; 5]);
}

#[test]
fn score_allow_llama() {
    // Hidden ALLOW, guess LLAMA: only two L's and one A are available, so
    // the later duplicates must not be credited again.
    let r = score(&chars("ALLOW"), &chars("LLAMA"));
    assert_eq!(
        r,
        vec![
            CellState::IncorrectPosition,
            CellState::CorrectPosition,
            CellState::IncorrectPosition,
            CellState::Invalid,
            CellState::Invalid,
        ]
    );
}

#[test]
fn score_consumes_occurrences_left_to_right() {
    let r = score(&chars("ROBOT"), &chars("OTTER"));
    assert_eq!(
        r,
        vec![
            CellState::IncorrectPosition,
            CellState::IncorrectPosition,
            CellState::Invalid,
            CellState::Invalid,
            CellState::IncorrectPosition,
        ]
    );
}

#[test]
fn score_exact_matches_claim_first() {
    // Hidden ALLOW, guess LLLLL: the two exact L's consume both hidden L's,
    // so every other L is absent.
    let r = score(&chars("ALLOW"), &chars("LLLLL"));
    assert_eq!(
        r,
        vec![
            CellState::Invalid,
            CellState::CorrectPosition,
            CellState::CorrectPosition,
            CellState::Invalid,
            CellState::Invalid,
        ]
    );
    let marks = r
        .iter()
        .filter(|s| **s == CellState::CorrectPosition || **s == CellState::IncorrectPosition)
        .count();
    assert_eq!(marks, 2);
}

#[test]
fn score_is_deterministic() {
    let a = score(&chars("TRADE"), &chars("HEART"));
    let b = score(&chars("TRADE"), &chars("HEART"));
    assert_eq!(a.len(), 5);
    assert_eq!(a, b);
}

#[test]
fn session_win_first_guess() {
    let d = dict(&["RENEW"]);
    let mut s = Session::new("RENEW".to_string());
    assert_eq!(s.status, SessionStatus::InProgress(0));
    let r = s.submit(&d, &"RENEW".to_string());
    assert_eq!(r, Ok(SessionStatus::Won(0)));
    assert_eq!(s.status, SessionStatus::Won(0));
    assert!(s.game.has_won(0));
    for col in 0..5 {
        assert_eq!(s.game.cell(0, col).state, CellState::CorrectPosition);
    }
}

#[test]
fn session_rejects_unknown_word() {
    let d = dict(&["RENEW"]);
    let mut s = Session::new("RENEW".to_string());
    let r = s.submit(&d, &"QQQQQ".to_string());
    assert_eq!(r, Err("QQQQQ not in word list".to_string()));
    assert_eq!(s.status, SessionStatus::InProgress(0));
    // The row stays unscored.
    for col in 0..5 {
        assert_eq!(s.game.cell(0, col).state, CellState::Empty);
        assert_eq!(s.game.cell(0, col).letter, "");
    }
}

#[test]
fn session_rejects_bad_shape() {
    let d = dict(&["RENEW"]);
    let mut s = Session::new("RENEW".to_string());
    assert_eq!(
        s.submit(&d, &"ABC".to_string()),
        Err("guess must be 5 letters".to_string())
    );
    assert_eq!(
        s.submit(&d, &"AB DE".to_string()),
        Err("guess must be 5 letters".to_string())
    );
    assert_eq!(s.status, SessionStatus::InProgress(0));
}

#[test]
fn session_lost_after_six_misses() {
    let d = dict(&["RENEW", "ALLOW"]);
    let mut s = Session::new("RENEW".to_string());
    for turn in 0..6 {
        assert!(s.is_in_progress());
        let r = s.submit(&d, &"ALLOW".to_string());
        if turn < 5 {
            assert_eq!(r, Ok(SessionStatus::InProgress(turn + 1)));
        } else {
            assert_eq!(r, Ok(SessionStatus::Lost));
        }
    }
    assert_eq!(s.status, SessionStatus::Lost);
    // The hidden word is still there to reveal.
    assert_eq!(s.game.word, "RENEW");
}

#[test]
fn session_normalizes_lowercase_guess() {
    let d = dict(&["RENEW"]);
    let mut s = Session::new("RENEW".to_string());
    let r = s.submit(&d, &"renew".to_string());
    assert_eq!(r, Ok(SessionStatus::Won(0)));
    assert_eq!(s.game.cell(0, 0).letter, "R");
}

#[test]
fn keyboard_hint_upgrades_to_correct() {
    // L scores a loose match first, then an exact one on a later guess: the
    // keyboard hint for L must end at CorrectPosition.
    let d = dict(&["LUNCH", "ALLOW"]);
    let mut s = Session::new("ALLOW".to_string());
    s.submit(&d, &"LUNCH".to_string()).unwrap();
    assert_eq!(
        *s.game.keyboard.letter_state.state_for('L'),
        CellState::IncorrectPosition
    );
    s.submit(&d, &"ALLOW".to_string()).unwrap();
    assert_eq!(
        *s.game.keyboard.letter_state.state_for('L'),
        CellState::CorrectPosition
    );
    assert_eq!(s.status, SessionStatus::Won(1));
}

#[test]
fn letter_state_never_downgrades() {
    let mut ls = LetterState::new();
    assert_eq!(*ls.state_for('A'), CellState::Empty);

    ls.set_state('A', CellState::CorrectPosition);
    ls.set_state('A', CellState::Invalid);
    ls.set_state('A', CellState::IncorrectPosition);
    assert_eq!(*ls.state_for('A'), CellState::CorrectPosition);

    ls.set_state('B', CellState::Invalid);
    ls.set_state('B', CellState::IncorrectPosition);
    ls.set_state('B', CellState::CorrectPosition);
    assert_eq!(*ls.state_for('B'), CellState::Invalid);

    ls.set_state('C', CellState::IncorrectPosition);
    ls.set_state('C', CellState::Invalid);
    assert_eq!(*ls.state_for('C'), CellState::IncorrectPosition);
    ls.set_state('C', CellState::CorrectPosition);
    assert_eq!(*ls.state_for('C'), CellState::CorrectPosition);

    // Untouched letters keep their initial state.
    assert_eq!(*ls.state_for('Z'), CellState::Empty);
}

#[test]
fn session_rejects_non_ascii_guess() {
    let d = dict(&["RENEW"]);
    let mut s = Session::new("RENEW".to_string());
    assert_eq!(
        s.submit(&d, &"héllo".to_string()),
        Err("guess must be 5 letters".to_string())
    );
    assert_eq!(s.status, SessionStatus::InProgress(0));
}

#[test]
fn empty_dictionary_rejects_everything() {
    let d = dict(&[]);
    let mut s = Session::new("RENEW".to_string());
    assert_eq!(
        s.submit(&d, &"RENEW".to_string()),
        Err("RENEW not in word list".to_string())
    );
    assert_eq!(s.status, SessionStatus::InProgress(0));
}

#[test]
fn win_only_when_whole_row_correct() {
    let d = dict(&["ALLOW", "LLAMA"]);
    let mut s = Session::new("ALLOW".to_string());
    let r = s.submit(&d, &"LLAMA".to_string());
    assert_eq!(r, Ok(SessionStatus::InProgress(1)));
    assert!(!s.game.has_won(0));
}
