use rurdle::grid::CellState;
use rurdle::grid::Dictionary;
use rurdle::grid::Game;
use rurdle::grid::Grid;
use rurdle::grid::char_to_string;
use rurdle::grid::grid_char;
use rurdle::grid::keyboard_char;
use rurdle::grid::to_char_vec;
use rurdle::session::Session;
use rurdle::session::win_text;

fn dict(words: &[&str]) -> Dictionary {
    Dictionary::new(words.iter().map(|w| w.to_string()).collect())
}

#[test]
fn emoji_for_each_state() {
    assert_eq!(Grid::emoji_for(&CellState::CorrectPosition), "🟩");
    assert_eq!(Grid::emoji_for(&CellState::IncorrectPosition), "🟨");
    assert_eq!(Grid::emoji_for(&CellState::Invalid), "⬜");
    assert_eq!(Grid::emoji_for(&CellState::Empty), "⬛️");
}

#[test]
fn share_of_fresh_game_is_blank() {
    let g = Game::new("RENEW".to_string());
    let text = g.grid.share(g.state_ref());
    assert_eq!(text, "⬛️⬛️⬛️⬛️⬛️\n".repeat(6));
}

#[test]
fn share_shows_scored_rows() {
    let d = dict(&["ALLOW", "LLAMA"]);
    let mut s = Session::new("ALLOW".to_string());
    s.submit(&d, &"LLAMA".to_string()).unwrap();
    let text = s.game.grid.share(s.game.state_ref());
    let mut expected = String::from("🟨🟩🟨⬜⬜\n");
    expected.push_str(&"⬛️⬛️⬛️⬛️⬛️\n".repeat(5));
    assert_eq!(text, expected);
}

#[test]
fn grid_char_styles_by_state() {
    assert_eq!(
        grid_char("A", &CellState::CorrectPosition),
        "\x1b[42;90m A \x1b[0m"
    );
    assert_eq!(
        grid_char("B", &CellState::IncorrectPosition),
        "\x1b[43;90m B \x1b[0m"
    );
    assert_eq!(grid_char("C", &CellState::Invalid), "\x1b[90m C \x1b[0m");
    assert_eq!(grid_char("D", &CellState::Empty), " _ ");
}

#[test]
fn keyboard_char_styles_by_state() {
    assert_eq!(
        keyboard_char('Q', &CellState::CorrectPosition),
        "\x1b[42;90m Q \x1b[0m"
    );
    assert_eq!(keyboard_char('Q', &CellState::Empty), " Q ");
}

#[test]
fn win_text_by_row() {
    assert_eq!(win_text(0), ("1/6", "Genius!"));
    assert_eq!(win_text(1), ("2/6", "Magnificent!"));
    assert_eq!(win_text(2), ("3/6", "Impressive!"));
    assert_eq!(win_text(3), ("4/6", "Splendid!"));
    assert_eq!(win_text(4), ("5/6", "Great!"));
    assert_eq!(win_text(5), ("6/6", "Phew!"));
}

#[test]
fn dictionary_validate() {
    let d = dict(&["RENEW", "ALLOW"]);
    assert_eq!(d.validate(&"RENEW".to_string()), Ok(()));
    assert_eq!(
        d.validate(&"TRADE".to_string()),
        Err("TRADE not in word list".to_string())
    );
}

#[test]
fn dictionary_contains_chars() {
    let d = dict(&["RENEW"]);
    assert!(d.contains_chars(&"RENEW".chars().collect()));
    assert!(!d.contains_chars(&"ALLOW".chars().collect()));
}

#[test]
fn dictionary_random_word_is_member() {
    let words = ["RENEW", "ALLOW", "TRADE"];
    let d = dict(&words);
    for _ in 0..20 {
        let w = d.random_word();
        assert!(words.contains(&w.as_str()));
    }
}

#[test]
fn char_and_string_conversions() {
    assert_eq!(char_to_string('A'), "A");
    assert_eq!(to_char_vec(&"RENEW".to_string()), vec!['R', 'E', 'N', 'E', 'W']);
}

#[test]
fn update_writes_one_cell_and_keyboard() {
    let mut g = Game::new("RENEW".to_string());
    g.update(0, 0, CellState::CorrectPosition, "R".to_string());
    assert_eq!(g.cell(0, 0).letter, "R");
    assert_eq!(g.cell(0, 0).state, CellState::CorrectPosition);
    assert_eq!(g.cell(0, 1).state, CellState::Empty);
    assert_eq!(
        *g.keyboard.letter_state.state_for('R'),
        CellState::CorrectPosition
    );
}
