use vstd::prelude::*;
use vstd::pervasive::unreached;
use vstd::string::StringExecFns;
use crate::grid::CellState;
use crate::grid::Dictionary;
use crate::grid::Game;
use crate::grid::all_upper;
use crate::grid::char_to_string;
use crate::grid::empty_rows_view;
use crate::grid::is_upper_letter;
use crate::grid::letter_index;
use crate::grid::row_all_correct;
use crate::grid::to_char_vec;
use crate::grid::upgrade_spec;
use crate::score::all_correct;
use crate::score::score;
use crate::score::score_spec;

verus! {

/// A character is a lowercase letter a-z.
pub open spec fn is_lower_letter(c: char) -> bool {
    'a' <= c && c <= 'z'
}

/// A character is an ASCII letter.
pub open spec fn is_alpha(c: char) -> bool {
    is_upper_letter(c) || is_lower_letter(c)
}

/// A lowercase letter mapped to uppercase; anything else kept.
pub open spec fn upper_char(c: char) -> char {
    if is_lower_letter(c) {
        (((c as u32) - 32) as u8) as char
    } else {
        c
    }
}

/// The guess normalized to uppercase, character by character.
pub open spec fn normalize_spec(s: Seq<char>) -> Seq<char> {
    s.map_values(|c: char| upper_char(c))
}

/// A guess of exactly five ASCII letters.
pub open spec fn valid_guess(s: Seq<char>) -> bool {
    s.len() == 5 && forall|i: int| 0 <= i < s.len() ==> is_alpha(#[trigger] s[i])
}

/// Uppercase a guess, accepting exactly the five-ASCII-letter ones.
pub fn normalize_guess(raw: &String) -> (r: Option<Vec<char>>)
    ensures
        match r {
            Some(v) => valid_guess(raw@) && v@ == normalize_spec(raw@) && v@.len() == 5
                && all_upper(v@),
            None => !valid_guess(raw@),
        },
{
    let n = raw.as_str().unicode_len();
    if n != 5 {
        return None;
    }
    let mut v: Vec<char> = Vec::new();
    let mut i: usize = 0;
    while i < 5
        invariant
            i <= 5,
            raw@.len() == 5,
            v@.len() == i,
            forall|k: int| 0 <= k < i ==> is_alpha(#[trigger] raw@[k]),
            forall|k: int| 0 <= k < i ==> #[trigger] v@[k] == upper_char(raw@[k])
                && is_upper_letter(v@[k]),
        decreases 5 - i,
    {
        let c = raw.as_str().get_char(i);
        let u = c as u32;
        if 65 <= u && u <= 90 {
            v.push(c);
        } else if 97 <= u && u <= 122 {
            v.push(((u - 32) as u8) as char);
        } else {
            proof {
                assert(!is_alpha(raw@[i as int]));
            }
            return None;
        }
        i += 1;
    }
    proof {
        assert(v@ =~= normalize_spec(raw@));
    }
    Some(v)
}

/// Where a session stands: guessing at a row, won at a row, or out of rows.
#[derive(PartialEq, Eq, Structural, Copy, Clone, Debug)]
pub enum SessionStatus {
    InProgress(usize),
    Won(usize),
    Lost,
}

/// One row after scoring: each cell holds its guessed letter and feedback.
pub open spec fn scored_row(g: Seq<char>, fb: Seq<CellState>) -> Seq<(Seq<char>, CellState)> {
    Seq::new(5, |k: int| (seq![g[k]], fb[k]))
}

/// The keyboard states after folding in the first `n` (letter, feedback)
/// pairs of a scored guess, in order.
pub open spec fn fold_feedback(
    ks: Seq<CellState>,
    g: Seq<char>,
    fb: Seq<CellState>,
    n: int,
) -> Seq<CellState>
    decreases n,
{
    if n <= 0 {
        ks
    } else {
        let m = fold_feedback(ks, g, fb, n - 1);
        let idx = letter_index(g[n - 1]);
        m.update(idx, upgrade_spec(m[idx], fb[n - 1]))
    }
}

/// The state after an accepted guess at `row`: a win stays at that row, the
/// last row without a win loses, anything else moves to the next row.
pub open spec fn next_status(row: int, fb: Seq<CellState>) -> SessionStatus {
    if all_correct(fb) && fb.len() == 5 {
        SessionStatus::Won(row as usize)
    } else if row == 5 {
        SessionStatus::Lost
    } else {
        SessionStatus::InProgress((row + 1) as usize)
    }
}

/// A whole game: the grid and hints, the hidden word, and where play stands.
pub struct Session {
    pub game: Game,
    pub status: SessionStatus,
}

impl Session {
    pub open spec fn wf(&self) -> bool {
        &&& self.game.wf()
        &&& self.game.word@.len() == 5
        &&& all_upper(self.game.word@)
        &&& match self.status {
            SessionStatus::InProgress(r) => r < 6,
            SessionStatus::Won(r) => r < 6,
            SessionStatus::Lost => true,
        }
    }

    /// The session still accepts guesses.
    pub open spec fn in_progress(&self) -> bool {
        self.status is InProgress
    }

    /// The row the next accepted guess goes to (6 once the game is over).
    pub open spec fn current_row(&self) -> int {
        match self.status {
            SessionStatus::InProgress(r) => r as int,
            SessionStatus::Won(r) => r as int,
            SessionStatus::Lost => 6,
        }
    }

    pub fn new(word: String) -> (s: Session)
        requires
            word@.len() == 5,
            all_upper(word@),
        ensures
            s.wf(),
            s.game.word == word,
            s.status == SessionStatus::InProgress(0usize),
            s.game.rows_view() == empty_rows_view(),
            s.game.keyboard.letter_state@ == Seq::new(26, |i: int| CellState::Empty),
    {
        Session { game: Game::new(word), status: SessionStatus::InProgress(0) }
    }

    /// The session still accepts guesses.
    pub fn is_in_progress(&self) -> (r: bool)
        ensures
            r == self.in_progress(),
    {
        match self.status {
            SessionStatus::InProgress(_) => true,
            _ => false,
        }
    }

    /// Submit one raw guess. A guess that is not five ASCII letters, or that
    /// the dictionary does not know, is rejected without consuming a row.
    /// An accepted guess is scored against the hidden word, written into the
    /// current row, folded into the keyboard hints, and moves the session to
    /// its next state: won on an all-correct row, lost when the last row is
    /// spent, otherwise on to the next row. A finished session accepts no
    /// further guesses: callers must not submit to a session that is not in
    /// progress.
    pub fn submit(&mut self, dictionary: &Dictionary, raw: &String) -> (r: Result<
        SessionStatus,
        String,
    >)
        requires
            old(self).wf(),
            old(self).in_progress(),
        ensures
            final(self).wf(),
            final(self).game.word == old(self).game.word,
            r is Err <==> !(valid_guess(raw@) && dictionary.contains_word(normalize_spec(raw@))),
            r is Err ==> *final(self) == *old(self),
            !valid_guess(raw@) ==> (r matches Err(m) && m@ == "guess must be 5 letters"@),
            valid_guess(raw@) && !dictionary.contains_word(normalize_spec(raw@)) ==> (r matches
                Err(m) && m@ == raw@ + " not in word list"@),
            r is Ok ==> ({
                let g = normalize_spec(raw@);
                let fb = score_spec(old(self).game.word@, g);
                let row = old(self).current_row();
                &&& final(self).game.rows_view() == old(self).game.rows_view().update(
                    row,
                    scored_row(g, fb),
                )
                &&& final(self).game.keyboard.letter_state@ == fold_feedback(
                    old(self).game.keyboard.letter_state@,
                    g,
                    fb,
                    5,
                )
                &&& final(self).status == next_status(row, fb)
                &&& r == Ok::<SessionStatus, String>(final(self).status)
            }),
    {
        let g_vec = match normalize_guess(raw) {
            None => {
                return Err(String::from_str("guess must be 5 letters"));
            },
            Some(v) => v,
        };
        if !dictionary.contains_chars(&g_vec) {
            return Err(raw.clone().concat(" not in word list"));
        }
        let row: usize = match self.status {
            SessionStatus::InProgress(r) => r,
            _ => unreached(),
        };

        let hidden = to_char_vec(&self.game.word);
        let fb = score(&hidden, &g_vec);

        let ghost g = g_vec@;
        let ghost fbs = fb@;
        let ghost rv0 = self.game.rows_view();
        let ghost ks0 = self.game.keyboard.letter_state@;

        proof {
            assert(rv0[row as int] == crate::grid::row_view(self.game.game_state.rows@[row as int]));
            assert(rv0[row as int].len() == 5);
            assert(Seq::new(5, |k: int| if k < 0 { (seq![g[k]], fbs[k]) } else {
                rv0[row as int][k]
            }) =~= rv0[row as int]);
            assert(rv0.update(row as int, rv0[row as int]) =~= rv0);
        }
        let mut col: usize = 0;
        while col < 5
            invariant
                col <= 5,
                row < 6,
                self.game.wf(),
                self.game.word == old(self).game.word,
                self.status == old(self).status,
                g_vec@ == g,
                fb@ == fbs,
                g.len() == 5,
                fbs.len() == 5,
                all_upper(g),
                rv0.len() == 6,
                rv0[row as int].len() == 5,
                self.game.rows_view() == rv0.update(
                    row as int,
                    Seq::new(5, |k: int| if k < col { (seq![g[k]], fbs[k]) } else {
                        rv0[row as int][k]
                    }),
                ),
                self.game.keyboard.letter_state@ == fold_feedback(ks0, g, fbs, col as int),
            decreases 5 - col,
        {
            let letter = char_to_string(g_vec[col]);
            self.game.update(row, col, fb[col], letter);
            proof {
                assert(self.game.rows_view() =~~= rv0.update(
                    row as int,
                    Seq::new(5, |k: int| if k < col + 1 { (seq![g[k]], fbs[k]) } else {
                        rv0[row as int][k]
                    }),
                ));
                assert(self.game.keyboard.letter_state@ =~= fold_feedback(
                    ks0, g, fbs, col as int + 1,
                ));
            }
            col += 1;
        }
        proof {
            assert(self.game.rows_view() =~~= rv0.update(row as int, scored_row(g, fbs)));
        }

        let won = self.game.has_won(row);
        proof {
            assert(self.game.rows_view()[row as int] =~~= scored_row(g, fbs));
            if row_all_correct(scored_row(g, fbs)) {
                assert forall|k: int| 0 <= k < fbs.len() implies fbs[k]
                    == CellState::CorrectPosition by {
                    assert(scored_row(g, fbs)[k].1 == CellState::CorrectPosition);
                }
            }
            if all_correct(fbs) {
                assert forall|k: int| 0 <= k < scored_row(g, fbs).len() implies (#[trigger] scored_row(
                    g,
                    fbs,
                )[k]).1 == CellState::CorrectPosition by {
                    assert(fbs[k] == CellState::CorrectPosition);
                }
            }
            assert(row_all_correct(scored_row(g, fbs)) <==> all_correct(fbs));
        }
        let new_status: SessionStatus = if won {
            SessionStatus::Won(row)
        } else if row == 5 {
            SessionStatus::Lost
        } else {
            SessionStatus::InProgress(row + 1)
        };
        self.status = new_status;
        Ok(new_status)
    }
}

/// An accepted guess on the last row always ends the game, won or lost:
/// together with `submit`'s contract, a session never stays in progress
/// past six accepted guesses.
pub proof fn lemma_last_row_terminates(fb: Seq<CellState>)
    ensures
        next_status(5, fb) is Won || next_status(5, fb) is Lost,
{
}

/// The celebratory text for a win at the given row: the score fraction and
/// the flavor line, a fixed table by row index.
pub fn win_text(row: usize) -> (r: (&'static str, &'static str))
    requires
        row < 6,
    ensures
        row == 0 ==> r.0@ == "1/6"@ && r.1@ == "Genius!"@,
        row == 1 ==> r.0@ == "2/6"@ && r.1@ == "Magnificent!"@,
        row == 2 ==> r.0@ == "3/6"@ && r.1@ == "Impressive!"@,
        row == 3 ==> r.0@ == "4/6"@ && r.1@ == "Splendid!"@,
        row == 4 ==> r.0@ == "5/6"@ && r.1@ == "Great!"@,
        row == 5 ==> r.0@ == "6/6"@ && r.1@ == "Phew!"@,
{
    if row == 0 {
        ("1/6", "Genius!")
    } else if row == 1 {
        ("2/6", "Magnificent!")
    } else if row == 2 {
        ("3/6", "Impressive!")
    } else if row == 3 {
        ("4/6", "Splendid!")
    } else if row == 4 {
        ("5/6", "Great!")
    } else {
        ("6/6", "Phew!")
    }
}

} // verus!
