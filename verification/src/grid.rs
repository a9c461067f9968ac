use vstd::prelude::*;
use vstd::string::StrSliceExecFns;
use vstd::string::StringExecFns;
use rand::Rng;

verus! {

/// Per-letter feedback for one guessed letter, and the empty (initial) state.
#[derive(PartialEq, Eq, Structural, Copy, Clone, Debug, Default)]
pub enum CellState {
    CorrectPosition,
    IncorrectPosition,
    Invalid,
    #[default]
    Empty,
}

/// A character is an uppercase letter A-Z.
pub open spec fn is_upper_letter(c: char) -> bool {
    'A' <= c && c <= 'Z'
}

/// Every character of the sequence is an uppercase letter.
pub open spec fn all_upper(s: Seq<char>) -> bool {
    forall|i: int| 0 <= i < s.len() ==> is_upper_letter(#[trigger] s[i])
}

/// The keyboard-hint upgrade rule: `Empty` accepts any new state, and
/// `IncorrectPosition` is promoted to `CorrectPosition`; every other
/// transition keeps the current state.
pub open spec fn upgrade_spec(cur: CellState, new: CellState) -> CellState {
    match (cur, new) {
        (CellState::Empty, _) => new,
        (CellState::IncorrectPosition, CellState::CorrectPosition) => CellState::CorrectPosition,
        _ => cur,
    }
}

/// Informativeness of a hint along the upgrade chain; `Invalid` (absent) is
/// not part of the chain and is given the lowest value here.
pub open spec fn rank(s: CellState) -> int {
    match s {
        CellState::CorrectPosition => 2,
        CellState::IncorrectPosition => 1,
        CellState::Invalid => 0,
        CellState::Empty => 0,
    }
}

/// The more informative of two chain states.
pub open spec fn chain_max(a: CellState, b: CellState) -> CellState {
    if rank(a) >= rank(b) {
        a
    } else {
        b
    }
}

/// The result of feeding a whole sequence of feedback values, in order, into
/// the upgrade rule, starting from `Empty`.
pub open spec fn fold_upgrades(s: Seq<CellState>) -> CellState
    decreases s.len(),
{
    if s.len() == 0 {
        CellState::Empty
    } else {
        upgrade_spec(fold_upgrades(s.drop_last()), s.last())
    }
}

/// The most informative state in a sequence of chain states.
pub open spec fn seq_chain_max(s: Seq<CellState>) -> CellState
    decreases s.len(),
{
    if s.len() == 0 {
        CellState::Empty
    } else {
        chain_max(seq_chain_max(s.drop_last()), s.last())
    }
}

/// A single upgrade step never loses information: a settled state survives,
/// `IncorrectPosition` can only grow to `CorrectPosition`, and the result is
/// always either the current or the new state.
pub proof fn lemma_upgrade_no_downgrade(cur: CellState, new: CellState)
    ensures
        cur == CellState::CorrectPosition ==> upgrade_spec(cur, new) == cur,
        cur == CellState::Invalid ==> upgrade_spec(cur, new) == cur,
        cur == CellState::IncorrectPosition ==> (upgrade_spec(cur, new) == cur
            || upgrade_spec(cur, new) == CellState::CorrectPosition),
        upgrade_spec(cur, new) == cur || upgrade_spec(cur, new) == new,
{
}

/// `Absent` is sticky: nothing overwrites it, and it is only ever set from
/// `Unknown`.
pub proof fn lemma_absent_sticky(cur: CellState, new: CellState)
    ensures
        upgrade_spec(CellState::Invalid, new) == CellState::Invalid,
        upgrade_spec(cur, CellState::Invalid) == (if cur == CellState::Empty {
            CellState::Invalid
        } else {
            cur
        }),
{
}

/// For any sequence of upgrades without `Absent`, the final stored state is
/// the maximum state reached under `Empty < IncorrectPosition <
/// CorrectPosition`.
pub proof fn lemma_fold_upgrades_is_max(s: Seq<CellState>)
    requires
        forall|i: int| 0 <= i < s.len() ==> s[i] != CellState::Invalid,
    ensures
        fold_upgrades(s) == seq_chain_max(s),
        fold_upgrades(s) != CellState::Invalid,
    decreases s.len(),
{
    if s.len() > 0 {
        assert(forall|i: int| 0 <= i < s.drop_last().len()
            ==> s.drop_last()[i] != CellState::Invalid);
        lemma_fold_upgrades_is_max(s.drop_last());
        assert(s.last() != CellState::Invalid);
    }
}

/// Best-known feedback for each of the 26 letters.
pub struct LetterState {
    letter_arr: Vec<CellState>,
}

/// Index of an uppercase letter in a 26-entry table.
pub open spec fn letter_index(c: char) -> int {
    c as int - 65
}

impl LetterState {
    pub closed spec fn wf(&self) -> bool {
        self.letter_arr@.len() == 26
    }

    /// The stored states, one per letter, `A` first.
    pub closed spec fn view(&self) -> Seq<CellState> {
        self.letter_arr@
    }

    /// The stored state for an uppercase letter.
    pub open spec fn state_of(&self, c: char) -> CellState {
        self@[letter_index(c)]
    }

    pub fn new() -> (r: LetterState)
        ensures
            r.wf(),
            r@ == Seq::new(26, |i: int| CellState::Empty),
    {
        let mut letter_arr: Vec<CellState> = Vec::new();
        let mut i: usize = 0;
        while i < 26
            invariant
                i <= 26,
                letter_arr@.len() == i,
                forall|j: int| 0 <= j < i ==> letter_arr@[j] == CellState::Empty,
            decreases 26 - i,
        {
            letter_arr.push(CellState::Empty);
            i += 1;
        }
        proof {
            assert(letter_arr@ =~= Seq::new(26, |i: int| CellState::Empty));
        }
        LetterState { letter_arr }
    }

    /// Table index of an uppercase letter: 0 for `A` through 25 for `Z`.
    pub fn index(c: char) -> (r: u8)
        requires
            is_upper_letter(c),
        ensures
            r as int == letter_index(c),
    {
        (c as u32 - 65) as u8
    }

    /// Fold one feedback value into the stored state for `c`, never
    /// downgrading: only `Empty` and `IncorrectPosition -> CorrectPosition`
    /// transitions take the new value.
    pub fn set_state(&mut self, c: char, s: CellState)
        requires
            old(self).wf(),
            is_upper_letter(c),
        ensures
            final(self).wf(),
            final(self)@ == old(self)@.update(
                letter_index(c),
                upgrade_spec(old(self).state_of(c), s),
            ),
    {
        let i = Self::index(c) as usize;
        let current = self.letter_arr[i];

        match (current, s) {
            (CellState::Empty, _) => {
                self.letter_arr[i] = s;
            }
            (CellState::IncorrectPosition, CellState::CorrectPosition) => {
                self.letter_arr[i] = s;
            }
            _ => {
                proof {
                    assert(self.letter_arr@ =~= old(self)@.update(
                        letter_index(c),
                        upgrade_spec(old(self).state_of(c), s),
                    ));
                }
            }
        }
    }

    /// The stored state for an uppercase letter.
    pub fn state_for(&self, c: char) -> (r: &CellState)
        requires
            self.wf(),
            is_upper_letter(c),
        ensures
            *r == self.state_of(c),
    {
        &self.letter_arr[Self::index(c) as usize]
    }
}

/// One scored letter of the grid: the letter text and its feedback.
pub struct Cell {
    pub letter: String,
    pub state: CellState,
}

/// One guess row: exactly five cells.
pub struct Row {
    pub cells: Vec<Cell>,
}

/// Renders the grid to text forms; holds no state of its own.
#[derive(Default)]
pub struct Grid {
}

/// The fixed-height grid of guess rows.
pub struct GameState {
    pub rows: Vec<Row>,
}

/// The on-screen keyboard: its layout and the best-known state per letter.
pub struct Keyboard {
    pub rows: ([char; 10], [char; 9], [char; 7]),
    pub letter_state: LetterState,
}

/// The root aggregate: hidden word, grid, keyboard hints.
pub struct Game {
    pub word: String,
    pub grid: Grid,
    pub keyboard: Keyboard,
    pub game_state: GameState,
}

/// Anything the I/O layer can draw.
pub trait Draw {
    fn render(&self);
}

/// What one cell holds, as plain values.
pub open spec fn cell_view(c: Cell) -> (Seq<char>, CellState) {
    (c.letter@, c.state)
}

/// What one row holds, cell by cell.
pub open spec fn row_view(r: Row) -> Seq<(Seq<char>, CellState)> {
    r.cells@.map_values(|c: Cell| cell_view(c))
}

/// What the whole grid holds, row by row.
pub open spec fn gs_view(g: GameState) -> Seq<Seq<(Seq<char>, CellState)>> {
    g.rows@.map_values(|r: Row| row_view(r))
}

pub open spec fn row_wf(r: Row) -> bool {
    r.cells@.len() == 5
}

pub open spec fn gs_wf(g: GameState) -> bool {
    &&& g.rows@.len() == 6
    &&& forall|i: int| 0 <= i < 6 ==> row_wf(#[trigger] g.rows@[i])
}

/// The view of a freshly created grid: six rows of five blank cells.
pub open spec fn empty_rows_view() -> Seq<Seq<(Seq<char>, CellState)>> {
    Seq::new(6, |i: int| Seq::new(5, |j: int| (Seq::<char>::empty(), CellState::Empty)))
}

/// All five entries of a row carry `CorrectPosition`.
pub open spec fn row_all_correct(row: Seq<(Seq<char>, CellState)>) -> bool {
    forall|k: int| 0 <= k < row.len() ==> (#[trigger] row[k]).1 == CellState::CorrectPosition
}

impl Row {
    pub fn new() -> (r: Row)
        ensures
            row_wf(r),
            row_view(r) == Seq::new(5, |j: int| (Seq::<char>::empty(), CellState::Empty)),
    {
        let mut cells: Vec<Cell> = Vec::new();
        let mut i: usize = 0;
        while i < 5
            invariant
                i <= 5,
                cells@.len() == i,
                forall|j: int| 0 <= j < i ==> (#[trigger] cells@[j]).letter@ == Seq::<char>::empty()
                    && cells@[j].state == CellState::Empty,
            decreases 5 - i,
        {
            cells.push(Cell { letter: String::new(), state: CellState::Empty });
            i += 1;
        }
        let r = Row { cells };
        proof {
            assert(row_view(r) =~~= Seq::new(5, |j: int| (Seq::<char>::empty(), CellState::Empty)));
        }
        r
    }
}

impl GameState {
    pub fn new() -> (r: GameState)
        ensures
            gs_wf(r),
            gs_view(r) == empty_rows_view(),
    {
        let mut rows: Vec<Row> = Vec::new();
        let mut i: usize = 0;
        while i < 6
            invariant
                i <= 6,
                rows@.len() == i,
                forall|j: int| 0 <= j < i ==> row_wf(#[trigger] rows@[j])
                    && row_view(rows@[j]) == Seq::new(5, |k: int| (Seq::<char>::empty(), CellState::Empty)),
            decreases 6 - i,
        {
            rows.push(Row::new());
            i += 1;
        }
        let r = GameState { rows };
        proof {
            assert(gs_view(r) =~~= empty_rows_view());
        }
        r
    }
}

impl Keyboard {
    pub fn new() -> (r: Keyboard)
        ensures
            r.letter_state.wf(),
            r.letter_state@ == Seq::new(26, |i: int| CellState::Empty),
            r.rows.0@ == seq!['Q', 'W', 'E', 'R', 'T', 'Y', 'U', 'I', 'O', 'P'],
            r.rows.1@ == seq!['A', 'S', 'D', 'F', 'G', 'H', 'J', 'K', 'L'],
            r.rows.2@ == seq!['Z', 'X', 'C', 'V', 'B', 'N', 'M'],
    {
        let r = Keyboard {
            rows: (
                ['Q', 'W', 'E', 'R', 'T', 'Y', 'U', 'I', 'O', 'P'],
                ['A', 'S', 'D', 'F', 'G', 'H', 'J', 'K', 'L'],
                ['Z', 'X', 'C', 'V', 'B', 'N', 'M'],
            ),
            letter_state: LetterState::new(),
        };
        proof {
            assert(r.rows.0@ =~= seq!['Q', 'W', 'E', 'R', 'T', 'Y', 'U', 'I', 'O', 'P']);
            assert(r.rows.1@ =~= seq!['A', 'S', 'D', 'F', 'G', 'H', 'J', 'K', 'L']);
            assert(r.rows.2@ =~= seq!['Z', 'X', 'C', 'V', 'B', 'N', 'M']);
        }
        r
    }
}

impl Game {
    pub open spec fn wf(&self) -> bool {
        &&& gs_wf(self.game_state)
        &&& self.keyboard.letter_state.wf()
    }

    /// The grid contents, as plain values.
    pub open spec fn rows_view(&self) -> Seq<Seq<(Seq<char>, CellState)>> {
        gs_view(self.game_state)
    }

    pub fn new(word: String) -> (g: Game)
        requires
            word@.len() == 5,
            all_upper(word@),
        ensures
            g.wf(),
            g.word == word,
            g.rows_view() == empty_rows_view(),
            g.keyboard.letter_state@ == Seq::new(26, |i: int| CellState::Empty),
    {
        Game {
            word,
            grid: Grid {  },
            keyboard: Keyboard::new(),
            game_state: GameState::new(),
        }
    }

    /// Write one scored letter into the grid and fold its feedback into the
    /// keyboard hints.
    pub fn update(&mut self, row: usize, col: usize, state: CellState, current: String)
        requires
            old(self).wf(),
            row < 6,
            col < 5,
            current@.len() >= 1,
            is_upper_letter(current@[0]),
        ensures
            final(self).wf(),
            final(self).word == old(self).word,
            final(self).rows_view() == old(self).rows_view().update(
                row as int,
                old(self).rows_view()[row as int].update(col as int, (current@, state)),
            ),
            final(self).keyboard.letter_state@ == old(self).keyboard.letter_state@.update(
                letter_index(current@[0]),
                upgrade_spec(old(self).keyboard.letter_state.state_of(current@[0]), state),
            ),
    {
        let ghost cur_view = current@;
        let c = current.as_str().get_char(0);
        self.keyboard.letter_state.set_state(c, state);
        self.game_state.rows[row].cells[col] = Cell { letter: current, state };
        proof {
            assert(self.rows_view() =~~= old(self).rows_view().update(
                row as int,
                old(self).rows_view()[row as int].update(col as int, (cur_view, state)),
            ));
        }
    }

    /// Every cell of the given row is scored `CorrectPosition`.
    pub fn has_won(&self, index: usize) -> (r: bool)
        requires
            self.wf(),
            index < 6,
        ensures
            r == row_all_correct(self.rows_view()[index as int]),
    {
        let row = &self.game_state.rows[index];
        let mut c: usize = 0;
        while c < 5
            invariant
                self.wf(),
                index < 6,
                row == &self.game_state.rows@[index as int],
                c <= 5,
                forall|k: int| 0 <= k < c
                    ==> (#[trigger] self.rows_view()[index as int][k]).1 == CellState::CorrectPosition,
            decreases 5 - c,
        {
            if row.cells[c].state != CellState::CorrectPosition {
                proof {
                    assert(self.rows_view()[index as int][c as int]
                        == cell_view(self.game_state.rows@[index as int].cells@[c as int]));
                }
                return false;
            }
            c += 1;
        }
        true
    }

    /// Read one cell of the grid.
    pub fn cell(&self, row: usize, col: usize) -> (r: &Cell)
        requires
            self.wf(),
            row < 6,
            col < 5,
        ensures
            r.letter@ == self.rows_view()[row as int][col as int].0,
            r.state == self.rows_view()[row as int][col as int].1,
    {
        &self.game_state.rows[row].cells[col]
    }

    /// Borrow the grid state, for rendering.
    pub fn state_ref(&self) -> (r: &GameState)
        requires
            self.wf(),
        ensures
            gs_wf(*r),
            gs_view(*r) == self.rows_view(),
    {
        &self.game_state
    }
}

/// Relies on String::push: appends the given character to the end of the string.
pub assume_specification[ String::push ](s: &mut String, ch: char)
    ensures
        final(s)@ == old(s)@.push(ch),
;

/// A one-character string.
pub fn char_to_string(c: char) -> (r: String)
    ensures
        r@ == seq![c],
{
    let mut s = String::new();
    s.push(c);
    proof {
        assert(Seq::<char>::empty().push(c) =~= seq![c]);
    }
    s
}

/// The characters of a string, as a vector.
pub fn to_char_vec(s: &String) -> (r: Vec<char>)
    ensures
        r@ == s@,
{
    let n = s.as_str().unicode_len();
    let mut v: Vec<char> = Vec::new();
    let mut i: usize = 0;
    while i < n
        invariant
            i <= n,
            n == s@.len(),
            v@.len() == i,
            forall|k: int| 0 <= k < i ==> v@[k] == s@[k],
        decreases n - i,
    {
        v.push(s.as_str().get_char(i));
        i += 1;
    }
    proof {
        assert(v@ =~= s@);
    }
    v
}

/// Relies on rand::Rng::random_range over `0..bound`: the sampled value is
/// uniform in the range, so in particular below `bound`; the call panics only
/// on an empty range, which the precondition rules out.
#[verifier::external_body]
fn random_below(bound: usize) -> (r: usize)
    requires
        bound > 0,
    ensures
        r < bound,
{
    let mut rng = rand::rng();
    rng.random_range(0..bound)
}

/// The word list a guess is validated against.
pub struct Dictionary {
    words: Vec<String>,
}

impl Dictionary {
    /// The words, as character sequences.
    pub closed spec fn view(&self) -> Seq<Seq<char>> {
        self.words@.map_values(|w: String| w@)
    }

    pub open spec fn contains_word(&self, w: Seq<char>) -> bool {
        self@.contains(w)
    }

    pub closed spec fn word_count(&self) -> nat {
        self.words@.len()
    }

    pub fn new(words: Vec<String>) -> (d: Dictionary)
        ensures
            d@ == words@.map_values(|w: String| w@),
            d.word_count() == words@.len(),
    {
        Dictionary { words }
    }

    /// Accept exactly the guesses that appear in the word list; the error
    /// carries the rejected guess.
    pub fn validate(&self, input_string: &String) -> (r: Result<(), String>)
        ensures
            r is Ok <==> self.contains_word(input_string@),
            r matches Err(m) ==> m@ == input_string@ + " not in word list"@,
    {
        let mut i: usize = 0;
        while i < self.words.len()
            invariant
                i <= self.words@.len(),
                forall|k: int| 0 <= k < i ==> self@[k] != input_string@,
            decreases self.words@.len() - i,
        {
            if self.words[i].eq(input_string) {
                proof {
                    assert(self@[i as int] == input_string@);
                }
                return Ok(());
            }
            i += 1;
        }
        proof {
            assert(!self.contains_word(input_string@));
        }
        Err(input_string.clone().concat(" not in word list"))
    }

    /// Membership test for an already-normalized guess.
    pub fn contains_chars(&self, g: &Vec<char>) -> (r: bool)
        ensures
            r == self.contains_word(g@),
    {
        let mut i: usize = 0;
        while i < self.words.len()
            invariant
                i <= self.words@.len(),
                forall|k: int| 0 <= k < i ==> self@[k] != g@,
            decreases self.words@.len() - i,
        {
            if eq_chars(&self.words[i], g) {
                proof {
                    assert(self@[i as int] == g@);
                }
                return true;
            }
            i += 1;
        }
        proof {
            assert(!self.contains_word(g@));
        }
        false
    }

    /// Some word of the list, chosen at random.
    pub fn random_word(&self) -> (r: String)
        requires
            self.word_count() > 0,
        ensures
            self.contains_word(r@),
    {
        let index = random_below(self.words.len());
        let w = self.words[index].clone();
        proof {
            assert(self@[index as int] == w@);
        }
        w
    }
}

/// Character-by-character equality of a string and a vector of characters.
fn eq_chars(w: &String, g: &Vec<char>) -> (r: bool)
    ensures
        r == (w@ == g@),
{
    let n = w.as_str().unicode_len();
    if n != g.len() {
        return false;
    }
    let mut i: usize = 0;
    while i < n
        invariant
            i <= n,
            n == w@.len(),
            n == g@.len(),
            forall|k: int| 0 <= k < i ==> w@[k] == g@[k],
        decreases n - i,
    {
        if w.as_str().get_char(i) != g[i] {
            return false;
        }
        i += 1;
    }
    proof {
        assert(w@ =~= g@);
    }
    true
}

/// The share glyph for one feedback state.
pub open spec fn emoji_spec(s: CellState) -> Seq<char> {
    match s {
        CellState::CorrectPosition => "🟩"@,
        CellState::IncorrectPosition => "🟨"@,
        CellState::Invalid => "⬜"@,
        CellState::Empty => "⬛️"@,
    }
}

/// One row of the share summary: the glyphs of its first `n` cells.
pub open spec fn share_row_spec(row: Seq<(Seq<char>, CellState)>, n: int) -> Seq<char>
    decreases n,
{
    if n <= 0 {
        Seq::empty()
    } else {
        share_row_spec(row, n - 1) + emoji_spec(row[n - 1].1)
    }
}

/// The share summary of the first `n` rows: glyphs per row, rows separated
/// by newlines.
pub open spec fn share_spec(rows: Seq<Seq<(Seq<char>, CellState)>>, n: int) -> Seq<char>
    decreases n,
{
    if n <= 0 {
        Seq::empty()
    } else {
        share_spec(rows, n - 1) + share_row_spec(rows[n - 1], 5) + "\n"@
    }
}

impl Grid {
    /// The glyph-grid text of a finished game: one glyph per cell, five per
    /// row, rows newline-separated.
    pub fn share(&self, game_state: &GameState) -> (r: String)
        requires
            gs_wf(*game_state),
        ensures
            r@ == share_spec(gs_view(*game_state), 6),
    {
        let mut result = String::new();
        let mut i: usize = 0;
        while i < 6
            invariant
                gs_wf(*game_state),
                i <= 6,
                result@ == share_spec(gs_view(*game_state), i as int),
            decreases 6 - i,
        {
            let mut j: usize = 0;
            while j < 5
                invariant
                    gs_wf(*game_state),
                    i < 6,
                    j <= 5,
                    result@ == share_spec(gs_view(*game_state), i as int)
                        + share_row_spec(gs_view(*game_state)[i as int], j as int),
                decreases 5 - j,
            {
                let e = Grid::emoji_for(&game_state.rows[i].cells[j].state);
                result.append(e.as_str());
                proof {
                    assert(gs_view(*game_state)[i as int][j as int]
                        == cell_view(game_state.rows@[i as int].cells@[j as int]));
                    assert(result@ =~= share_spec(gs_view(*game_state), i as int)
                        + share_row_spec(gs_view(*game_state)[i as int], j as int + 1));
                }
                j += 1;
            }
            result.append("\n");
            proof {
                assert(result@ =~= share_spec(gs_view(*game_state), i as int + 1));
            }
            i += 1;
        }
        result
    }

    pub fn emoji_for(state: &CellState) -> (r: String)
        ensures
            r@ == emoji_spec(*state),
    {
        match state {
            CellState::CorrectPosition => String::from_str("🟩"),
            CellState::IncorrectPosition => String::from_str("🟨"),
            CellState::Invalid => String::from_str("⬜"),
            CellState::Empty => String::from_str("⬛️"),
        }
    }
}

/// A letter styled for the terminal, by its feedback state.
pub open spec fn styled_spec(color: Seq<char>, letter: Seq<char>) -> Seq<char> {
    color + " "@ + letter + " "@ + "\x1b[0m"@
}

/// The terminal text for a letter in a given state: colored when scored,
/// `empty` when not.
pub open spec fn format_spec(letter: Seq<char>, state: CellState, empty: Seq<char>) -> Seq<char> {
    match state {
        CellState::CorrectPosition => styled_spec("\x1b[42;90m"@, letter),
        CellState::IncorrectPosition => styled_spec("\x1b[43;90m"@, letter),
        CellState::Invalid => styled_spec("\x1b[90m"@, letter),
        CellState::Empty => empty,
    }
}

fn styled(color: &str, letter: &str) -> (r: String)
    ensures
        r@ == styled_spec(color@, letter@),
{
    let mut s = String::from_str(color);
    s.append(" ");
    s.append(letter);
    s.append(" ");
    s.append("\x1b[0m");
    proof {
        assert(s@ =~= styled_spec(color@, letter@));
    }
    s
}

pub fn format_char_with_state(letter: &str, state: &CellState, empty_display: &str) -> (r: String)
    ensures
        r@ == format_spec(letter@, *state, empty_display@),
{
    match state {
        CellState::CorrectPosition => styled("\x1b[42;90m", letter),
        CellState::IncorrectPosition => styled("\x1b[43;90m", letter),
        CellState::Invalid => styled("\x1b[90m", letter),
        CellState::Empty => empty_display.to_owned(),
    }
}

/// A keyboard key's terminal text: the letter, colored by its hint state.
pub fn keyboard_char(letter: char, state: &CellState) -> (r: String)
    ensures
        r@ == format_spec(seq![letter], *state, " "@ + seq![letter] + " "@),
{
    let ls = char_to_string(letter);
    let mut empty_display = String::from_str(" ");
    empty_display.append(ls.as_str());
    empty_display.append(" ");
    proof {
        assert(empty_display@ =~= " "@ + seq![letter] + " "@);
    }
    format_char_with_state(ls.as_str(), state, empty_display.as_str())
}

/// A grid cell's terminal text: the letter colored by its feedback, or a
/// placeholder for a blank cell.
pub fn grid_char(letter: &str, state: &CellState) -> (r: String)
    ensures
        r@ == format_spec(letter@, *state, " _ "@),
{
    format_char_with_state(letter, state, " _ ")
}

} // verus!
