use vstd::prelude::*;
use crate::grid::CellState;
use crate::grid::is_upper_letter;

verus! {

/// The hidden word after the exact-match pass: every position where the
/// guess matches exactly is consumed, overwritten with the sentinel.
pub open spec fn mask_exact(h: Seq<char>, g: Seq<char>) -> Seq<char> {
    Seq::new(h.len(), |i: int| if h[i] == g[i] { '_' } else { h[i] })
}

/// Index of the first occurrence of `c` in `w` at or after `i`, or -1.
pub open spec fn find_from(w: Seq<char>, c: char, i: int) -> int
    decreases w.len() - i,
{
    if i < 0 || i >= w.len() {
        -1
    } else if w[i] == c {
        i
    } else {
        find_from(w, c, i + 1)
    }
}

/// The loose-match pass from position `i` on: an exactly matched position
/// scores `CorrectPosition`; otherwise the first remaining occurrence of the
/// guessed letter in the working word `w` is consumed for a
/// `IncorrectPosition`; with none left the letter is `Invalid`.
pub open spec fn score_rec(h: Seq<char>, g: Seq<char>, w: Seq<char>, i: int) -> Seq<CellState>
    decreases g.len() - i,
{
    if i < 0 || i >= g.len() {
        Seq::empty()
    } else if g[i] == h[i] {
        seq![CellState::CorrectPosition] + score_rec(h, g, w, i + 1)
    } else {
        let j = find_from(w, g[i], 0);
        if j >= 0 {
            seq![CellState::IncorrectPosition] + score_rec(h, g, w.update(j, '_'), i + 1)
        } else {
            seq![CellState::Invalid] + score_rec(h, g, w, i + 1)
        }
    }
}

/// The feedback for a guess against a hidden word: exact matches are
/// consumed first, then remaining letters claim leftover occurrences left to
/// right.
pub open spec fn score_spec(h: Seq<char>, g: Seq<char>) -> Seq<CellState> {
    score_rec(h, g, mask_exact(h, g), 0)
}

/// First index of `c` in the working word, scanning left to right.
fn find_working(w: &Vec<char>, c: char) -> (r: Option<usize>)
    ensures
        match r {
            Some(j) => j < w@.len() && find_from(w@, c, 0) == j as int,
            None => find_from(w@, c, 0) == -1,
        },
{
    let mut i: usize = 0;
    while i < w.len()
        invariant
            i <= w@.len(),
            find_from(w@, c, 0) == find_from(w@, c, i as int),
        decreases w@.len() - i,
    {
        if w[i] == c {
            return Some(i);
        }
        i += 1;
    }
    None
}

/// Score a guess against the hidden word, two passes, duplicate-safe.
pub fn score(hidden: &Vec<char>, guess: &Vec<char>) -> (r: Vec<CellState>)
    requires
        hidden@.len() == 5,
        guess@.len() == 5,
    ensures
        r@ == score_spec(hidden@, guess@),
        r@.len() == 5,
{
    let ghost h = hidden@;
    let ghost g = guess@;

    let mut working: Vec<char> = Vec::new();
    let mut i: usize = 0;
    while i < 5
        invariant
            i <= 5,
            hidden@.len() == 5,
            guess@.len() == 5,
            working@.len() == i,
            forall|k: int| 0 <= k < i ==> working@[k] == mask_exact(hidden@, guess@)[k],
        decreases 5 - i,
    {
        if guess[i] == hidden[i] {
            working.push('_');
        } else {
            working.push(hidden[i]);
        }
        i += 1;
    }
    proof {
        assert(working@ =~= mask_exact(h, g));
    }

    let mut result: Vec<CellState> = Vec::new();
    let mut i: usize = 0;
    while i < 5
        invariant
            i <= 5,
            h == hidden@,
            g == guess@,
            hidden@.len() == 5,
            guess@.len() == 5,
            result@.len() == i,
            working@.len() == 5,
            score_spec(h, g) == result@ + score_rec(h, g, working@, i as int),
        decreases 5 - i,
    {
        let ghost w_old = working@;
        let ghost res_old = result@;
        if guess[i] == hidden[i] {
            result.push(CellState::CorrectPosition);
            proof {
                assert(res_old + score_rec(h, g, w_old, i as int)
                    =~= result@ + score_rec(h, g, w_old, i as int + 1));
            }
        } else {
            match find_working(&working, guess[i]) {
                Some(j) => {
                    working[j] = '_';
                    result.push(CellState::IncorrectPosition);
                    proof {
                        assert(res_old + score_rec(h, g, w_old, i as int)
                            =~= result@ + score_rec(h, g, working@, i as int + 1));
                    }
                }
                None => {
                    result.push(CellState::Invalid);
                    proof {
                        assert(res_old + score_rec(h, g, w_old, i as int)
                            =~= result@ + score_rec(h, g, w_old, i as int + 1));
                    }
                }
            }
        }
        i += 1;
    }
    proof {
        assert(result@ + score_rec(h, g, working@, 5) =~= result@);
    }
    result
}

proof fn lemma_score_rec_len(h: Seq<char>, g: Seq<char>, w: Seq<char>, i: int)
    requires
        0 <= i <= g.len(),
    ensures
        score_rec(h, g, w, i).len() == g.len() - i,
    decreases g.len() - i,
{
    if i < g.len() {
        if g[i] == h[i] {
            lemma_score_rec_len(h, g, w, i + 1);
        } else {
            let j = find_from(w, g[i], 0);
            if j >= 0 {
                lemma_score_rec_len(h, g, w.update(j, '_'), i + 1);
            } else {
                lemma_score_rec_len(h, g, w, i + 1);
            }
        }
    }
}

/// The scorer yields exactly one feedback value per guess position; being a
/// function of the two words alone, it is deterministic.
pub proof fn lemma_score_len(h: Seq<char>, g: Seq<char>)
    requires
        h.len() == g.len(),
    ensures
        score_spec(h, g).len() == g.len(),
{
    lemma_score_rec_len(h, g, mask_exact(h, g), 0);
}

proof fn lemma_score_rec_correct_iff(h: Seq<char>, g: Seq<char>, w: Seq<char>, i: int, k: int)
    requires
        h.len() == g.len(),
        0 <= i <= k < g.len(),
    ensures
        score_rec(h, g, w, i)[k - i] == CellState::CorrectPosition <==> g[k] == h[k],
    decreases k - i,
{
    lemma_score_rec_len(h, g, w, i);
    if g[i] == h[i] {
        if k > i {
            lemma_score_rec_correct_iff(h, g, w, i + 1, k);
        }
    } else {
        let j = find_from(w, g[i], 0);
        if j >= 0 {
            if k > i {
                lemma_score_rec_correct_iff(h, g, w.update(j, '_'), i + 1, k);
            }
        } else {
            if k > i {
                lemma_score_rec_correct_iff(h, g, w, i + 1, k);
            }
        }
    }
}

/// Exact-match priority: a position where guess and hidden word agree always
/// scores `CorrectPosition` — and only such a position does.
pub proof fn lemma_exact_match_priority(h: Seq<char>, g: Seq<char>, i: int)
    requires
        h.len() == g.len(),
        0 <= i < g.len(),
    ensures
        score_spec(h, g)[i] == CellState::CorrectPosition <==> g[i] == h[i],
{
    lemma_score_rec_correct_iff(h, g, mask_exact(h, g), 0, i);
}

/// Occurrences of `c` in `s`, at positions `i` and later.
pub open spec fn count_occ_from(s: Seq<char>, c: char, i: int) -> nat
    decreases s.len() - i,
{
    if i < 0 || i >= s.len() {
        0
    } else {
        (if s[i] == c { 1nat } else { 0nat }) + count_occ_from(s, c, i + 1)
    }
}

/// Occurrences of `c` in `s`.
pub open spec fn count_occ(s: Seq<char>, c: char) -> nat {
    count_occ_from(s, c, 0)
}

/// The feedback credits the letter: exact or loose match.
pub open spec fn is_mark(s: CellState) -> bool {
    s == CellState::CorrectPosition || s == CellState::IncorrectPosition
}

/// Marks credited to letter `c` in the feedback `r` for the guess positions
/// `i` and later, where `r[k - i]` is the feedback for position `k`.
pub open spec fn count_marks_off(g: Seq<char>, r: Seq<CellState>, c: char, i: int) -> nat
    decreases g.len() - i,
{
    if i < 0 || i >= g.len() {
        0
    } else {
        (if g[i] == c && r.len() > 0 && is_mark(r[0]) { 1nat } else { 0nat })
            + count_marks_off(g, r.drop_first(), c, i + 1)
    }
}

/// Marks credited to letter `c` in the feedback `r` of guess `g`.
pub open spec fn count_marks(g: Seq<char>, r: Seq<CellState>, c: char) -> nat {
    count_marks_off(g, r, c, 0)
}

/// Exactly matched positions of letter `c`, at `i` and later.
pub open spec fn count_exact_from(h: Seq<char>, g: Seq<char>, c: char, i: int) -> nat
    decreases g.len() - i,
{
    if i < 0 || i >= g.len() {
        0
    } else {
        (if g[i] == h[i] && g[i] == c { 1nat } else { 0nat }) + count_exact_from(h, g, c, i + 1)
    }
}

proof fn lemma_count_occ_update(s: Seq<char>, c: char, j: int, x: char, i: int)
    requires
        0 <= j < s.len(),
        0 <= i <= s.len(),
    ensures
        count_occ_from(s.update(j, x), c, i) == if i <= j {
            count_occ_from(s, c, i) - (if s[j] == c { 1int } else { 0int })
                + (if x == c { 1int } else { 0int })
        } else {
            count_occ_from(s, c, i) as int
        },
    decreases s.len() - i,
{
    if i < s.len() {
        lemma_count_occ_update(s, c, j, x, i + 1);
    }
}

proof fn lemma_count_occ_at_least_one(s: Seq<char>, c: char, j: int, i: int)
    requires
        0 <= i <= j < s.len(),
        s[j] == c,
    ensures
        count_occ_from(s, c, i) >= 1,
    decreases s.len() - i,
{
    if i < j {
        lemma_count_occ_at_least_one(s, c, j, i + 1);
    }
}

proof fn lemma_find_from_props(w: Seq<char>, c: char, i: int)
    requires
        0 <= i,
    ensures
        find_from(w, c, i) == -1 || (i <= find_from(w, c, i) < w.len()
            && w[find_from(w, c, i)] == c),
    decreases w.len() - i,
{
    if i < w.len() && w[i] != c {
        lemma_find_from_props(w, c, i + 1);
    }
}

proof fn lemma_marks_bound(h: Seq<char>, g: Seq<char>, w: Seq<char>, c: char, i: int)
    requires
        h.len() == g.len(),
        0 <= i <= g.len(),
        is_upper_letter(c),
    ensures
        count_marks_off(g, score_rec(h, g, w, i), c, i)
            <= count_occ(w, c) + count_exact_from(h, g, c, i),
    decreases g.len() - i,
{
    if i < g.len() {
        let r = score_rec(h, g, w, i);
        lemma_score_rec_len(h, g, w, i);
        if g[i] == h[i] {
            let tail = score_rec(h, g, w, i + 1);
            assert(r.drop_first() =~= tail);
            lemma_marks_bound(h, g, w, c, i + 1);
        } else {
            let j = find_from(w, g[i], 0);
            lemma_find_from_props(w, g[i], 0);
            if j >= 0 {
                let w2 = w.update(j, '_');
                let tail = score_rec(h, g, w2, i + 1);
                assert(r.drop_first() =~= tail);
                lemma_marks_bound(h, g, w2, c, i + 1);
                lemma_count_occ_update(w, c, j, '_', 0);
                if g[i] == c {
                    lemma_count_occ_at_least_one(w, c, j, 0);
                }
            } else {
                let tail = score_rec(h, g, w, i + 1);
                assert(r.drop_first() =~= tail);
                lemma_marks_bound(h, g, w, c, i + 1);
            }
        }
    }
}

proof fn lemma_mask_exact_occ(h: Seq<char>, g: Seq<char>, c: char, i: int)
    requires
        h.len() == g.len(),
        is_upper_letter(c),
        0 <= i <= h.len(),
    ensures
        count_occ_from(mask_exact(h, g), c, i) + count_exact_from(h, g, c, i)
            == count_occ_from(h, c, i),
    decreases h.len() - i,
{
    if i < h.len() {
        lemma_mask_exact_occ(h, g, c, i + 1);
    }
}

/// Count invariant: the marks credited to any letter never exceed its
/// occurrences in the hidden word — a repeated letter in the guess cannot be
/// credited twice for one hidden occurrence.
pub proof fn lemma_count_invariant(h: Seq<char>, g: Seq<char>, c: char)
    requires
        h.len() == g.len(),
        is_upper_letter(c),
    ensures
        count_marks(g, score_spec(h, g), c) <= count_occ(h, c),
{
    lemma_marks_bound(h, g, mask_exact(h, g), c, 0);
    lemma_mask_exact_occ(h, g, c, 0);
}

/// All entries of a feedback sequence are `CorrectPosition`.
pub open spec fn all_correct(r: Seq<CellState>) -> bool {
    forall|k: int| 0 <= k < r.len() ==> r[k] == CellState::CorrectPosition
}

/// A row is a win exactly when the guess equals the hidden word.
pub proof fn lemma_win_iff_equal(h: Seq<char>, g: Seq<char>)
    requires
        h.len() == g.len(),
    ensures
        all_correct(score_spec(h, g)) <==> g == h,
{
    lemma_score_len(h, g);
    if all_correct(score_spec(h, g)) {
        assert forall|k: int| 0 <= k < g.len() implies g[k] == h[k] by {
            lemma_exact_match_priority(h, g, k);
        }
        assert(g =~= h);
    }
    if g == h {
        assert forall|k: int| 0 <= k < score_spec(h, g).len()
            implies score_spec(h, g)[k] == CellState::CorrectPosition by {
            lemma_exact_match_priority(h, g, k);
        }
    }
}

} // verus!
