use vstd::prelude::*;

use crate::tile::{scored, Tile};

verus! {

/// Number of rows (guesses) and of columns (letters per guess).
pub const SIZE: usize = 5;

/// ASCII upper case: `a` to `z` map to `A` to `Z`, every other character is kept.
pub open spec fn ascii_upper(c: char) -> char {
    if 'a' <= c <= 'z' {
        ((c as int) - 32) as char
    } else {
        c
    }
}

/// Mathematical model of a game: the grid of tiles by rows, the answer, the
/// cursor and whether the game has ended.
pub ghost struct Board {
    pub cells: Seq<Seq<Tile>>,
    pub answer: Seq<char>,
    pub row: int,
    pub col: int,
    pub done: bool,
}

/// A row of blank tiles.
pub open spec fn blank_row() -> Seq<Tile> {
    Seq::new(SIZE as nat, |c: int| Tile::Blank)
}

impl Board {
    /// A fresh game on `answer`: all tiles blank, the cursor at the first
    /// column of the first row, not finished.
    pub open spec fn fresh(answer: Seq<char>) -> Board {
        Board {
            cells: Seq::new(SIZE as nat, |r: int| blank_row()),
            answer: answer.map_values(|c: char| ascii_upper(c)),
            row: 0,
            col: 0,
            done: false,
        }
    }

    /// The tile at row `r`, column `c`.
    pub open spec fn at(self, r: int, c: int) -> Tile {
        self.cells[r][c]
    }

    /// Well-formedness: a 5 by 5 grid and a 5-letter upper-case answer; the
    /// cursor inside the grid; rows above the active one scored or blank, rows
    /// below it blank; while playing, the active row holds typed letters before
    /// the cursor and blanks from it on (the last tile may hold a letter once
    /// the cursor stands on it); once finished, the active row is scored and
    /// either the last row or a winning one.
    pub open spec fn wf(self) -> bool {
        &&& self.cells.len() == SIZE
        &&& forall|r: int| 0 <= r < SIZE ==> #[trigger] self.cells[r].len() == SIZE
        &&& self.answer.len() == SIZE
        &&& forall|i: int| 0 <= i < SIZE ==> ascii_upper(#[trigger] self.answer[i]) == self.answer[i]
        &&& 0 <= self.row < SIZE
        &&& 0 <= self.col < SIZE
        &&& forall|r: int, c: int|
            0 <= r < self.row && 0 <= c < SIZE ==> !(#[trigger] self.at(r, c) is Unconfirmed)
        &&& forall|r: int, c: int|
            self.row < r < SIZE && 0 <= c < SIZE ==> #[trigger] self.at(r, c) is Blank
        &&& if self.done {
            &&& forall|c: int| 0 <= c < SIZE ==> !(#[trigger] self.at(self.row, c) is Unconfirmed)
            &&& (self.row == SIZE - 1 || self.won())
        } else {
            forall|c: int|
                0 <= c < SIZE ==> {
                    &&& c < self.col ==> #[trigger] self.at(self.row, c) is Unconfirmed
                    &&& self.col <= c && !(c == self.col == SIZE - 1) ==> self.at(self.row, c) is Blank
                    &&& (self.at(self.row, c) is Unconfirmed || self.at(self.row, c) is Blank)
                }
        }
    }

    /// The active row is all correct.
    pub open spec fn won(self) -> bool {
        forall|c: int| 0 <= c < SIZE ==> #[trigger] self.at(self.row, c) is Correct
    }

    /// The game has ended without a win.
    pub open spec fn lost(self) -> bool {
        self.done && !self.won()
    }

    /// The board with tile `c` of the active row replaced by `t`.
    pub open spec fn put(self, c: int, t: Tile) -> Board {
        Board {
            cells: self.cells.update(self.row, self.cells[self.row].update(c, t)),
            answer: self.answer,
            row: self.row,
            col: self.col,
            done: self.done,
        }
    }

    /// The board after typing `letter`: once finished, unchanged; otherwise the
    /// upper-case letter lands under the cursor, which moves one column right
    /// but never past the last column.
    pub open spec fn with_letter(self, letter: char) -> Board {
        if self.done {
            self
        } else {
            let b = self.put(self.col, Tile::Unconfirmed(ascii_upper(letter)));
            Board {
                col: if self.col < SIZE - 1 { self.col + 1 } else { self.col },
                ..b
            }
        }
    }

    /// The board after a backspace: once finished, unchanged; otherwise the tile
    /// under the cursor is cleared and, unless the cursor is in the first
    /// column, the cursor moves one column left and that tile is cleared too.
    pub open spec fn without_letter(self) -> Board {
        if self.done {
            self
        } else {
            let b = self.put(self.col, Tile::Blank);
            if self.col > 0 {
                Board { col: self.col - 1, ..b.put(self.col - 1, Tile::Blank) }
            } else {
                b
            }
        }
    }

    /// A row can be submitted: the game goes on, the cursor has reached the
    /// last column and the last tile holds a typed letter (so that, on a well
    /// formed board, every tile of the row holds one).
    pub open spec fn accepts_submit(self) -> bool {
        &&& !self.done
        &&& self.col == SIZE - 1
        &&& self.at(self.row, SIZE - 1) is Unconfirmed
    }

    /// The active row once each tile is scored against the answer.
    pub open spec fn scored_row(self) -> Seq<Tile> {
        Seq::new(SIZE as nat, |c: int| scored(self.at(self.row, c), self.answer, self.answer[c]))
    }

    /// The board after an accepted submission: the active row is scored; the
    /// game ends if that row is all correct or the last one, and otherwise the
    /// cursor moves to the first column of the next row.
    pub open spec fn after_submit(self) -> Board {
        let b = Board { cells: self.cells.update(self.row, self.scored_row()), ..self };
        if b.won() || self.row == SIZE - 1 {
            Board { done: true, ..b }
        } else {
            Board { row: self.row + 1, col: 0, ..b }
        }
    }
}

/// Number of tiles of a row that hold a letter.
pub open spec fn count_letters(line: Seq<Tile>) -> nat
    decreases line.len(),
{
    if line.len() == 0 {
        0
    } else {
        count_letters(line.drop_last()) + if line.last() is Blank {
            0nat
        } else {
            1nat
        }
    }
}

/// The board after typing each letter of `letters` in turn.
pub open spec fn typed(b: Board, letters: Seq<char>) -> Board
    decreases letters.len(),
{
    if letters.len() == 0 {
        b
    } else {
        typed(b.with_letter(letters[0]), letters.drop_first())
    }
}

/// A row whose first `k` tiles hold letters holds at least `k` letters.
proof fn lemma_count_at_least(line: Seq<Tile>, k: int)
    requires
        0 <= k <= line.len(),
        forall|c: int| 0 <= c < k ==> !(#[trigger] line[c] is Blank),
    ensures
        count_letters(line) >= k,
    decreases line.len(),
{
    if line.len() > 0 {
        let rest = line.drop_last();
        if k == line.len() {
            assert(!(line[k - 1] is Blank));
            lemma_count_at_least(rest, k - 1);
        } else {
            lemma_count_at_least(rest, k);
        }
    }
}

/// Typing a letter and then taking it back with a backspace gives back the
/// same board, cursor and tiles, whenever the cursor had not yet reached the
/// last column (or the game had ended, when both do nothing).
pub proof fn lemma_input_then_delete(b: Board, letter: char)
    requires
        b.wf(),
        b.done || b.col < SIZE - 1,
    ensures
        b.with_letter(letter).without_letter() == b,
{
    if !b.done {
        let n = b.with_letter(letter).without_letter();
        assert forall|r: int| 0 <= r < SIZE implies #[trigger] n.cells[r] =~= b.cells[r] by {
            if r == b.row {
                assert forall|c: int| 0 <= c < SIZE implies #[trigger] n.cells[r][c] == b.cells[r][c] by {
                    assert(b.at(b.row, c) == b.cells[r][c]);
                }
            }
        }
        assert(n.cells =~= b.cells);
    }
}

/// A row is refused while fewer than five of its tiles hold letters.
pub proof fn lemma_incomplete_row_refused(b: Board)
    requires
        b.wf(),
        count_letters(b.cells[b.row]) < SIZE,
    ensures
        !b.accepts_submit(),
{
    if b.accepts_submit() {
        assert forall|c: int| 0 <= c < SIZE implies !(#[trigger] b.cells[b.row][c] is Blank) by {
            assert(b.at(b.row, c) is Unconfirmed);
        }
        lemma_count_at_least(b.cells[b.row], SIZE as int);
    }
}

/// Once the cursor stands on the last column, any further letters leave it
/// there, on the same row, and change neither the earlier tiles of the row nor
/// any other row.
pub proof fn lemma_cursor_clamp(b: Board, letters: Seq<char>)
    requires
        b.wf(),
        b.col == SIZE - 1,
    ensures
        typed(b, letters).row == b.row,
        typed(b, letters).col == SIZE - 1,
        typed(b, letters).cells.len() == SIZE,
        forall|c: int| 0 <= c < SIZE - 1 ==> #[trigger] typed(b, letters).at(b.row, c) == b.at(b.row, c),
        forall|r: int| 0 <= r < SIZE && r != b.row ==> #[trigger] typed(b, letters).cells[r] == b.cells[r],
    decreases letters.len(),
{
    if letters.len() > 0 {
        let n = b.with_letter(letters[0]);
        lemma_with_letter_wf(b, letters[0]);
        lemma_cursor_clamp(n, letters.drop_first());
        if !b.done {
            assert forall|c: int| 0 <= c < SIZE - 1 implies #[trigger] n.at(b.row, c) == b.at(b.row, c) by {}
        }
    }
}

/// Typing a letter keeps a board well formed.
pub proof fn lemma_with_letter_wf(b: Board, letter: char)
    requires
        b.wf(),
    ensures
        b.with_letter(letter).wf(),
{
    let n = b.with_letter(letter);
    if !b.done {
        assert forall|r: int| 0 <= r < SIZE implies #[trigger] n.cells[r].len() == SIZE by {
            assert(b.cells[r].len() == SIZE);
        }
        assert forall|r: int, c: int|
            0 <= r < n.row && 0 <= c < SIZE implies !(#[trigger] n.at(r, c) is Unconfirmed) by {
            assert(b.at(r, c) == n.at(r, c));
        }
        assert forall|r: int, c: int|
            n.row < r < SIZE && 0 <= c < SIZE implies #[trigger] n.at(r, c) is Blank by {
            assert(b.at(r, c) == n.at(r, c));
        }
        assert forall|c: int| 0 <= c < SIZE implies {
            &&& c < n.col ==> #[trigger] n.at(n.row, c) is Unconfirmed
            &&& n.col <= c && !(c == n.col == SIZE - 1) ==> n.at(n.row, c) is Blank
            &&& (n.at(n.row, c) is Unconfirmed || n.at(n.row, c) is Blank)
        } by {
            assert(b.at(b.row, c) is Unconfirmed || b.at(b.row, c) is Blank);
        }
    }
}

/// A backspace keeps a board well formed.
pub proof fn lemma_without_letter_wf(b: Board)
    requires
        b.wf(),
    ensures
        b.without_letter().wf(),
{
    let n = b.without_letter();
    if !b.done {
        assert forall|r: int| 0 <= r < SIZE implies #[trigger] n.cells[r].len() == SIZE by {
            assert(b.cells[r].len() == SIZE);
        }
        assert forall|r: int, c: int|
            0 <= r < n.row && 0 <= c < SIZE implies !(#[trigger] n.at(r, c) is Unconfirmed) by {
            assert(b.at(r, c) == n.at(r, c));
        }
        assert forall|r: int, c: int|
            n.row < r < SIZE && 0 <= c < SIZE implies #[trigger] n.at(r, c) is Blank by {
            assert(b.at(r, c) == n.at(r, c));
        }
        assert forall|c: int| 0 <= c < SIZE implies {
            &&& c < n.col ==> #[trigger] n.at(n.row, c) is Unconfirmed
            &&& n.col <= c && !(c == n.col == SIZE - 1) ==> n.at(n.row, c) is Blank
            &&& (n.at(n.row, c) is Unconfirmed || n.at(n.row, c) is Blank)
        } by {
            assert(b.at(b.row, c) is Unconfirmed || b.at(b.row, c) is Blank);
        }
    }
}

/// An accepted submission keeps a board well formed.
pub proof fn lemma_after_submit_wf(b: Board)
    requires
        b.wf(),
        b.accepts_submit(),
    ensures
        b.after_submit().wf(),
{
    let n = b.after_submit();
    let line = b.scored_row();
    assert forall|r: int| 0 <= r < SIZE implies #[trigger] n.cells[r].len() == SIZE by {
        assert(b.cells[r].len() == SIZE);
    }
    assert forall|c: int| 0 <= c < SIZE implies !(#[trigger] line[c] is Unconfirmed) by {
        assert(b.at(b.row, c) is Unconfirmed || b.at(b.row, c) is Blank);
    }
    assert forall|r: int, c: int|
        0 <= r < n.row && 0 <= c < SIZE implies !(#[trigger] n.at(r, c) is Unconfirmed) by {
        if r < b.row {
            assert(b.at(r, c) == n.at(r, c));
        } else {
            assert(n.at(r, c) == line[c]);
        }
    }
    assert forall|r: int, c: int|
        n.row < r < SIZE && 0 <= c < SIZE implies #[trigger] n.at(r, c) is Blank by {
        assert(b.at(r, c) == n.at(r, c));
    }
    if !n.done {
        assert forall|c: int| 0 <= c < SIZE implies {
            &&& c < n.col ==> #[trigger] n.at(n.row, c) is Unconfirmed
            &&& n.col <= c && !(c == n.col == SIZE - 1) ==> n.at(n.row, c) is Blank
            &&& (n.at(n.row, c) is Unconfirmed || n.at(n.row, c) is Blank)
        } by {
            assert(b.at(n.row, c) == n.at(n.row, c));
        }
    } else {
        assert forall|c: int| 0 <= c < SIZE implies !(#[trigger] n.at(n.row, c) is Unconfirmed) by {
            assert(n.at(n.row, c) == line[c]);
        }
        let s = Board { cells: b.cells.update(b.row, line), ..b };
        if s.won() {
            assert forall|c: int| 0 <= c < SIZE implies #[trigger] n.at(n.row, c) is Correct by {
                assert(n.at(n.row, c) == s.at(s.row, c));
            }
        }
    }
}

/// A game of the puzzle: the grid of tiles, the answer, the cursor at which the
/// next letter lands, and whether the game has ended.
#[derive(Clone, Copy, Debug)]
pub struct Game {
    tiles: [[Tile; 5]; 5],
    answer: [char; 5],
    row: usize,
    col: usize,
    done: bool,
}

impl View for Game {
    type V = Board;

    closed spec fn view(&self) -> Board {
        Board {
            cells: Seq::new(SIZE as nat, |r: int| self.tiles[r]@),
            answer: self.answer@,
            row: self.row as int,
            col: self.col as int,
            done: self.done,
        }
    }
}

/// ASCII upper case of a character.
pub fn to_upper(c: char) -> (r: char)
    ensures
        r == ascii_upper(c),
{
    if 'a' <= c && c <= 'z' {
        let n: u32 = c as u32;
        let b: u8 = (n - 32) as u8;
        b as char
    } else {
        c
    }
}

/// Whether every tile of a row is correct.
fn all_correct(line: &[Tile; 5]) -> (r: bool)
    ensures
        r == forall|c: int| 0 <= c < SIZE ==> #[trigger] line@[c] is Correct,
{
    let mut i: usize = 0;
    while i < SIZE
        invariant
            0 <= i <= SIZE,
            forall|c: int| 0 <= c < i ==> #[trigger] line@[c] is Correct,
        decreases SIZE - i,
    {
        if !line[i].is_correct() {
            return false;
        }
        i = i + 1;
    }
    true
}

impl Game {
    #[verifier::type_invariant]
    spec fn inv(self) -> bool {
        self@.wf()
    }

    /// A new game on `answer`, which is taken in upper case.
    pub fn new(answer: [char; 5]) -> (g: Game)
        ensures
            g@ == Board::fresh(answer@),
            g@.wf(),
    {
        let mut up: [char; 5] = answer;
        let mut i: usize = 0;
        while i < SIZE
            invariant
                0 <= i <= SIZE,
                forall|j: int| 0 <= j < i ==> up@[j] == ascii_upper(answer@[j]),
                forall|j: int| i <= j < SIZE ==> up@[j] == answer@[j],
            decreases SIZE - i,
        {
            up[i] = to_upper(answer[i]);
            i = i + 1;
        }
        let blank: [Tile; 5] = [Tile::Blank; 5];
        let tiles: [[Tile; 5]; 5] = [blank; 5];
        assert(blank@ =~= blank_row());
        let g = Game { tiles, answer: up, row: 0, col: 0, done: false };
        assert(g@.cells =~= Board::fresh(answer@).cells);
        assert(g@.answer =~= Board::fresh(answer@).answer);
        g
    }

    /// Fill in a letter under the cursor, without submitting it as a guess. Does
    /// nothing once the game has ended.
    pub fn submit_char(&mut self, chr: char)
        ensures
            final(self)@ == old(self)@.with_letter(chr),
            final(self)@.wf(),
    {
        proof {
            use_type_invariant(&*self);
            lemma_with_letter_wf(self@, chr);
        }
        if self.done {
            return;
        }
        let ghost pre = self@;
        let mut tiles = self.tiles;
        let mut line = tiles[self.row];
        let mut t = line[self.col];
        t.input(to_upper(chr));
        line[self.col] = t;
        tiles[self.row] = line;
        let col = if self.col < SIZE - 1 { self.col + 1 } else { self.col };
        assert(Seq::new(SIZE as nat, |r: int| tiles[r]@) =~~= pre.with_letter(chr).cells);
        *self = Game { tiles, answer: self.answer, row: self.row, col, done: false };
    }

    /// Take back the most recently typed letter: clear the tile under the
    /// cursor and, unless the cursor is in the first column, move it one column
    /// left and clear that tile too. Does nothing once the game has ended.
    pub fn delete_char(&mut self)
        ensures
            final(self)@ == old(self)@.without_letter(),
            final(self)@.wf(),
    {
        proof {
            use_type_invariant(&*self);
            lemma_without_letter_wf(self@);
        }
        if self.done {
            return;
        }
        let ghost pre = self@;
        let mut tiles = self.tiles;
        let mut line = tiles[self.row];
        let mut t = line[self.col];
        t.delete();
        line[self.col] = t;
        let mut col = self.col;
        if col > 0 {
            col = col - 1;
            let mut u = line[col];
            u.delete();
            line[col] = u;
        }
        tiles[self.row] = line;
        assert(Seq::new(SIZE as nat, |r: int| tiles[r]@) =~~= pre.without_letter().cells);
        *self = Game { tiles, answer: self.answer, row: self.row, col, done: false };
    }

    /// Submit the active row; the result tells whether it was accepted. A row
    /// is refused until all of its tiles hold letters, and once the game has
    /// ended. An accepted row is scored tile by tile; the game
    /// ends when the row is all correct or is the last one, and otherwise goes
    /// on at the start of the next row.
    pub fn submit_row(&mut self) -> (r: bool)
        ensures
            r == old(self)@.accepts_submit(),
            r ==> final(self)@ == old(self)@.after_submit(),
            !r ==> final(self)@ == old(self)@,
            final(self)@.wf(),
    {
        proof {
            use_type_invariant(&*self);
        }
        if self.done || self.col != SIZE - 1 {
            return false;
        }
        if let Tile::Unconfirmed(_) = self.tiles[self.row][SIZE - 1] {
        } else {
            return false;
        }
        let ghost pre = self@;
        proof {
            lemma_after_submit_wf(pre);
        }
        let mut line = self.tiles[self.row];
        let mut i: usize = 0;
        while i < SIZE
            invariant
                0 <= i <= SIZE,
                pre == self@,
                forall|j: int| 0 <= j < i ==> line@[j] == #[trigger] pre.scored_row()[j],
                forall|j: int| i <= j < SIZE ==> line@[j] == pre.at(pre.row, j),
            decreases SIZE - i,
        {
            let mut t = line[i];
            t.check(self.answer.as_slice(), self.answer[i]);
            line[i] = t;
            i = i + 1;
        }
        assert(line@ =~= pre.scored_row());
        let mut tiles = self.tiles;
        tiles[self.row] = line;
        let won = all_correct(&line);
        let ghost cells = Seq::new(SIZE as nat, |r: int| tiles[r]@);
        assert(cells =~~= pre.cells.update(pre.row, pre.scored_row()));
        let ghost s = Board { cells, ..pre };
        assert forall|c: int| #![trigger s.at(s.row, c)] #![trigger line@[c]]
            0 <= c < SIZE implies s.at(s.row, c) == line@[c] by {}
        assert(won == s.won());
        if won || self.row == SIZE - 1 {
            *self = Game { tiles, answer: self.answer, row: self.row, col: self.col, done: true };
        } else {
            *self = Game { tiles, answer: self.answer, row: self.row + 1, col: 0, done: false };
        }
        true
    }

    /// Whether the active row is all correct.
    pub fn won(&self) -> (r: bool)
        ensures
            r == self@.won(),
            self@.wf(),
    {
        proof {
            use_type_invariant(self);
            assert forall|c: int|
                #![trigger self@.at(self@.row, c)]
                #![trigger self.tiles[self.row as int]@[c]]
                0 <= c < SIZE implies self@.at(self@.row, c) == self.tiles[self.row as int]@[c] by {}
        }
        all_correct(&self.tiles[self.row])
    }

    /// Whether the game has ended without a win.
    pub fn lost(&self) -> (r: bool)
        ensures
            r == self@.lost(),
            self@.wf(),
    {
        proof {
            use_type_invariant(self);
        }
        self.done && !self.won()
    }

    /// The tile at row `r`, column `c`.
    pub fn tile(&self, r: usize, c: usize) -> (t: Tile)
        requires
            r < SIZE,
            c < SIZE,
        ensures
            t == self@.at(r as int, c as int),
            self@.wf(),
    {
        proof {
            use_type_invariant(self);
        }
        self.tiles[r][c]
    }

    /// The answer, in upper case.
    pub fn answer(&self) -> (a: [char; 5])
        ensures
            a@ == self@.answer,
            self@.wf(),
    {
        proof {
            use_type_invariant(self);
        }
        self.answer
    }

    /// The row that the next letter lands in.
    pub fn row(&self) -> (r: usize)
        ensures
            r == self@.row,
            self@.wf(),
    {
        proof {
            use_type_invariant(self);
        }
        self.row
    }

    /// The column that the next letter lands in.
    pub fn col(&self) -> (c: usize)
        ensures
            c == self@.col,
            self@.wf(),
    {
        proof {
            use_type_invariant(self);
        }
        self.col
    }

    /// Whether the game has ended.
    pub fn done(&self) -> (d: bool)
        ensures
            d == self@.done,
            self@.wf(),
    {
        proof {
            use_type_invariant(self);
        }
        self.done
    }

    /// Throw the game away and start over on a new answer.
    pub fn reset(&mut self, answer: [char; 5])
        ensures
            final(self)@ == Board::fresh(answer@),
            final(self)@.wf(),
    {
        *self = Game::new(answer);
    }
}

} // verus!
