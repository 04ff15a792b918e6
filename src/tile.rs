use vstd::prelude::*;

verus! {

/// A tile on the board: one letter slot and how far its guess has been confirmed.
#[derive(Clone, Copy, Debug, PartialEq, Eq, Structural, Hash)]
pub enum Tile {
    /// Correct letter in the correct position.
    Correct(char),
    /// Letter of the word, in another position.
    Misplaced(char),
    /// Letter that the word does not hold at all.
    Missing(char),
    /// A letter typed into a row that has not been submitted yet.
    Unconfirmed(char),
    /// A tile without any guessed letter.
    Blank,
}

/// What scoring does to a tile against `word`, with `actual` the letter that
/// `word` holds at the tile's position. Only an unconfirmed tile changes.
pub open spec fn scored(t: Tile, word: Seq<char>, actual: char) -> Tile {
    match t {
        Tile::Unconfirmed(g) => {
            if g == actual {
                Tile::Correct(g)
            } else if word.contains(g) {
                Tile::Misplaced(g)
            } else {
                Tile::Missing(g)
            }
        },
        _ => t,
    }
}

/// The letter a tile carries, if any.
pub open spec fn letter_of(t: Tile) -> Option<char> {
    match t {
        Tile::Correct(c) => Some(c),
        Tile::Misplaced(c) => Some(c),
        Tile::Missing(c) => Some(c),
        Tile::Unconfirmed(c) => Some(c),
        Tile::Blank => None,
    }
}

impl Default for Tile {
    fn default() -> (t: Self)
        ensures
            t == Tile::Blank,
    {
        Tile::Blank
    }
}

impl Tile {
    /// Forget the letter proposed for this tile.
    pub fn delete(&mut self)
        ensures
            *final(self) == Tile::Blank,
    {
        *self = Tile::Blank;
    }

    /// Propose a letter for this tile, without revealing how correct it is.
    pub fn input(&mut self, guess: char)
        ensures
            *final(self) == Tile::Unconfirmed(guess),
    {
        *self = Tile::Unconfirmed(guess);
    }

    /// Score an unconfirmed tile against `word`, where `actual` is the letter
    /// that `word` holds at this tile's position. Any other tile is left as it is.
    pub fn check(&mut self, word: &[char], actual: char)
        ensures
            *final(self) == scored(*old(self), word@, actual),
    {
        if let Tile::Unconfirmed(guess) = *self {
            if guess == actual {
                *self = Tile::Correct(guess);
            } else if contains_char(word, guess) {
                *self = Tile::Misplaced(guess);
            } else {
                *self = Tile::Missing(guess);
            }
        }
    }

    pub fn is_correct(&self) -> (r: bool)
        ensures
            r == (*self is Correct),
    {
        match self {
            Tile::Correct(_) => true,
            _ => false,
        }
    }

    /// The letter to show on this tile, if it has one.
    pub fn get_chr(&self) -> (r: Option<char>)
        ensures
            r == letter_of(*self),
    {
        match *self {
            Tile::Correct(c) => Some(c),
            Tile::Misplaced(c) => Some(c),
            Tile::Missing(c) => Some(c),
            Tile::Unconfirmed(c) => Some(c),
            Tile::Blank => None,
        }
    }

    /// The tile's letter as text, or the empty string for a blank tile.
    pub fn text(&self) -> (r: String)
        ensures
            r@ == match letter_of(*self) {
                Some(c) => seq![c],
                None => Seq::<char>::empty(),
            },
    {
        let mut s = String::new();
        if let Some(c) = self.get_chr() {
            push_char(&mut s, c);
        }
        s
    }
}

/// Scoring settles a tile: scoring it a second time changes nothing, and a tile
/// that is already scored (or blank) is left unchanged by any scoring.
pub proof fn lemma_check_idempotent(t: Tile, word: Seq<char>, actual: char)
    ensures
        scored(scored(t, word, actual), word, actual) == scored(t, word, actual),
        !(t is Unconfirmed) ==> scored(t, word, actual) == t,
{
}

/// Relies on `String::push`: appends the character at the end of the string.
#[verifier::external_body]
fn push_char(s: &mut String, c: char)
    ensures
        final(s)@ == old(s)@.push(c),
{
    s.push(c);
}

/// Whether `word` holds the letter `c`.
fn contains_char(word: &[char], c: char) -> (r: bool)
    ensures
        r == word@.contains(c),
{
    let mut i: usize = 0;
    while i < word.len()
        invariant
            0 <= i <= word@.len(),
            forall|j: int| 0 <= j < i ==> word@[j] != c,
        decreases word@.len() - i,
    {
        if word[i] == c {
            return true;
        }
        i = i + 1;
    }
    false
}

} // verus!
