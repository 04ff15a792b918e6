use vstd::prelude::*;

verus! {

/// Letters in the alphabet that answers are drawn from.
pub const ALPHABET_LEN: u8 = 26;

/// The upper-case letter `offset` places after `A`.
pub open spec fn alphabet_letter(offset: int) -> char {
    ('A' as int + offset) as char
}

/// Relies on rand's `thread_rng` and `Uniform::new(0, n)`: a draw from the
/// half-open range `[0, n)`; `Uniform::new` panics when `n` is zero.
#[verifier::external_body]
fn draw_below(n: u8) -> (r: u8)
    requires
        0 < n,
    ensures
        r < n,
{
    rand::Rng::sample(&mut rand::thread_rng(), rand::distributions::Uniform::new(0u8, n))
}

/// The word whose letters stand `offsets[i]` places after `A`, or `None` when
/// an offset falls outside the alphabet.
pub fn word_from_offsets(offsets: [u8; 5]) -> (r: Option<[char; 5]>)
    ensures
        r is Some <==> forall|i: int| 0 <= i < 5 ==> #[trigger] offsets@[i] < ALPHABET_LEN,
        r matches Some(w) ==> forall|i: int|
            0 <= i < 5 ==> #[trigger] w@[i] == alphabet_letter(offsets@[i] as int),
{
    let mut w: [char; 5] = ['A'; 5];
    let mut i: usize = 0;
    while i < 5
        invariant
            0 <= i <= 5,
            forall|j: int| 0 <= j < i ==> #[trigger] offsets@[j] < ALPHABET_LEN,
            forall|j: int| 0 <= j < i ==> #[trigger] w@[j] == alphabet_letter(offsets@[j] as int),
        decreases 5 - i,
    {
        let offset = offsets[i];
        if offset >= ALPHABET_LEN {
            return None;
        }
        w[i] = (('A' as u8) + offset) as char;
        i = i + 1;
    }
    Some(w)
}

/// A random answer: five upper-case letters, each drawn uniformly.
pub fn pick_word() -> (w: [char; 5])
    ensures
        forall|i: int| 0 <= i < 5 ==> 'A' <= #[trigger] w@[i] <= 'Z',
{
    let mut offsets: [u8; 5] = [0; 5];
    let mut i: usize = 0;
    while i < 5
        invariant
            0 <= i <= 5,
            forall|j: int| 0 <= j < 5 ==> #[trigger] offsets@[j] < ALPHABET_LEN,
        decreases 5 - i,
    {
        offsets[i] = draw_below(ALPHABET_LEN);
        i = i + 1;
    }
    let word = word_from_offsets(offsets);
    word.unwrap()
}

} // verus!
