//! Turning a recorded trajectory into per-coordinate channels.
use vstd::prelude::*;

verus! {

/// Coordinate `idx` of every recorded state, in order.
pub fn channel<T: Copy, const D: usize>(samples: &Vec<[T; D]>, idx: usize) -> (r: Vec<T>)
    requires
        idx < D,
    ensures
        r@.len() == samples@.len(),
        forall|j: int| 0 <= j < r@.len() ==> r@[j] == samples@[j]@[idx as int],
{
    let mut r: Vec<T> = Vec::with_capacity(samples.len());
    let mut j: usize = 0;
    while j < samples.len()
        invariant
            idx < D,
            j <= samples@.len(),
            r@.len() == j,
            forall|m: int| 0 <= m < j ==> r@[m] == samples@[m]@[idx as int],
        decreases samples@.len() - j,
    {
        let s: [T; D] = samples[j];
        r.push(s[idx]);
        j = j + 1;
    }
    r
}

/// Place in the alphabet of the letter that names coordinate `idx`: the coordinates
/// are called `x`, `y`, `z`, then `a`, `b`, ... and round again.
pub open spec fn channel_letter_place(idx: int) -> int {
    (idx + 23) % 26
}

/// The letter that names coordinate `idx`: `x`, `y`, `z`, `a`, `b`, ... (97 is `a`).
pub fn channel_name(idx: usize) -> (r: char)
    ensures
        r as int == 97 + channel_letter_place(idx as int),
{
    let place: u8 = ((idx % 26) as u8 + 23) % 26;
    assert(place as int == channel_letter_place(idx as int)) by {
        vstd::arithmetic::div_mod::lemma_add_mod_noop(idx as int, 23, 26);
        assert((23int) % 26 == 23);
        assert(((idx as int) % 26) % 26 == (idx as int) % 26);
    }
    (97u8 + place) as char
}

/// Why a channel cannot be scaled to the range `[-1, 1]`.
#[derive(Clone, Copy, Debug, PartialEq, Eq, Structural)]
pub enum NormalizeError {
    /// The channel holds no value.
    Empty,
    /// Every value of the channel is zero, so there is nothing to divide by.
    Degenerate,
}

/// Decides whether a channel of `len` values whose largest magnitude is zero exactly
/// when `peak_is_zero` can be scaled: an empty channel is refused first, then a channel
/// with nothing but zeros.
pub fn check_normalizable(len: usize, peak_is_zero: bool) -> (r: Result<(), NormalizeError>)
    ensures
        len == 0 ==> r == Err::<(), NormalizeError>(NormalizeError::Empty),
        len > 0 && peak_is_zero ==> r == Err::<(), NormalizeError>(NormalizeError::Degenerate),
        r is Ok <==> len > 0 && !peak_is_zero,
{
    if len == 0 {
        Err(NormalizeError::Empty)
    } else if peak_is_zero {
        Err(NormalizeError::Degenerate)
    } else {
        Ok(())
    }
}

} // verus!
