//! Cyclic index arithmetic for models whose coordinates are coupled around a ring.
use vstd::arithmetic::div_mod::{lemma_add_mod_noop, lemma_fundamental_div_mod, lemma_fundamental_div_mod_converse};
use vstd::prelude::*;

verus! {

/// The index reached from `i` by moving `k` places around a ring of `d` slots:
/// the mathematical (never negative) remainder of `i + k` by `d`.
pub open spec fn wrapped(i: int, k: int, d: int) -> int {
    (i + k) % d
}

/// Moves `k` places (either direction) from index `i` around a ring of `d` slots.
pub fn wrap(i: usize, k: i64, d: usize) -> (r: usize)
    requires
        d > 0,
    ensures
        r as int == wrapped(i as int, k as int, d as int),
        r < d,
{
    let base: usize = i % d;
    let step: usize = if k >= 0 {
        ((k as u64) % (d as u64)) as usize
    } else {
        let back: u64 = ((-(k + 1)) as u64 + 1) % (d as u64);
        proof {
            let di = d as int;
            let q = (-k) as int / di;
            lemma_fundamental_div_mod(-k as int, di);
            assert(-k as int == di * q + back as int);
            if back == 0 {
                assert(k as int == (-q) * di + 0) by (nonlinear_arith)
                    requires -k as int == di * q + back as int, back == 0;
                lemma_fundamental_div_mod_converse(k as int, di, -q, 0);
            } else {
                assert(k as int == (-q - 1) * di + (di - back as int)) by (nonlinear_arith)
                    requires -k as int == di * q + back as int;
                lemma_fundamental_div_mod_converse(k as int, di, -q - 1, di - back as int);
            }
        }
        if back == 0 {
            0
        } else {
            d - back as usize
        }
    };
    assert(step as int == (k as int) % (d as int));
    let r: usize = if step >= d - base {
        step - (d - base)
    } else {
        base + step
    };
    proof {
        let di = d as int;
        if step >= d - base {
            lemma_fundamental_div_mod_converse(base + step, di, 1, r as int);
        } else {
            lemma_fundamental_div_mod_converse(base + step, di, 0, r as int);
        }
        lemma_add_mod_noop(i as int, k as int, di);
    }
    r
}

/// Why a model configuration is refused.
#[derive(Clone, Copy, Debug, PartialEq, Eq, Structural)]
pub enum ConfigError {
    /// The step size is not a positive number.
    StepSize,
    /// The state has fewer coordinates than the model's coupling reaches.
    Dimension,
}

/// The smallest ring on which the Lorenz-96 coupling is defined.
pub const MIN_RING_DIMENSION: usize = 3;

/// Accepts a Lorenz-96 state dimension: the coupling reaches two places back and one
/// ahead, so the ring needs at least three slots.
pub fn check_ring_dimension(n: usize) -> (r: Result<(), ConfigError>)
    ensures
        r is Ok <==> n >= MIN_RING_DIMENSION,
        r is Err ==> r == Err::<(), ConfigError>(ConfigError::Dimension),
{
    if n >= MIN_RING_DIMENSION {
        Ok(())
    } else {
        Err(ConfigError::Dimension)
    }
}

/// The neighbours that the Lorenz-96 rate of coordinate `i` reads, on a ring of `d`:
/// one ahead, two back and one back.
pub open spec fn coupling(i: int, d: int) -> (int, int, int) {
    (wrapped(i, 1, d), wrapped(i, -2, d), wrapped(i, -1, d))
}

/// The Lorenz-96 neighbours of coordinate `i`: `(i + 1, i - 2, i - 1)`, each taken
/// around a ring of `d` slots.
pub fn coupling_indices(i: usize, d: usize) -> (r: (usize, usize, usize))
    requires
        d > 0,
    ensures
        (r.0 as int, r.1 as int, r.2 as int) == coupling(i as int, d as int),
        r.0 < d,
        r.1 < d,
        r.2 < d,
{
    (wrap(i, 1, d), wrap(i, -2, d), wrap(i, -1, d))
}

/// The Lorenz-96 rate of coordinate `i`, over exact numbers:
/// `(x[i+1] - x[i-2]) * x[i-1] - x[i] + f`, indices taken around the ring.
pub open spec fn lorenz_96_rate(x: Seq<int>, f: int, i: int) -> int {
    let (a, b, c) = coupling(i, x.len() as int);
    (x[a] - x[b]) * x[c] - x[i] + f
}

/// The state turned one place around the ring: slot `j` holds what slot `j + 1` held.
pub open spec fn turned(x: Seq<int>) -> Seq<int> {
    Seq::new(x.len(), |j: int| x[wrapped(j, 1, x.len() as int)])
}

/// Moving `k` places and then one more is moving `k + 1` places.
proof fn lemma_wrapped_then_one(i: int, k: int, d: int)
    requires
        d > 0,
    ensures
        wrapped(wrapped(i, k, d), 1, d) == wrapped(i, k + 1, d),
        wrapped(wrapped(i, 1, d), k, d) == wrapped(i, k + 1, d),
{
    lemma_add_mod_noop(i + k, 1, d);
    lemma_add_mod_noop(i + 1, k, d);
    lemma_add_mod_noop((i + k) % d, 1, d);
    lemma_add_mod_noop((i + 1) % d, k, d);
    lemma_fundamental_div_mod_converse((i + k) % d, d, 0, (i + k) % d);
    lemma_fundamental_div_mod_converse((i + 1) % d, d, 0, (i + 1) % d);
    lemma_fundamental_div_mod_converse(k % d, d, 0, k % d);
    if d > 1 {
        lemma_fundamental_div_mod_converse(1, d, 0, 1);
    }
}

/// The Lorenz-96 coupling does not single out a slot: turning the state one place
/// around the ring and taking the rate of slot `i` gives the rate of slot `i + 1` of
/// the state as it was, for every ring of at least three slots and every forcing.
pub proof fn lemma_lorenz_96_turn(x: Seq<int>, f: int, i: int)
    requires
        x.len() >= MIN_RING_DIMENSION,
        0 <= i < x.len(),
    ensures
        lorenz_96_rate(turned(x), f, i) == lorenz_96_rate(x, f, wrapped(i, 1, x.len() as int)),
{
    let d = x.len() as int;
    lemma_wrapped_then_one(i, 1, d);
    lemma_wrapped_then_one(i, -2, d);
    lemma_wrapped_then_one(i, -1, d);
    lemma_wrapped_then_one(i, 0, d);
    assert(wrapped(i, 0, d) == i) by {
        lemma_fundamental_div_mod_converse(i, d, 0, i);
    }
}

} // verus!
