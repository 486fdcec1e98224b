use vstd::prelude::*;

verus! {

/// Defines methods of transforming entropy into a result.
#[derive(Clone, Copy, PartialEq, Eq, Structural, Debug)]
pub enum Method {
    MaskSquareOfTwo,
    RemainderBelowLimit(u8),
}

/// Precalculated params for random result generation.
#[derive(Clone, Copy, PartialEq, Eq, Structural, Debug)]
pub struct Params {
    pub bound: u8,
    pub method: Method,
}

/// The bound is one of the eight powers of two a byte can hold.
pub open spec fn pow2_bound(bound: u8) -> bool {
    bound == 1 || bound == 2 || bound == 4 || bound == 8 || bound == 16 || bound == 32 || bound
        == 64 || bound == 128
}

/// The params the precalculation produces for a bound: remainder masking for
/// a power of two, otherwise rejection sampling below the largest limit that
/// keeps one more whole run of remainders.
pub open spec fn spec_params_for(bound: u8) -> Params {
    Params {
        bound,
        method: if pow2_bound(bound) {
            Method::MaskSquareOfTwo
        } else {
            Method::RemainderBelowLimit((255 - 255u8 % bound) as u8)
        },
    }
}

/// Precalculate params for random result generation.
pub fn params_for(bound: u8) -> (p: Params)
    requires
        bound >= 1,
    ensures
        p == spec_params_for(bound),
{
    let mask = (bound - 1) & bound;
    proof {
        assert(((((bound - 1) as u8) & bound) == 0) <==> (bound == 1 || bound == 2 || bound == 4 || bound
            == 8 || bound == 16 || bound == 32 || bound == 64 || bound == 128)) by (bit_vector)
            requires
                bound >= 1,
        ;
    }
    Params {
        bound,
        method: if mask == 0 {
            Method::MaskSquareOfTwo
        } else {
            Method::RemainderBelowLimit(255 - 255 % bound)
        },
    }
}

/// What a draw yields from the given params and entropy byte: the remainder
/// of the entropy, except that a rejection-sampling draw above the limit
/// yields nothing.
pub open spec fn spec_generate(params: Params, entropy: u8) -> Option<u8> {
    match params.method {
        Method::MaskSquareOfTwo => Some((entropy % params.bound) as u8),
        Method::RemainderBelowLimit(limit) => if entropy <= limit {
            Some((entropy % params.bound) as u8)
        } else {
            None
        },
    }
}

/// Try to generate a random number from the given precalculated params and entropy.
pub fn generate(params: &Params, entropy: u8) -> (r: Option<u8>)
    requires
        params.bound >= 1,
    ensures
        r == spec_generate(*params, entropy),
        r matches Some(v) ==> v < params.bound,
{
    match params.method {
        Method::MaskSquareOfTwo => Some(entropy % params.bound),
        Method::RemainderBelowLimit(limit) => if entropy <= limit {
            Some(entropy % params.bound)
        } else {
            None
        },
    }
}

/// With a power-of-two bound, every entropy byte yields a result, and the
/// result lies below the bound.
pub proof fn lemma_generate_pow2_total(bound: u8, entropy: u8)
    requires
        pow2_bound(bound),
    ensures
        spec_generate(spec_params_for(bound), entropy) matches Some(v) && v < bound,
{
}

/// Whatever the bound, an accepted draw always lies below the bound.
pub proof fn lemma_generate_in_range(bound: u8, entropy: u8)
    requires
        bound >= 1,
    ensures
        spec_generate(spec_params_for(bound), entropy) matches Some(v) ==> v < bound,
{
}

/// A rejection-sampling draw is accepted exactly when the entropy byte does
/// not exceed the precomputed limit.
pub proof fn lemma_generate_acceptance(bound: u8, entropy: u8)
    requires
        bound >= 1,
        !pow2_bound(bound),
    ensures
        spec_generate(spec_params_for(bound), entropy) is Some <==> entropy <= 255 - 255u8 % bound,
{
}

/// How many entropy bytes below `n` yield any result at all.
pub open spec fn accepted_count(params: Params, n: int) -> int
    decreases n,
{
    if n <= 0 {
        0
    } else {
        accepted_count(params, n - 1) + if spec_generate(params, (n - 1) as u8) is Some {
            1int
        } else {
            0int
        }
    }
}

/// How many entropy bytes below `n` yield exactly the value `v`.
pub open spec fn value_count(params: Params, v: u8, n: int) -> int
    decreases n,
{
    if n <= 0 {
        0
    } else {
        value_count(params, v, n - 1) + if spec_generate(params, (n - 1) as u8) == Some(v) {
            1int
        } else {
            0int
        }
    }
}

/// How many integers below `m` leave remainder `v` modulo `b`.
pub open spec fn mod_count(b: u8, v: u8, m: int) -> int
    decreases m,
{
    if m <= 0 {
        0
    } else {
        mod_count(b, v, m - 1) + if (m - 1) % (b as int) == v {
            1int
        } else {
            0int
        }
    }
}

/// Closed form for the remainder count: each whole run of `b` integers
/// contributes one hit, and the trailing partial run one more when it
/// reaches past `v`.
pub proof fn lemma_mod_count(b: u8, v: u8, m: int)
    requires
        b >= 1,
        v < b,
        m >= 0,
    ensures
        mod_count(b, v, m) == m / (b as int) + if v < m % (b as int) {
            1int
        } else {
            0int
        },
    decreases m,
{
    let bi = b as int;
    if m == 0 {
        vstd::arithmetic::div_mod::lemma_fundamental_div_mod_converse(0, bi, 0, 0);
    } else {
        lemma_mod_count(b, v, m - 1);
        vstd::arithmetic::div_mod::lemma_fundamental_div_mod(m, bi);
        let q = m / bi;
        let r = m % bi;
        vstd::arithmetic::div_mod::lemma_mod_bound(m, bi);
        if r == 0 {
            assert((q - 1) * bi == q * bi - bi) by (nonlinear_arith);
            vstd::arithmetic::div_mod::lemma_fundamental_div_mod_converse(m - 1, bi, q - 1, bi - 1);
        } else {
            vstd::arithmetic::div_mod::lemma_fundamental_div_mod_converse(m - 1, bi, q, r - 1);
        }
    }
}

/// Below the acceptance limit every draw is accepted, so the accepted count
/// grows one-for-one with `n` and then stops at the limit.
proof fn lemma_accepted_count_steps(bound: u8, n: int)
    requires
        bound >= 1,
        !pow2_bound(bound),
        0 <= n <= 256,
    ensures
        accepted_count(spec_params_for(bound), n) == if n <= 256 - 255int % (bound as int) {
            n
        } else {
            256 - 255int % (bound as int)
        },
    decreases n,
{
    if n > 0 {
        lemma_accepted_count_steps(bound, n - 1);
    }
}

/// Out of all 256 entropy bytes, a rejection-sampling bound accepts one more
/// draw than one whole run of remainders fills.
pub proof fn lemma_generate_acceptance_count(bound: u8)
    requires
        bound >= 1,
        !pow2_bound(bound),
    ensures
        accepted_count(spec_params_for(bound), 256) == 256 - 255int % (bound as int),
{
    lemma_accepted_count_steps(bound, 256);
}

/// A masking draw is always accepted, so its hits are exactly the remainder
/// hits; a rejection-sampling draw adds hits only up to the limit.
proof fn lemma_value_count_rel(bound: u8, v: u8, n: int)
    requires
        bound >= 1,
        v < bound,
        0 <= n <= 256,
    ensures
        pow2_bound(bound) ==> value_count(spec_params_for(bound), v, n) == mod_count(bound, v, n),
        !pow2_bound(bound) ==> value_count(spec_params_for(bound), v, n) == mod_count(
            bound,
            v,
            if n <= 256 - 255int % (bound as int) {
                n
            } else {
                256 - 255int % (bound as int)
            },
        ),
    decreases n,
{
    if n > 0 {
        lemma_value_count_rel(bound, v, n - 1);
    }
}

/// With a power-of-two bound the 256 entropy bytes spread exactly evenly:
/// every value below the bound occurs the same number of times.
pub proof fn lemma_generate_pow2_uniform(bound: u8, v: u8)
    requires
        pow2_bound(bound),
        v < bound,
    ensures
        value_count(spec_params_for(bound), v, 256) == 256int / (bound as int),
{
    lemma_value_count_rel(bound, v, 256);
    lemma_mod_count(bound, v, 256);
    assert(256int % (bound as int) == 0) by {
        if bound == 1 {
            vstd::arithmetic::div_mod::lemma_fundamental_div_mod_converse(256, 1, 256, 0);
        } else if bound == 2 {
            vstd::arithmetic::div_mod::lemma_fundamental_div_mod_converse(256, 2, 128, 0);
        } else if bound == 4 {
            vstd::arithmetic::div_mod::lemma_fundamental_div_mod_converse(256, 4, 64, 0);
        } else if bound == 8 {
            vstd::arithmetic::div_mod::lemma_fundamental_div_mod_converse(256, 8, 32, 0);
        } else if bound == 16 {
            vstd::arithmetic::div_mod::lemma_fundamental_div_mod_converse(256, 16, 16, 0);
        } else if bound == 32 {
            vstd::arithmetic::div_mod::lemma_fundamental_div_mod_converse(256, 32, 8, 0);
        } else if bound == 64 {
            vstd::arithmetic::div_mod::lemma_fundamental_div_mod_converse(256, 64, 4, 0);
        } else {
            vstd::arithmetic::div_mod::lemma_fundamental_div_mod_converse(256, 128, 2, 0);
        }
    }
}

/// With a rejection-sampling bound, across all 256 entropy bytes the value 0
/// occurs once more than every other value below the bound, each of which
/// occurs exactly once per whole run of remainders.
pub proof fn lemma_generate_value_count(bound: u8, v: u8)
    requires
        bound >= 1,
        !pow2_bound(bound),
        v < bound,
    ensures
        value_count(spec_params_for(bound), v, 256) == 255int / (bound as int) + if v == 0 {
            1int
        } else {
            0int
        },
{
    let bi = bound as int;
    lemma_value_count_rel(bound, v, 256);
    let m = 256 - 255int % bi;
    vstd::arithmetic::div_mod::lemma_mod_bound(255, bi);
    lemma_mod_count(bound, v, m);
    vstd::arithmetic::div_mod::lemma_fundamental_div_mod(255, bi);
    vstd::arithmetic::div_mod::lemma_fundamental_div_mod_converse(m, bi, 255int / bi, 1);
}

} // verus!
