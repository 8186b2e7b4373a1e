//! Choosing the next token: candidate selection and the random sequence.
use vstd::prelude::*;

verus! {

/// An integer that orders single-precision numbers, given by their bits, in
/// the total order of IEEE 754: negative numbers by falling magnitude, then
/// positive ones by rising magnitude.
pub open spec fn order_key(bits: u32) -> int {
    if bits < 0x8000_0000 {
        bits as int
    } else {
        0x7fff_ffff - bits
    }
}

/// An integer that orders single-precision numbers by their bits.
pub fn total_order_key(bits: u32) -> (key: i32)
    ensures
        key == order_key(bits),
{
    if bits < 0x8000_0000 {
        bits as i32
    } else {
        (0x7fff_ffffi64 - bits as i64) as i32
    }
}

/// Distinct numbers have distinct keys.
pub proof fn law_order_key_is_injective(a: u32, b: u32)
    requires
        order_key(a) == order_key(b),
    ensures
        a == b,
{
}

/// Every negative number is ordered below every positive one.
pub proof fn law_negative_numbers_come_first(a: u32, b: u32)
    requires
        a >= 0x8000_0000,
        b < 0x8000_0000,
    ensures
        order_key(a) < order_key(b),
{
}

/// How many candidates are kept at most.
pub open spec fn kept_at_most(top_k: usize) -> int {
    if top_k == 0 {
        1
    } else {
        top_k as int
    }
}

/// `chosen` are the best allowed tokens, best first.
pub open spec fn best_allowed(
    chosen: Seq<usize>,
    keys: Seq<i32>,
    allowed: Seq<bool>,
) -> bool {
    &&& forall|i: int|
        0 <= i < chosen.len() ==> (#[trigger] chosen[i]) < keys.len() && allowed[chosen[i] as int]
    &&& forall|i: int, j: int|
        0 <= i < j < chosen.len() ==> #[trigger] chosen[i] != #[trigger] chosen[j]
    &&& forall|i: int, j: int|
        0 <= i < j < chosen.len() ==> keys[#[trigger] chosen[i] as int] >= keys[#[trigger] chosen[j] as int]
    &&& forall|i: int, t: usize|
        0 <= i < chosen.len() && t < keys.len() && allowed[t as int] && !chosen.contains(t)
            ==> keys[#[trigger] chosen[i] as int] >= #[trigger] keys[t as int]
}

/// The allowed token with the largest key that is not yet taken, the first of
/// them where several are equal.
fn best_left(keys: &[i32], allowed: &[bool], taken: &Vec<bool>) -> (best: Option<usize>)
    requires
        allowed@.len() == keys@.len(),
        taken@.len() == keys@.len(),
    ensures
        match best {
            Some(b) => {
                &&& b < keys@.len()
                &&& allowed@[b as int]
                &&& !taken@[b as int]
                &&& forall|t: int|
                    0 <= t < keys@.len() && allowed@[t] && !taken@[t] ==> #[trigger] keys@[t]
                        <= keys@[b as int]
            },
            None => forall|t: int|
                0 <= t < keys@.len() && allowed@[t] ==> #[trigger] taken@[t],
        },
{
    let mut best: Option<usize> = None;
    for t in 0..keys.len()
        invariant
            allowed@.len() == keys@.len(),
            taken@.len() == keys@.len(),
            match best {
                Some(b) => {
                    &&& b < t
                    &&& allowed@[b as int]
                    &&& !taken@[b as int]
                    &&& forall|u: int|
                        0 <= u < t && allowed@[u] && !taken@[u] ==> #[trigger] keys@[u]
                            <= keys@[b as int]
                },
                None => forall|u: int| 0 <= u < t && allowed@[u] ==> #[trigger] taken@[u],
            },
    {
        if allowed[t] && !taken[t] {
            match best {
                Some(b) => {
                    if keys[t] > keys[b] {
                        best = Some(t);
                    }
                },
                None => {
                    best = Some(t);
                },
            }
        }
    }
    best
}

/// The tokens that compete for the draw: the `top_k` best of those allowed
/// (at least one), best first. `keys` orders the tokens by adjusted score.
pub fn top_k_candidates(keys: &[i32], allowed: &[bool], top_k: usize) -> (chosen: Vec<usize>)
    requires
        allowed@.len() == keys@.len(),
    ensures
        best_allowed(chosen@, keys@, allowed@),
        chosen@.len() <= kept_at_most(top_k),
        chosen@.len() < kept_at_most(top_k) ==> forall|t: usize|
            t < keys@.len() && #[trigger] allowed@[t as int] ==> chosen@.contains(t),
{
    let limit: usize = if top_k == 0 {
        1
    } else {
        top_k
    };
    let mut taken: Vec<bool> = Vec::new();
    for t in 0..keys.len()
        invariant
            taken@.len() == t,
            forall|u: int| 0 <= u < t ==> !(#[trigger] taken@[u]),
    {
        taken.push(false);
    }
    let mut chosen: Vec<usize> = Vec::new();
    while chosen.len() < limit
        invariant
            limit == kept_at_most(top_k),
            allowed@.len() == keys@.len(),
            taken@.len() == keys@.len(),
            chosen@.len() <= limit,
            best_allowed(chosen@, keys@, allowed@),
            forall|t: usize|
                t < keys@.len() ==> (#[trigger] taken@[t as int] <==> chosen@.contains(t)),
        decreases limit - chosen@.len(),
    {
        match best_left(keys, allowed, &taken) {
            None => {
                assert forall|t: usize|
                    t < keys@.len() && #[trigger] allowed@[t as int] implies chosen@.contains(t) by {
                    assert(taken@[t as int]);
                }
                return chosen;
            },
            Some(b) => {
                let ghost before = chosen@;
                let ghost was = taken@;
                chosen.push(b);
                taken.set(b, true);
                proof {
                    assert(!was[b as int]);
                    assert forall|t: usize| t < keys@.len() implies (#[trigger] taken@[t as int]
                        <==> chosen@.contains(t)) by {
                        if before.contains(t) {
                            let i = choose|i: int| 0 <= i < before.len() && before[i] == t;
                            assert(chosen@[i] == t);
                        }
                        if t == b {
                            assert(chosen@[before.len() as int] == b);
                        }
                        if chosen@.contains(t) && t != b {
                            let i = choose|i: int| 0 <= i < chosen@.len() && chosen@[i] == t;
                            assert(before[i] == t);
                        }
                        assert(was[t as int] <==> before.contains(t));
                    }
                    assert(!before.contains(b));
                    assert forall|i: int, j: int| 0 <= i < j < chosen@.len() implies #[trigger] chosen@[i]
                        != #[trigger] chosen@[j] by {
                        if j == before.len() {
                            assert(before[i] == chosen@[i]);
                        }
                    }
                    assert forall|i: int, t: usize|
                        0 <= i < chosen@.len() && t < keys@.len() && allowed@[t as int]
                            && !chosen@.contains(t) implies keys@[#[trigger] chosen@[i] as int]
                        >= #[trigger] keys@[t as int] by {
                        assert(!taken@[t as int]);
                        assert(t != b);
                        assert(!was[t as int]);
                        if i < before.len() {
                            assert(before[i] == chosen@[i]);
                            assert(!before.contains(t));
                        }
                    }
                }
            },
        }
    }
    chosen
}

/// The state that a zero seed stands for.
pub const DEFAULT_SEED: u64 = 0x9e37_79b9_7f4a_7c15;

/// The state after one step of the shift-register sequence.
pub open spec fn next_state(seed: u64) -> u64 {
    let a = if seed == 0 { DEFAULT_SEED } else { seed };
    let b = a ^ (a >> 12);
    let c = b ^ (b << 25);
    c ^ (c >> 27)
}

/// The 24 random bits drawn at a state.
pub open spec fn drawn_bits(state: u64) -> u64 {
    ((state as int * 0x2545_f491_4f6c_dd1d) % 0x1_0000_0000_0000_0000) as u64 >> 40
}

/// Advances the sequence and draws 24 random bits; divided by two to the 24th
/// power they are a number between zero and one.
pub fn random_bits(seed: &mut u64) -> (bits: u32)
    ensures
        *final(seed) == next_state(*old(seed)),
        bits == drawn_bits(next_state(*old(seed))),
        bits < 0x100_0000,
{
    let mut s: u64 = *seed;
    if s == 0 {
        s = DEFAULT_SEED;
    }
    s = s ^ (s >> 12);
    s = s ^ (s << 25);
    s = s ^ (s >> 27);
    *seed = s;
    let value: u64 = s.wrapping_mul(0x2545_f491_4f6c_dd1d);
    assert(value >> 40 < 0x100_0000) by (bit_vector);
    (value >> 40) as u32
}

/// The sequence never falls into the zero state.
pub proof fn law_state_is_never_zero(seed: u64)
    ensures
        next_state(seed) != 0,
{
    let a = if seed == 0 { DEFAULT_SEED } else { seed };
    assert(a != 0);
    let b = a ^ (a >> 12);
    assert(a != 0 ==> a ^ (a >> 12) != 0) by (bit_vector);
    let c = b ^ (b << 25);
    assert(b != 0 ==> b ^ (b << 25) != 0) by (bit_vector);
    assert(c != 0 ==> c ^ (c >> 27) != 0) by (bit_vector);
}

/// Distinct non-zero states lead to distinct states: no draw loses
/// information about the seed.
pub proof fn law_state_steps_are_injective(s: u64, t: u64)
    requires
        s != 0,
        t != 0,
        next_state(s) == next_state(t),
    ensures
        s == t,
{
    let (b, d) = (s ^ (s >> 12), t ^ (t >> 12));
    let (c, e) = (b ^ (b << 25), d ^ (d << 25));
    assert(c ^ (c >> 27) == e ^ (e >> 27) ==> c == e) by (bit_vector);
    assert(b ^ (b << 25) == d ^ (d << 25) ==> b == d) by (bit_vector);
    assert(s ^ (s >> 12) == t ^ (t >> 12) ==> s == t) by (bit_vector);
}

} // verus!
