use vstd::prelude::*;

verus! {

/// Exponential backoff: the delay before restart number `attempt`.
/// Durations are in milliseconds.
pub struct RestartPolicy {
    pub backoff_base_ms: u64,
    pub backoff_max_ms: u64,
}

/// Number of doublings applied for a given attempt: `attempt - 1`, capped at six.
pub open spec fn backoff_shift(attempt: u32) -> nat {
    if attempt <= 1 {
        0
    } else if attempt - 1 >= 6 {
        6
    } else {
        (attempt - 1) as nat
    }
}

pub open spec fn pow2(n: nat) -> nat
    decreases n,
{
    if n == 0 {
        1
    } else {
        2 * pow2((n - 1) as nat)
    }
}

pub open spec fn spec_min(a: int, b: int) -> int {
    if a <= b {
        a
    } else {
        b
    }
}

/// The delay in milliseconds: `base * 2^shift`, saturated, then capped at `max`.
pub open spec fn spec_delay(base: u64, max: u64, attempt: u32) -> int {
    spec_min(spec_min(base * pow2(backoff_shift(attempt)), u64::MAX as int), max as int)
}

/// `pow2` never decreases.
proof fn lemma_pow2_monotone(a: nat, b: nat)
    requires
        a <= b,
    ensures
        pow2(a) <= pow2(b),
    decreases b,
{
    if a < b {
        lemma_pow2_monotone(a, (b - 1) as nat);
    }
}

proof fn lemma_pow2_positive(n: nat)
    ensures
        pow2(n) >= 1,
    decreases n,
{
    if n > 0 {
        lemma_pow2_positive((n - 1) as nat);
    }
}

/// The restart delay never exceeds the ceiling, never decreases as attempts
/// grow, starts at the base (capped by the ceiling) for the first attempt, and
/// stops growing from the seventh attempt on.
pub proof fn lemma_delay_shape(base: u64, max: u64, a: u32, b: u32)
    ensures
        spec_delay(base, max, a) <= max,
        a <= b ==> spec_delay(base, max, a) <= spec_delay(base, max, b),
        spec_delay(base, max, 0) == spec_delay(base, max, 1),
        spec_delay(base, max, 1) == spec_min(base as int, max as int),
        a >= 7 && b >= 7 ==> spec_delay(base, max, a) == spec_delay(base, max, b),
        spec_delay(base, max, a) >= 0,
{
    assert(pow2(0) == 1);
    assert(backoff_shift(1) == 0 && backoff_shift(0) == 0);
    assert(base * pow2(0) == base);
    if a <= b {
        lemma_pow2_monotone(backoff_shift(a), backoff_shift(b));
        assert(base * pow2(backoff_shift(a)) <= base * pow2(backoff_shift(b))) by (nonlinear_arith)
            requires
                pow2(backoff_shift(a)) <= pow2(backoff_shift(b)),
                base >= 0,
        ;
    }
    lemma_pow2_positive(backoff_shift(a));
    assert(base * pow2(backoff_shift(a)) >= 0) by (nonlinear_arith)
        requires
            pow2(backoff_shift(a)) >= 1,
            base >= 0,
    ;
}

/// Below the ceiling, each further attempt (up to the seventh) doubles the delay.
pub proof fn lemma_delay_doubles(base: u64, max: u64, a: u32)
    requires
        1 <= a < 7,
        spec_delay(base, max, (a + 1) as u32) < max,
    ensures
        spec_delay(base, max, (a + 1) as u32) == 2 * spec_delay(base, max, a),
{
    assert(backoff_shift((a + 1) as u32) == backoff_shift(a) + 1);
    let p = pow2(backoff_shift(a));
    assert(pow2(backoff_shift((a + 1) as u32)) == 2 * p);
    lemma_pow2_monotone(backoff_shift(a), backoff_shift((a + 1) as u32));
    assert(base * (2 * p) == 2 * (base * p)) by (nonlinear_arith);
    assert(base * p <= base * (2 * p)) by (nonlinear_arith)
        requires
            p >= 0,
            base >= 0,
    ;
}

impl RestartPolicy {
    pub open spec fn default_spec() -> RestartPolicy {
        RestartPolicy { backoff_base_ms: 1000, backoff_max_ms: 60000 }
    }

    pub open spec fn delay_spec(&self, attempt: u32) -> int {
        spec_delay(self.backoff_base_ms, self.backoff_max_ms, attempt)
    }

    /// One second base, one minute ceiling.
    pub fn default_policy() -> (p: RestartPolicy)
        ensures
            p.backoff_base_ms == 1000,
            p.backoff_max_ms == 60000,
    {
        RestartPolicy { backoff_base_ms: 1000, backoff_max_ms: 60000 }
    }

    pub fn delay(&self, attempt: u32) -> (d: u64)
        ensures
            d == self.delay_spec(attempt),
    {
        let shift: u32 = if attempt <= 1 {
            0
        } else if attempt - 1 >= 6 {
            6
        } else {
            attempt - 1
        };
        assert(pow2(shift as nat) <= 64 && (1u64 << shift) == pow2(shift as nat)) by {
            reveal_with_fuel(pow2, 7);
            assert(shift <= 6);
            assert(1u64 << 0u32 == 1) by (bit_vector);
            assert(1u64 << 1u32 == 2) by (bit_vector);
            assert(1u64 << 2u32 == 4) by (bit_vector);
            assert(1u64 << 3u32 == 8) by (bit_vector);
            assert(1u64 << 4u32 == 16) by (bit_vector);
            assert(1u64 << 5u32 == 32) by (bit_vector);
            assert(1u64 << 6u32 == 64) by (bit_vector);
        }
        let factor: u64 = 1u64 << shift;
        let scaled: u64 = match self.backoff_base_ms.checked_mul(factor) {
            Some(v) => v,
            None => u64::MAX,
        };
        if scaled <= self.backoff_max_ms {
            scaled
        } else {
            self.backoff_max_ms
        }
    }
}

impl Default for RestartPolicy {
    fn default() -> (p: RestartPolicy)
        ensures
            p.backoff_base_ms == 1000,
            p.backoff_max_ms == 60000,
    {
        RestartPolicy::default_policy()
    }
}

} // verus!
