//! How requests are repeated: when, how often, and after which pause.
use crate::fixed::{
    div_round, lemma_round_div_exact, lemma_round_div_monotone, lemma_round_div_shift, max_of, min_of,
    round_div, ONE,
};
use crate::numeral::{parse_whole, whole_value};
use crate::text::{trim_text, trimmed};
use vstd::prelude::*;

verus! {

/// The terms on which requests are repeated.
#[derive(Clone, Copy, Debug, PartialEq, Eq, Structural)]
pub struct HttpPolicy {
    pub timeout_ms: u64,
    pub max_retries: usize,
    pub initial_backoff_ms: u64,
    pub max_backoff_ms: u64,
    /// The largest addition to a pause, as a fraction of it.
    pub jitter_pct: i128,
    pub jitter_seed: u64,
}

impl Default for HttpPolicy {
    /// Ten seconds for a request, three repetitions, pauses from 250 ms up to five
    /// seconds, and 20% jitter.
    fn default() -> (p: HttpPolicy)
        ensures
            p == (HttpPolicy {
                timeout_ms: 10_000,
                max_retries: 3,
                initial_backoff_ms: 250,
                max_backoff_ms: 5_000,
                jitter_pct: 200_000_000_000,
                jitter_seed: 0,
            }),
    {
        HttpPolicy {
            timeout_ms: 10_000,
            max_retries: 3,
            initial_backoff_ms: 250,
            max_backoff_ms: 5_000,
            jitter_pct: 200_000_000_000,
            jitter_seed: 0,
        }
    }
}

/// What the operator set of a policy.
#[derive(Clone, Copy, Debug, PartialEq, Eq, Structural)]
pub struct PolicySettings {
    pub timeout_secs: Option<u64>,
    pub max_retries: Option<usize>,
    pub backoff_ms: Option<u64>,
    pub backoff_max_ms: Option<u64>,
    pub jitter_pct: Option<i128>,
    pub jitter_seed: Option<u64>,
}

/// The policy with what the operator set: a timeout of zero and a negative jitter
/// are left out. Without a seed, the given one is used.
pub fn policy_with(set: &PolicySettings, seed: u64) -> (p: HttpPolicy)
    ensures
        p.timeout_ms == (if set.timeout_secs is Some && set.timeout_secs->0 > 0 {
            min_of(set.timeout_secs->0 * 1000, u64::MAX as int)
        } else {
            10_000
        }),
        p.max_retries == (if set.max_retries is Some {
            set.max_retries->0
        } else {
            3
        }),
        p.initial_backoff_ms == (if set.backoff_ms is Some {
            set.backoff_ms->0
        } else {
            250
        }),
        p.max_backoff_ms == (if set.backoff_max_ms is Some {
            set.backoff_max_ms->0
        } else {
            5_000
        }),
        p.jitter_pct == (if set.jitter_pct is Some && set.jitter_pct->0 >= 0 {
            set.jitter_pct->0
        } else {
            200_000_000_000
        }),
        p.jitter_seed == (if set.jitter_seed is Some {
            set.jitter_seed->0
        } else {
            seed
        }),
{
    let mut p: HttpPolicy = HttpPolicy {
        timeout_ms: 10_000,
        max_retries: 3,
        initial_backoff_ms: 250,
        max_backoff_ms: 5_000,
        jitter_pct: 200_000_000_000,
        jitter_seed: seed,
    };
    if let Some(s) = set.timeout_secs {
        if s > 0 {
            p.timeout_ms = if s > u64::MAX / 1000 {
                u64::MAX
            } else {
                s * 1000
            };
        }
    }
    if let Some(n) = set.max_retries {
        p.max_retries = n;
    }
    if let Some(ms) = set.backoff_ms {
        p.initial_backoff_ms = ms;
    }
    if let Some(ms) = set.backoff_max_ms {
        p.max_backoff_ms = ms;
    }
    if let Some(x) = set.jitter_pct {
        if x >= 0 {
            p.jitter_pct = x;
        }
    }
    if let Some(s) = set.jitter_seed {
        p.jitter_seed = s;
    }
    p
}

/// Whether a status asks for another try: too many requests, or a fault of the
/// server.
pub open spec fn worth_repeating(status: u16) -> bool {
    status == 429 || 500 <= status < 600
}

/// Whether a status asks for another try.
pub fn is_retryable_status(status: u16) -> (r: bool)
    ensures
        r == worth_repeating(status),
{
    status == 429 || (500 <= status && status < 600)
}

/// Two to the power `k`.
pub open spec fn pow2(k: nat) -> nat
    decreases k,
{
    if k == 0 {
        1
    } else {
        2 * pow2((k - 1) as nat)
    }
}

/// The pause after an attempt: it doubles with each one, up to the limit.
pub open spec fn backoff(p: HttpPolicy, attempt: int) -> int {
    min_of(p.initial_backoff_ms * pow2(min_of(attempt, 30) as nat), p.max_backoff_ms as int)
}

proof fn lemma_pow2_bound(k: nat)
    requires
        k <= 30,
    ensures
        1 <= pow2(k) <= 1_073_741_824,
{
    assert(pow2(10) == 1024) by {
        reveal_with_fuel(pow2, 11);
    }
    lemma_pow2_add(10, 10);
    lemma_pow2_add(20, 10);
    assert(pow2(30) == 1_073_741_824);
    lemma_pow2_monotone(k, 30);
    lemma_pow2_monotone(0, k);
}

proof fn lemma_pow2_add(j: nat, k: nat)
    ensures
        pow2(j + k) == pow2(j) * pow2(k),
    decreases k,
{
    if k > 0 {
        lemma_pow2_add(j, (k - 1) as nat);
        assert(j + k - 1 == j + (k - 1) as nat);
        assert(2 * (pow2(j) * pow2((k - 1) as nat)) == pow2(j) * (2 * pow2((k - 1) as nat)))
            by (nonlinear_arith);
    } else {
        assert(pow2(j) * 1 == pow2(j)) by (nonlinear_arith);
    }
}

proof fn lemma_pow2_monotone(j: nat, k: nat)
    requires
        j <= k,
    ensures
        pow2(j) <= pow2(k),
    decreases k,
{
    if j < k {
        lemma_pow2_monotone(j, (k - 1) as nat);
    }
}

/// The pause after an attempt, in milliseconds.
pub fn backoff_for_attempt(policy: &HttpPolicy, attempt: usize) -> (ms: u64)
    ensures
        ms == backoff(*policy, attempt as int),
{
    let shift: usize = if attempt < 30 {
        attempt
    } else {
        30
    };
    let mut factor: u128 = 1;
    let mut i: usize = 0;
    while i < shift
        invariant
            i <= shift <= 30,
            factor == pow2(i as nat),
        decreases shift - i,
    {
        proof {
            lemma_pow2_bound((i + 1) as nat);
        }
        factor = 2 * factor;
        i += 1;
    }
    proof {
        lemma_pow2_bound(shift as nat);
        assert(policy.initial_backoff_ms * factor <= 0xffff_ffff_ffff_ffff * 1_073_741_824)
            by (nonlinear_arith)
            requires
                0 <= policy.initial_backoff_ms <= 0xffff_ffff_ffff_ffff,
                0 <= factor <= 1_073_741_824,
        ;
    }
    let ms: u128 = policy.initial_backoff_ms as u128 * factor;
    if ms < policy.max_backoff_ms as u128 {
        ms as u64
    } else {
        policy.max_backoff_ms
    }
}

/// A pause never exceeds the limit, and never gets shorter from one attempt to the
/// next.
pub proof fn law_backoff_is_bounded_and_grows(p: HttpPolicy, attempt: int)
    requires
        attempt >= 0,
    ensures
        0 <= backoff(p, attempt) <= p.max_backoff_ms,
        backoff(p, attempt) <= backoff(p, attempt + 1),
{
    let j = min_of(attempt, 30) as nat;
    let k = min_of(attempt + 1, 30) as nat;
    lemma_pow2_bound(j);
    lemma_pow2_monotone(j, k);
    assert(0 <= p.initial_backoff_ms * pow2(j) <= p.initial_backoff_ms * pow2(k)) by (nonlinear_arith)
        requires
            0 <= p.initial_backoff_ms,
            0 <= pow2(j) <= pow2(k),
    ;
}

/// A number that looks random but depends on `x` alone.
pub open spec fn mixed(x: u64) -> u64 {
    let a = vstd::wrapping::u64_specs::wrapping_add(x, 0x9E37_79B9_7F4A_7C15u64);
    let b = vstd::wrapping::u64_specs::wrapping_mul(
        a ^ (a >> 30u64),
        0xBF58_476D_1CE4_E5B9u64,
    );
    let c = vstd::wrapping::u64_specs::wrapping_mul(
        b ^ (b >> 27u64),
        0x94D0_49BB_1331_11EBu64,
    );
    c ^ (c >> 31u64)
}

/// The SplitMix64 generator: one step from the state `x`.
pub fn splitmix64(x: u64) -> (r: u64)
    ensures
        r == mixed(x),
{
    let a: u64 = x.wrapping_add(0x9E37_79B9_7F4A_7C15u64);
    let b: u64 = (a ^ (a >> 30u64)).wrapping_mul(0xBF58_476D_1CE4_E5B9u64);
    let c: u64 = (b ^ (b >> 27u64)).wrapping_mul(0x94D0_49BB_1331_11EBu64);
    c ^ (c >> 31u64)
}

/// The most that jitter adds to a pause: its fraction of it, as far as that can be
/// counted.
pub open spec fn jitter_top(p: HttpPolicy, base_ms: int) -> int {
    min_of(round_div(base_ms * p.jitter_pct, ONE as int), u64::MAX as int)
}

/// The number that decides the jitter of an attempt.
pub open spec fn jitter_key(p: HttpPolicy, request_id: u64, attempt: usize) -> u64 {
    mixed(
        p.jitter_seed ^ request_id ^ vstd::wrapping::u64_specs::wrapping_mul(
            attempt as u64,
            0xD6E8_FEB8_6659_FD93u64,
        ),
    )
}

/// A pause with its jitter, as far as that can be counted.
pub open spec fn jittered(p: HttpPolicy, request_id: u64, attempt: usize, base_ms: u64) -> int {
    let top = jitter_top(p, base_ms as int);
    if p.jitter_pct <= 0 || base_ms == 0 || top <= 0 {
        base_ms as int
    } else {
        min_of(
            base_ms + jitter_key(p, request_id, attempt) as int % (top + 1),
            u64::MAX as int,
        )
    }
}

/// The most that jitter adds to a pause. See [`jitter_top`].
fn most_jitter(base_ms: u64, jitter_pct: i128) -> (top: u64)
    requires
        base_ms > 0,
        jitter_pct > 0,
    ensures
        top == min_of(round_div(base_ms * jitter_pct, ONE as int), u64::MAX as int),
{
    let whole: i128 = jitter_pct / ONE;
    let rest: i128 = jitter_pct - whole * ONE;
    proof {
        let q = base_ms * whole;
        assert(base_ms * jitter_pct == base_ms * rest + q * ONE) by (nonlinear_arith)
            requires
                jitter_pct == whole * ONE + rest,
                q == base_ms * whole,
        ;
        lemma_round_div_shift(base_ms * rest, q, ONE as int);
        assert(0 <= base_ms * rest <= 0xffff_ffff_ffff_ffff * ONE) by (nonlinear_arith)
            requires
                0 <= base_ms <= 0xffff_ffff_ffff_ffff,
                0 <= rest <= ONE,
        ;
        lemma_round_div_monotone(0, base_ms * rest, ONE as int);
        lemma_round_div_monotone(base_ms * rest, 0xffff_ffff_ffff_ffff * ONE, ONE as int);
        lemma_round_div_exact(0, ONE as int);
        lemma_round_div_exact(0xffff_ffff_ffff_ffff, ONE as int);
        let fits = (u64::MAX / base_ms) as int;
        vstd::arithmetic::div_mod::lemma_fundamental_div_mod(u64::MAX as int, base_ms as int);
        assert(whole <= fits ==> q <= u64::MAX) by (nonlinear_arith)
            requires
                u64::MAX as int == base_ms * fits + (u64::MAX as int) % (base_ms as int),
                0 <= (u64::MAX as int) % (base_ms as int),
                base_ms > 0,
                q == base_ms * whole,
        ;
        assert(whole > fits ==> q > u64::MAX) by (nonlinear_arith)
            requires
                u64::MAX as int == base_ms * fits + (u64::MAX as int) % (base_ms as int),
                (u64::MAX as int) % (base_ms as int) < base_ms,
                base_ms > 0,
                q == base_ms * whole,
        ;
    }
    if whole > (u64::MAX / base_ms) as i128 {
        return u64::MAX;
    }
    assert(0 <= base_ms * whole) by (nonlinear_arith)
        requires
            0 <= base_ms,
            0 <= whole,
    ;
    let top: i128 = base_ms as i128 * whole + div_round(base_ms as i128 * rest, ONE);
    if top < u64::MAX as i128 {
        top as u64
    } else {
        u64::MAX
    }
}

/// Adds jitter to a pause: up to the given fraction of it, the same for the same
/// seed, request and attempt.
pub fn jitter_add(policy: &HttpPolicy, request_id: u64, attempt: usize, base_ms: u64) -> (ms: u64)
    ensures
        ms == jittered(*policy, request_id, attempt, base_ms),
{
    if policy.jitter_pct <= 0 || base_ms == 0 {
        return base_ms;
    }
    let top: u64 = most_jitter(base_ms, policy.jitter_pct);
    if top == 0 {
        return base_ms;
    }
    let x: u64 = policy.jitter_seed ^ request_id ^ (attempt as u64).wrapping_mul(
        0xD6E8_FEB8_6659_FD93u64,
    );
    let r: u64 = splitmix64(x);
    let jitter: u64 = if top == u64::MAX {
        proof {
            vstd::arithmetic::div_mod::lemma_small_mod(r as nat, (u64::MAX + 1) as nat);
        }
        r
    } else {
        r % (top + 1)
    };
    if jitter > u64::MAX - base_ms {
        u64::MAX
    } else {
        base_ms + jitter
    }
}

/// Jitter never shortens a pause, and adds no more than its fraction of it.
pub proof fn law_jitter_only_adds(p: HttpPolicy, request_id: u64, attempt: usize, base_ms: u64)
    ensures
        base_ms <= jittered(p, request_id, attempt, base_ms) <= base_ms + max_of(
            jitter_top(p, base_ms as int),
            0,
        ),
        p.jitter_pct <= 0 ==> jittered(p, request_id, attempt, base_ms) == base_ms,
{
    let top = jitter_top(p, base_ms as int);
    if top > 0 {
        vstd::arithmetic::div_mod::lemma_mod_bound(
            jitter_key(p, request_id, attempt) as int,
            top + 1,
        );
    }
}

/// Multiplying by a number that has an inverse loses nothing.
proof fn lemma_wrapping_mul_injective(x: u64, y: u64, c: u64, inverse: int, k: int)
    requires
        c * inverse == 1 + k * 0x1_0000_0000_0000_0000,
        vstd::wrapping::u64_specs::wrapping_mul(x, c) == vstd::wrapping::u64_specs::wrapping_mul(y, c),
    ensures
        x == y,
{
    let m = 0x1_0000_0000_0000_0000int;
    let a = x * c;
    let b = y * c;
    vstd::arithmetic::div_mod::lemma_fundamental_div_mod(a, m);
    vstd::arithmetic::div_mod::lemma_fundamental_div_mod(b, m);
    let q = a / m - b / m;
    assert(a - b == m * q) by (nonlinear_arith)
        requires
            a == m * (a / m) + a % m,
            b == m * (b / m) + b % m,
            a % m == b % m,
            q == a / m - b / m,
    ;
    let d = x - y;
    assert(d * c == a - b) by (nonlinear_arith)
        requires
            d == x - y,
            a == x * c,
            b == y * c,
    ;
    assert(d == m * (q * inverse - d * k)) by (nonlinear_arith)
        requires
            d * c == m * q,
            c * inverse == 1 + k * m,
    ;
    let t = q * inverse - d * k;
    assert(t == 0) by (nonlinear_arith)
        requires
            d == m * t,
            -m < d < m,
            m > 0,
    ;
}

/// Different numbers are mixed to different numbers.
proof fn lemma_mixed_injective(x: u64, y: u64)
    requires
        mixed(x) == mixed(y),
    ensures
        x == y,
{
    let xa = vstd::wrapping::u64_specs::wrapping_add(x, 0x9E37_79B9_7F4A_7C15u64);
    let ya = vstd::wrapping::u64_specs::wrapping_add(y, 0x9E37_79B9_7F4A_7C15u64);
    let xs = xa ^ (xa >> 30u64);
    let ys = ya ^ (ya >> 30u64);
    let xb = vstd::wrapping::u64_specs::wrapping_mul(xs, 0xBF58_476D_1CE4_E5B9u64);
    let yb = vstd::wrapping::u64_specs::wrapping_mul(ys, 0xBF58_476D_1CE4_E5B9u64);
    let xt = xb ^ (xb >> 27u64);
    let yt = yb ^ (yb >> 27u64);
    let xc = vstd::wrapping::u64_specs::wrapping_mul(xt, 0x94D0_49BB_1331_11EBu64);
    let yc = vstd::wrapping::u64_specs::wrapping_mul(yt, 0x94D0_49BB_1331_11EBu64);
    assert(xc == yc) by (bit_vector)
        requires
            xc ^ (xc >> 31u64) == yc ^ (yc >> 31u64),
    ;
    lemma_wrapping_mul_injective(
        xt,
        yt,
        0x94D0_49BB_1331_11EBu64,
        3573116690164977347,
        2077064247507883091,
    );
    assert(xb == yb) by (bit_vector)
        requires
            xb ^ (xb >> 27u64) == yb ^ (yb >> 27u64),
    ;
    lemma_wrapping_mul_injective(
        xs,
        ys,
        0xBF58_476D_1CE4_E5B9u64,
        10871156337175269513,
        8125545580553827436,
    );
    assert(xa == ya) by (bit_vector)
        requires
            xa ^ (xa >> 30u64) == ya ^ (ya >> 30u64),
    ;
}

/// The attempts of a request draw different numbers for their jitter.
pub proof fn law_attempts_draw_differently(p: HttpPolicy, request_id: u64, a: usize, b: usize)
    requires
        a != b,
    ensures
        jitter_key(p, request_id, a) != jitter_key(p, request_id, b),
{
    if jitter_key(p, request_id, a) == jitter_key(p, request_id, b) {
        let s = p.jitter_seed ^ request_id;
        let x = vstd::wrapping::u64_specs::wrapping_mul(a as u64, 0xD6E8_FEB8_6659_FD93u64);
        let y = vstd::wrapping::u64_specs::wrapping_mul(b as u64, 0xD6E8_FEB8_6659_FD93u64);
        lemma_mixed_injective(s ^ x, s ^ y);
        assert(x == y) by (bit_vector)
            requires
                s ^ x == s ^ y,
        ;
        lemma_wrapping_mul_injective(
            a as u64,
            b as u64,
            0xD6E8_FEB8_6659_FD93u64,
            14982988110149298331,
            12578109465933073204,
        );
    }
}

/// The pause that a reply asks for, in milliseconds: whole seconds, with white space
/// around them or none.
pub open spec fn asked_pause(text: Seq<char>) -> Option<u64> {
    match whole_value(trimmed(text), u64::MAX as int) {
        Some(secs) => Some(min_of(1000 * secs, u64::MAX as int) as u64),
        None => None,
    }
}

/// Reads the pause that a reply asks for. A date is not read.
pub fn parse_retry_after(text: &str) -> (r: Option<u64>)
    ensures
        r == asked_pause(text@),
{
    match parse_whole(trim_text(text).as_str(), u64::MAX) {
        Some(secs) => if secs <= u64::MAX / 1000 {
            Some(1000 * secs)
        } else {
            Some(u64::MAX)
        },
        None => None,
    }
}

/// What came of an attempt.
#[derive(Clone, Copy, Debug, PartialEq, Eq, Structural)]
pub enum Attempt {
    /// A reply, with the pause that it asks for and whether its body is blank.
    Reply { status: u16, retry_after_ms: Option<u64>, blank: bool },
    /// No reply.
    Failure { retryable: bool },
}

/// What comes after an attempt.
#[derive(Clone, Copy, Debug, PartialEq, Eq, Structural)]
pub enum Next {
    /// Pause, then try again.
    Retry { pause_ms: u64 },
    /// The reply is the result.
    Done,
    /// The last reply reported success without a body.
    EmptyBody,
    /// The failure is the result.
    Fail,
}

/// The pause before the next attempt. A reply that reports too many requests may
/// ask for a longer one.
pub open spec fn pause_after(p: HttpPolicy, request_id: u64, attempt: usize, a: Attempt) -> int {
    let own = backoff(p, attempt as int);
    let base = match a {
        Attempt::Reply { status, retry_after_ms: Some(ra), .. } => if status == 429 {
            max_of(own, ra as int)
        } else {
            own
        },
        _ => own,
    };
    jittered(p, request_id, attempt, base as u64)
}

/// Whether an attempt is worth repeating: a reply whose status says so, a success
/// without a body where one is needed, or a failure of the connection.
pub open spec fn repeatable(a: Attempt, needs_body: bool) -> bool {
    match a {
        Attempt::Reply { status, blank, .. } => worth_repeating(status) || (needs_body && blank
            && 200 <= status < 300),
        Attempt::Failure { retryable } => retryable,
    }
}

/// What comes after an attempt.
pub open spec fn next_of(
    p: HttpPolicy,
    request_id: u64,
    attempt: usize,
    a: Attempt,
    needs_body: bool,
) -> Next {
    if repeatable(a, needs_body) && attempt < p.max_retries {
        Next::Retry { pause_ms: pause_after(p, request_id, attempt, a) as u64 }
    } else {
        match a {
            Attempt::Reply { status, blank, .. } => if needs_body && blank && 200 <= status < 300 {
                Next::EmptyBody
            } else {
                Next::Done
            },
            Attempt::Failure { .. } => Next::Fail,
        }
    }
}

/// Decides what comes after an attempt. See [`next_of`].
pub fn after_attempt(
    policy: &HttpPolicy,
    request_id: u64,
    attempt: usize,
    a: Attempt,
    needs_body: bool,
) -> (n: Next)
    ensures
        n == next_of(*policy, request_id, attempt, a, needs_body),
{
    let mut pause: u64 = backoff_for_attempt(policy, attempt);
    let mut again: bool = false;
    let mut otherwise: Next = Next::Fail;
    match a {
        Attempt::Reply { status, retry_after_ms, blank } => {
            let empty: bool = needs_body && blank && 200 <= status && status < 300;
            again = empty || is_retryable_status(status);
            otherwise = if empty {
                Next::EmptyBody
            } else {
                Next::Done
            };
            if status == 429 {
                if let Some(ra) = retry_after_ms {
                    if ra > pause {
                        pause = ra;
                    }
                }
            }
        },
        Attempt::Failure { retryable } => {
            again = retryable;
        },
    }
    if again && attempt < policy.max_retries {
        Next::Retry { pause_ms: jitter_add(policy, request_id, attempt, pause) }
    } else {
        otherwise
    }
}

/// A request is tried at most once more than it may be repeated, and a reply that
/// asks for no repetition ends it at once.
pub proof fn law_retries_are_limited(
    p: HttpPolicy,
    request_id: u64,
    attempt: usize,
    a: Attempt,
    needs_body: bool,
)
    ensures
        attempt >= p.max_retries ==> !(next_of(p, request_id, attempt, a, needs_body) is Retry),
        !repeatable(a, needs_body) ==> !(next_of(p, request_id, attempt, a, needs_body) is Retry),
{
}

/// The pause doubles with each attempt until it reaches its bound; the first one is the
/// initial pause.
pub proof fn law_backoff_doubles(p: HttpPolicy, attempt: int)
    requires
        0 <= attempt < 30,
    ensures
        p.initial_backoff_ms <= p.max_backoff_ms ==> backoff(p, 0) == p.initial_backoff_ms,
        2 * backoff(p, attempt) <= p.max_backoff_ms ==> backoff(p, attempt + 1) == 2 * backoff(
            p,
            attempt,
        ),
        2 * backoff(p, attempt) > p.max_backoff_ms ==> backoff(p, attempt + 1) == p.max_backoff_ms,
{
    let k = attempt as nat;
    let a = p.initial_backoff_ms * pow2(k);
    assert(pow2((attempt + 1) as nat) == 2 * pow2(k));
    assert(p.initial_backoff_ms * pow2((attempt + 1) as nat) == 2 * a) by (nonlinear_arith)
        requires
            pow2((attempt + 1) as nat) == 2 * pow2(k),
            a == p.initial_backoff_ms * pow2(k),
    ;
    assert(a >= 0) by (nonlinear_arith)
        requires
            a == p.initial_backoff_ms * pow2(k),
    ;
    assert(p.initial_backoff_ms * pow2(0) == p.initial_backoff_ms) by {
        assert(pow2(0) == 1);
    }
}

/// Worth repeating are a refusal for too many requests and the server's own failures.
pub proof fn law_statuses_worth_repeating(status: u16)
    ensures
        worth_repeating(status) <==> status == 429 || (status >= 500 && status <= 599),
{
}

/// After a refusal for too many requests the pause is no shorter than the server asked for;
/// after any other reply what it asked for does not count.
pub proof fn law_asked_pause_is_kept(
    p: HttpPolicy,
    request_id: u64,
    attempt: usize,
    status: u16,
    blank: bool,
    ra: u64,
)
    ensures
        status == 429 ==> pause_after(
            p,
            request_id,
            attempt,
            Attempt::Reply { status, blank, retry_after_ms: Some(ra) },
        ) >= ra,
        pause_after(
            p,
            request_id,
            attempt,
            Attempt::Reply { status, blank, retry_after_ms: Some(ra) },
        ) >= backoff(p, attempt as int),
        status != 429 ==> pause_after(
            p,
            request_id,
            attempt,
            Attempt::Reply { status, blank, retry_after_ms: Some(ra) },
        ) == pause_after(
            p,
            request_id,
            attempt,
            Attempt::Reply { status, blank, retry_after_ms: None },
        ),
{
    law_backoff_is_bounded_and_grows(p, attempt as int);
    let own = backoff(p, attempt as int);
    let base = if status == 429 {
        max_of(own, ra as int)
    } else {
        own
    };
    law_jitter_only_adds(p, request_id, attempt, base as u64);
}

/// What comes next, in full: a repeatable attempt is repeated while retries are left; then a
/// blank reply that needs a body is told apart from one that is done, and a failure fails.
pub proof fn law_next_step_by_cases(
    p: HttpPolicy,
    request_id: u64,
    attempt: usize,
    a: Attempt,
    needs_body: bool,
)
    ensures
        ({
            let n = next_of(p, request_id, attempt, a, needs_body);
            let missing = a is Reply && needs_body && a->blank && 200 <= a->status && a->status
                <= 299;
            let again = missing || (a is Reply && (a->status == 429 || (500 <= a->status && a->status
                <= 599))) || (a is Failure && a->retryable);
            &&& n is Retry <==> again && attempt < p.max_retries
            &&& n is EmptyBody <==> missing && attempt >= p.max_retries
            &&& n is Fail <==> a is Failure && (!a->retryable || attempt >= p.max_retries)
            &&& n is Done <==> a is Reply && !missing && !(again && attempt < p.max_retries)
        }),
{
}

/// A pause asked for in seconds counts in milliseconds.
pub proof fn law_seconds_become_milliseconds(text: Seq<char>)
    ensures
        asked_pause(text) is Some <==> whole_value(trimmed(text), u64::MAX as int) is Some,
        asked_pause(text) is Some && asked_pause(text)->0 < u64::MAX && whole_value(
            trimmed(text),
            u64::MAX as int,
        )->0 >= 0 ==> asked_pause(text)->0 == 1_000 * whole_value(
            trimmed(text),
            u64::MAX as int,
        )->0,
{
}

} // verus!
