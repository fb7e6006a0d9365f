use vstd::prelude::*;

verus! {

/// Parameters of an exponential backoff policy. Durations are in milliseconds;
/// the multiplier is the ratio `multiplier_num / multiplier_den`.
#[derive(Clone, Copy, Debug, PartialEq, Eq, Structural)]
pub struct BackoffConfig {
    pub initial_interval_ms: u64,
    pub multiplier_num: u64,
    pub multiplier_den: u64,
    pub max_interval_ms: u64,
    /// `None` means that the policy never runs out.
    pub max_elapsed_ms: Option<u64>,
}

impl BackoffConfig {
    /// A usable configuration: the multiplier is at least one and the first
    /// interval does not exceed the cap.
    pub open spec fn wf(&self) -> bool {
        &&& self.multiplier_den > 0
        &&& self.multiplier_num >= self.multiplier_den
        &&& self.initial_interval_ms <= self.max_interval_ms
    }

    /// Initial interval 1 s, multiplier 2, cap 16 s, at most 300 s in all.
    pub fn standard() -> (r: BackoffConfig)
        ensures
            r.wf(),
            r.initial_interval_ms == 1000,
            r.multiplier_num == 2,
            r.multiplier_den == 1,
            r.max_interval_ms == 16000,
            r.max_elapsed_ms == Some(300000u64),
    {
        BackoffConfig {
            initial_interval_ms: 1000,
            multiplier_num: 2,
            multiplier_den: 1,
            max_interval_ms: 16000,
            max_elapsed_ms: Some(300000),
        }
    }
}

/// The interval that follows `cur`: multiplied, then capped.
pub open spec fn grow(cfg: BackoffConfig, cur: int) -> int {
    let raw = cur * cfg.multiplier_num / cfg.multiplier_den as int;
    if raw > cfg.max_interval_ms {
        cfg.max_interval_ms as int
    } else {
        raw
    }
}

/// The interval handed out by the `k`-th successful call (counting from zero).
pub open spec fn interval_at(cfg: BackoffConfig, k: nat) -> int
    decreases k,
{
    if k == 0 {
        cfg.initial_interval_ms as int
    } else {
        grow(cfg, interval_at(cfg, (k - 1) as nat))
    }
}

/// The sum of the first `k` intervals.
pub open spec fn elapsed_after(cfg: BackoffConfig, k: nat) -> int
    decreases k,
{
    if k == 0 {
        0
    } else {
        elapsed_after(cfg, (k - 1) as nat) + interval_at(cfg, (k - 1) as nat)
    }
}

/// Whether the policy hands out an interval after `k` intervals were handed
/// out: it does unless that interval would take the total past the limit.
pub open spec fn admits(cfg: BackoffConfig, k: nat) -> bool {
    match cfg.max_elapsed_ms {
        None => true,
        Some(m) => elapsed_after(cfg, k + 1) <= m,
    }
}

/// Every interval lies between zero and the cap, and no interval is shorter
/// than the one before it.
pub proof fn lemma_interval_bounds(cfg: BackoffConfig, k: nat)
    requires
        cfg.wf(),
    ensures
        0 <= interval_at(cfg, k) <= cfg.max_interval_ms,
        interval_at(cfg, k) <= interval_at(cfg, k + 1),
    decreases k,
{
    if k > 0 {
        lemma_interval_bounds(cfg, (k - 1) as nat);
    }
    let cur = interval_at(cfg, k);
    let num = cfg.multiplier_num as int;
    let den = cfg.multiplier_den as int;
    assert(cur * num >= cur * den) by (nonlinear_arith)
        requires
            0 <= cur,
            num >= den,
    ;
    assert(cur * num / den >= cur) by (nonlinear_arith)
        requires
            cur * num >= cur * den,
            den > 0,
            0 <= cur,
    ;
}

/// Elapsed time never decreases as intervals are handed out, so once the
/// policy stops admitting, it stops for good.
pub proof fn lemma_admits_monotone(cfg: BackoffConfig, j: nat, k: nat)
    requires
        cfg.wf(),
        j <= k,
        admits(cfg, k),
    ensures
        admits(cfg, j),
    decreases k - j,
{
    if j < k {
        lemma_interval_bounds(cfg, k);
        lemma_admits_monotone(cfg, j, (k - 1) as nat);
    }
}

/// With the standard configuration the intervals are 1 s, 2 s, 4 s, 8 s,
/// and 16 s from then on.
pub proof fn lemma_standard_intervals(cfg: BackoffConfig, k: nat)
    requires
        cfg.initial_interval_ms == 1000,
        cfg.multiplier_num == 2,
        cfg.multiplier_den == 1,
        cfg.max_interval_ms == 16000,
    ensures
        interval_at(cfg, 0) == 1000,
        interval_at(cfg, 1) == 2000,
        interval_at(cfg, 2) == 4000,
        interval_at(cfg, 3) == 8000,
        k >= 4 ==> interval_at(cfg, k) == 16000,
    decreases k,
{
    reveal_with_fuel(interval_at, 5);
    if k > 4 {
        lemma_standard_intervals(cfg, (k - 1) as nat);
    }
}

/// The state of an exponential backoff policy.
pub struct ExponentialBackoff {
    config: BackoffConfig,
    current_ms: u64,
    elapsed_ms: u64,
    issued: Ghost<nat>,
}

impl ExponentialBackoff {
    /// The configuration the policy was made with.
    pub closed spec fn config(&self) -> BackoffConfig {
        self.config
    }

    /// How many intervals the policy has handed out.
    pub closed spec fn issued(&self) -> nat {
        self.issued@
    }

    pub closed spec fn wf(&self) -> bool {
        &&& self.config.wf()
        &&& self.current_ms == interval_at(self.config, self.issued@)
        &&& self.elapsed_ms == if elapsed_after(self.config, self.issued@) > u64::MAX {
            u64::MAX as int
        } else {
            elapsed_after(self.config, self.issued@)
        }
        &&& self.config.max_elapsed_ms matches Some(m) ==> elapsed_after(
            self.config,
            self.issued@,
        ) <= m
    }

    pub fn new(config: BackoffConfig) -> (r: ExponentialBackoff)
        requires
            config.wf(),
        ensures
            r.wf(),
            r.config() == config,
            r.issued() == 0,
    {
        ExponentialBackoff { config, current_ms: config.initial_interval_ms, elapsed_ms: 0, issued: Ghost(0) }
    }

    /// The next interval to wait, or `None` once waiting it would take the
    /// total waited past the configured limit.
    pub fn next_backoff(&mut self) -> (r: Option<u64>)
        requires
            old(self).wf(),
        ensures
            final(self).wf(),
            final(self).config() == old(self).config(),
            r.is_some() == admits(old(self).config(), old(self).issued()),
            r matches Some(d) ==> d == interval_at(old(self).config(), old(self).issued()),
            r.is_some() ==> final(self).issued() == old(self).issued() + 1,
            r.is_none() ==> final(self).issued() == old(self).issued(),
    {
        let cur = self.current_ms;
        proof {
            lemma_interval_bounds(self.config, self.issued@);
        }
        match self.config.max_elapsed_ms {
            Some(m) => {
                if cur > m - self.elapsed_ms {
                    return None;
                }
            },
            None => {},
        }
        let num = self.config.multiplier_num as u128;
        let den = self.config.multiplier_den as u128;
        let c = cur as u128;
        assert(c * num <= u64::MAX as int * u64::MAX as int) by (nonlinear_arith)
            requires
                c <= u64::MAX,
                num <= u64::MAX,
        ;
        let raw = c * num / den;
        let next = if raw > self.config.max_interval_ms as u128 {
            self.config.max_interval_ms
        } else {
            raw as u64
        };
        self.elapsed_ms = self.elapsed_ms.saturating_add(cur);
        self.current_ms = next;
        self.issued = Ghost(self.issued@ + 1);
        Some(cur)
    }
}

} // verus!
