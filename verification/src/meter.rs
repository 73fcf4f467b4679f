//! A prepaid utility meter and the transitions that the contract applies
//! to a single meter: registration, top-up, usage deduction, capped
//! claims, heartbeats, shutdown and depletion forecasts.
use vstd::prelude::*;

use crate::address::{clone_opt_address, Address};

verus! {

/// Seconds in an hour: the unit of the claim cap and of the default cap.
pub const SECONDS_PER_HOUR: u64 = 3600;

/// A meter whose last heartbeat is older than this many seconds is offline.
pub const OFFLINE_AFTER_SECONDS: u64 = 3600;

/// `u64` values are taken modulo this when a depletion time is converted.
pub open spec fn u64_modulus() -> int {
    0x1_0000_0000_0000_0000
}

/// A prepaid meter of one user with one provider.
#[derive(Debug, PartialEq, Eq)]
pub struct Meter {
    pub user: Address,
    pub provider: Address,
    pub rate_per_unit: i128,
    pub balance: i128,
    pub last_update: u64,
    pub is_active: bool,
    pub token: Address,
    pub max_flow_rate_per_hour: i128,
    pub last_claim_time: u64,
    pub claimed_this_hour: i128,
    pub heartbeat: u64,
    pub parent_account: Option<Address>,
}

impl Clone for Meter {
    fn clone(&self) -> (r: Self)
        ensures
            r == *self,
    {
        Meter {
            user: self.user.clone(),
            provider: self.provider.clone(),
            rate_per_unit: self.rate_per_unit,
            balance: self.balance,
            last_update: self.last_update,
            is_active: self.is_active,
            token: self.token.clone(),
            max_flow_rate_per_hour: self.max_flow_rate_per_hour,
            last_claim_time: self.last_claim_time,
            claimed_this_hour: self.claimed_this_hour,
            heartbeat: self.heartbeat,
            parent_account: clone_opt_address(&self.parent_account),
        }
    }
}

/// Whether an integer fits in an `i128`.
pub open spec fn fits_i128(v: int) -> bool {
    i128::MIN <= v <= i128::MAX
}

/// Seconds from `since` to `now`, or zero when `now` is earlier.
pub open spec fn elapsed(now: u64, since: u64) -> int {
    if now >= since {
        now - since
    } else {
        0
    }
}

/// The smaller of two integers.
pub open spec fn min_int(a: int, b: int) -> int {
    if a <= b {
        a
    } else {
        b
    }
}

/// A freshly registered meter: empty, inactive, with an hourly cap of one
/// hour of flow at the given rate, and every clock set to `now`.
pub open spec fn registered_meter(
    user: Address,
    provider: Address,
    rate: i128,
    token: Address,
    parent_account: Option<Address>,
    now: u64,
) -> Meter {
    Meter {
        user,
        provider,
        rate_per_unit: rate,
        balance: 0,
        last_update: now,
        is_active: false,
        token,
        max_flow_rate_per_hour: (rate * 3600) as i128,
        last_claim_time: now,
        claimed_this_hour: 0,
        heartbeat: now,
        parent_account,
    }
}

/// Whether the hourly cap of a meter registered at `rate` fits in an `i128`.
pub open spec fn registration_fits(rate: i128) -> bool {
    fits_i128(rate * 3600)
}

/// The meter after a top-up of `amount` at time `now`.
pub open spec fn topped_up(m: Meter, amount: i128, now: u64) -> Meter {
    Meter { balance: (m.balance + amount) as i128, is_active: true, last_update: now, ..m }
}

/// The cost of `units` at the meter's rate.
pub open spec fn usage_cost(m: Meter, units: i128) -> int {
    units * m.rate_per_unit
}

/// What a usage report takes from the balance: the cost, but never more
/// than a positive balance, and nothing when the cost is not positive.
pub open spec fn deduction(m: Meter, units: i128) -> int {
    let cost = usage_cost(m, units);
    if cost > 0 {
        let actual = min_int(cost, m.balance as int);
        if actual > 0 {
            actual
        } else {
            0
        }
    } else {
        0
    }
}

/// The meter with its balance lowered by `taken`, stamped at `now`, and
/// deactivated when its balance is no longer positive.
pub open spec fn settled(m: Meter, taken: int, now: u64) -> Meter {
    let balance = m.balance - taken;
    Meter {
        balance: balance as i128,
        last_update: now,
        is_active: if balance <= 0 {
            false
        } else {
            m.is_active
        },
        ..m
    }
}

/// The meter after a usage report of `units` at time `now`.
pub open spec fn after_usage(m: Meter, units: i128, now: u64) -> Meter {
    settled(m, deduction(m, units), now)
}

/// What has accrued since the last update: `rate_per_unit` for each
/// elapsed second (the meter's one rate, per unit of flow and per second).
pub open spec fn accrued(m: Meter, now: u64) -> int {
    elapsed(now, m.last_update) * m.rate_per_unit
}

/// Whether a full hour has passed since the claim window opened.
pub open spec fn window_expired(m: Meter, now: u64) -> bool {
    elapsed(now, m.last_claim_time) >= 3600
}

/// What has been claimed in the current window, after a window that has
/// expired is reset.
pub open spec fn claimed_in_window(m: Meter, now: u64) -> int {
    if window_expired(m, now) {
        0
    } else {
        m.claimed_this_hour as int
    }
}

/// What a claim at `now` transfers to the provider, or a value that is not
/// positive when nothing is transferred: the accrued amount, at most the
/// balance, and at most what remains of the hourly cap.
pub open spec fn claim_amount(m: Meter, now: u64) -> int {
    if claimable(m, now) > 0 {
        min_int(claimable(m, now), m.max_flow_rate_per_hour - claimed_in_window(m, now))
    } else {
        0
    }
}

/// What a claim at `now` actually takes from the balance.
pub open spec fn claim_taken(m: Meter, now: u64) -> int {
    let amount = claim_amount(m, now);
    if amount > 0 {
        amount
    } else {
        0
    }
}

/// The meter after a claim at `now`.
pub open spec fn after_claim(m: Meter, now: u64) -> Meter {
    let taken = claim_taken(m, now);
    let base = settled(m, taken, now);
    Meter {
        claimed_this_hour: (claimed_in_window(m, now) + taken) as i128,
        last_claim_time: if window_expired(m, now) {
            now
        } else {
            m.last_claim_time
        },
        ..base
    }
}

/// What a claim at `now` could take before the hourly cap: the accrued
/// amount, at most the balance.
pub open spec fn claimable(m: Meter, now: u64) -> int {
    min_int(accrued(m, now), m.balance as int)
}

/// Whether the arithmetic of a claim at `now` stays within `i128`: the
/// accrued amount always, and what remains of the cap when something is
/// claimable.
pub open spec fn claim_fits(m: Meter, now: u64) -> bool {
    &&& fits_i128(accrued(m, now))
    &&& claimable(m, now) > 0 ==> fits_i128(
        m.max_flow_rate_per_hour - claimed_in_window(m, now),
    )
}

/// The forecast time at which the balance runs out: zero for a meter that
/// is empty or does not consume, else `now` plus the whole seconds the
/// balance lasts at `rate_per_unit` a second (taken modulo 2^64).
pub open spec fn depletion_time(m: Meter, now: u64) -> int {
    if m.balance <= 0 || m.rate_per_unit <= 0 {
        0
    } else {
        now + (m.balance / m.rate_per_unit) % u64_modulus()
    }
}

/// Whether a meter counts as offline at `now`.
pub open spec fn offline(m: Meter, now: u64) -> bool {
    elapsed(now, m.heartbeat) > 3600
}

/// `now - since`, or zero when `now` is earlier.
pub fn seconds_since(now: u64, since: u64) -> (r: u64)
    ensures
        r == elapsed(now, since),
{
    match now.checked_sub(since) {
        Some(d) => d,
        None => 0,
    }
}

impl Meter {
    /// A new meter of `user` with `provider`, charged at `rate` per unit.
    pub fn new(
        user: Address,
        provider: Address,
        rate: i128,
        token: Address,
        parent_account: Option<Address>,
        now: u64,
    ) -> (m: Meter)
        requires
            registration_fits(rate),
        ensures
            m == registered_meter(user, provider, rate, token, parent_account, now),
    {
        Meter {
            user,
            provider,
            rate_per_unit: rate,
            balance: 0,
            last_update: now,
            is_active: false,
            token,
            max_flow_rate_per_hour: rate * 3600,
            last_claim_time: now,
            claimed_this_hour: 0,
            heartbeat: now,
            parent_account,
        }
    }

    /// Credits `amount` to the balance and activates the meter.
    pub fn top_up(&mut self, amount: i128, now: u64)
        requires
            fits_i128(old(self).balance + amount),
        ensures
            *final(self) == topped_up(*old(self), amount, now),
    {
        self.balance = self.balance + amount;
        self.is_active = true;
        self.last_update = now;
    }

    /// Applies a usage report of `units`; returns the cost of the units and
    /// what was taken from the balance for the provider.
    pub fn record_usage(&mut self, units: i128, now: u64) -> (r: (i128, i128))
        requires
            fits_i128(usage_cost(*old(self), units)),
        ensures
            r.0 == usage_cost(*old(self), units),
            r.1 == deduction(*old(self), units),
            *final(self) == after_usage(*old(self), units, now),
    {
        let cost = units * self.rate_per_unit;
        let mut taken: i128 = 0;
        if cost > 0 {
            let actual = if cost > self.balance {
                self.balance
            } else {
                cost
            };
            if actual > 0 {
                self.balance = self.balance - actual;
                taken = actual;
            }
        }
        self.last_update = now;
        if self.balance <= 0 {
            self.is_active = false;
        }
        (cost, taken)
    }

    /// Claims what has accrued since the last update, within the balance and
    /// the hourly cap; returns the amount transferred to the provider
    /// (zero when nothing is).
    pub fn claim(&mut self, now: u64) -> (taken: i128)
        requires
            claim_fits(*old(self), now),
        ensures
            taken == claim_taken(*old(self), now),
            *final(self) == after_claim(*old(self), now),
    {
        let elapsed_secs = seconds_since(now, self.last_update);
        let amount = (elapsed_secs as i128) * self.rate_per_unit;
        let hours_passed = seconds_since(now, self.last_claim_time) / SECONDS_PER_HOUR;
        if hours_passed >= 1 {
            self.claimed_this_hour = 0;
            self.last_claim_time = now;
        }
        let claimable = if amount > self.balance {
            self.balance
        } else {
            amount
        };
        let final_claimable = if claimable > 0 {
            let remaining = self.max_flow_rate_per_hour - self.claimed_this_hour;
            if claimable > remaining {
                remaining
            } else {
                claimable
            }
        } else {
            0
        };
        let mut taken: i128 = 0;
        if final_claimable > 0 {
            self.balance = self.balance - final_claimable;
            self.claimed_this_hour = self.claimed_this_hour + final_claimable;
            taken = final_claimable;
        }
        self.last_update = now;
        if self.balance <= 0 {
            self.is_active = false;
        }
        taken
    }

    /// Disables the meter at once.
    pub fn shut_down(&mut self)
        ensures
            *final(self) == (Meter { is_active: false, ..*old(self) }),
    {
        self.is_active = false;
    }

    /// Sets the most that claims may take in one hour to `limit`.
    pub fn set_max_flow_rate(&mut self, limit: i128)
        ensures
            *final(self) == (Meter { max_flow_rate_per_hour: limit, ..*old(self) }),
    {
        self.max_flow_rate_per_hour = limit;
    }

    /// Records a heartbeat at `now`.
    pub fn beat(&mut self, now: u64)
        ensures
            *final(self) == (Meter { heartbeat: now, ..*old(self) }),
    {
        self.heartbeat = now;
    }

    /// When the balance is forecast to run out, seen from `now`.
    pub fn expected_depletion(&self, now: u64) -> (t: u64)
        requires
            depletion_time(*self, now) <= u64::MAX,
        ensures
            t == depletion_time(*self, now),
    {
        if self.balance <= 0 || self.rate_per_unit <= 0 {
            0
        } else {
            let seconds = self.balance / self.rate_per_unit;
            let wrapped = (seconds % 0x1_0000_0000_0000_0000i128) as u64;
            now + wrapped
        }
    }

    /// Whether the last heartbeat is more than an hour old at `now`.
    pub fn is_offline(&self, now: u64) -> (r: bool)
        ensures
            r == offline(*self, now),
    {
        seconds_since(now, self.heartbeat) > OFFLINE_AFTER_SECONDS
    }
}

} // verus!
