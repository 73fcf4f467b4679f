//! Webhook configurations and the scheduling of low-balance alerts.
use vstd::prelude::*;

use crate::address::Address;
use crate::meter::elapsed;
use crate::text::{append_nat, nat_text};

verus! {

/// After an alert for a meter, no other is sent for this many seconds.
pub const ALERT_COOLDOWN_SECONDS: u64 = 43200;

/// Where a user wants low-balance alerts delivered, and whether delivery is on.
#[derive(Debug, PartialEq, Eq)]
pub struct WebhookConfig {
    pub url: String,
    pub user: Address,
    pub is_active: bool,
    pub created_at: u64,
}

impl Clone for WebhookConfig {
    fn clone(&self) -> (r: Self)
        ensures
            r == *self,
    {
        WebhookConfig {
            url: self.url.clone(),
            user: self.user.clone(),
            is_active: self.is_active,
            created_at: self.created_at,
        }
    }
}

/// A low-balance alert as it is stored: the meter, its user, the balance
/// left, the hours that balance lasts at the meter's rate (an `f32`, held as
/// its bit pattern) and when the alert was raised.
#[derive(Debug, PartialEq, Eq)]
pub struct LowBalanceAlert {
    pub meter_id: u64,
    pub user: Address,
    pub remaining_balance: i128,
    pub hours_remaining_bits: u32,
    pub timestamp: u64,
}

impl Clone for LowBalanceAlert {
    fn clone(&self) -> (r: Self)
        ensures
            r == *self,
    {
        LowBalanceAlert {
            meter_id: self.meter_id,
            user: self.user.clone(),
            remaining_balance: self.remaining_balance,
            hours_remaining_bits: self.hours_remaining_bits,
            timestamp: self.timestamp,
        }
    }
}

/// The storage key of the alert for `meter_id` raised at `timestamp`:
/// `alert:<meter_id>:<timestamp>`.
pub open spec fn alert_key_text(meter_id: u64, timestamp: u64) -> Seq<char> {
    "alert:"@ + nat_text(meter_id as nat) + ":"@ + nat_text(timestamp as nat)
}

/// Whether the cooldown since the last alert (if any) has run out at `now`.
pub open spec fn cooldown_over(last_alert: Option<u64>, now: u64) -> bool {
    match last_alert {
        Some(t) => elapsed(now, t) >= 43200,
        None => true,
    }
}

/// The storage key of the alert for `meter_id` raised at `timestamp`.
pub fn alert_key(meter_id: u64, timestamp: u64) -> (k: String)
    ensures
        k@ == alert_key_text(meter_id, timestamp),
{
    let mut k: String = "alert:".to_owned();
    append_nat(&mut k, meter_id as u128);
    k.append(":");
    append_nat(&mut k, timestamp as u128);
    k
}

} // verus!
