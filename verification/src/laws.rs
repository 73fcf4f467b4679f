//! Properties of the contract that span its operations.
use vstd::prelude::*;

use crate::address::Address;
use crate::billing::{distinct_ids, lemma_without_id, without_id, BillingGroupView};
use crate::contract::{
    alert_record,
    claim_effects,
    members_topped_up,
    pending_alerts,
    usage_effects,
    ContractState,
    Effect,
};
use crate::webhook::alert_key_text;
use crate::webhook::WebhookConfig;
use crate::meter::{
    after_claim,
    after_usage,
    claim_taken,
    claimed_in_window,
    deduction,
    depletion_time,
    elapsed,
    offline,
    fits_i128,
    registered_meter,
    topped_up,
    Meter,
};

verus! {

/// A claim never takes more than what remains of the hourly cap, and a
/// meter whose window was within its cap stays within it after the claim.
pub proof fn lemma_claim_respects_hourly_cap(m: Meter, now: u64)
    ensures
        claim_taken(m, now) > 0 ==> claim_taken(m, now) <= m.max_flow_rate_per_hour
            - claimed_in_window(m, now),
        claimed_in_window(m, now) <= m.max_flow_rate_per_hour ==> after_claim(
            m,
            now,
        ).claimed_this_hour <= m.max_flow_rate_per_hour,
{
}

/// An hourly limit that the user sets binds the provider's claims: after
/// meter `id` is given the limit `limit`, a claim on it takes no more than
/// what remains of `limit` in the current window, and nothing else of the
/// meter has changed.
pub proof fn lemma_user_limit_caps_claims(s: ContractState, id: u64, limit: i128, now: u64)
    requires
        s.wf(),
        s.meter(id) is Some,
    ensures
        ({
            let old_m = s.meter(id).unwrap();
            let t = s.with_meter(id, Meter { max_flow_rate_per_hour: limit, ..old_m });
            let m = t.meter(id).unwrap();
            &&& m == (Meter { max_flow_rate_per_hour: limit, ..old_m })
            &&& claim_taken(m, now) > 0 ==> claim_taken(m, now) <= limit - claimed_in_window(
                m,
                now,
            )
        }),
{
    let old_m = s.meter(id).unwrap();
    let t = s.with_meter(id, Meter { max_flow_rate_per_hour: limit, ..old_m });
    lemma_claim_respects_hourly_cap(t.meter(id).unwrap(), now);
}

/// A claim never takes more than the balance, never takes from a balance
/// that is not positive, never leaves a non-negative balance negative, and
/// what it takes is exactly what leaves the balance.
pub proof fn lemma_claim_never_overdraws(m: Meter, now: u64)
    ensures
        0 <= claim_taken(m, now),
        claim_taken(m, now) > 0 ==> claim_taken(m, now) <= m.balance,
        m.balance >= 0 ==> after_claim(m, now).balance >= 0,
        after_claim(m, now).balance + claim_taken(m, now) == m.balance,
{
}

/// A usage report never takes more than the balance, never takes from a
/// balance that is not positive, and what it takes is exactly what leaves
/// the balance.
pub proof fn lemma_usage_never_overdraws(m: Meter, units: i128, now: u64)
    ensures
        0 <= deduction(m, units),
        deduction(m, units) > 0 ==> deduction(m, units) <= m.balance,
        m.balance >= 0 ==> after_usage(m, units, now).balance >= 0,
        after_usage(m, units, now).balance + deduction(m, units) == m.balance,
{
}

/// After a claim or a usage report a meter whose balance is not positive
/// is inactive, and every claim or report stamps the meter's last update.
pub proof fn lemma_empty_meters_are_inactive(m: Meter, units: i128, now: u64)
    ensures
        after_claim(m, now).balance <= 0 ==> !after_claim(m, now).is_active,
        after_usage(m, units, now).balance <= 0 ==> !after_usage(m, units, now).is_active,
        after_claim(m, now).last_update == now,
        after_usage(m, units, now).last_update == now,
{
}

/// The depletion forecast of a funded, consuming meter is `now` plus the
/// whole seconds its balance lasts at its rate, when that fits a `u64`.
pub proof fn lemma_depletion_brackets_balance(m: Meter, now: u64)
    requires
        m.balance > 0,
        m.rate_per_unit > 0,
        m.balance / m.rate_per_unit < 0x1_0000_0000_0000_0000,
    ensures
        ({
            let secs = depletion_time(m, now) - now;
            &&& secs * m.rate_per_unit <= m.balance
            &&& m.balance < (secs + 1) * m.rate_per_unit
        }),
{
    let b = m.balance as int;
    let r = m.rate_per_unit as int;
    let q = b / r;
    assert(depletion_time(m, now) - now == q);
    assert(q * r <= b < (q + 1) * r) by (nonlinear_arith)
        requires
            b > 0,
            r > 0,
            q == b / r,
    ;
}

/// A meter whose heartbeat was at `beat` is online until an hour after it
/// and offline from then on.
pub proof fn lemma_heartbeat_keeps_meter_online(m: Meter, beat: u64, later: u64)
    ensures
        later <= beat + 3600 ==> !offline(Meter { heartbeat: beat, ..m }, later),
        later > beat + 3600 ==> offline(Meter { heartbeat: beat, ..m }, later),
{
}

/// Registering a meter gives it the next id, stores exactly the new meter
/// under it, and leaves every earlier meter as it was.
pub proof fn lemma_registration_stores_meter(
    s: ContractState,
    user: Address,
    provider: Address,
    rate: i128,
    token: Address,
    parent_account: Option<Address>,
    now: u64,
)
    requires
        s.wf(),
        s.meters.len() < u64::MAX,
    ensures
        ({
            let t = s.after_registration(user, provider, rate, token, parent_account, now);
            let id = (s.meters.len() + 1) as u64;
            &&& t.meter(id) == Some(registered_meter(user, provider, rate, token, parent_account, now))
            &&& forall|j: u64| 1 <= j <= s.meters.len() ==> #[trigger] t.meter(j) == s.meter(j)
            &&& t.meters.len() == s.meters.len() + 1
        }),
{
}

/// A meter registered with a parent account is listed in that account's
/// billing group.
pub proof fn lemma_registration_joins_parent_group(
    s: ContractState,
    user: Address,
    provider: Address,
    rate: i128,
    token: Address,
    parent: Address,
    now: u64,
)
    requires
        s.wf(),
        s.meters.len() < u64::MAX,
    ensures
        ({
            let t = s.after_registration(user, provider, rate, token, Some(parent), now);
            let id = (s.meters.len() + 1) as u64;
            t.group(parent@) matches Some(g) && g.child_meters.contains(id)
        }),
{
    let id = (s.meters.len() + 1) as u64;
    let mid = ContractState {
        meters: s.meters.push(registered_meter(user, provider, rate, token, Some(parent), now)),
        last_alerts: s.last_alerts.push(None),
        ..s
    };
    assert(mid.groups == s.groups);
    let t = mid.with_member(parent, id, now);
    lemma_with_group_finds(mid, parent@, id, now, parent);
}

/// Helper: after listing `id` in the group of `parent`, the group of
/// `parent` lists `id`.
proof fn lemma_with_group_finds(s: ContractState, key: Seq<char>, id: u64, now: u64, parent: Address)
    requires
        key == parent@,
        forall|i: int, j: int|
            0 <= i < j < s.groups.len() ==> #[trigger] s.groups[i].parent_account@
                != #[trigger] s.groups[j].parent_account@,
    ensures
        s.with_member(parent, id, now).group(key) matches Some(g) && g.child_meters.contains(id),
{
    let t = s.with_member(parent, id, now);
    match s.group(key) {
        Some(g) => {
            let p = s.group_pos(key);
            assert(0 <= p < s.groups.len() && s.groups[p].parent_account@ == key);
            if g.child_meters.contains(id) {
                assert(t == s);
            } else {
                let ng = BillingGroupView { child_meters: g.child_meters.push(id), ..g };
                assert(t.groups == s.groups.update(p, ng));
                assert(t.groups[p].parent_account@ == key);
                lemma_unique_pos(t, key, p);
                assert(ng.child_meters[ng.child_meters.len() - 1] == id);
            }
        },
        None => {
            let ng = BillingGroupView { parent_account: parent, child_meters: seq![id], created_at: now };
            assert(s.group_pos(key) == -1);
            assert(t.groups == s.groups.push(ng));
            assert forall|i: int| 0 <= i < s.groups.len() implies s.groups[i].parent_account@ != key by {
                if s.groups[i].parent_account@ == key {
                    assert(exists|i: int|
                        0 <= i < s.groups.len() && #[trigger] s.groups[i].parent_account@ == key);
                }
            }
            lemma_unique_pos(t, key, s.groups.len() as int);
            assert(ng.child_meters[0] == id);
        },
    }
}

/// Listing meter `id` in the group of `parent` leaves that group listing
/// `id` exactly once (it lists `id`, and no meter twice), keeps the
/// storage's invariant, and listing the same meter in the same group again,
/// at any time, changes nothing.
pub proof fn lemma_member_listed_once(
    s: ContractState,
    parent: Address,
    id: u64,
    now: u64,
    later: u64,
)
    requires
        s.wf(),
        1 <= id <= s.meters.len(),
    ensures
        ({
            let t = s.with_member(parent, id, now);
            &&& t.wf()
            &&& t.group(parent@) matches Some(g) && g.child_meters.contains(id) && distinct_ids(
                g.child_meters,
            )
            &&& t.with_member(parent, id, later) == t
        }),
{
    let key = parent@;
    let t = s.with_member(parent, id, now);
    match s.group(key) {
        Some(g) => {
            let p = s.group_pos(key);
            assert(0 <= p < s.groups.len() && s.groups[p].parent_account@ == key);
            assert(distinct_ids(s.groups[p].child_meters));
            if g.child_meters.contains(id) {
                assert(t == s);
            } else {
                let ng = BillingGroupView { child_meters: g.child_meters.push(id), ..g };
                assert(distinct_ids(ng.child_meters)) by {
                    assert forall|a: int, b: int|
                        0 <= a < b < ng.child_meters.len() implies ng.child_meters[a]
                        != ng.child_meters[b] by {
                        if b == g.child_meters.len() {
                            assert(g.child_meters.contains(g.child_meters[a]));
                        }
                    }
                }
                lemma_with_group_wf(s, ng);
                lemma_with_group_stores(s, ng);
                assert(ng.child_meters[ng.child_meters.len() - 1] == id);
            }
        },
        None => {
            let ng = BillingGroupView { parent_account: parent, child_meters: seq![id], created_at: now };
            lemma_with_group_wf(s, ng);
            lemma_with_group_stores(s, ng);
            assert(ng.child_meters[0] == id);
        },
    }
}

/// Helper: storing a group that lists registered meters, none twice, keeps
/// the storage's invariant.
proof fn lemma_with_group_wf(s: ContractState, g: BillingGroupView)
    requires
        s.wf(),
        distinct_ids(g.child_meters),
        forall|k: int| 0 <= k < g.child_meters.len() ==> 1 <= #[trigger] g.child_meters[k] <= s.meters.len(),
    ensures
        s.with_group(g).wf(),
{
    let t = s.with_group(g);
    lemma_with_group_stores(s, g);
    let p = s.group_pos(g.parent_account@);
    if p >= 0 {
        assert(t.groups == s.groups.update(p, g));
    } else {
        assert(t.groups == s.groups.push(g));
    }
    assert forall|i: int| 0 <= i < t.groups.len() implies distinct_ids(#[trigger] t.groups[i].child_meters) by {
        if t.groups[i] != g {
            assert(t.groups[i] == s.groups[i]);
        }
    }
    assert forall|i: int, k: int|
        0 <= i < t.groups.len() && 0 <= k < t.groups[i].child_meters.len() implies 1
            <= #[trigger] t.groups[i].child_meters[k] <= t.meters.len() by {
        if t.groups[i] != g {
            assert(t.groups[i] == s.groups[i]);
        }
    }
}

/// Helper: when only position `p` holds `key`, the group of `key` is at `p`.
proof fn lemma_unique_pos(t: ContractState, key: Seq<char>, p: int)
    requires
        0 <= p < t.groups.len(),
        t.groups[p].parent_account@ == key,
        forall|i: int| 0 <= i < t.groups.len() && i != p ==> t.groups[i].parent_account@ != key,
    ensures
        t.group_pos(key) == p,
{
    assert(t.groups[p].parent_account@ == key);
}

/// Once an alert for a meter has been recorded at `sent_at`, no other alert
/// for it is due until twelve hours have passed since `sent_at` (a clock
/// that reads earlier than `sent_at` counts no time as passed), whatever
/// the balance.
pub proof fn lemma_alert_cooldown(
    s: ContractState,
    meter_id: u64,
    below: bool,
    sent_at: u64,
    later_below: bool,
    later: u64,
)
    requires
        s.wf(),
        s.alert_due(meter_id, below, sent_at),
        elapsed(later, sent_at) < 43200,
    ensures
        !s.with_last_alert(meter_id, sent_at).alert_due(meter_id, later_below, later),
{
    let t = s.with_last_alert(meter_id, sent_at);
    assert(t.meter(meter_id) == s.meter(meter_id));
    assert(t.webhooks == s.webhooks);
    assert(t.last_alert(meter_id) == Some(sent_at));
}

/// Storing a group makes it the group of its parent account and keeps one
/// group per parent account.
pub proof fn lemma_with_group_stores(s: ContractState, g: BillingGroupView)
    requires
        forall|i: int, j: int|
            0 <= i < j < s.groups.len() ==> #[trigger] s.groups[i].parent_account@
                != #[trigger] s.groups[j].parent_account@,
    ensures
        s.with_group(g).group(g.parent_account@) == Some(g),
        forall|i: int, j: int|
            0 <= i < j < s.with_group(g).groups.len() ==> #[trigger] s.with_group(
                g,
            ).groups[i].parent_account@ != #[trigger] s.with_group(g).groups[j].parent_account@,
{
    let key = g.parent_account@;
    let t = s.with_group(g);
    let p = s.group_pos(key);
    if p >= 0 {
        assert(s.groups[p].parent_account@ == key);
        assert(t.groups == s.groups.update(p, g));
        lemma_unique_pos(t, key, p);
    } else {
        assert(t.groups == s.groups.push(g));
        assert forall|i: int| 0 <= i < s.groups.len() implies s.groups[i].parent_account@ != key by {
            if s.groups[i].parent_account@ == key {
                assert(exists|i: int|
                    0 <= i < s.groups.len() && #[trigger] s.groups[i].parent_account@ == key);
            }
        }
        lemma_unique_pos(t, key, s.groups.len() as int);
    }
}

/// Storing a webhook makes it the webhook of its user and keeps one webhook
/// per user.
pub proof fn lemma_with_webhook_stores(s: ContractState, w: WebhookConfig)
    requires
        forall|i: int, j: int|
            0 <= i < j < s.webhooks.len() ==> #[trigger] s.webhooks[i].user@
                != #[trigger] s.webhooks[j].user@,
    ensures
        s.with_webhook(w).webhook(w.user@) == Some(w),
{
    let key = w.user@;
    let t = s.with_webhook(w);
    let p = s.webhook_pos(key);
    if p >= 0 {
        assert(s.webhooks[p].user@ == key);
        assert(t.webhooks == s.webhooks.update(p, w));
        assert(t.webhooks[p].user@ == key);
        let q = t.webhook_pos(key);
        if q != p {
            assert(t.webhooks[q] == s.webhooks[q]);
            if q < p {
                assert(s.webhooks[q].user@ != s.webhooks[p].user@);
            } else {
                assert(s.webhooks[p].user@ != s.webhooks[q].user@);
            }
        }
    } else {
        assert(t.webhooks == s.webhooks.push(w));
        assert forall|i: int| 0 <= i < s.webhooks.len() implies s.webhooks[i].user@ != key by {
            if s.webhooks[i].user@ == key {
                assert(exists|i: int|
                    0 <= i < s.webhooks.len() && #[trigger] s.webhooks[i].user@ == key);
            }
        }
        let n = s.webhooks.len() as int;
        assert(t.webhooks[n].user@ == key);
        let q = t.webhook_pos(key);
        if q != n {
            assert(t.webhooks[q] == s.webhooks[q]);
        }
    }
}

/// A low-balance alert raised for meter `id` at `now` is stored under
/// `alert:<id>:<now>` with the meter's user and balance, and the meter's
/// last alert is `now`.
pub proof fn lemma_alert_is_stored(s: ContractState, id: u64, hours_remaining_bits: u32, now: u64)
    requires
        s.wf(),
        s.meter(id) is Some,
    ensures
        ({
            let t = s.after_alert(id, hours_remaining_bits, now);
            let m = s.meter(id).unwrap();
            &&& t.alert(alert_key_text(id, now)) == Some(
                alert_record(m, id, hours_remaining_bits, now),
            )
            &&& t.last_alert(id) == Some(now)
            &&& t.meters == s.meters
        }),
{
    let u = s.with_last_alert(id, now);
    let key = alert_key_text(id, now);
    let a = alert_record(s.meter(id).unwrap(), id, hours_remaining_bits, now);
    let t = u.with_alert(key, a);
    assert(u.alerts == s.alerts);
    let p = u.alert_pos(key);
    if p >= 0 {
        assert(t.alerts == u.alerts.update(p, (key, a)));
        assert(t.alerts[p].0 == key);
        let q = t.alert_pos(key);
        if q != p {
            assert(t.alerts[q] == u.alerts[q]);
            if q < p {
                assert(u.alerts[q].0 != u.alerts[p].0);
            } else {
                assert(u.alerts[p].0 != u.alerts[q].0);
            }
        }
    } else {
        assert(t.alerts == u.alerts.push((key, a)));
        assert forall|i: int| 0 <= i < u.alerts.len() implies u.alerts[i].0 != key by {
            if u.alerts[i].0 == key {
                assert(exists|i: int| 0 <= i < u.alerts.len() && (#[trigger] u.alerts[i]).0 == key);
            }
        }
        let n = u.alerts.len() as int;
        assert(t.alerts[n].0 == key);
        let q = t.alert_pos(key);
        if q != n {
            assert(t.alerts[q] == u.alerts[q]);
        }
    }
}

/// A freshly created billing group is empty, whatever the group held before.
pub proof fn lemma_created_group_is_empty(s: ContractState, parent: Address, now: u64)
    requires
        s.wf(),
    ensures
        s.with_group(
            BillingGroupView { parent_account: parent, child_meters: Seq::empty(), created_at: now },
        ).group(parent@) == Some(
            BillingGroupView { parent_account: parent, child_meters: Seq::empty(), created_at: now },
        ),
{
    lemma_with_group_stores(
        s,
        BillingGroupView { parent_account: parent, child_meters: Seq::empty(), created_at: now },
    );
}

/// After a meter is removed from a group, the group no longer lists it and
/// still lists every other member.
pub proof fn lemma_removed_meter_leaves_group(s: ContractState, parent: Address, meter_id: u64)
    requires
        s.wf(),
        s.group(parent@) is Some,
    ensures
        ({
            let g = s.group(parent@).unwrap();
            let t = s.after_member_removal(g, meter_id);
            t.group(parent@) matches Some(h) && !h.child_meters.contains(meter_id) && forall|
                x: u64,
            |
                #![trigger h.child_meters.contains(x)]
                g.child_meters.contains(x) && x != meter_id ==> h.child_meters.contains(x)
        }),
{
    let g = s.group(parent@).unwrap();
    let p = s.group_pos(parent@);
    assert(s.groups[p].parent_account@ == parent@);
    assert(distinct_ids(s.groups[p].child_meters));
    lemma_without_id(g.child_meters, meter_id);
    let ng = BillingGroupView { child_meters: without_id(g.child_meters, meter_id), ..g };
    lemma_with_group_stores(s, ng);
    let t = s.after_member_removal(g, meter_id);
    assert(t.groups == s.with_group(ng).groups);
}

/// Once a user's webhook is switched off, no alert is due for any meter of
/// that user.
pub proof fn lemma_deactivated_webhook_silences_alerts(
    s: ContractState,
    user: Address,
    meter_id: u64,
    below: bool,
    now: u64,
)
    requires
        s.wf(),
        s.webhook(user@) is Some,
        s.meter(meter_id) matches Some(m) && m.user@ == user@,
    ensures
        ({
            let w = s.webhook(user@).unwrap();
            !s.with_webhook(WebhookConfig { is_active: false, ..w }).alert_due(meter_id, below, now)
        }),
{
    let w = s.webhook(user@).unwrap();
    let p = s.webhook_pos(user@);
    assert(s.webhooks[p].user@ == user@);
    let nw = WebhookConfig { is_active: false, ..w };
    lemma_with_webhook_stores(s, nw);
    let t = s.with_webhook(nw);
    assert(t.meter(meter_id) == s.meter(meter_id));
}

/// The sum of the balances of `meters`.
pub open spec fn total_balance(meters: Seq<Meter>) -> int
    decreases meters.len(),
{
    if meters.len() == 0 {
        0
    } else {
        total_balance(meters.drop_last()) + meters.last().balance
    }
}

/// What `effects` move into the contract, less what they move out of it.
pub open spec fn net_inflow(effects: Seq<Effect>) -> int
    decreases effects.len(),
{
    if effects.len() == 0 {
        0
    } else {
        net_inflow(effects.drop_last()) + match effects.last() {
            Effect::TransferIn { amount, .. } => amount as int,
            Effect::TransferOut { amount, .. } => -amount,
            _ => 0,
        }
    }
}

/// The inflow of a concatenation is the sum of the inflows.
pub proof fn lemma_net_inflow_concat(a: Seq<Effect>, b: Seq<Effect>)
    ensures
        net_inflow(a + b) == net_inflow(a) + net_inflow(b),
    decreases b.len(),
{
    if b.len() == 0 {
        assert(a + b =~= a);
    } else {
        assert((a + b).drop_last() =~= a + b.drop_last());
        lemma_net_inflow_concat(a, b.drop_last());
    }
}

/// Replacing one meter changes the total by the change of its balance.
pub proof fn lemma_total_balance_update(meters: Seq<Meter>, i: int, m: Meter)
    requires
        0 <= i < meters.len(),
    ensures
        total_balance(meters.update(i, m)) == total_balance(meters) - meters[i].balance
            + m.balance,
    decreases meters.len(),
{
    let u = meters.update(i, m);
    if i == meters.len() - 1 {
        assert(u.drop_last() =~= meters.drop_last());
    } else {
        assert(u.drop_last() =~= meters.drop_last().update(i, m));
        lemma_total_balance_update(meters.drop_last(), i, m);
    }
}

/// A top-up raises the balances held by the contract by exactly what it
/// moves in.
pub proof fn lemma_top_up_balances_follow_transfers(
    s: ContractState,
    meter_id: u64,
    amount: i128,
    now: u64,
)
    requires
        s.meter(meter_id) matches Some(m) && fits_i128(m.balance + amount),
    ensures
        ({
            let m = s.meter(meter_id).unwrap();
            let fx = seq![
                Effect::RequireAuth(m.user),
                Effect::TransferIn { token: m.token, from: m.user, amount },
            ];
            &&& net_inflow(fx) == amount
            &&& total_balance(s.with_meter(meter_id, topped_up(m, amount, now)).meters)
                == total_balance(s.meters) + net_inflow(fx)
        }),
{
    let m = s.meter(meter_id).unwrap();
    lemma_total_balance_update(s.meters, meter_id - 1, topped_up(m, amount, now));
    let fx = seq![
        Effect::RequireAuth(m.user),
        Effect::TransferIn { token: m.token, from: m.user, amount },
    ];
    assert(fx.drop_last().drop_last() =~= Seq::<Effect>::empty());
    reveal_with_fuel(net_inflow, 3);
}

/// A usage report lowers the balances held by the contract by exactly what
/// it moves out to the provider.
pub proof fn lemma_usage_balances_follow_transfers(
    s: ContractState,
    oracle: Address,
    meter_id: u64,
    units: i128,
    now: u64,
)
    requires
        s.meter(meter_id) is Some,
    ensures
        ({
            let m = s.meter(meter_id).unwrap();
            total_balance(s.with_meter(meter_id, after_usage(m, units, now)).meters) == total_balance(
                s.meters,
            ) + net_inflow(usage_effects(oracle, m, meter_id, units))
        }),
{
    let m = s.meter(meter_id).unwrap();
    lemma_total_balance_update(s.meters, meter_id - 1, after_usage(m, units, now));
    let taken = deduction(m, units);
    let a: Seq<Effect> = seq![Effect::RequireAuth(oracle)];
    let b: Seq<Effect> = if taken > 0 {
        seq![Effect::TransferOut { token: m.token, to: m.provider, amount: taken as i128 }]
    } else {
        Seq::empty()
    };
    let c: Seq<Effect> = seq![
        Effect::UsageReported {
            meter_id,
            units_consumed: units,
            cost: crate::meter::usage_cost(m, units) as i128,
        },
    ];
    lemma_net_inflow_concat(a, b);
    lemma_net_inflow_concat(a + b, c);
    lemma_usage_never_overdraws(m, units, now);
    assert(a.drop_last() =~= Seq::<Effect>::empty());
    assert(c.drop_last() =~= Seq::<Effect>::empty());
    reveal_with_fuel(net_inflow, 2);
    assert(net_inflow(a) == 0);
    assert(net_inflow(c) == 0);
    if taken > 0 {
        assert(b.drop_last() =~= Seq::<Effect>::empty());
        assert(net_inflow(b) == -taken);
    } else {
        assert(net_inflow(b) == 0);
    }
    assert(usage_effects(oracle, m, meter_id, units) == a + b + c);
}

/// A claim lowers the balances held by the contract by exactly what it
/// moves out to the provider.
pub proof fn lemma_claim_balances_follow_transfers(s: ContractState, meter_id: u64, now: u64)
    requires
        s.meter(meter_id) is Some,
    ensures
        ({
            let m = s.meter(meter_id).unwrap();
            total_balance(s.with_meter(meter_id, after_claim(m, now)).meters) == total_balance(
                s.meters,
            ) + net_inflow(claim_effects(m, now))
        }),
{
    let m = s.meter(meter_id).unwrap();
    lemma_total_balance_update(s.meters, meter_id - 1, after_claim(m, now));
    let taken = claim_taken(m, now);
    let a: Seq<Effect> = seq![Effect::RequireAuth(m.provider)];
    let b: Seq<Effect> = if taken > 0 {
        seq![Effect::TransferOut { token: m.token, to: m.provider, amount: taken as i128 }]
    } else {
        Seq::empty()
    };
    lemma_net_inflow_concat(a, b);
    lemma_claim_never_overdraws(m, now);
    assert(a.drop_last() =~= Seq::<Effect>::empty());
    reveal_with_fuel(net_inflow, 2);
    assert(net_inflow(a) == 0);
    if taken > 0 {
        assert(b.drop_last() =~= Seq::<Effect>::empty());
        assert(net_inflow(b) == -taken);
    } else {
        assert(net_inflow(b) == 0);
    }
    assert(claim_effects(m, now) == a + b);
}

/// Topping up the distinct registered meters `ids` by `amount` each raises
/// the total by `amount` for each of them.
pub proof fn lemma_total_after_members_topped_up(
    meters: Seq<Meter>,
    ids: Seq<u64>,
    amount: i128,
    now: u64,
)
    requires
        meters.len() <= u64::MAX,
        distinct_ids(ids),
        forall|k: int| 0 <= k < ids.len() ==> 1 <= #[trigger] ids[k] <= meters.len(),
        forall|k: int|
            0 <= k < ids.len() ==> fits_i128(#[trigger] meters[ids[k] - 1].balance + amount),
    ensures
        total_balance(members_topped_up(meters, ids, amount, now)) == total_balance(meters)
            + amount * ids.len(),
    decreases ids.len(),
{
    if ids.len() == 0 {
        assert(members_topped_up(meters, ids, amount, now) =~= meters);
    } else {
        let init = ids.drop_last();
        let x = ids.last();
        assert(distinct_ids(init)) by {
            assert forall|i: int, j: int| 0 <= i < j < init.len() implies init[i] != init[j] by {
                assert(init[i] == ids[i] && init[j] == ids[j]);
            }
        }
        assert forall|k: int| 0 <= k < init.len() implies 1 <= #[trigger] init[k] <= meters.len() by {
            assert(init[k] == ids[k]);
        }
        assert forall|k: int| 0 <= k < init.len() implies fits_i128(
            #[trigger] meters[init[k] - 1].balance + amount,
        ) by {
            assert(init[k] == ids[k]);
        }
        lemma_total_after_members_topped_up(meters, init, amount, now);
        assert(!init.contains(x)) by {
            if init.contains(x) {
                let k = choose|k: int| 0 <= k < init.len() && init[k] == x;
                assert(ids[k] == ids[ids.len() - 1]);
            }
        }
        let before = members_topped_up(meters, init, amount, now);
        let i = x - 1;
        assert(ids[ids.len() - 1] == x);
        assert(before[i] == meters[i]);
        assert forall|y: u64| #[trigger] ids.contains(y) <==> (init.contains(y) || y == x) by {
            if ids.contains(y) {
                let k = choose|k: int| 0 <= k < ids.len() && ids[k] == y;
                if k < ids.len() - 1 {
                    assert(init[k] == y);
                }
            }
            if init.contains(y) {
                let k = choose|k: int| 0 <= k < init.len() && init[k] == y;
                assert(ids[k] == y);
            }
        }
        assert forall|j: int| 0 <= j < meters.len() implies #[trigger] members_topped_up(
            meters,
            ids,
            amount,
            now,
        )[j] == before.update(i, topped_up(meters[i], amount, now))[j] by {
            if j != i {
                assert((j + 1) as u64 != x);
            }
        }
        assert(members_topped_up(meters, ids, amount, now) =~= before.update(
            i,
            topped_up(meters[i], amount, now),
        ));
        lemma_total_balance_update(before, i, topped_up(meters[i], amount, now));
        assert(amount * ids.len() == amount * init.len() + amount) by (nonlinear_arith)
            requires
                ids.len() == init.len() + 1,
        ;
    }
}

/// A group top-up of a group with members raises the balances held by the
/// contract by exactly what it moves in from the parent account.
pub proof fn lemma_group_top_up_balances_follow_transfers(
    s: ContractState,
    parent: Address,
    amount: i128,
    now: u64,
)
    requires
        s.wf(),
        s.group(parent@) matches Some(g) && g.child_meters.len() > 0 && fits_i128(
            amount * g.child_meters.len(),
        ) && forall|k: int|
            0 <= k < g.child_meters.len() ==> (s.meter(#[trigger] g.child_meters[k]) matches Some(
                m,
            ) ==> fits_i128(m.balance + amount)),
    ensures
        ({
            let g = s.group(parent@).unwrap();
            let fx = seq![Effect::RequireAuth(parent)] + match s.meter(g.child_meters[0]) {
                Some(first) => seq![
                    Effect::TransferIn {
                        token: first.token,
                        from: parent,
                        amount: (amount * g.child_meters.len()) as i128,
                    },
                ],
                None => Seq::empty(),
            };
            total_balance(members_topped_up(s.meters, g.child_meters, amount, now))
                == total_balance(s.meters) + net_inflow(fx)
        }),
{
    let g = s.group(parent@).unwrap();
    let p = s.group_pos(parent@);
    assert(s.groups[p] == g);
    let ids = g.child_meters;
    assert(distinct_ids(ids));
    assert forall|k: int| 0 <= k < ids.len() implies 1 <= #[trigger] ids[k] <= s.meters.len() by {
        assert(s.groups[p].child_meters[k] == ids[k]);
    }
    assert forall|k: int| 0 <= k < ids.len() implies fits_i128(
        #[trigger] s.meters[ids[k] - 1].balance + amount,
    ) by {
        assert(s.groups[p].child_meters[k] == ids[k]);
        assert(s.meter(ids[k]) == Some(s.meters[ids[k] - 1]));
    }
    lemma_total_after_members_topped_up(s.meters, ids, amount, now);
    assert(s.groups[p].child_meters[0] == ids[0]);
    let first = s.meter(ids[0]).unwrap();
    let a: Seq<Effect> = seq![Effect::RequireAuth(parent)];
    let b: Seq<Effect> = seq![
        Effect::TransferIn { token: first.token, from: parent, amount: (amount * ids.len()) as i128 },
    ];
    lemma_net_inflow_concat(a, b);
    assert(a.drop_last() =~= Seq::<Effect>::empty());
    assert(b.drop_last() =~= Seq::<Effect>::empty());
    reveal_with_fuel(net_inflow, 2);
    assert(net_inflow(a) == 0);
    assert(net_inflow(b) == amount * ids.len());
}

/// The claim window lasts one hour from its opening. A claim less than an
/// hour after the window opened (or at a clock that reads earlier) keeps the
/// window: it takes no more than what remains of the cap after what was
/// already claimed in it, and adds what it takes to that. A claim an hour or
/// more after the opening opens a new window at its own time, in which only
/// what it takes counts, at most the whole cap.
pub proof fn lemma_claim_window_is_one_hour(m: Meter, now: u64)
    ensures
        now < m.last_claim_time + 3600 ==> {
            &&& after_claim(m, now).last_claim_time == m.last_claim_time
            &&& claim_taken(m, now) == 0 || claim_taken(m, now) <= m.max_flow_rate_per_hour
                - m.claimed_this_hour
            &&& after_claim(m, now).claimed_this_hour == m.claimed_this_hour + claim_taken(m, now)
        },
        now >= m.last_claim_time + 3600 ==> {
            &&& after_claim(m, now).last_claim_time == now
            &&& claim_taken(m, now) == 0 || claim_taken(m, now) <= m.max_flow_rate_per_hour
            &&& after_claim(m, now).claimed_this_hour == claim_taken(m, now)
        },
{
}

/// Two claims, the first of which opens a window, take together no more
/// than the hourly cap when the second comes less than an hour after the
/// first.
pub proof fn lemma_claims_within_an_hour_share_the_cap(m: Meter, first: u64, second: u64)
    requires
        first >= m.last_claim_time + 3600,
        second < first + 3600,
        m.max_flow_rate_per_hour >= 0,
    ensures
        claim_taken(m, first) + claim_taken(after_claim(m, first), second)
            <= m.max_flow_rate_per_hour,
{
    lemma_claim_window_is_one_hour(m, first);
    let m1 = after_claim(m, first);
    lemma_claim_window_is_one_hour(m1, second);
}

/// A usage report with a positive cost on a meter with a positive balance
/// takes the cost, or the whole balance when the cost exceeds it, whether
/// or not the meter is active; otherwise it takes nothing. The balance
/// drops by exactly what is taken.
pub proof fn lemma_usage_takes_cost_within_balance(m: Meter, units: i128, now: u64)
    ensures
        units * m.rate_per_unit > 0 && m.balance > 0 ==> deduction(m, units) == (if units
            * m.rate_per_unit <= m.balance {
            units * m.rate_per_unit
        } else {
            m.balance as int
        }),
        units * m.rate_per_unit <= 0 || m.balance <= 0 ==> deduction(m, units) == 0,
        after_usage(m, units, now).balance == m.balance - deduction(m, units),
        after_usage(m, units, now).last_update == now,
{
}

/// A top-up credits the amount to the balance, activates the meter and
/// stamps its last update with the top-up's time, whether or not the meter
/// was active; nothing else of the meter changes.
pub proof fn lemma_top_up_stamps_the_meter(m: Meter, amount: i128, now: u64)
    requires
        fits_i128(m.balance + amount),
    ensures
        ({
            let t = topped_up(m, amount, now);
            &&& t.balance == m.balance + amount
            &&& t.is_active
            &&& t.last_update == now
            &&& t.user == m.user && t.provider == m.provider && t.token == m.token
            &&& t.rate_per_unit == m.rate_per_unit
            &&& t.max_flow_rate_per_hour == m.max_flow_rate_per_hour
            &&& t.last_claim_time == m.last_claim_time
            &&& t.claimed_this_hour == m.claimed_this_hour
            &&& t.heartbeat == m.heartbeat
            &&& t.parent_account == m.parent_account
        }),
{
}

/// After a top-up at `now`, a claim at a later time takes no more than
/// what has accrued since the top-up: the rate for each second after `now`.
pub proof fn lemma_claim_after_top_up_accrues_from_it(m: Meter, amount: i128, now: u64, later: u64)
    requires
        fits_i128(m.balance + amount),
        later >= now,
    ensures
        claim_taken(topped_up(m, amount, now), later) == 0 || claim_taken(
            topped_up(m, amount, now),
            later,
        ) <= (later - now) * m.rate_per_unit,
{
}

/// A low-balance alert is due exactly when the meter is below the
/// threshold, its user has an active webhook, and either it never had an
/// alert or twelve hours or more have passed since its last one.
pub proof fn lemma_alert_due_exactly(s: ContractState, id: u64, below: bool, now: u64)
    ensures
        s.alert_due(id, below, now) == (below && (s.meter(id) matches Some(m) && s.webhook(
            m.user@,
        ) matches Some(w) && w.is_active) && (s.last_alert(id) matches Some(t) ==> now >= t
            + 43200)),
{
}

/// Every alert stored at `now` for a meter of `user` among meters 1 to `n`
/// is among the pending alerts of `user` at `now` over those meters, and
/// every pending alert is such an alert.
proof fn lemma_pending_alerts_upto(s: ContractState, n: nat, user: Seq<char>, now: u64)
    requires
        n <= s.meters.len(),
        s.meters.len() <= u64::MAX,
    ensures
        forall|id: u64|
            1 <= id <= n && s.meters[id - 1].user@ == user && #[trigger] s.alert(
                alert_key_text(id, now),
            ) is Some ==> pending_alerts(s, n, user, now).contains(
                s.alert(alert_key_text(id, now)).unwrap(),
            ),
        forall|k: int|
            0 <= k < pending_alerts(s, n, user, now).len() ==> exists|id: u64|
                1 <= id <= n && s.meters[id - 1].user@ == user && #[trigger] s.alert(
                    alert_key_text(id, now),
                ) == Some(#[trigger] pending_alerts(s, n, user, now)[k]),
    decreases n,
{
    if n > 0 {
        let rest = pending_alerts(s, (n - 1) as nat, user, now);
        lemma_pending_alerts_upto(s, (n - 1) as nat, user, now);
        let r = pending_alerts(s, n, user, now);
        assert forall|id: u64|
            1 <= id <= n && s.meters[id - 1].user@ == user && #[trigger] s.alert(
                alert_key_text(id, now),
            ) is Some implies r.contains(s.alert(alert_key_text(id, now)).unwrap()) by {
            let a = s.alert(alert_key_text(id, now)).unwrap();
            if id < n {
                assert(rest.contains(a));
                let j = choose|j: int| 0 <= j < rest.len() && rest[j] == a;
                assert(r[j] == a);
            } else {
                assert(id == n as u64);
                assert(r[r.len() - 1] == a);
            }
        }
        assert forall|k: int| 0 <= k < r.len() implies exists|id: u64|
            1 <= id <= n && s.meters[id - 1].user@ == user && #[trigger] s.alert(
                alert_key_text(id, now),
            ) == Some(#[trigger] r[k]) by {
            if k < rest.len() {
                assert(r[k] == rest[k]);
                let id = choose|id: u64|
                    1 <= id <= n - 1 && s.meters[id - 1].user@ == user && #[trigger] s.alert(
                        alert_key_text(id, now),
                    ) == Some(#[trigger] rest[k]);
                assert(s.alert(alert_key_text(id, now)) == Some(r[k]));
            } else {
                let id = n as u64;
                assert(s.alert(alert_key_text(id, now)) == Some(r[k]));
            }
        }
    }
}

/// The pending alerts of `user` at `now` are exactly the alerts stored under
/// `alert:<id>:<now>` for the registered meters `id` of `user`: each such
/// alert is listed, and nothing else is.
pub proof fn lemma_pending_alerts_are_the_users_alerts(s: ContractState, user: Seq<char>, now: u64)
    requires
        s.wf(),
    ensures
        forall|id: u64|
            1 <= id <= s.meters.len() && s.meters[id - 1].user@ == user && #[trigger] s.alert(
                alert_key_text(id, now),
            ) is Some ==> pending_alerts(s, s.meters.len(), user, now).contains(
                s.alert(alert_key_text(id, now)).unwrap(),
            ),
        forall|k: int|
            0 <= k < pending_alerts(s, s.meters.len(), user, now).len() ==> exists|id: u64|
                1 <= id <= s.meters.len() && s.meters[id - 1].user@ == user && #[trigger] s.alert(
                    alert_key_text(id, now),
                ) == Some(#[trigger] pending_alerts(s, s.meters.len(), user, now)[k]),
{
    lemma_pending_alerts_upto(s, s.meters.len(), user, now);
}

/// Right after an alert is raised for meter `id` at `now`, the pending
/// alerts of the meter's user at `now` include it.
pub proof fn lemma_raised_alert_is_pending(s: ContractState, id: u64, hours_remaining_bits: u32, now: u64)
    requires
        s.wf(),
        s.meter(id) is Some,
    ensures
        ({
            let m = s.meter(id).unwrap();
            let t = s.after_alert(id, hours_remaining_bits, now);
            pending_alerts(t, t.meters.len(), m.user@, now).contains(
                alert_record(m, id, hours_remaining_bits, now),
            )
        }),
{
    let m = s.meter(id).unwrap();
    let t = s.after_alert(id, hours_remaining_bits, now);
    lemma_alert_is_stored(s, id, hours_remaining_bits, now);
    lemma_pending_alerts_upto(t, t.meters.len(), m.user@, now);
    assert(t.meters[id - 1].user@ == m.user@);
    assert(t.alert(alert_key_text(id, now)) is Some);
}

/// What a claim takes, in terms of the meter: the rate for each second since
/// the last update (none when the clock reads earlier), but no more than the
/// balance and no more than the cap less what was claimed in a window that
/// is still open; nothing when that is not positive. The balance drops by
/// exactly that and the meter is stamped with the claim's time.
pub proof fn lemma_claim_takes_accrued_within_limits(m: Meter, now: u64)
    ensures
        ({
            let secs: int = if now >= m.last_update {
                now - m.last_update
            } else {
                0
            };
            let used: int = if now >= m.last_claim_time + 3600 {
                0
            } else {
                m.claimed_this_hour as int
            };
            let acc = secs * m.rate_per_unit;
            let lim1 = if acc <= m.balance {
                acc
            } else {
                m.balance as int
            };
            let lim = if lim1 <= m.max_flow_rate_per_hour - used {
                lim1
            } else {
                m.max_flow_rate_per_hour - used
            };
            &&& claim_taken(m, now) == (if lim > 0 {
                lim
            } else {
                0
            })
            &&& after_claim(m, now).balance == m.balance - claim_taken(m, now)
            &&& after_claim(m, now).last_update == now
        }),
{
}

} // verus!
