//! The utility contract: its storage, and each entry point as a transition
//! of that storage together with the effects that the host must carry out
//! (authorizations, token transfers, events) for the transition to commit.
use vstd::prelude::*;

use crate::address::{clone_opt_address, Address};
use crate::billing::{
    copy_ids,
    distinct_ids,
    lemma_without_id,
    without_id,
    BillingGroup,
    BillingGroupView,
};
use crate::gas_estimator::{
    large_scale_estimate,
    meter_monthly_cost,
    operation_cost,
    provider_monthly_cost,
    GasCostEstimator,
    LargeScaleCostEstimate,
};
use crate::meter::{
    after_claim,
    after_usage,
    claim_fits,
    claim_taken,
    deduction,
    depletion_time,
    fits_i128,
    offline,
    registered_meter,
    registration_fits,
    topped_up,
    usage_cost,
    Meter,
};
use crate::text::same_text;
use crate::webhook::{alert_key, alert_key_text, cooldown_over, LowBalanceAlert, WebhookConfig};

verus! {

/// The keys under which the contract keeps its entries.
#[derive(Debug, PartialEq, Eq)]
pub enum DataKey {
    Meter(u64),
    Count,
    Oracle,
    BillingGroup(Address),
    WebhookConfig(Address),
    LastAlert(u64),
}

/// Why an entry point refuses a call (the invocation then reverts).
#[derive(Clone, Copy, Debug, PartialEq, Eq)]
pub enum ContractError {
    /// "Meter not found"
    MeterNotFound,
    /// "Oracle address not set"
    OracleNotSet,
    /// "Billing group not found"
    BillingGroupNotFound,
}

/// Something the host must do for an entry point's transition to commit.
#[derive(Debug, PartialEq, Eq)]
pub enum Effect {
    /// The address must have authorized the invocation.
    RequireAuth(Address),
    /// Transfer `amount` of `token` from `from` to the contract.
    TransferIn { token: Address, from: Address, amount: i128 },
    /// Transfer `amount` of `token` from the contract to `to`.
    TransferOut { token: Address, to: Address, amount: i128 },
    /// Publish the `UsageReported` event of a meter.
    UsageReported { meter_id: u64, units_consumed: i128, cost: i128 },
}

/// The contract's storage as values: meter `id` is `meters[id - 1]`
/// (ids run from 1 to the meter count), billing groups are found by the
/// parent account, webhooks by the user, `last_alerts[id - 1]` is the
/// time of the last alert of meter `id`, and each alert record is kept
/// beside the text key it is stored under.
pub struct ContractState {
    pub meters: Seq<Meter>,
    pub oracle: Option<Address>,
    pub groups: Seq<BillingGroupView>,
    pub webhooks: Seq<WebhookConfig>,
    pub last_alerts: Seq<Option<u64>>,
    pub alerts: Seq<(Seq<char>, LowBalanceAlert)>,
}

impl ContractState {
    /// The meter with id `id`, if registered.
    pub open spec fn meter(self, id: u64) -> Option<Meter> {
        if 1 <= id <= self.meters.len() {
            Some(self.meters[id - 1])
        } else {
            None
        }
    }

    /// The position of the billing group of `parent`, or -1.
    pub open spec fn group_pos(self, parent: Seq<char>) -> int {
        if exists|i: int|
            0 <= i < self.groups.len() && #[trigger] self.groups[i].parent_account@ == parent {
            choose|i: int| 0 <= i < self.groups.len() && #[trigger] self.groups[i].parent_account@ == parent
        } else {
            -1
        }
    }

    /// The billing group of `parent`, if there is one.
    pub open spec fn group(self, parent: Seq<char>) -> Option<BillingGroupView> {
        let p = self.group_pos(parent);
        if p >= 0 {
            Some(self.groups[p])
        } else {
            None
        }
    }

    /// The position of the webhook of `user`, or -1.
    pub open spec fn webhook_pos(self, user: Seq<char>) -> int {
        if exists|i: int| 0 <= i < self.webhooks.len() && #[trigger] self.webhooks[i].user@ == user {
            choose|i: int| 0 <= i < self.webhooks.len() && #[trigger] self.webhooks[i].user@ == user
        } else {
            -1
        }
    }

    /// The webhook of `user`, if configured.
    pub open spec fn webhook(self, user: Seq<char>) -> Option<WebhookConfig> {
        let p = self.webhook_pos(user);
        if p >= 0 {
            Some(self.webhooks[p])
        } else {
            None
        }
    }

    /// The position of the alert stored under `key`, or -1.
    pub open spec fn alert_pos(self, key: Seq<char>) -> int {
        if exists|i: int| 0 <= i < self.alerts.len() && (#[trigger] self.alerts[i]).0 == key {
            choose|i: int| 0 <= i < self.alerts.len() && (#[trigger] self.alerts[i]).0 == key
        } else {
            -1
        }
    }

    /// The alert stored under `key`, if any.
    pub open spec fn alert(self, key: Seq<char>) -> Option<LowBalanceAlert> {
        let p = self.alert_pos(key);
        if p >= 0 {
            Some(self.alerts[p].1)
        } else {
            None
        }
    }

    /// When the last alert of meter `id` was raised, if ever.
    pub open spec fn last_alert(self, id: u64) -> Option<u64> {
        if 1 <= id <= self.last_alerts.len() {
            self.last_alerts[id - 1]
        } else {
            None
        }
    }

    /// The storage's invariant: one entry per key, no meter twice in a
    /// group, and groups hold registered meters only.
    pub open spec fn wf(self) -> bool {
        &&& self.meters.len() <= u64::MAX
        &&& self.last_alerts.len() == self.meters.len()
        &&& forall|i: int, j: int|
            0 <= i < j < self.groups.len() ==> #[trigger] self.groups[i].parent_account@
                != #[trigger] self.groups[j].parent_account@
        &&& forall|i: int| 0 <= i < self.groups.len() ==> distinct_ids(#[trigger] self.groups[i].child_meters)
        &&& forall|i: int, k: int|
            0 <= i < self.groups.len() && 0 <= k < self.groups[i].child_meters.len() ==> 1
                <= #[trigger] self.groups[i].child_meters[k] <= self.meters.len()
        &&& forall|i: int, j: int|
            0 <= i < j < self.webhooks.len() ==> #[trigger] self.webhooks[i].user@
                != #[trigger] self.webhooks[j].user@
        &&& forall|i: int, j: int|
            0 <= i < j < self.alerts.len() ==> (#[trigger] self.alerts[i]).0 != (
            #[trigger] self.alerts[j]).0
    }

    /// The storage with meter `id` replaced by `m`.
    pub open spec fn with_meter(self, id: u64, m: Meter) -> ContractState {
        ContractState { meters: self.meters.update(id - 1, m), ..self }
    }

    /// The storage with `g` as the billing group of its parent account.
    pub open spec fn with_group(self, g: BillingGroupView) -> ContractState {
        let p = self.group_pos(g.parent_account@);
        ContractState {
            groups: if p >= 0 {
                self.groups.update(p, g)
            } else {
                self.groups.push(g)
            },
            ..self
        }
    }

    /// The storage with `w` as the webhook of its user.
    pub open spec fn with_webhook(self, w: WebhookConfig) -> ContractState {
        let p = self.webhook_pos(w.user@);
        ContractState {
            webhooks: if p >= 0 {
                self.webhooks.update(p, w)
            } else {
                self.webhooks.push(w)
            },
            ..self
        }
    }

    /// The storage with `t` as the time of the last alert of meter `id`.
    pub open spec fn with_last_alert(self, id: u64, t: u64) -> ContractState {
        ContractState { last_alerts: self.last_alerts.update(id - 1, Some(t)), ..self }
    }

    /// The storage with `a` stored under `key`.
    pub open spec fn with_alert(self, key: Seq<char>, a: LowBalanceAlert) -> ContractState {
        let p = self.alert_pos(key);
        ContractState {
            alerts: if p >= 0 {
                self.alerts.update(p, (key, a))
            } else {
                self.alerts.push((key, a))
            },
            ..self
        }
    }

    /// The storage after a low-balance alert for meter `id` at `now`: `now`
    /// is the meter's last alert, and the alert's record is stored under
    /// `alert:<id>:<now>`.
    pub open spec fn after_alert(self, id: u64, hours_remaining_bits: u32, now: u64) -> ContractState {
        self.with_last_alert(id, now).with_alert(
            alert_key_text(id, now),
            alert_record(self.meter(id).unwrap(), id, hours_remaining_bits, now),
        )
    }

    /// The storage with meter `id` listed in the group of `parent` (the
    /// group is created at `now` when there is none).
    pub open spec fn with_member(self, parent: Address, id: u64, now: u64) -> ContractState {
        match self.group(parent@) {
            Some(g) => if g.child_meters.contains(id) {
                self
            } else {
                self.with_group(BillingGroupView { child_meters: g.child_meters.push(id), ..g })
            },
            None => self.with_group(
                BillingGroupView { parent_account: parent, child_meters: seq![id], created_at: now },
            ),
        }
    }

    /// The storage after registering a meter: the meter is appended with the
    /// next id, and listed in its parent's group when it has a parent.
    pub open spec fn after_registration(
        self,
        user: Address,
        provider: Address,
        rate: i128,
        token: Address,
        parent_account: Option<Address>,
        now: u64,
    ) -> ContractState {
        let id = (self.meters.len() + 1) as u64;
        let s = ContractState {
            meters: self.meters.push(
                registered_meter(user, provider, rate, token, parent_account, now),
            ),
            last_alerts: self.last_alerts.push(None),
            ..self
        };
        match parent_account {
            Some(p) => s.with_member(p, id, now),
            None => s,
        }
    }

    /// The storage after meter `meter_id` leaves the group `g` of `parent`:
    /// the group no longer lists it, and the meter, when registered, has no
    /// parent account any more.
    pub open spec fn after_member_removal(self, g: BillingGroupView, meter_id: u64) -> ContractState {
        let s = self.with_group(
            BillingGroupView { child_meters: without_id(g.child_meters, meter_id), ..g },
        );
        match self.meter(meter_id) {
            Some(m) => s.with_meter(meter_id, Meter { parent_account: None, ..m }),
            None => s,
        }
    }

    /// Whether a low-balance alert for meter `id` is due at `now`, given
    /// whether the meter's remaining time is below the alert threshold: its
    /// user has an active webhook and the cooldown since the last alert is over.
    pub open spec fn alert_due(self, id: u64, below_threshold: bool, now: u64) -> bool {
        match self.meter(id) {
            Some(m) => match self.webhook(m.user@) {
                Some(w) => w.is_active && below_threshold && cooldown_over(self.last_alert(id), now),
                None => false,
            },
            None => false,
        }
    }

    /// Whether the storage holds an entry under `key`.
    pub open spec fn has(self, key: DataKey) -> bool {
        match key {
            DataKey::Meter(id) => self.meter(id) is Some,
            DataKey::Count => self.meters.len() > 0,
            DataKey::Oracle => self.oracle is Some,
            DataKey::BillingGroup(a) => self.group(a@) is Some,
            DataKey::WebhookConfig(a) => self.webhook(a@) is Some,
            DataKey::LastAlert(id) => self.last_alert(id) is Some,
        }
    }
}

/// Every member of `ids` topped up by `amount` at `now`, the other meters
/// as they were (meter `id` is `meters[id - 1]`).
pub open spec fn members_topped_up(meters: Seq<Meter>, ids: Seq<u64>, amount: i128, now: u64) -> Seq<
    Meter,
> {
    Seq::new(
        meters.len(),
        |i: int|
            if ids.contains((i + 1) as u64) {
                topped_up(meters[i], amount, now)
            } else {
                meters[i]
            },
    )
}

/// The alert record of meter `m` (id `meter_id`) raised at `now`.
pub open spec fn alert_record(m: Meter, meter_id: u64, hours_remaining_bits: u32, now: u64) -> LowBalanceAlert {
    LowBalanceAlert {
        meter_id,
        user: m.user,
        remaining_balance: m.balance,
        hours_remaining_bits,
        timestamp: now,
    }
}

/// Of meters 1 to `n` of `s`, those of `user` that have an alert stored
/// under their key at `now`: those alerts, in id order.
pub open spec fn pending_alerts(s: ContractState, n: nat, user: Seq<char>, now: u64) -> Seq<
    LowBalanceAlert,
>
    decreases n,
{
    if n == 0 {
        Seq::empty()
    } else {
        let rest = pending_alerts(s, (n - 1) as nat, user, now);
        if s.meters[n - 1].user@ == user {
            match s.alert(alert_key_text(n as u64, now)) {
                Some(a) => rest.push(a),
                None => rest,
            }
        } else {
            rest
        }
    }
}

/// The effects of a usage report on meter `m` (id `meter_id`) reported by
/// `oracle`.
pub open spec fn usage_effects(oracle: Address, m: Meter, meter_id: u64, units: i128) -> Seq<
    Effect,
> {
    let taken = deduction(m, units);
    seq![Effect::RequireAuth(oracle)] + (if taken > 0 {
        seq![Effect::TransferOut { token: m.token, to: m.provider, amount: taken as i128 }]
    } else {
        Seq::empty()
    }) + seq![
        Effect::UsageReported {
            meter_id,
            units_consumed: units,
            cost: usage_cost(m, units) as i128,
        },
    ]
}

/// The effects of a claim on meter `m` at `now`.
pub open spec fn claim_effects(m: Meter, now: u64) -> Seq<Effect> {
    let taken = claim_taken(m, now);
    seq![Effect::RequireAuth(m.provider)] + (if taken > 0 {
        seq![Effect::TransferOut { token: m.token, to: m.provider, amount: taken as i128 }]
    } else {
        Seq::empty()
    })
}

/// The contract and its storage.
pub struct UtilityContract {
    meters: Vec<Meter>,
    oracle: Option<Address>,
    billing_groups: Vec<BillingGroup>,
    webhooks: Vec<WebhookConfig>,
    last_alerts: Vec<Option<u64>>,
    alerts: Vec<(String, LowBalanceAlert)>,
}

impl View for UtilityContract {
    type V = ContractState;

    closed spec fn view(&self) -> ContractState {
        ContractState {
            meters: self.meters@,
            oracle: self.oracle,
            groups: self.billing_groups@.map_values(|g: BillingGroup| g@),
            webhooks: self.webhooks@,
            last_alerts: self.last_alerts@,
            alerts: self.alerts@.map_values(|e: (String, LowBalanceAlert)| (e.0@, e.1)),
        }
    }
}

/// A key that names the group at position `i` names no other group.
pub proof fn lemma_group_pos(s: ContractState, parent: Seq<char>, i: int)
    requires
        s.wf(),
        0 <= i < s.groups.len(),
        s.groups[i].parent_account@ == parent,
    ensures
        s.group_pos(parent) == i,
{
    let j = s.group_pos(parent);
    assert(s.groups[i].parent_account@ == parent);
    if j != i {
        if j < i {
            assert(s.groups[j].parent_account@ != s.groups[i].parent_account@);
        } else {
            assert(s.groups[i].parent_account@ != s.groups[j].parent_account@);
        }
    }
}

/// A user that owns the webhook at position `i` owns no other webhook.
pub proof fn lemma_webhook_pos(s: ContractState, user: Seq<char>, i: int)
    requires
        s.wf(),
        0 <= i < s.webhooks.len(),
        s.webhooks[i].user@ == user,
    ensures
        s.webhook_pos(user) == i,
{
    let j = s.webhook_pos(user);
    assert(s.webhooks[i].user@ == user);
    if j != i {
        if j < i {
            assert(s.webhooks[j].user@ != s.webhooks[i].user@);
        } else {
            assert(s.webhooks[i].user@ != s.webhooks[j].user@);
        }
    }
}

/// A key that names the alert at position `i` names no other alert.
pub proof fn lemma_alert_pos(s: ContractState, key: Seq<char>, i: int)
    requires
        s.wf(),
        0 <= i < s.alerts.len(),
        s.alerts[i].0 == key,
    ensures
        s.alert_pos(key) == i,
{
    let j = s.alert_pos(key);
    assert(s.alerts[i].0 == key);
    if j != i {
        if j < i {
            assert(s.alerts[j].0 != s.alerts[i].0);
        } else {
            assert(s.alerts[i].0 != s.alerts[j].0);
        }
    }
}

impl UtilityContract {
    /// A contract with empty storage.
    pub fn new() -> (c: UtilityContract)
        ensures
            c@.wf(),
            c@ == (ContractState {
                meters: Seq::empty(),
                oracle: None,
                groups: Seq::empty(),
                webhooks: Seq::empty(),
                last_alerts: Seq::empty(),
                alerts: Seq::empty(),
            }),
    {
        let c = UtilityContract {
            meters: Vec::new(),
            oracle: None,
            billing_groups: Vec::new(),
            webhooks: Vec::new(),
            last_alerts: Vec::new(),
            alerts: Vec::new(),
        };
        assert(c@.groups =~= Seq::<BillingGroupView>::empty());
        assert(c@.alerts =~= Seq::<(Seq<char>, LowBalanceAlert)>::empty());
        c
    }

    /// The position of the billing group of `parent`.
    fn find_group(&self, parent: &Address) -> (r: Option<usize>)
        requires
            self@.wf(),
        ensures
            match r {
                Some(i) => i < self.billing_groups.len() && self@.group_pos(parent@) == i,
                None => self@.group_pos(parent@) == -1,
            },
    {
        let mut i: usize = 0;
        while i < self.billing_groups.len()
            invariant
                i <= self.billing_groups.len(),
                self@.wf(),
                forall|j: int| 0 <= j < i ==> self@.groups[j].parent_account@ != parent@,
            decreases self.billing_groups.len() - i,
        {
            if self.billing_groups[i].parent_account.same_as(parent) {
                proof {
                    lemma_group_pos(self@, parent@, i as int);
                }
                return Some(i);
            }
            i = i + 1;
        }
        assert(!exists|j: int|
            0 <= j < self@.groups.len() && #[trigger] self@.groups[j].parent_account@ == parent@);
        None
    }

    /// The position of the webhook of `user`.
    fn find_webhook(&self, user: &Address) -> (r: Option<usize>)
        requires
            self@.wf(),
        ensures
            match r {
                Some(i) => i < self.webhooks.len() && self@.webhook_pos(user@) == i,
                None => self@.webhook_pos(user@) == -1,
            },
    {
        let mut i: usize = 0;
        while i < self.webhooks.len()
            invariant
                i <= self.webhooks.len(),
                self@.wf(),
                forall|j: int| 0 <= j < i ==> self@.webhooks[j].user@ != user@,
            decreases self.webhooks.len() - i,
        {
            if self.webhooks[i].user.same_as(user) {
                proof {
                    lemma_webhook_pos(self@, user@, i as int);
                }
                return Some(i);
            }
            i = i + 1;
        }
        assert(!exists|j: int|
            0 <= j < self@.webhooks.len() && #[trigger] self@.webhooks[j].user@ == user@);
        None
    }
    /// Stores `g` as the billing group of its parent account.
    fn put_group(&mut self, g: BillingGroup)
        requires
            old(self)@.wf(),
            distinct_ids(g@.child_meters),
            forall|k: int|
                0 <= k < g@.child_meters.len() ==> 1 <= #[trigger] g@.child_meters[k]
                    <= old(self)@.meters.len(),
        ensures
            final(self)@ == old(self)@.with_group(g@),
            final(self)@.wf(),
    {
        let ghost gv = g@;
        match self.find_group(&g.parent_account) {
            Some(i) => {
                self.billing_groups.set(i, g);
                assert(self@.groups =~= old(self)@.groups.update(i as int, gv));
            },
            None => {
                self.billing_groups.push(g);
                assert(self@.groups =~= old(self)@.groups.push(gv));
            },
        }
        assert(self@ =~= old(self)@.with_group(gv));
    }

    /// Stores `w` as the webhook of its user.
    fn put_webhook(&mut self, w: WebhookConfig)
        requires
            old(self)@.wf(),
        ensures
            final(self)@ == old(self)@.with_webhook(w),
            final(self)@.wf(),
    {
        let ghost wv = w;
        match self.find_webhook(&w.user) {
            Some(i) => {
                self.webhooks.set(i, w);
            },
            None => {
                self.webhooks.push(w);
            },
        }
        assert(self@.groups =~= old(self)@.groups);
        assert(self@ =~= old(self)@.with_webhook(wv));
    }

    /// The position of the alert stored under `key`.
    fn find_alert(&self, key: &str) -> (r: Option<usize>)
        requires
            self@.wf(),
        ensures
            match r {
                Some(i) => i < self.alerts.len() && self@.alert_pos(key@) == i,
                None => self@.alert_pos(key@) == -1,
            },
    {
        let mut i: usize = 0;
        while i < self.alerts.len()
            invariant
                i <= self.alerts.len(),
                self@.wf(),
                forall|j: int| 0 <= j < i ==> self@.alerts[j].0 != key@,
            decreases self.alerts.len() - i,
        {
            if same_text(self.alerts[i].0.as_str(), key) {
                proof {
                    lemma_alert_pos(self@, key@, i as int);
                }
                return Some(i);
            }
            i = i + 1;
        }
        assert(!exists|j: int| 0 <= j < self@.alerts.len() && (#[trigger] self@.alerts[j]).0 == key@);
        None
    }

    /// Stores `a` under `key`.
    fn put_alert(&mut self, key: String, a: LowBalanceAlert)
        requires
            old(self)@.wf(),
        ensures
            final(self)@ == old(self)@.with_alert(key@, a),
            final(self)@.wf(),
    {
        let ghost kv = key@;
        let ghost av = a;
        match self.find_alert(key.as_str()) {
            Some(i) => {
                self.alerts.set(i, (key, a));
                assert(self@.alerts =~= old(self)@.alerts.update(i as int, (kv, av)));
            },
            None => {
                self.alerts.push((key, a));
                assert(self@.alerts =~= old(self)@.alerts.push((kv, av)));
            },
        }
        assert(self@.groups =~= old(self)@.groups);
        assert(self@ =~= old(self)@.with_alert(kv, av));
    }

    /// Stores `m` as meter `id`.
    fn put_meter(&mut self, id: u64, m: Meter)
        requires
            old(self)@.wf(),
            1 <= id <= old(self)@.meters.len(),
        ensures
            final(self)@ == old(self)@.with_meter(id, m),
            final(self)@.wf(),
    {
        self.meters.set((id - 1) as usize, m);
        assert(self@.groups =~= old(self)@.groups);
        assert(self@ =~= old(self)@.with_meter(id, m));
    }

    /// The index of meter `id` in storage, if it is registered.
    fn meter_index(&self, id: u64) -> (r: Option<usize>)
        requires
            self@.wf(),
        ensures
            match r {
                Some(i) => self@.meter(id) is Some && i == id - 1 && i < self.meters.len(),
                None => self@.meter(id) is None,
            },
    {
        if id >= 1 && id <= self.meters.len() as u64 {
            Some((id - 1) as usize)
        } else {
            None
        }
    }
}

impl UtilityContract {
    /// Sets the oracle that reports usage (the call asks no authorization).
    pub fn set_oracle(&mut self, oracle: Address)
        requires
            old(self)@.wf(),
        ensures
            final(self)@.wf(),
            final(self)@ == (ContractState { oracle: Some(oracle), ..old(self)@ }),
    {
        self.oracle = Some(oracle);
        assert(self@.groups =~= old(self)@.groups);
    }

    /// Registers a meter of `user` with `provider` at `rate` per unit, paid in
    /// `token`, and lists it in the group of `parent_account` when given.
    /// Returns the new meter's id (one more than the meter count) and the
    /// effects: `user` must authorize.
    pub fn register_meter(
        &mut self,
        user: Address,
        provider: Address,
        rate: i128,
        token: Address,
        parent_account: Option<Address>,
        now: u64,
    ) -> (r: (u64, Vec<Effect>))
        requires
            old(self)@.wf(),
            registration_fits(rate),
            old(self)@.meters.len() < u64::MAX,
        ensures
            final(self)@.wf(),
            r.0 == old(self)@.meters.len() + 1,
            r.1@ == seq![Effect::RequireAuth(user)],
            final(self)@ == old(self)@.after_registration(
                user,
                provider,
                rate,
                token,
                parent_account,
                now,
            ),
    {
        let effects = vec![Effect::RequireAuth(user.clone())];
        let id = (self.meters.len() as u64) + 1;
        let parent = clone_opt_address(&parent_account);
        let meter = Meter::new(user, provider, rate, token, parent_account, now);
        self.meters.push(meter);
        self.last_alerts.push(None);
        let ghost mid = self@;
        assert(self@.groups =~= old(self)@.groups);
        assert(mid.wf()) by {
            assert forall|i: int, k: int|
                0 <= i < mid.groups.len() && 0 <= k < mid.groups[i].child_meters.len() implies 1
                    <= #[trigger] mid.groups[i].child_meters[k] <= mid.meters.len() by {
                assert(old(self)@.groups[i].child_meters[k] <= old(self)@.meters.len());
            }
        }
        if let Some(p) = parent {
            self.add_meter_to_billing_group(p, id, now);
        }
        (id, effects)
    }

    /// Lists meter `meter_id` in the group of `parent_account`, creating the
    /// group at `now` when there is none.
    fn add_meter_to_billing_group(&mut self, parent_account: Address, meter_id: u64, now: u64)
        requires
            old(self)@.wf(),
            1 <= meter_id <= old(self)@.meters.len(),
        ensures
            final(self)@.wf(),
            final(self)@ == old(self)@.with_member(parent_account, meter_id, now),
    {
        let ghost pv = parent_account;
        match self.find_group(&parent_account) {
            Some(i) => {
                let mut g = self.billing_groups[i].clone();
                proof {
                    assert(old(self)@.groups[i as int] == g@);
                    lemma_group_pos(old(self)@, pv@, i as int);
                }
                if g.add_meter(meter_id) {
                    assert(distinct_ids(g@.child_meters)) by {
                        let c = old(self)@.groups[i as int].child_meters;
                        assert(distinct_ids(c));
                        assert forall|a: int, b: int|
                            0 <= a < b < g@.child_meters.len() implies g@.child_meters[a]
                            != g@.child_meters[b] by {
                            if b == c.len() {
                                assert(c.contains(c[a]));
                            }
                        }
                    }
                    assert forall|k: int|
                        0 <= k < g@.child_meters.len() implies 1 <= #[trigger] g@.child_meters[k]
                        <= old(self)@.meters.len() by {
                        let c = old(self)@.groups[i as int].child_meters;
                        if k < c.len() {
                            assert(c[k] == g@.child_meters[k]);
                        }
                    }
                    self.put_group(g);
                }
            },
            None => {
                let mut g = BillingGroup::new(parent_account, now);
                g.add_meter(meter_id);
                assert(g@.child_meters =~= seq![meter_id]);
                self.put_group(g);
            },
        }
    }

    /// Credits `amount` to meter `meter_id` and activates it. Effects: the
    /// meter's user must authorize, and `amount` of the meter's token moves
    /// from the user to the contract.
    pub fn top_up(&mut self, meter_id: u64, amount: i128, now: u64) -> (r: Result<
        Vec<Effect>,
        ContractError,
    >)
        requires
            old(self)@.wf(),
            old(self)@.meter(meter_id) matches Some(m) ==> fits_i128(m.balance + amount),
        ensures
            final(self)@.wf(),
            match old(self)@.meter(meter_id) {
                None => r == Err::<Vec<Effect>, ContractError>(ContractError::MeterNotFound)
                    && final(self)@ == old(self)@,
                Some(m) => r matches Ok(fx) && fx@ == seq![
                    Effect::RequireAuth(m.user),
                    Effect::TransferIn { token: m.token, from: m.user, amount },
                ] && final(self)@ == old(self)@.with_meter(meter_id, topped_up(m, amount, now)),
            },
    {
        match self.meter_index(meter_id) {
            None => Err(ContractError::MeterNotFound),
            Some(i) => {
                let mut m = self.meters[i].clone();
                let effects = vec![
                    Effect::RequireAuth(m.user.clone()),
                    Effect::TransferIn { token: m.token.clone(), from: m.user.clone(), amount },
                ];
                m.top_up(amount, now);
                self.put_meter(meter_id, m);
                Ok(effects)
            },
        }
    }

    /// Charges meter `meter_id` for `units_consumed` units reported by the
    /// oracle: the cost, never more than a positive balance, goes to the
    /// provider; the meter is stamped at `now` and deactivated once its
    /// balance is not positive. Effects: the oracle must authorize, the
    /// amount taken (when positive) moves from the contract to the provider,
    /// and a `UsageReported` event carries the units and their cost.
    pub fn deduct_units(&mut self, meter_id: u64, units_consumed: i128, now: u64) -> (r: Result<
        Vec<Effect>,
        ContractError,
    >)
        requires
            old(self)@.wf(),
            old(self)@.meter(meter_id) matches Some(m) ==> fits_i128(
                usage_cost(m, units_consumed),
            ),
        ensures
            final(self)@.wf(),
            match (old(self)@.oracle, old(self)@.meter(meter_id)) {
                (None, _) => r == Err::<Vec<Effect>, ContractError>(ContractError::OracleNotSet)
                    && final(self)@ == old(self)@,
                (Some(_), None) => r == Err::<Vec<Effect>, ContractError>(
                    ContractError::MeterNotFound,
                ) && final(self)@ == old(self)@,
                (Some(o), Some(m)) => r matches Ok(fx) && fx@ == usage_effects(
                    o,
                    m,
                    meter_id,
                    units_consumed,
                ) && final(self)@ == old(self)@.with_meter(
                    meter_id,
                    after_usage(m, units_consumed, now),
                ),
            },
    {
        let oracle = match &self.oracle {
            Some(o) => o.clone(),
            None => {
                return Err(ContractError::OracleNotSet);
            },
        };
        match self.meter_index(meter_id) {
            None => Err(ContractError::MeterNotFound),
            Some(i) => {
                let mut m = self.meters[i].clone();
                let ghost m0 = m;
                let mut effects = vec![Effect::RequireAuth(oracle)];
                let token = m.token.clone();
                let provider = m.provider.clone();
                let (cost, taken) = m.record_usage(units_consumed, now);
                if taken > 0 {
                    effects.push(Effect::TransferOut { token, to: provider, amount: taken });
                }
                effects.push(
                    Effect::UsageReported { meter_id, units_consumed, cost },
                );
                assert(effects@ =~= usage_effects(
                    old(self)@.oracle.unwrap(),
                    m0,
                    meter_id,
                    units_consumed,
                ));
                self.put_meter(meter_id, m);
                Ok(effects)
            },
        }
    }

    /// Meter `meter_id`, if registered.
    pub fn get_meter(&self, meter_id: u64) -> (r: Option<Meter>)
        requires
            self@.wf(),
        ensures
            r == self@.meter(meter_id),
    {
        match self.meter_index(meter_id) {
            Some(i) => Some(self.meters[i].clone()),
            None => None,
        }
    }

    /// When meter `meter_id` is forecast to run dry, seen from `now`: zero
    /// when it is empty or does not consume; `None` for an unknown meter.
    pub fn calculate_expected_depletion(&self, meter_id: u64, now: u64) -> (r: Option<u64>)
        requires
            self@.wf(),
            self@.meter(meter_id) matches Some(m) ==> depletion_time(m, now) <= u64::MAX,
        ensures
            r == match self@.meter(meter_id) {
                Some(m) => Some(depletion_time(m, now) as u64),
                None => None,
            },
    {
        match self.meter_index(meter_id) {
            Some(i) => Some(self.meters[i].expected_depletion(now)),
            None => None,
        }
    }

    /// Disables meter `meter_id` at once. Effects: its provider must authorize.
    pub fn emergency_shutdown(&mut self, meter_id: u64) -> (r: Result<Vec<Effect>, ContractError>)
        requires
            old(self)@.wf(),
        ensures
            final(self)@.wf(),
            match old(self)@.meter(meter_id) {
                None => r == Err::<Vec<Effect>, ContractError>(ContractError::MeterNotFound)
                    && final(self)@ == old(self)@,
                Some(m) => r matches Ok(fx) && fx@ == seq![Effect::RequireAuth(m.provider)]
                    && final(self)@ == old(self)@.with_meter(
                    meter_id,
                    Meter { is_active: false, ..m },
                ),
            },
    {
        match self.meter_index(meter_id) {
            None => Err(ContractError::MeterNotFound),
            Some(i) => {
                let mut m = self.meters[i].clone();
                let effects = vec![Effect::RequireAuth(m.provider.clone())];
                m.shut_down();
                self.put_meter(meter_id, m);
                Ok(effects)
            },
        }
    }

    /// Sets the hourly cap on claims of meter `meter_id` to `limit`; nothing
    /// else of the meter changes. Effects: the meter's user must authorize.
    pub fn set_max_flow_rate(&mut self, meter_id: u64, limit: i128) -> (r: Result<
        Vec<Effect>,
        ContractError,
    >)
        requires
            old(self)@.wf(),
        ensures
            final(self)@.wf(),
            match old(self)@.meter(meter_id) {
                None => r == Err::<Vec<Effect>, ContractError>(ContractError::MeterNotFound)
                    && final(self)@ == old(self)@,
                Some(m) => r matches Ok(fx) && fx@ == seq![Effect::RequireAuth(m.user)]
                    && final(self)@ == old(self)@.with_meter(
                    meter_id,
                    Meter { max_flow_rate_per_hour: limit, ..m },
                ),
            },
    {
        match self.meter_index(meter_id) {
            None => Err(ContractError::MeterNotFound),
            Some(i) => {
                let mut m = self.meters[i].clone();
                let effects = vec![Effect::RequireAuth(m.user.clone())];
                m.set_max_flow_rate(limit);
                self.put_meter(meter_id, m);
                Ok(effects)
            },
        }
    }

    /// Records a heartbeat of meter `meter_id` at `now`. Effects: its user
    /// must authorize.
    pub fn update_heartbeat(&mut self, meter_id: u64, now: u64) -> (r: Result<
        Vec<Effect>,
        ContractError,
    >)
        requires
            old(self)@.wf(),
        ensures
            final(self)@.wf(),
            match old(self)@.meter(meter_id) {
                None => r == Err::<Vec<Effect>, ContractError>(ContractError::MeterNotFound)
                    && final(self)@ == old(self)@,
                Some(m) => r matches Ok(fx) && fx@ == seq![Effect::RequireAuth(m.user)]
                    && final(self)@ == old(self)@.with_meter(meter_id, Meter { heartbeat: now, ..m }),
            },
    {
        match self.meter_index(meter_id) {
            None => Err(ContractError::MeterNotFound),
            Some(i) => {
                let mut m = self.meters[i].clone();
                let effects = vec![Effect::RequireAuth(m.user.clone())];
                m.beat(now);
                self.put_meter(meter_id, m);
                Ok(effects)
            },
        }
    }

    /// Whether meter `meter_id` is offline at `now`: its last heartbeat is
    /// more than an hour old, or the meter is unknown.
    pub fn is_meter_offline(&self, meter_id: u64, now: u64) -> (r: bool)
        requires
            self@.wf(),
        ensures
            r == match self@.meter(meter_id) {
                Some(m) => offline(m, now),
                None => true,
            },
    {
        match self.meter_index(meter_id) {
            Some(i) => self.meters[i].is_offline(now),
            None => true,
        }
    }
}

impl UtilityContract {
    /// Creates an empty billing group of `parent_account` at `now`, replacing
    /// any group it had. Effects: the parent account must authorize.
    pub fn create_billing_group(&mut self, parent_account: Address, now: u64) -> (fx: Vec<Effect>)
        requires
            old(self)@.wf(),
        ensures
            final(self)@.wf(),
            fx@ == seq![Effect::RequireAuth(parent_account)],
            final(self)@ == old(self)@.with_group(
                BillingGroupView {
                    parent_account,
                    child_meters: Seq::empty(),
                    created_at: now,
                },
            ),
    {
        let effects = vec![Effect::RequireAuth(parent_account.clone())];
        let g = BillingGroup::new(parent_account, now);
        self.put_group(g);
        effects
    }

    /// The billing group of `parent_account`, if there is one.
    pub fn get_billing_group(&self, parent_account: &Address) -> (r: Option<BillingGroup>)
        requires
            self@.wf(),
        ensures
            match r {
                Some(g) => self@.group(parent_account@) == Some(g@),
                None => self@.group(parent_account@) is None,
            },
    {
        match self.find_group(parent_account) {
            Some(i) => Some(self.billing_groups[i].clone()),
            None => None,
        }
    }

    /// Takes meter `meter_id` out of the group of `parent_account` and clears
    /// the meter's parent account. Effects: the parent account must authorize.
    pub fn remove_meter_from_billing_group(&mut self, parent_account: Address, meter_id: u64) -> (r:
        Result<Vec<Effect>, ContractError>)
        requires
            old(self)@.wf(),
        ensures
            final(self)@.wf(),
            match old(self)@.group(parent_account@) {
                None => r == Err::<Vec<Effect>, ContractError>(
                    ContractError::BillingGroupNotFound,
                ) && final(self)@ == old(self)@,
                Some(g) => r matches Ok(fx) && fx@ == seq![Effect::RequireAuth(parent_account)]
                    && final(self)@ == old(self)@.after_member_removal(g, meter_id),
            },
    {
        let effects = vec![Effect::RequireAuth(parent_account.clone())];
        match self.find_group(&parent_account) {
            None => Err(ContractError::BillingGroupNotFound),
            Some(i) => {
                let mut g = self.billing_groups[i].clone();
                let ghost c = old(self)@.groups[i as int].child_meters;
                proof {
                    assert(old(self)@.groups[i as int] == g@);
                    assert(distinct_ids(c));
                    lemma_without_id(c, meter_id);
                }
                g.remove_meter(meter_id);
                assert forall|k: int|
                    0 <= k < g@.child_meters.len() implies 1 <= #[trigger] g@.child_meters[k]
                    <= old(self)@.meters.len() by {
                    assert(g@.child_meters.contains(g@.child_meters[k]));
                    let j = choose|j: int| 0 <= j < c.len() && c[j] == g@.child_meters[k];
                }
                self.put_group(g);
                match self.meter_index(meter_id) {
                    Some(mi) => {
                        let mut m = self.meters[mi].clone();
                        m.parent_account = None;
                        self.put_meter(meter_id, m);
                    },
                    None => {},
                }
                Ok(effects)
            },
        }
    }

    /// Tops up every meter of the group of `parent_account` by
    /// `amount_per_meter` at `now`. Effects: the parent account must
    /// authorize, and, for a group with members, the total for all members
    /// moves from the parent account to the contract in the token of the
    /// first member.
    pub fn group_top_up(&mut self, parent_account: Address, amount_per_meter: i128, now: u64) -> (r:
        Result<Vec<Effect>, ContractError>)
        requires
            old(self)@.wf(),
            old(self)@.group(parent_account@) matches Some(g) ==> {
                &&& fits_i128(amount_per_meter * g.child_meters.len())
                &&& forall|k: int|
                    0 <= k < g.child_meters.len() ==> (old(self)@.meter(
                        #[trigger] g.child_meters[k],
                    ) matches Some(m) ==> fits_i128(m.balance + amount_per_meter))
            },
        ensures
            final(self)@.wf(),
            match old(self)@.group(parent_account@) {
                None => r == Err::<Vec<Effect>, ContractError>(
                    ContractError::BillingGroupNotFound,
                ) && final(self)@ == old(self)@,
                Some(g) => r matches Ok(fx) && if g.child_meters.len() == 0 {
                    fx@ == seq![Effect::RequireAuth(parent_account)] && final(self)@ == old(self)@
                } else {
                    &&& fx@ == seq![Effect::RequireAuth(parent_account)] + match old(self)@.meter(
                        g.child_meters[0],
                    ) {
                        Some(first) => seq![
                            Effect::TransferIn {
                                token: first.token,
                                from: parent_account,
                                amount: (amount_per_meter * g.child_meters.len()) as i128,
                            },
                        ],
                        None => Seq::empty(),
                    }
                    &&& final(self)@ == (ContractState {
                        meters: members_topped_up(
                            old(self)@.meters,
                            g.child_meters,
                            amount_per_meter,
                            now,
                        ),
                        ..old(self)@
                    })
                },
            },
    {
        let mut effects = vec![Effect::RequireAuth(parent_account.clone())];
        let gi = match self.find_group(&parent_account) {
            None => {
                return Err(ContractError::BillingGroupNotFound);
            },
            Some(i) => i,
        };
        let ids = copy_ids(&self.billing_groups[gi].child_meters);
        let ghost g = old(self)@.groups[gi as int];
        assert(ids@ == g.child_meters);
        if ids.len() == 0 {
            return Ok(effects);
        }
        let total = amount_per_meter * (ids.len() as i128);
        match self.meter_index(ids[0]) {
            Some(fi) => {
                effects.push(
                    Effect::TransferIn {
                        token: self.meters[fi].token.clone(),
                        from: parent_account,
                        amount: total,
                    },
                );
            },
            None => {},
        }
        let ghost old_meters = old(self)@.meters;
        assert(ids@.take(0) =~= Seq::<u64>::empty());
        assert(members_topped_up(old_meters, ids@.take(0), amount_per_meter, now) =~= old_meters);
        assert(self@ =~= (ContractState {
            meters: members_topped_up(old_meters, ids@.take(0), amount_per_meter, now),
            ..old(self)@
        }));
        assert forall|j: int| 0 <= j < ids.len() implies 1 <= #[trigger] ids@[j]
            <= old_meters.len() by {
            assert(old(self)@.groups[gi as int].child_meters[j] == ids@[j]);
        }
        let mut k: usize = 0;
        while k < ids.len()
            invariant
                k <= ids.len(),
                ids@ == g.child_meters,
                distinct_ids(g.child_meters),
                forall|j: int| 0 <= j < ids.len() ==> 1 <= #[trigger] ids@[j] <= old_meters.len(),
                forall|j: int|
                    0 <= j < ids.len() ==> (old(self)@.meter(#[trigger] ids@[j]) matches Some(m)
                        ==> fits_i128(m.balance + amount_per_meter)),
                old_meters == old(self)@.meters,
                self@.wf(),
                self@ == (ContractState {
                    meters: members_topped_up(
                        old_meters,
                        ids@.take(k as int),
                        amount_per_meter,
                        now,
                    ),
                    ..old(self)@
                }),
            decreases ids.len() - k,
        {
            let id = ids[k];
            assert(1 <= id <= old_meters.len());
            assert(self.meters@.len() == old_meters.len());
            assert(!ids@.take(k as int).contains(id)) by {
                let t = ids@.take(k as int);
                if t.contains(id) {
                    let j = choose|j: int| 0 <= j < t.len() && t[j] == id;
                    assert(ids@[j] == ids@[k as int]);
                }
            }
            let mi = match self.meter_index(id) {
                Some(mi) => mi,
                None => {
                    return Ok(effects);
                },
            };
            assert(self@.meters[mi as int] == members_topped_up(
                old_meters,
                ids@.take(k as int),
                amount_per_meter,
                now,
            )[mi as int]);
            assert(self.meters@[mi as int] == old_meters[mi as int]);
            assert(old(self)@.meter(ids@[k as int]) == Some(old_meters[mi as int]));
            let mut m = self.meters[mi].clone();
            m.top_up(amount_per_meter, now);
            self.put_meter(id, m);
            let ghost t0 = ids@.take(k as int);
            let ghost t1 = ids@.take(k + 1);
            assert forall|x: u64| t1.contains(x) <==> (t0.contains(x) || x == id) by {
                if t1.contains(x) {
                    let j = choose|j: int| 0 <= j < t1.len() && t1[j] == x;
                    if j < k {
                        assert(t0[j] == x);
                    }
                }
                if t0.contains(x) {
                    let j = choose|j: int| 0 <= j < t0.len() && t0[j] == x;
                    assert(t1[j] == x);
                }
                if x == id {
                    assert(t1[k as int] == x);
                }
            }
            assert(self@.meters =~= members_topped_up(
                old_meters,
                ids@.take(k + 1),
                amount_per_meter,
                now,
            ));
            k = k + 1;
        }
        assert(ids@.take(ids.len() as int) =~= ids@);
        Ok(effects)
    }
}

impl UtilityContract {
    /// Sets the webhook of `user` to `webhook_url`, active, created at `now`.
    /// Effects: `user` must authorize.
    pub fn configure_webhook(&mut self, user: Address, webhook_url: String, now: u64) -> (fx: Vec<
        Effect,
    >)
        requires
            old(self)@.wf(),
        ensures
            final(self)@.wf(),
            fx@ == seq![Effect::RequireAuth(user)],
            final(self)@ == old(self)@.with_webhook(
                WebhookConfig { url: webhook_url, user, is_active: true, created_at: now },
            ),
    {
        let effects = vec![Effect::RequireAuth(user.clone())];
        let config = WebhookConfig { url: webhook_url, user, is_active: true, created_at: now };
        self.put_webhook(config);
        effects
    }

    /// Turns off the webhook of `user`, if configured. Effects: `user` must
    /// authorize.
    pub fn deactivate_webhook(&mut self, user: Address) -> (fx: Vec<Effect>)
        requires
            old(self)@.wf(),
        ensures
            final(self)@.wf(),
            fx@ == seq![Effect::RequireAuth(user)],
            final(self)@ == match old(self)@.webhook(user@) {
                Some(w) => old(self)@.with_webhook(WebhookConfig { is_active: false, ..w }),
                None => old(self)@,
            },
    {
        let effects = vec![Effect::RequireAuth(user.clone())];
        match self.find_webhook(&user) {
            Some(i) => {
                let mut config = self.webhooks[i].clone();
                proof {
                    lemma_webhook_pos(old(self)@, user@, i as int);
                }
                config.is_active = false;
                self.put_webhook(config);
            },
            None => {},
        }
        effects
    }

    /// The webhook of `user`, if configured.
    pub fn get_webhook_config(&self, user: &Address) -> (r: Option<WebhookConfig>)
        requires
            self@.wf(),
        ensures
            r == self@.webhook(user@),
    {
        match self.find_webhook(user) {
            Some(i) => Some(self.webhooks[i].clone()),
            None => None,
        }
    }

    /// Claims for the provider of meter `meter_id` what has accrued since the
    /// last update, within the balance and the hourly cap, resetting the cap's
    /// window once an hour has passed; the meter is stamped at `now` and
    /// deactivated once its balance is not positive. Effects: the provider
    /// must authorize, and the claimed amount (when positive) moves from the
    /// contract to the provider. The low-balance alert that follows a claim
    /// is `check_and_send_low_balance_alert`.
    pub fn claim_with_alerts(&mut self, meter_id: u64, now: u64) -> (r: Result<
        Vec<Effect>,
        ContractError,
    >)
        requires
            old(self)@.wf(),
            old(self)@.meter(meter_id) matches Some(m) ==> claim_fits(m, now),
        ensures
            final(self)@.wf(),
            match old(self)@.meter(meter_id) {
                None => r == Err::<Vec<Effect>, ContractError>(ContractError::MeterNotFound)
                    && final(self)@ == old(self)@,
                Some(m) => r matches Ok(fx) && fx@ == claim_effects(m, now) && final(self)@
                    == old(self)@.with_meter(meter_id, after_claim(m, now)),
            },
    {
        match self.meter_index(meter_id) {
            None => Err(ContractError::MeterNotFound),
            Some(i) => {
                let mut m = self.meters[i].clone();
                let ghost m0 = m;
                let mut effects = vec![Effect::RequireAuth(m.provider.clone())];
                let token = m.token.clone();
                let provider = m.provider.clone();
                let taken = m.claim(now);
                if taken > 0 {
                    effects.push(Effect::TransferOut { token, to: provider, amount: taken });
                }
                assert(effects@ =~= claim_effects(m0, now));
                self.put_meter(meter_id, m);
                Ok(effects)
            },
        }
    }

    /// Decides and records a low-balance alert for meter `meter_id` at `now`,
    /// given whether the hours its balance lasts at its rate are below the
    /// alert threshold, and those hours as the bit pattern of an `f32`: an
    /// alert is due when the meter's user has an active webhook and no alert
    /// was raised in the last twelve hours. Returns whether it is due; when
    /// it is, `now` becomes the meter's last alert and the alert's record is
    /// stored under `alert:<meter_id>:<now>`.
    pub fn check_and_send_low_balance_alert(
        &mut self,
        meter_id: u64,
        below_threshold: bool,
        hours_remaining_bits: u32,
        now: u64,
    ) -> (sent: bool)
        requires
            old(self)@.wf(),
        ensures
            final(self)@.wf(),
            sent == old(self)@.alert_due(meter_id, below_threshold, now),
            final(self)@ == if sent {
                old(self)@.after_alert(meter_id, hours_remaining_bits, now)
            } else {
                old(self)@
            },
    {
        let i = match self.meter_index(meter_id) {
            Some(i) => i,
            None => {
                return false;
            },
        };
        let active = match self.find_webhook(&self.meters[i].user) {
            Some(w) => self.webhooks[w].is_active,
            None => false,
        };
        if !active || !below_threshold {
            return false;
        }
        match self.last_alerts[i] {
            Some(last) => {
                if crate::meter::seconds_since(now, last) < crate::webhook::ALERT_COOLDOWN_SECONDS {
                    return false;
                }
            },
            None => {},
        }
        let alert = LowBalanceAlert {
            meter_id,
            user: self.meters[i].user.clone(),
            remaining_balance: self.meters[i].balance,
            hours_remaining_bits,
            timestamp: now,
        };
        self.last_alerts.set(i, Some(now));
        assert(self@.groups =~= old(self)@.groups);
        assert(self@ =~= old(self)@.with_last_alert(meter_id, now));
        self.put_alert(alert_key(meter_id, now), alert);
        true
    }

    /// The alerts raised at `now` for the meters of `user`: for each of its
    /// meters in id order, the alert stored under `alert:<id>:<now>`, if any.
    pub fn get_pending_alerts(&self, user: &Address, now: u64) -> (alerts: Vec<LowBalanceAlert>)
        requires
            self@.wf(),
        ensures
            alerts@ == pending_alerts(self@, self@.meters.len(), user@, now),
    {
        let mut alerts: Vec<LowBalanceAlert> = Vec::new();
        let mut i: usize = 0;
        while i < self.meters.len()
            invariant
                i <= self.meters.len(),
                self@.wf(),
                alerts@ == pending_alerts(self@, i as nat, user@, now),
            decreases self.meters.len() - i,
        {
            if self.meters[i].user.same_as(user) {
                let id = (i as u64) + 1;
                let key = alert_key(id, now);
                match self.find_alert(key.as_str()) {
                    Some(j) => {
                        alerts.push(self.alerts[j].1.clone());
                    },
                    None => {},
                }
            }
            i = i + 1;
        }
        alerts
    }

    /// Whether the storage holds an entry under `key`.
    pub fn has(&self, key: &DataKey) -> (r: bool)
        requires
            self@.wf(),
        ensures
            r == self@.has(*key),
    {
        match key {
            DataKey::Meter(id) => self.meter_index(*id).is_some(),
            DataKey::Count => self.meters.len() > 0,
            DataKey::Oracle => self.oracle.is_some(),
            DataKey::BillingGroup(a) => self.find_group(a).is_some(),
            DataKey::WebhookConfig(a) => self.find_webhook(a).is_some(),
            DataKey::LastAlert(id) => match self.meter_index(*id) {
                Some(i) => self.last_alerts[i].is_some(),
                None => false,
            },
        }
    }

    /// Monthly cost of one meter; `meters_in_group` does not change it.
    pub fn estimate_meter_monthly_cost(is_group_meter: bool, meters_in_group: u32) -> (c: i128)
        ensures
            c == meter_monthly_cost(is_group_meter),
    {
        GasCostEstimator::estimate_meter_monthly_cost(is_group_meter, meters_in_group)
    }

    /// Monthly cost of `number_of_meters` meters, `group_meters` of them in groups.
    pub fn estimate_provider_monthly_cost(number_of_meters: u32, group_meters: u32) -> (c: i128)
        requires
            group_meters <= number_of_meters,
        ensures
            c == provider_monthly_cost(number_of_meters, group_meters),
    {
        GasCostEstimator::estimate_provider_monthly_cost(number_of_meters, group_meters)
    }

    /// The cost estimate of `number_of_meters` meters, `group_meters` of them
    /// in groups when group billing is enabled.
    pub fn estimate_large_scale_cost(
        number_of_meters: u32,
        group_billing_enabled: bool,
        group_meters: u32,
    ) -> (e: LargeScaleCostEstimate)
        requires
            number_of_meters > 0,
            group_meters <= number_of_meters,
        ensures
            e == large_scale_estimate(number_of_meters, group_billing_enabled, group_meters),
    {
        GasCostEstimator::estimate_large_scale_cost(
            number_of_meters,
            group_billing_enabled,
            group_meters,
        )
    }

    /// The fee of the named operation, or zero for an unknown name.
    pub fn get_operation_cost(operation: &str) -> (c: i128)
        ensures
            c == operation_cost(operation@),
    {
        GasCostEstimator::get_operation_cost(operation)
    }
}

impl UtilityContract {
    /// Whether no two groups share a parent account.
    fn group_keys_unique(&self) -> (r: bool)
        ensures
            r == (forall|i: int, j: int|
                0 <= i < j < self@.groups.len() ==> #[trigger] self@.groups[i].parent_account@
                    != #[trigger] self@.groups[j].parent_account@),
    {
        let n = self.billing_groups.len();
        let mut i: usize = 0;
        while i < n
            invariant
                n == self.billing_groups.len(),
                i <= n,
                forall|a: int, b: int|
                    0 <= a < i && a < b < n ==> #[trigger] self@.groups[a].parent_account@
                        != #[trigger] self@.groups[b].parent_account@,
            decreases n - i,
        {
            let mut j: usize = i + 1;
            while j < n
                invariant
                    n == self.billing_groups.len(),
                    i < n,
                    i + 1 <= j <= n,
                    forall|a: int, b: int|
                        0 <= a < i && a < b < n ==> #[trigger] self@.groups[a].parent_account@
                            != #[trigger] self@.groups[b].parent_account@,
                    forall|b: int|
                        i < b < j ==> self@.groups[i as int].parent_account@
                            != #[trigger] self@.groups[b].parent_account@,
                decreases n - j,
            {
                if self.billing_groups[i].parent_account.same_as(
                    &self.billing_groups[j].parent_account,
                ) {
                    assert(self@.groups[i as int].parent_account@
                        == self@.groups[j as int].parent_account@);
                    return false;
                }
                j = j + 1;
            }
            i = i + 1;
        }
        true
    }

    /// Whether no two webhooks share a user.
    fn webhook_keys_unique(&self) -> (r: bool)
        ensures
            r == (forall|i: int, j: int|
                0 <= i < j < self@.webhooks.len() ==> #[trigger] self@.webhooks[i].user@
                    != #[trigger] self@.webhooks[j].user@),
    {
        let n = self.webhooks.len();
        let mut i: usize = 0;
        while i < n
            invariant
                n == self.webhooks.len(),
                i <= n,
                forall|a: int, b: int|
                    0 <= a < i && a < b < n ==> #[trigger] self@.webhooks[a].user@
                        != #[trigger] self@.webhooks[b].user@,
            decreases n - i,
        {
            let mut j: usize = i + 1;
            while j < n
                invariant
                    n == self.webhooks.len(),
                    i < n,
                    i + 1 <= j <= n,
                    forall|a: int, b: int|
                        0 <= a < i && a < b < n ==> #[trigger] self@.webhooks[a].user@
                            != #[trigger] self@.webhooks[b].user@,
                    forall|b: int|
                        i < b < j ==> self@.webhooks[i as int].user@
                            != #[trigger] self@.webhooks[b].user@,
                decreases n - j,
            {
                if self.webhooks[i].user.same_as(&self.webhooks[j].user) {
                    assert(self@.webhooks[i as int].user@ == self@.webhooks[j as int].user@);
                    return false;
                }
                j = j + 1;
            }
            i = i + 1;
        }
        true
    }

    /// Whether no two alerts share a key.
    fn alert_keys_unique(&self) -> (r: bool)
        ensures
            r == (forall|i: int, j: int|
                0 <= i < j < self@.alerts.len() ==> (#[trigger] self@.alerts[i]).0 != (
                #[trigger] self@.alerts[j]).0),
    {
        let n = self.alerts.len();
        let mut i: usize = 0;
        while i < n
            invariant
                n == self.alerts.len(),
                i <= n,
                forall|a: int, b: int|
                    0 <= a < i && a < b < n ==> (#[trigger] self@.alerts[a]).0 != (
                    #[trigger] self@.alerts[b]).0,
            decreases n - i,
        {
            let mut j: usize = i + 1;
            while j < n
                invariant
                    n == self.alerts.len(),
                    i < n,
                    i + 1 <= j <= n,
                    forall|a: int, b: int|
                        0 <= a < i && a < b < n ==> (#[trigger] self@.alerts[a]).0 != (
                        #[trigger] self@.alerts[b]).0,
                    forall|b: int|
                        i < b < j ==> self@.alerts[i as int].0 != (#[trigger] self@.alerts[b]).0,
                decreases n - j,
            {
                if same_text(self.alerts[i].0.as_str(), self.alerts[j].0.as_str()) {
                    assert(self@.alerts[i as int].0 == self@.alerts[j as int].0);
                    return false;
                }
                j = j + 1;
            }
            i = i + 1;
        }
        true
    }

    /// Whether every group lists each of its meters once, and only
    /// registered meters.
    fn group_members_valid(&self) -> (r: bool)
        ensures
            r == ((forall|i: int|
                0 <= i < self@.groups.len() ==> distinct_ids(#[trigger] self@.groups[i].child_meters))
                && (forall|i: int, k: int|
                0 <= i < self@.groups.len() && 0 <= k < self@.groups[i].child_meters.len() ==> 1
                    <= #[trigger] self@.groups[i].child_meters[k] <= self@.meters.len())),
    {
        let n = self.billing_groups.len();
        let count = self.meters.len() as u64;
        let mut i: usize = 0;
        while i < n
            invariant
                n == self.billing_groups.len(),
                count == self@.meters.len(),
                i <= n,
                forall|a: int| 0 <= a < i ==> distinct_ids(#[trigger] self@.groups[a].child_meters),
                forall|a: int, k: int|
                    0 <= a < i && 0 <= k < self@.groups[a].child_meters.len() ==> 1
                        <= #[trigger] self@.groups[a].child_meters[k] <= self@.meters.len(),
            decreases n - i,
        {
            let ids = &self.billing_groups[i].child_meters;
            let ghost c = self@.groups[i as int].child_meters;
            assert(ids@ == c);
            let mut k: usize = 0;
            while k < ids.len()
                invariant
                    ids@ == c,
                    i < n,
                    n == self.billing_groups.len(),
                    c == self@.groups[i as int].child_meters,
                    count == self@.meters.len(),
                    k <= ids.len(),
                    forall|a: int, b: int| 0 <= a < b < k ==> c[a] != c[b],
                    forall|a: int| 0 <= a < k ==> 1 <= #[trigger] c[a] <= self@.meters.len(),
                decreases ids.len() - k,
            {
                let id = ids[k];
                if id < 1 || id > count {
                    assert(!(1 <= self@.groups[i as int].child_meters[k as int]
                        <= self@.meters.len()));
                    return false;
                }
                let mut l: usize = 0;
                while l < k
                    invariant
                        ids@ == c,
                        i < n,
                        n == self.billing_groups.len(),
                        c == self@.groups[i as int].child_meters,
                        k < ids.len(),
                        id == c[k as int],
                        l <= k,
                        forall|a: int| 0 <= a < l ==> c[a] != id,
                    decreases k - l,
                {
                    if ids[l] == id {
                        assert(c[l as int] == c[k as int]);
                        assert(!distinct_ids(self@.groups[i as int].child_meters));
                        return false;
                    }
                    l = l + 1;
                }
                k = k + 1;
            }
            assert(distinct_ids(self@.groups[i as int].child_meters));
            i = i + 1;
        }
        true
    }

    /// A contract over storage loaded as its parts, or `None` when the parts
    /// break the storage's invariant.
    pub fn from_storage(
        meters: Vec<Meter>,
        oracle: Option<Address>,
        billing_groups: Vec<BillingGroup>,
        webhooks: Vec<WebhookConfig>,
        last_alerts: Vec<Option<u64>>,
        alerts: Vec<(String, LowBalanceAlert)>,
    ) -> (r: Option<UtilityContract>)
        ensures
            ({
                let s = ContractState {
                    meters: meters@,
                    oracle,
                    groups: billing_groups@.map_values(|g: BillingGroup| g@),
                    webhooks: webhooks@,
                    last_alerts: last_alerts@,
                    alerts: alerts@.map_values(|e: (String, LowBalanceAlert)| (e.0@, e.1)),
                };
                match r {
                    Some(c) => c@ == s && s.wf(),
                    None => !s.wf(),
                }
            }),
    {
        let c = UtilityContract { meters, oracle, billing_groups, webhooks, last_alerts, alerts };
        if (c.meters.len() as u128) > (u64::MAX as u128) || c.last_alerts.len() != c.meters.len() {
            return None;
        }
        if c.group_keys_unique() && c.group_members_valid() && c.webhook_keys_unique()
            && c.alert_keys_unique() {
            Some(c)
        } else {
            None
        }
    }

    /// The parts of the storage: meters in id order, the oracle, the billing
    /// groups, the webhooks, the last alert time of each meter and the alert
    /// records with their keys.
    pub fn into_storage(self) -> (parts: (
        Vec<Meter>,
        Option<Address>,
        Vec<BillingGroup>,
        Vec<WebhookConfig>,
        Vec<Option<u64>>,
        Vec<(String, LowBalanceAlert)>,
    ))
        ensures
            parts.0@ == self@.meters,
            parts.1 == self@.oracle,
            parts.2@.map_values(|g: BillingGroup| g@) == self@.groups,
            parts.3@ == self@.webhooks,
            parts.4@ == self@.last_alerts,
            parts.5@.map_values(|e: (String, LowBalanceAlert)| (e.0@, e.1)) == self@.alerts,
    {
        (
            self.meters,
            self.oracle,
            self.billing_groups,
            self.webhooks,
            self.last_alerts,
            self.alerts,
        )
    }
}

} // verus!
