use utility_contracts::address::Address;
use utility_contracts::billing::BillingGroup;
use utility_contracts::contract::{ContractError, DataKey, Effect, UtilityContract};
use utility_contracts::meter::Meter;
use utility_contracts::webhook::LowBalanceAlert;

fn addr(s: &str) -> Address {
    Address::new(s)
}

const T0: u64 = 1_000_000;

/// The bit pattern of 2.5f32, the hours a low balance lasts in the alert tests.
const BITS: u32 = 0x4020_0000;

/// A contract with an oracle and one meter (id 1) of GUSER with GPROV at
/// `rate`, registered at T0.
fn with_meter(rate: i128) -> UtilityContract {
    let mut c = UtilityContract::new();
    c.set_oracle(addr("GORACLE"));
    let (id, _) = c.register_meter(addr("GUSER"), addr("GPROV"), rate, addr("CTOKEN"), None, T0);
    assert_eq!(id, 1);
    c
}

#[test]
fn register_meter_assigns_sequential_ids() {
    let mut c = UtilityContract::new();
    let (id1, fx) = c.register_meter(addr("GA"), addr("GP"), 5, addr("CT"), None, 10);
    assert_eq!(id1, 1);
    assert_eq!(fx, vec![Effect::RequireAuth(addr("GA"))]);
    let (id2, _) = c.register_meter(addr("GB"), addr("GP"), 7, addr("CT"), None, 20);
    assert_eq!(id2, 2);
    assert_eq!(
        c.get_meter(1),
        Some(Meter {
            user: addr("GA"),
            provider: addr("GP"),
            rate_per_unit: 5,
            balance: 0,
            last_update: 10,
            is_active: false,
            token: addr("CT"),
            max_flow_rate_per_hour: 5 * 3600,
            last_claim_time: 10,
            claimed_this_hour: 0,
            heartbeat: 10,
            parent_account: None,
        })
    );
    assert_eq!(c.get_meter(2).unwrap().rate_per_unit, 7);
    assert_eq!(c.get_meter(0), None);
    assert_eq!(c.get_meter(3), None);
}

#[test]
fn top_up_credits_and_activates() {
    let mut c = with_meter(2);
    let fx = c.top_up(1, 500, T0 + 60).unwrap();
    assert_eq!(
        fx,
        vec![
            Effect::RequireAuth(addr("GUSER")),
            Effect::TransferIn { token: addr("CTOKEN"), from: addr("GUSER"), amount: 500 },
        ]
    );
    let m = c.get_meter(1).unwrap();
    assert_eq!(m.balance, 500);
    assert!(m.is_active);
    assert_eq!(m.last_update, T0 + 60);
    assert_eq!(c.top_up(9, 500, T0), Err(ContractError::MeterNotFound));
}

#[test]
fn deduct_units_needs_an_oracle() {
    let mut c = UtilityContract::new();
    c.register_meter(addr("GUSER"), addr("GPROV"), 2, addr("CTOKEN"), None, T0);
    assert_eq!(c.deduct_units(1, 10, T0), Err(ContractError::OracleNotSet));
    c.set_oracle(addr("GORACLE"));
    assert_eq!(c.deduct_units(2, 10, T0), Err(ContractError::MeterNotFound));
}

#[test]
fn deduct_units_charges_provider() {
    let mut c = with_meter(3);
    c.top_up(1, 100, T0).unwrap();
    let fx = c.deduct_units(1, 10, T0 + 5).unwrap();
    assert_eq!(
        fx,
        vec![
            Effect::RequireAuth(addr("GORACLE")),
            Effect::TransferOut { token: addr("CTOKEN"), to: addr("GPROV"), amount: 30 },
            Effect::UsageReported { meter_id: 1, units_consumed: 10, cost: 30 },
        ]
    );
    let m = c.get_meter(1).unwrap();
    assert_eq!(m.balance, 70);
    assert!(m.is_active);
    assert_eq!(m.last_update, T0 + 5);
}

#[test]
fn deduct_units_never_overdraws() {
    let mut c = with_meter(3);
    c.top_up(1, 20, T0).unwrap();
    let fx = c.deduct_units(1, 100, T0 + 5).unwrap();
    assert_eq!(
        fx,
        vec![
            Effect::RequireAuth(addr("GORACLE")),
            Effect::TransferOut { token: addr("CTOKEN"), to: addr("GPROV"), amount: 20 },
            Effect::UsageReported { meter_id: 1, units_consumed: 100, cost: 300 },
        ]
    );
    let m = c.get_meter(1).unwrap();
    assert_eq!(m.balance, 0);
    assert!(!m.is_active);
    // nothing left: a further report transfers nothing
    let fx = c.deduct_units(1, 1, T0 + 6).unwrap();
    assert_eq!(
        fx,
        vec![
            Effect::RequireAuth(addr("GORACLE")),
            Effect::UsageReported { meter_id: 1, units_consumed: 1, cost: 3 },
        ]
    );
}

#[test]
fn deduct_units_with_no_cost() {
    let mut c = with_meter(3);
    c.top_up(1, 20, T0).unwrap();
    let fx = c.deduct_units(1, -4, T0 + 5).unwrap();
    assert_eq!(
        fx,
        vec![
            Effect::RequireAuth(addr("GORACLE")),
            Effect::UsageReported { meter_id: 1, units_consumed: -4, cost: -12 },
        ]
    );
    assert_eq!(c.get_meter(1).unwrap().balance, 20);
}

#[test]
fn claim_respects_hourly_cap() {
    let mut c = with_meter(10);
    c.top_up(1, 1_000_000, T0).unwrap();
    // two hours accrue 72000, the cap is 36000 an hour
    let fx = c.claim_with_alerts(1, T0 + 7200).unwrap();
    assert_eq!(
        fx,
        vec![
            Effect::RequireAuth(addr("GPROV")),
            Effect::TransferOut { token: addr("CTOKEN"), to: addr("GPROV"), amount: 36_000 },
        ]
    );
    let m = c.get_meter(1).unwrap();
    assert_eq!(m.balance, 1_000_000 - 36_000);
    assert_eq!(m.claimed_this_hour, 36_000);
    assert_eq!(m.last_claim_time, T0 + 7200);
    assert_eq!(m.last_update, T0 + 7200);
    // within the same hour the cap is used up
    let fx = c.claim_with_alerts(1, T0 + 7300).unwrap();
    assert_eq!(fx, vec![Effect::RequireAuth(addr("GPROV"))]);
    assert_eq!(c.get_meter(1).unwrap().balance, 1_000_000 - 36_000);
    // an hour later the window opens again
    let fx = c.claim_with_alerts(1, T0 + 7200 + 3600).unwrap();
    assert_eq!(
        fx,
        vec![
            Effect::RequireAuth(addr("GPROV")),
            Effect::TransferOut { token: addr("CTOKEN"), to: addr("GPROV"), amount: 35_000 },
        ]
    );
}

#[test]
fn claim_never_overdraws() {
    let mut c = with_meter(10);
    c.top_up(1, 50, T0).unwrap();
    let fx = c.claim_with_alerts(1, T0 + 100).unwrap();
    assert_eq!(
        fx,
        vec![
            Effect::RequireAuth(addr("GPROV")),
            Effect::TransferOut { token: addr("CTOKEN"), to: addr("GPROV"), amount: 50 },
        ]
    );
    let m = c.get_meter(1).unwrap();
    assert_eq!(m.balance, 0);
    assert!(!m.is_active);
    assert_eq!(c.claim_with_alerts(5, T0), Err(ContractError::MeterNotFound));
}

#[test]
fn expected_depletion() {
    let mut c = with_meter(3);
    assert_eq!(c.calculate_expected_depletion(1, T0), Some(0));
    c.top_up(1, 1000, T0).unwrap();
    assert_eq!(c.calculate_expected_depletion(1, T0 + 10), Some(T0 + 10 + 333));
    assert_eq!(c.calculate_expected_depletion(2, T0), None);
    let mut z = with_meter(0);
    z.top_up(1, 1000, T0).unwrap();
    assert_eq!(z.calculate_expected_depletion(1, T0), Some(0));
}

#[test]
fn emergency_shutdown_disables_meter() {
    let mut c = with_meter(3);
    c.top_up(1, 1000, T0).unwrap();
    let fx = c.emergency_shutdown(1).unwrap();
    assert_eq!(fx, vec![Effect::RequireAuth(addr("GPROV"))]);
    let m = c.get_meter(1).unwrap();
    assert!(!m.is_active);
    assert_eq!(m.balance, 1000);
    assert_eq!(c.emergency_shutdown(2), Err(ContractError::MeterNotFound));
}

#[test]
fn heartbeat_monitoring() {
    let mut c = with_meter(3);
    assert!(!c.is_meter_offline(1, T0));
    assert!(!c.is_meter_offline(1, T0 + 3600));
    assert!(c.is_meter_offline(1, T0 + 3601));
    assert!(!c.is_meter_offline(1, T0 - 50));
    let fx = c.update_heartbeat(1, T0 + 5000).unwrap();
    assert_eq!(fx, vec![Effect::RequireAuth(addr("GUSER"))]);
    assert_eq!(c.get_meter(1).unwrap().heartbeat, T0 + 5000);
    assert!(!c.is_meter_offline(1, T0 + 8600));
    assert!(c.is_meter_offline(1, T0 + 8601));
    assert!(c.is_meter_offline(7, T0));
    assert_eq!(c.update_heartbeat(7, T0), Err(ContractError::MeterNotFound));
}

#[test]
fn billing_group_membership() {
    let mut c = UtilityContract::new();
    let fx = c.create_billing_group(addr("GPARENT"), 50);
    assert_eq!(fx, vec![Effect::RequireAuth(addr("GPARENT"))]);
    let g = c.get_billing_group(&addr("GPARENT")).unwrap();
    assert!(g.child_meters.is_empty());
    assert_eq!(g.created_at, 50);
    c.register_meter(addr("GA"), addr("GP"), 1, addr("CT1"), Some(addr("GPARENT")), 60);
    c.register_meter(addr("GB"), addr("GP"), 1, addr("CT2"), None, 61);
    c.register_meter(addr("GC"), addr("GP"), 1, addr("CT3"), Some(addr("GPARENT")), 62);
    assert_eq!(c.get_billing_group(&addr("GPARENT")).unwrap().child_meters, vec![1, 3]);
    assert_eq!(c.get_meter(1).unwrap().parent_account, Some(addr("GPARENT")));
    assert_eq!(c.get_billing_group(&addr("GOTHER")), None);
}

#[test]
fn registering_with_a_new_parent_creates_its_group() {
    let mut c = UtilityContract::new();
    c.register_meter(addr("GA"), addr("GP"), 1, addr("CT"), Some(addr("GNEW")), 77);
    let g = c.get_billing_group(&addr("GNEW")).unwrap();
    assert_eq!(g.child_meters, vec![1]);
    assert_eq!(g.created_at, 77);
    assert_eq!(g.parent_account, addr("GNEW"));
}

#[test]
fn group_top_up_credits_every_member() {
    let mut c = UtilityContract::new();
    c.register_meter(addr("GA"), addr("GP"), 1, addr("CT1"), Some(addr("GPARENT")), 60);
    c.register_meter(addr("GB"), addr("GP"), 1, addr("CT2"), None, 61);
    c.register_meter(addr("GC"), addr("GP"), 1, addr("CT3"), Some(addr("GPARENT")), 62);
    let fx = c.group_top_up(addr("GPARENT"), 25, 100).unwrap();
    assert_eq!(
        fx,
        vec![
            Effect::RequireAuth(addr("GPARENT")),
            Effect::TransferIn { token: addr("CT1"), from: addr("GPARENT"), amount: 50 },
        ]
    );
    for id in [1u64, 3] {
        let m = c.get_meter(id).unwrap();
        assert_eq!(m.balance, 25);
        assert!(m.is_active);
        assert_eq!(m.last_update, 100);
    }
    let other = c.get_meter(2).unwrap();
    assert_eq!(other.balance, 0);
    assert!(!other.is_active);
    assert_eq!(
        c.group_top_up(addr("GNONE"), 25, 100),
        Err(ContractError::BillingGroupNotFound)
    );
}

#[test]
fn group_top_up_of_empty_group_moves_nothing() {
    let mut c = UtilityContract::new();
    c.create_billing_group(addr("GPARENT"), 1);
    let fx = c.group_top_up(addr("GPARENT"), 25, 100).unwrap();
    assert_eq!(fx, vec![Effect::RequireAuth(addr("GPARENT"))]);
}

#[test]
fn removing_a_meter_from_its_group() {
    let mut c = UtilityContract::new();
    c.register_meter(addr("GA"), addr("GP"), 1, addr("CT"), Some(addr("GPARENT")), 60);
    c.register_meter(addr("GB"), addr("GP"), 1, addr("CT"), Some(addr("GPARENT")), 61);
    let fx = c.remove_meter_from_billing_group(addr("GPARENT"), 1).unwrap();
    assert_eq!(fx, vec![Effect::RequireAuth(addr("GPARENT"))]);
    assert_eq!(c.get_billing_group(&addr("GPARENT")).unwrap().child_meters, vec![2]);
    assert_eq!(c.get_meter(1).unwrap().parent_account, None);
    assert_eq!(c.get_meter(2).unwrap().parent_account, Some(addr("GPARENT")));
    // removing an id the group does not list still clears that meter's parent
    c.remove_meter_from_billing_group(addr("GPARENT"), 9).unwrap();
    assert_eq!(c.get_billing_group(&addr("GPARENT")).unwrap().child_meters, vec![2]);
    assert_eq!(
        c.remove_meter_from_billing_group(addr("GNONE"), 2),
        Err(ContractError::BillingGroupNotFound)
    );
}

#[test]
fn recreating_a_group_empties_it() {
    let mut c = UtilityContract::new();
    c.register_meter(addr("GA"), addr("GP"), 1, addr("CT"), Some(addr("GPARENT")), 60);
    c.create_billing_group(addr("GPARENT"), 70);
    let g = c.get_billing_group(&addr("GPARENT")).unwrap();
    assert!(g.child_meters.is_empty());
    assert_eq!(g.created_at, 70);
}

#[test]
fn webhook_configuration() {
    let mut c = UtilityContract::new();
    assert_eq!(c.get_webhook_config(&addr("GUSER")), None);
    let fx = c.configure_webhook(addr("GUSER"), "https://example.org/hook".to_string(), 5);
    assert_eq!(fx, vec![Effect::RequireAuth(addr("GUSER"))]);
    let w = c.get_webhook_config(&addr("GUSER")).unwrap();
    assert_eq!(w.url, "https://example.org/hook");
    assert!(w.is_active);
    assert_eq!(w.created_at, 5);
    let fx = c.deactivate_webhook(addr("GUSER"));
    assert_eq!(fx, vec![Effect::RequireAuth(addr("GUSER"))]);
    assert!(!c.get_webhook_config(&addr("GUSER")).unwrap().is_active);
    c.deactivate_webhook(addr("GNOBODY"));
    assert_eq!(c.get_webhook_config(&addr("GNOBODY")), None);
    c.configure_webhook(addr("GUSER"), "https://example.org/new".to_string(), 9);
    let w = c.get_webhook_config(&addr("GUSER")).unwrap();
    assert_eq!(w.url, "https://example.org/new");
    assert!(w.is_active);
}

#[test]
fn low_balance_alerts_need_an_active_webhook() {
    let mut c = with_meter(3);
    assert!(!c.check_and_send_low_balance_alert(1, true, BITS, T0));
    c.configure_webhook(addr("GUSER"), "https://example.org/hook".to_string(), T0);
    assert!(!c.check_and_send_low_balance_alert(1, false, BITS, T0));
    assert!(!c.has(&DataKey::LastAlert(1)));
    assert!(c.check_and_send_low_balance_alert(1, true, BITS, T0));
    assert!(c.has(&DataKey::LastAlert(1)));
    c.deactivate_webhook(addr("GUSER"));
    assert!(!c.check_and_send_low_balance_alert(1, true, BITS, T0 + 100_000));
    assert!(!c.check_and_send_low_balance_alert(2, true, BITS, T0));
}

#[test]
fn low_balance_alerts_wait_twelve_hours() {
    let mut c = with_meter(3);
    c.configure_webhook(addr("GUSER"), "https://example.org/hook".to_string(), T0);
    assert!(c.check_and_send_low_balance_alert(1, true, BITS, T0));
    assert!(!c.check_and_send_low_balance_alert(1, true, BITS, T0 + 43_199));
    assert!(c.check_and_send_low_balance_alert(1, true, BITS, T0 + 43_200));
    assert!(!c.check_and_send_low_balance_alert(1, true, BITS, T0 + 43_201));
}

#[test]
fn low_balance_alerts_wait_when_the_clock_reads_earlier() {
    let mut c = with_meter(3);
    c.configure_webhook(addr("GUSER"), "https://example.org/hook".to_string(), T0);
    assert!(c.check_and_send_low_balance_alert(1, true, BITS, T0));
    assert!(!c.check_and_send_low_balance_alert(1, true, BITS, T0 - 50_000));
    assert!(!c.check_and_send_low_balance_alert(1, true, BITS, 0));
}

#[test]
fn pending_alerts_of_a_user() {
    let mut c = UtilityContract::new();
    c.register_meter(addr("GA"), addr("GP"), 1, addr("CT"), None, 1);
    c.register_meter(addr("GB"), addr("GP"), 1, addr("CT"), None, 1);
    c.register_meter(addr("GA"), addr("GP"), 1, addr("CT"), None, 1);
    c.register_meter(addr("GA"), addr("GP"), 1, addr("CT"), None, 1);
    c.top_up(3, 77, 1).unwrap();
    c.configure_webhook(addr("GA"), "https://example.org/a".to_string(), 1);
    c.configure_webhook(addr("GB"), "https://example.org/b".to_string(), 1);
    assert!(c.get_pending_alerts(&addr("GA"), 42).is_empty());
    assert!(c.check_and_send_low_balance_alert(3, true, BITS, 42));
    assert!(c.check_and_send_low_balance_alert(2, true, 7, 42));
    assert!(c.check_and_send_low_balance_alert(1, true, 9, 42));
    assert!(c.check_and_send_low_balance_alert(4, true, 11, 41));
    let alert = |meter_id: u64, user: &str, remaining_balance: i128, bits: u32| LowBalanceAlert {
        meter_id,
        user: addr(user),
        remaining_balance,
        hours_remaining_bits: bits,
        timestamp: 42,
    };
    assert_eq!(
        c.get_pending_alerts(&addr("GA"), 42),
        vec![alert(1, "GA", 0, 9), alert(3, "GA", 77, BITS)]
    );
    assert_eq!(c.get_pending_alerts(&addr("GB"), 42), vec![alert(2, "GB", 0, 7)]);
    // alerts of an earlier ledger time are not pending now
    assert!(c.get_pending_alerts(&addr("GA"), 43).is_empty());
    assert!(c.get_pending_alerts(&addr("GZ"), 42).is_empty());
}

#[test]
fn alert_records_are_stored_under_their_key() {
    let mut c = with_meter(3);
    c.top_up(1, 1_000, T0).unwrap();
    c.configure_webhook(addr("GUSER"), "https://example.org/hook".to_string(), T0);
    assert!(c.check_and_send_low_balance_alert(1, true, BITS, T0 + 5));
    let (_, _, _, _, last_alerts, alerts) = c.into_storage();
    assert_eq!(last_alerts, vec![Some(T0 + 5)]);
    assert_eq!(
        alerts,
        vec![(
            "alert:1:1000005".to_string(),
            LowBalanceAlert {
                meter_id: 1,
                user: addr("GUSER"),
                remaining_balance: 1_000,
                hours_remaining_bits: BITS,
                timestamp: T0 + 5,
            }
        )]
    );
}

#[test]
fn users_set_their_hourly_limit() {
    let mut c = with_meter(10);
    c.top_up(1, 1_000_000, T0).unwrap();
    let fx = c.set_max_flow_rate(1, 100).unwrap();
    assert_eq!(fx, vec![Effect::RequireAuth(addr("GUSER"))]);
    let m = c.get_meter(1).unwrap();
    assert_eq!(m.max_flow_rate_per_hour, 100);
    assert_eq!(m.rate_per_unit, 10);
    assert_eq!(m.balance, 1_000_000);
    // a claim of 600 accrued is held to the new cap of 100
    let fx = c.claim_with_alerts(1, T0 + 60).unwrap();
    assert_eq!(
        fx,
        vec![
            Effect::RequireAuth(addr("GPROV")),
            Effect::TransferOut { token: addr("CTOKEN"), to: addr("GPROV"), amount: 100 },
        ]
    );
    assert_eq!(c.set_max_flow_rate(2, 100), Err(ContractError::MeterNotFound));
}

#[test]
fn storage_entries() {
    let mut c = UtilityContract::new();
    assert!(!c.has(&DataKey::Count));
    assert!(!c.has(&DataKey::Oracle));
    c.set_oracle(addr("GORACLE"));
    assert!(c.has(&DataKey::Oracle));
    c.register_meter(addr("GA"), addr("GP"), 1, addr("CT"), Some(addr("GPARENT")), 1);
    assert!(c.has(&DataKey::Count));
    assert!(c.has(&DataKey::Meter(1)));
    assert!(!c.has(&DataKey::Meter(2)));
    assert!(c.has(&DataKey::BillingGroup(addr("GPARENT"))));
    assert!(!c.has(&DataKey::BillingGroup(addr("GA"))));
    assert!(!c.has(&DataKey::WebhookConfig(addr("GA"))));
    c.configure_webhook(addr("GA"), "u".to_string(), 1);
    assert!(c.has(&DataKey::WebhookConfig(addr("GA"))));
    assert!(!c.has(&DataKey::LastAlert(1)));
}

#[test]
fn addresses_compare_by_strkey() {
    let a = addr("GABC");
    assert!(a.same_as(&addr("GABC")));
    assert!(!a.same_as(&addr("GABD")));
    assert_eq!(a.as_str(), "GABC");
}

fn net_inflow(effects: &[Effect]) -> i128 {
    effects
        .iter()
        .map(|e| match e {
            Effect::TransferIn { amount, .. } => *amount,
            Effect::TransferOut { amount, .. } => -*amount,
            _ => 0,
        })
        .sum()
}

fn total_balance(c: &UtilityContract) -> i128 {
    let mut total = 0;
    let mut id = 1;
    while let Some(m) = c.get_meter(id) {
        total += m.balance;
        id += 1;
    }
    total
}

#[test]
fn balances_follow_transfers() {
    let mut c = UtilityContract::new();
    c.set_oracle(addr("GORACLE"));
    c.register_meter(addr("GA"), addr("GP"), 4, addr("CT"), Some(addr("GPARENT")), T0);
    c.register_meter(addr("GB"), addr("GP"), 9, addr("CT"), Some(addr("GPARENT")), T0);
    c.register_meter(addr("GC"), addr("GP"), 2, addr("CT"), None, T0);
    let mut expected = 0;
    let steps: Vec<Vec<Effect>> = vec![
        c.top_up(1, 10_000, T0 + 1).unwrap(),
        c.top_up(3, 500, T0 + 1).unwrap(),
        c.group_top_up(addr("GPARENT"), 1_000, T0 + 2).unwrap(),
        c.deduct_units(2, 50, T0 + 3).unwrap(),
        c.deduct_units(3, 1_000, T0 + 3).unwrap(),
        c.claim_with_alerts(1, T0 + 4_000).unwrap(),
        c.claim_with_alerts(2, T0 + 100).unwrap(),
    ];
    for fx in &steps {
        expected += net_inflow(fx);
    }
    assert_eq!(total_balance(&c), expected);
    assert_eq!(c.get_meter(3).unwrap().balance, 0);
}

#[test]
fn storage_round_trip() {
    let mut c = UtilityContract::new();
    c.set_oracle(addr("GORACLE"));
    c.register_meter(addr("GA"), addr("GP"), 4, addr("CT"), Some(addr("GPARENT")), T0);
    c.configure_webhook(addr("GA"), "u".to_string(), T0);
    let (meters, oracle, groups, webhooks, last_alerts, alerts) = c.into_storage();
    assert_eq!(meters.len(), 1);
    assert_eq!(oracle, Some(addr("GORACLE")));
    assert_eq!(groups.len(), 1);
    assert_eq!(webhooks.len(), 1);
    assert_eq!(last_alerts, vec![None]);
    assert!(alerts.is_empty());
    let back =
        UtilityContract::from_storage(meters, oracle, groups, webhooks, last_alerts, alerts).unwrap();
    assert_eq!(back.get_billing_group(&addr("GPARENT")).unwrap().child_meters, vec![1]);
    assert_eq!(back.get_meter(1).unwrap().rate_per_unit, 4);
}

#[test]
fn inconsistent_storage_is_refused() {
    let meter = || Meter {
        user: addr("GA"),
        provider: addr("GP"),
        rate_per_unit: 1,
        balance: 0,
        last_update: 0,
        is_active: false,
        token: addr("CT"),
        max_flow_rate_per_hour: 3600,
        last_claim_time: 0,
        claimed_this_hour: 0,
        heartbeat: 0,
        parent_account: None,
    };
    let group = |ids: Vec<u64>| BillingGroup {
        parent_account: addr("GPARENT"),
        child_meters: ids,
        created_at: 0,
    };
    // a group listing an unregistered meter
    assert!(UtilityContract::from_storage(vec![meter()], None, vec![group(vec![2])], vec![], vec![None], vec![])
        .is_none());
    // a group listing a meter twice
    assert!(UtilityContract::from_storage(vec![meter()], None, vec![group(vec![1, 1])], vec![], vec![None], vec![])
        .is_none());
    // two groups of one parent
    assert!(UtilityContract::from_storage(
        vec![meter()],
        None,
        vec![group(vec![1]), group(vec![])],
        vec![],
        vec![None],
        vec![]
    )
    .is_none());
    // alert times that do not match the meters
    assert!(UtilityContract::from_storage(vec![meter()], None, vec![], vec![], vec![], vec![]).is_none());
    // two alerts under one key
    let record = LowBalanceAlert {
        meter_id: 1,
        user: addr("GA"),
        remaining_balance: 0,
        hours_remaining_bits: 0,
        timestamp: 5,
    };
    assert!(UtilityContract::from_storage(
        vec![meter()],
        None,
        vec![],
        vec![],
        vec![Some(5)],
        vec![("alert:1:5".to_string(), record.clone()), ("alert:1:5".to_string(), record.clone())]
    )
    .is_none());
    assert!(UtilityContract::from_storage(
        vec![meter()],
        None,
        vec![group(vec![1])],
        vec![],
        vec![Some(5)],
        vec![("alert:1:5".to_string(), record)]
    )
    .is_some());
}
