use utility_contracts::contract::UtilityContract;
use utility_contracts::gas_estimator::{GasCostEstimator, LargeScaleCostEstimate};
use utility_contracts::webhook::alert_key;

#[test]
fn meter_monthly_cost_individual() {
    // 10M + 30 * 8M + 720 * 3M + 4 * 5M
    assert_eq!(GasCostEstimator::estimate_meter_monthly_cost(false, 0), 2_430_000_000);
}

#[test]
fn meter_monthly_cost_group_meter() {
    // group top-ups cost 6M each in place of 5M
    assert_eq!(GasCostEstimator::estimate_meter_monthly_cost(true, 5), 2_434_000_000);
    // the group size does not change the estimate
    assert_eq!(GasCostEstimator::estimate_meter_monthly_cost(true, 50), 2_434_000_000);
}

#[test]
fn provider_monthly_cost_without_groups() {
    assert_eq!(GasCostEstimator::estimate_provider_monthly_cost(10, 0), 24_300_000_000);
    assert_eq!(GasCostEstimator::estimate_provider_monthly_cost(0, 0), 0);
}

#[test]
fn provider_monthly_cost_with_groups() {
    // 8 of 10 meters grouped: one whole group of five, 2 individual meters
    assert_eq!(
        GasCostEstimator::estimate_provider_monthly_cost(10, 8),
        2_434_000_000 + 2 * 2_430_000_000
    );
    // fewer than five grouped meters form no group and are not charged
    assert_eq!(GasCostEstimator::estimate_provider_monthly_cost(4, 4), 0);
}

#[test]
fn large_scale_cost_with_group_billing() {
    let e = GasCostEstimator::estimate_large_scale_cost(100, true, 80);
    let monthly: i128 = 16 * 2_434_000_000 + 20 * 2_430_000_000;
    assert_eq!(
        e,
        LargeScaleCostEstimate {
            number_of_meters: 100,
            monthly_cost_stroops: monthly,
            annual_cost_stroops: monthly * 12,
            cost_per_meter_stroops: monthly / 100,
            monthly_cost_xlm: monthly / 10_000_000,
            annual_cost_xlm: monthly * 12 / 10_000_000,
            cost_per_meter_xlm: monthly / 100 / 10_000_000,
            group_billing_enabled: true,
        }
    );
    assert_eq!(e.monthly_cost_xlm, 8754);
    assert_eq!(e.annual_cost_xlm, 105_052);
    assert_eq!(e.cost_per_meter_xlm, 87);
}

#[test]
fn large_scale_cost_without_group_billing() {
    let e = UtilityContract::estimate_large_scale_cost(1000, false, 0);
    assert_eq!(e.monthly_cost_stroops, 2_430_000_000_000);
    assert_eq!(e.annual_cost_stroops, 29_160_000_000_000);
    assert_eq!(e.cost_per_meter_stroops, 2_430_000_000);
    assert_eq!(e.monthly_cost_xlm, 243_000);
    assert_eq!(e.annual_cost_xlm, 2_916_000);
    assert_eq!(e.cost_per_meter_xlm, 243);
    assert!(!e.group_billing_enabled);
}

#[test]
fn summary_text() {
    let e = GasCostEstimator::estimate_large_scale_cost(100, true, 80);
    assert_eq!(
        e.get_summary(),
        "Cost Analysis for 100 meters:\nMonthly: 8754 XLM (87 per meter)\nAnnual: 105052 XLM (87 per meter)\nGroup Billing: Enabled"
    );
    let d = UtilityContract::estimate_large_scale_cost(1, false, 0);
    assert_eq!(
        d.get_summary(),
        "Cost Analysis for 1 meters:\nMonthly: 243 XLM (243 per meter)\nAnnual: 2916 XLM (243 per meter)\nGroup Billing: Disabled"
    );
}

#[test]
fn summary_of_negative_and_zero_amounts() {
    let e = LargeScaleCostEstimate {
        number_of_meters: 0,
        monthly_cost_stroops: 0,
        annual_cost_stroops: 0,
        cost_per_meter_stroops: 0,
        monthly_cost_xlm: -5,
        annual_cost_xlm: i128::MIN,
        cost_per_meter_xlm: 0,
        group_billing_enabled: false,
    };
    assert_eq!(
        e.get_summary(),
        format!(
            "Cost Analysis for 0 meters:\nMonthly: -5 XLM (0 per meter)\nAnnual: {} XLM (0 per meter)\nGroup Billing: Disabled",
            i128::MIN
        )
    );
}

#[test]
fn operation_costs() {
    assert_eq!(GasCostEstimator::get_operation_cost("register_meter"), 10_000_000);
    assert_eq!(GasCostEstimator::get_operation_cost("top_up"), 5_000_000);
    assert_eq!(GasCostEstimator::get_operation_cost("claim"), 8_000_000);
    assert_eq!(GasCostEstimator::get_operation_cost("update_heartbeat"), 3_000_000);
    assert_eq!(GasCostEstimator::get_operation_cost("group_top_up"), 6_000_000);
    assert_eq!(GasCostEstimator::get_operation_cost("emergency_shutdown"), 2_000_000);
    assert_eq!(UtilityContract::get_operation_cost("claim"), 8_000_000);
}

#[test]
fn unknown_operation_costs_nothing() {
    assert_eq!(GasCostEstimator::get_operation_cost(""), 0);
    assert_eq!(GasCostEstimator::get_operation_cost("Claim"), 0);
    assert_eq!(GasCostEstimator::get_operation_cost("claim "), 0);
}

#[test]
fn alert_keys() {
    assert_eq!(alert_key(7, 1_700_000_000), "alert:7:1700000000");
    assert_eq!(alert_key(0, 0), "alert:0:0");
    assert_eq!(alert_key(u64::MAX, 10), format!("alert:{}:10", u64::MAX));
}
