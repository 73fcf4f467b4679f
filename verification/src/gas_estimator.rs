//! Estimates of what running meters on the contract costs in fees,
//! in stroops (1 XLM = 10,000,000 stroops).
use vstd::prelude::*;

use crate::text::{append_int, append_nat, int_text, nat_text, same_text};

verus! {

/// The fee tables and estimates of the contract's running costs.
pub struct GasCostEstimator;

impl GasCostEstimator {
    /// Fee of registering a meter (0.1 XLM).
    pub const REGISTER_METER: i128 = 10_000_000;

    /// Fee of a top-up (0.05 XLM).
    pub const TOP_UP: i128 = 5_000_000;

    /// Fee of a claim (0.08 XLM).
    pub const CLAIM: i128 = 8_000_000;

    /// Fee of a heartbeat (0.03 XLM).
    pub const UPDATE_HEARTBEAT: i128 = 3_000_000;

    /// Fee of a group top-up, per meter (0.06 XLM).
    pub const GROUP_TOP_UP_PER_METER: i128 = 6_000_000;

    /// Fee of an emergency shutdown (0.02 XLM).
    pub const EMERGENCY_SHUTDOWN: i128 = 2_000_000;

    /// Claims a meter sees in a month (one a day).
    pub const CLAIMS_PER_MONTH: u32 = 30;

    /// Heartbeats a meter sends in a month (one an hour for 30 days).
    pub const HEARTBEATS_PER_MONTH: u32 = 720;

    /// Top-ups a meter sees in a month (one a week).
    pub const TOP_UPS_PER_MONTH: u32 = 4;
}

/// Monthly cost of one meter: its registration, a month of claims and
/// heartbeats, and a month of top-ups, done per meter in a group when the
/// meter belongs to one.
pub open spec fn meter_monthly_cost(is_group_meter: bool) -> int {
    GasCostEstimator::REGISTER_METER + GasCostEstimator::CLAIM
        * GasCostEstimator::CLAIMS_PER_MONTH + GasCostEstimator::UPDATE_HEARTBEAT
        * GasCostEstimator::HEARTBEATS_PER_MONTH + (if is_group_meter {
        GasCostEstimator::GROUP_TOP_UP_PER_METER
    } else {
        GasCostEstimator::TOP_UP
    }) * GasCostEstimator::TOP_UPS_PER_MONTH
}

/// Monthly cost of a provider with `number_of_meters` meters, of which
/// `group_meters` sit in groups of five: each whole group is charged as one
/// group meter, every other meter as an individual meter (grouped meters
/// left over after the whole groups are not charged).
pub open spec fn provider_monthly_cost(number_of_meters: u32, group_meters: u32) -> int {
    let groups = group_meters / 5;
    let group_cost = if group_meters > 0 && groups > 0 {
        meter_monthly_cost(true) * groups
    } else {
        0
    };
    group_cost + meter_monthly_cost(false) * (number_of_meters - group_meters)
}

/// The two monthly meter costs, in stroops.
pub proof fn lemma_meter_monthly_cost_values()
    ensures
        meter_monthly_cost(false) == 2_430_000_000,
        meter_monthly_cost(true) == 2_434_000_000,
{
}

/// The provider's monthly cost is never negative and stays below
/// 11 * 10^18 stroops.
pub proof fn lemma_provider_monthly_cost_bounds(number_of_meters: u32, group_meters: u32)
    requires
        group_meters <= number_of_meters,
    ensures
        0 <= provider_monthly_cost(number_of_meters, group_meters)
            <= 11_000_000_000_000_000_000,
{
    lemma_meter_monthly_cost_values();
    let groups = group_meters / 5;
    assert(0 <= 2_434_000_000 * groups + 2_430_000_000 * (number_of_meters - group_meters)
        <= 11_000_000_000_000_000_000) by (nonlinear_arith)
        requires
            groups <= group_meters,
            group_meters <= number_of_meters,
            number_of_meters <= 0xffff_ffff,
            0 <= groups,
    ;
    assert(2_430_000_000 * (number_of_meters - group_meters) >= 0) by (nonlinear_arith)
        requires
            group_meters <= number_of_meters,
    ;
    assert(2_434_000_000 * groups >= 0) by (nonlinear_arith)
        requires
            0 <= groups,
    ;
}

/// Monthly, annual and per-meter costs, in stroops and in whole XLM.
#[derive(Clone, Copy, Debug, PartialEq, Eq)]
pub struct LargeScaleCostEstimate {
    pub number_of_meters: u32,
    pub monthly_cost_stroops: i128,
    pub annual_cost_stroops: i128,
    pub cost_per_meter_stroops: i128,
    pub monthly_cost_xlm: i128,
    pub annual_cost_xlm: i128,
    pub cost_per_meter_xlm: i128,
    pub group_billing_enabled: bool,
}

/// The estimate for a provider with `number_of_meters` meters, of which
/// `group_meters` are in groups.
pub open spec fn large_scale_estimate(
    number_of_meters: u32,
    group_billing_enabled: bool,
    group_meters: u32,
) -> LargeScaleCostEstimate {
    let monthly = provider_monthly_cost(number_of_meters, group_meters);
    let annual = monthly * 12;
    let per_meter = monthly / (number_of_meters as int);
    LargeScaleCostEstimate {
        number_of_meters,
        monthly_cost_stroops: monthly as i128,
        annual_cost_stroops: annual as i128,
        cost_per_meter_stroops: per_meter as i128,
        monthly_cost_xlm: (monthly / 10_000_000) as i128,
        annual_cost_xlm: (annual / 10_000_000) as i128,
        cost_per_meter_xlm: (per_meter / 10_000_000) as i128,
        group_billing_enabled,
    }
}

/// The fee of the named operation, or zero for a name it does not know.
pub open spec fn operation_cost(operation: Seq<char>) -> int {
    if operation == "register_meter"@ {
        GasCostEstimator::REGISTER_METER as int
    } else if operation == "top_up"@ {
        GasCostEstimator::TOP_UP as int
    } else if operation == "claim"@ {
        GasCostEstimator::CLAIM as int
    } else if operation == "update_heartbeat"@ {
        GasCostEstimator::UPDATE_HEARTBEAT as int
    } else if operation == "group_top_up"@ {
        GasCostEstimator::GROUP_TOP_UP_PER_METER as int
    } else if operation == "emergency_shutdown"@ {
        GasCostEstimator::EMERGENCY_SHUTDOWN as int
    } else {
        0
    }
}

/// The text of a cost summary.
pub open spec fn summary_text(e: LargeScaleCostEstimate) -> Seq<char> {
    "Cost Analysis for "@ + nat_text(e.number_of_meters as nat) + " meters:\nMonthly: "@
        + int_text(e.monthly_cost_xlm as int) + " XLM ("@ + int_text(e.cost_per_meter_xlm as int)
        + " per meter)\nAnnual: "@ + int_text(e.annual_cost_xlm as int) + " XLM ("@ + int_text(
        e.cost_per_meter_xlm as int,
    ) + " per meter)\nGroup Billing: "@ + (if e.group_billing_enabled {
        "Enabled"@
    } else {
        "Disabled"@
    })
}

impl GasCostEstimator {
    /// Monthly cost of one meter; `meters_in_group` does not change it.
    pub fn estimate_meter_monthly_cost(is_group_meter: bool, meters_in_group: u32) -> (c: i128)
        ensures
            c == meter_monthly_cost(is_group_meter),
    {
        let mut monthly_cost = Self::REGISTER_METER;
        monthly_cost = monthly_cost + ((Self::CLAIM as u32) * Self::CLAIMS_PER_MONTH) as i128;
        monthly_cost = monthly_cost + ((Self::UPDATE_HEARTBEAT as u32)
            * Self::HEARTBEATS_PER_MONTH) as i128;
        monthly_cost = monthly_cost + ((Self::TOP_UP as u32) * Self::TOP_UPS_PER_MONTH) as i128;
        if is_group_meter {
            monthly_cost = monthly_cost - ((Self::TOP_UP as u32) * Self::TOP_UPS_PER_MONTH) as i128;
            monthly_cost = monthly_cost + ((Self::GROUP_TOP_UP_PER_METER as u32)
                * Self::TOP_UPS_PER_MONTH) as i128;
        }
        monthly_cost
    }

    /// Monthly cost of a provider with `number_of_meters` meters, of which
    /// `group_meters` are in groups (the share that the caller has worked out).
    pub fn estimate_provider_monthly_cost(number_of_meters: u32, group_meters: u32) -> (c: i128)
        requires
            group_meters <= number_of_meters,
        ensures
            c == provider_monthly_cost(number_of_meters, group_meters),
    {
        proof {
            lemma_meter_monthly_cost_values();
            lemma_provider_monthly_cost_bounds(number_of_meters, group_meters);
            assert(2_434_000_000 * (group_meters / 5) <= 11_000_000_000_000_000_000)
                by (nonlinear_arith)
                requires
                    group_meters <= 0xffff_ffff,
            ;
            assert(2_430_000_000 * (number_of_meters - group_meters)
                <= 11_000_000_000_000_000_000) by (nonlinear_arith)
                requires
                    number_of_meters <= 0xffff_ffff,
                    group_meters <= number_of_meters,
            ;
        }
        let individual_meters = number_of_meters - group_meters;
        let group_cost: i128 = if group_meters > 0 {
            let groups = group_meters / 5;
            if groups > 0 {
                Self::estimate_meter_monthly_cost(true, 5) * (groups as i128)
            } else {
                0
            }
        } else {
            0
        };
        let individual_cost = Self::estimate_meter_monthly_cost(false, 0) * (
        individual_meters as i128);
        group_cost + individual_cost
    }

    /// The cost estimate of `number_of_meters` meters, `group_meters` of them
    /// in groups when group billing is enabled.
    pub fn estimate_large_scale_cost(
        number_of_meters: u32,
        group_billing_enabled: bool,
        group_meters: u32,
    ) -> (e: LargeScaleCostEstimate)
        requires
            number_of_meters > 0,
            group_meters <= number_of_meters,
        ensures
            e == large_scale_estimate(number_of_meters, group_billing_enabled, group_meters),
    {
        let monthly_cost = Self::estimate_provider_monthly_cost(number_of_meters, group_meters);
        proof {
            lemma_provider_monthly_cost_bounds(number_of_meters, group_meters);
        }
        let annual_cost = monthly_cost * 12;
        let cost_per_meter = monthly_cost / (number_of_meters as i128);
        assert(0 <= cost_per_meter <= monthly_cost) by (nonlinear_arith)
            requires
                cost_per_meter == (monthly_cost as int) / (number_of_meters as int),
                number_of_meters > 0,
                monthly_cost >= 0,
        ;
        LargeScaleCostEstimate {
            number_of_meters,
            monthly_cost_stroops: monthly_cost,
            annual_cost_stroops: annual_cost,
            cost_per_meter_stroops: cost_per_meter,
            monthly_cost_xlm: monthly_cost / 10_000_000,
            annual_cost_xlm: annual_cost / 10_000_000,
            cost_per_meter_xlm: cost_per_meter / 10_000_000,
            group_billing_enabled,
        }
    }

    /// The fee of the named operation, or zero for an unknown name.
    pub fn get_operation_cost(operation: &str) -> (c: i128)
        ensures
            c == operation_cost(operation@),
    {
        if same_text(operation, "register_meter") {
            Self::REGISTER_METER
        } else if same_text(operation, "top_up") {
            Self::TOP_UP
        } else if same_text(operation, "claim") {
            Self::CLAIM
        } else if same_text(operation, "update_heartbeat") {
            Self::UPDATE_HEARTBEAT
        } else if same_text(operation, "group_top_up") {
            Self::GROUP_TOP_UP_PER_METER
        } else if same_text(operation, "emergency_shutdown") {
            Self::EMERGENCY_SHUTDOWN
        } else {
            0
        }
    }
}

impl LargeScaleCostEstimate {
    /// A readable summary: meter count, monthly and annual cost in XLM with
    /// the per-meter cost beside each, and whether group billing is on.
    pub fn get_summary(&self) -> (s: String)
        ensures
            s@ == summary_text(*self),
    {
        let mut s: String = "Cost Analysis for ".to_owned();
        append_nat(&mut s, self.number_of_meters as u128);
        s.append(" meters:\nMonthly: ");
        append_int(&mut s, self.monthly_cost_xlm);
        s.append(" XLM (");
        append_int(&mut s, self.cost_per_meter_xlm);
        s.append(" per meter)\nAnnual: ");
        append_int(&mut s, self.annual_cost_xlm);
        s.append(" XLM (");
        append_int(&mut s, self.cost_per_meter_xlm);
        s.append(" per meter)\nGroup Billing: ");
        if self.group_billing_enabled {
            s.append("Enabled");
        } else {
            s.append("Disabled");
        }
        s
    }
}

} // verus!
