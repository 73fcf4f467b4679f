//! Billing logic of a utility-metering contract: prepaid meters that
//! providers claim from at a capped hourly rate, billing groups that a
//! parent account tops up together, heartbeat monitoring, low-balance
//! alert scheduling and a gas cost estimator.
pub mod address;
pub mod billing;
pub mod contract;
pub mod gas_estimator;
pub mod laws;
pub mod meter;
pub mod text;
pub mod webhook;
