use vstd::prelude::*;

use crate::text::{pad_right, pad_right_str, spec_split_commas, split_commas};
use crate::value::{spec_type_name, value_type_name, ValueType};

verus! {

#[verifier::external_type_specification]
#[verifier::external_body]
pub struct ExLogPeriod(crazyflie_lib::subsystems::log::LogPeriod);

/// Relies on crazyflie_lib's `LogPeriod::from_millis`: it accepts exactly
/// the periods whose count of whole 10 ms ticks is between 1 and 255,
/// that is between 10 and 2559 milliseconds.
#[verifier::external_body]
fn period_from_millis(ms: u64) -> (r: Option<crazyflie_lib::subsystems::log::LogPeriod>)
    ensures
        r is Some <==> 10 <= ms <= 2559,
{
    crazyflie_lib::subsystems::log::LogPeriod::from_millis(ms).ok()
}

/// Everything one log print invocation asks of the device: the variable
/// names to group into one block, in the order given, and the validated
/// sampling period. The caller creates one block, adds the variables in
/// order, starts it at the period, and prints every sample of the
/// resulting stream in arrival order until the stream ends.
pub struct LogPrintPlan {
    pub variables: Vec<String>,
    pub period: crazyflie_lib::subsystems::log::LogPeriod,
    pub period_ms: u64,
}

/// Build the plan of one log print invocation: split the comma-separated
/// variable list verbatim — no trimming, no deduplication; the device
/// judges each name — and validate the sampling period. A period outside
/// the device's accepted range yields no plan and the command fails.
pub fn print_plan(names: &str, period_ms: u64) -> (r: Option<LogPrintPlan>)
    ensures
        r is Some <==> 10 <= period_ms <= 2559,
        r matches Some(p) ==> {
            &&& p.variables.deep_view() == spec_split_commas(names@)
            &&& p.period_ms == period_ms
        },
{
    match period_from_millis(period_ms) {
        Option::Some(period) => {
            let variables = split_commas(names);
            Some(LogPrintPlan { variables, period, period_ms })
        },
        Option::None => None,
    }
}

/// One row of the log variable listing: the name padded to its column
/// and the variable's type name padded to its column. No value is
/// sampled; this is metadata only.
pub fn log_row(name: &str, t: ValueType) -> (r: String)
    ensures
        r@ == pad_right(name@, 30) + " | "@ + pad_right(spec_type_name(t), 5),
{
    let mut r = pad_right_str(name, 30);
    r.append(" | ");
    let tn = pad_right_str(value_type_name(t), 5);
    r.append(tn.as_str());
    r
}

} // verus!
