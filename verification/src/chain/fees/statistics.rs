//! The figures of the fee market as text.

use crate::chain::fees::dynamic::{EstimatedFee, FeeStatistics};
use crate::error::{decimal_text, spec_decimal};
use vstd::prelude::*;
use vstd::string::*;

verus! {

/// A number of hundredths as a decimal with two places and the sign of a
/// factor behind it: `150` is `1.50x`.
pub open spec fn spec_factor_text(hundredths: u64) -> Seq<char> {
    let part = (hundredths % 100) as nat;
    spec_decimal((hundredths / 100) as nat) + "."@ + (if part < 10 {
        "0"@ + spec_decimal(part)
    } else {
        spec_decimal(part)
    }) + "x"@
}

/// The line of one estimated fee.
pub open spec fn spec_fee_line(estimate: EstimatedFee) -> Seq<char> {
    "    "@ + estimate.priority.spec_name() + ": "@ + spec_decimal(estimate.fee as nat)
        + " coins\n"@
}

/// The lines of the first `k` estimated fees.
pub open spec fn spec_fee_lines(estimates: Seq<EstimatedFee>, k: int) -> Seq<char>
    decreases k,
{
    if k <= 0 {
        Seq::empty()
    } else {
        spec_fee_lines(estimates, k - 1) + spec_fee_line(estimates[k - 1])
    }
}

impl FeeStatistics {
    /// The figures as text, one to a line.
    pub open spec fn spec_text(self) -> Seq<char> {
        "Fee Statistics:\n"@ + "  Base Fee: "@ + spec_decimal(self.base_fee as nat) + " coins\n"@
            + "  Max Fee: "@ + spec_decimal(self.max_fee as nat) + " coins\n"@
            + "  Mempool Size: "@ + spec_decimal(self.mempool_size as nat) + " transactions\n"@
            + "  Congestion Threshold: "@ + spec_decimal(self.congestion_threshold as nat)
            + " transactions\n"@ + "  Congestion Multiplier: "@ + spec_factor_text(
            self.current_congestion_multiplier,
        ) + "\n"@ + "  Estimated Fees:\n"@ + spec_fee_lines(
            self.estimated_fees@,
            self.estimated_fees@.len() as int,
        )
    }

    /// The figures as text, one to a line.
    pub fn to_string(&self) -> (text: String)
        ensures
            text@ == self.spec_text(),
    {
        let hundredths = self.current_congestion_multiplier;
        let part = hundredths % 100;
        let places = if part < 10 {
            String::from_str("0").concat(decimal_text(part).as_str())
        } else {
            decimal_text(part)
        };
        let factor = decimal_text(hundredths / 100).concat(".").concat(places.as_str()).concat("x");
        let head = String::from_str("Fee Statistics:\n").concat("  Base Fee: ").concat(
            decimal_text(self.base_fee).as_str(),
        ).concat(" coins\n").concat("  Max Fee: ").concat(
            decimal_text(self.max_fee).as_str(),
        ).concat(" coins\n").concat("  Mempool Size: ").concat(
            decimal_text(self.mempool_size as u64).as_str(),
        ).concat(" transactions\n").concat("  Congestion Threshold: ").concat(
            decimal_text(self.congestion_threshold as u64).as_str(),
        ).concat(" transactions\n").concat("  Congestion Multiplier: ").concat(
            factor.as_str(),
        ).concat("\n").concat("  Estimated Fees:\n");
        let mut lines = String::from_str("");
        let mut i: usize = 0;
        proof {
            reveal_strlit("");
            assert(lines@ =~= spec_fee_lines(self.estimated_fees@, 0));
        }
        while i < self.estimated_fees.len()
            invariant
                i <= self.estimated_fees@.len(),
                lines@ == spec_fee_lines(self.estimated_fees@, i as int),
            decreases self.estimated_fees@.len() - i,
        {
            let estimate = &self.estimated_fees[i];
            let line = String::from_str("    ").concat(estimate.priority.to_string().as_str()).concat(
                ": ",
            ).concat(decimal_text(estimate.fee).as_str()).concat(" coins\n");
            assert(line@ == spec_fee_line(*estimate));
            lines = lines.concat(line.as_str());
            i += 1;
        }
        head.concat(lines.as_str())
    }
}

} // verus!
