//! What the command line can ask for.

use crate::chain::fees::calculator::{FeeMode, ModeModel};
use crate::chain::fees::dynamic::{
    lowercase, spec_default_multipliers, spec_lowercase, spec_priority_named, ConfigModel,
    DynamicFeeConfig, FeePriority,
};
use crate::error::owned;
use vstd::prelude::*;
use vstd::string::*;

verus! {

/// A priority as the command line names it.
#[derive(Debug, Clone, Copy, PartialEq, Eq, Structural)]
pub enum FeePriorityArg {
    Low,
    Normal,
    High,
    Urgent,
}

/// A fee mode as the command line names it.
#[derive(Debug, Clone, Copy, PartialEq, Eq, Structural)]
pub enum FeeModeArg {
    Fixed(u64),
    Dynamic,
}

/// Whether every character of the text is a decimal digit.
pub open spec fn spec_all_digits(text: Seq<char>) -> bool {
    forall|i: int| 0 <= i < text.len() ==> '0' <= #[trigger] text[i] <= '9'
}

/// The number that a text of decimal digits stands for.
pub open spec fn spec_digits_value(digits: Seq<char>) -> nat
    decreases digits.len(),
{
    if digits.len() == 0 {
        0
    } else {
        (spec_digits_value(digits.drop_last()) * 10 + (digits.last() as int - '0' as int)) as nat
    }
}

/// The number that a decimal text stands for: an optional plus sign, then
/// digits and nothing else, at least one, that stand for a number which
/// fits in 64 bits.
pub open spec fn spec_parse_decimal(text: Seq<char>) -> Option<u64> {
    let digits = if text.len() > 0 && text[0] == '+' {
        text.skip(1)
    } else {
        text
    };
    if digits.len() > 0 && spec_all_digits(digits) && spec_digits_value(digits) <= u64::MAX {
        Some(spec_digits_value(digits) as u64)
    } else {
        None
    }
}

/// Calls `str::parse::<u64>` and drops the detail of its error. The text is
/// read as the documentation of the standard library says: an optional plus
/// sign followed by digits only; anything else, and a number that leaves 64
/// bits, is an error.
#[verifier::external_body]
fn parse_decimal(text: &str) -> (out: Option<u64>)
    ensures
        out == spec_parse_decimal(text@),
{
    text.parse::<u64>().ok()
}

impl FeePriorityArg {
    /// The priority that the argument stands for.
    pub open spec fn spec_priority(self) -> FeePriority {
        match self {
            FeePriorityArg::Low => FeePriority::Low,
            FeePriorityArg::Normal => FeePriority::Normal,
            FeePriorityArg::High => FeePriority::High,
            FeePriorityArg::Urgent => FeePriority::Urgent,
        }
    }

    /// The argument that `s` names, whatever the case of its letters; else a
    /// message that says what can be named.
    pub fn parse(s: &str) -> (out: Result<FeePriorityArg, String>)
        ensures
            match spec_priority_named(spec_lowercase(s@)) {
                Some(priority) => out is Ok && out->Ok_0.spec_priority() == priority,
                None => out is Err && out->Err_0@ == "Invalid priority: "@ + s@
                    + ". Valid options: low, normal, high, urgent"@,
            },
    {
        let lower = lowercase(s);
        if lower == owned("low") {
            Ok(FeePriorityArg::Low)
        } else if lower == owned("normal") {
            Ok(FeePriorityArg::Normal)
        } else if lower == owned("high") {
            Ok(FeePriorityArg::High)
        } else if lower == owned("urgent") {
            Ok(FeePriorityArg::Urgent)
        } else {
            Err(
                String::from_str("Invalid priority: ").concat(s).concat(
                    ". Valid options: low, normal, high, urgent",
                ),
            )
        }
    }

    /// The priority that the argument stands for.
    pub fn to_priority(&self) -> (out: FeePriority)
        ensures
            out == self.spec_priority(),
    {
        match self {
            FeePriorityArg::Low => FeePriority::Low,
            FeePriorityArg::Normal => FeePriority::Normal,
            FeePriorityArg::High => FeePriority::High,
            FeePriorityArg::Urgent => FeePriority::Urgent,
        }
    }

    /// The name of the argument, in lower case.
    pub fn to_string(&self) -> (name: String)
        ensures
            name@ == self.spec_priority().spec_name(),
    {
        self.to_priority().to_string()
    }
}

impl std::str::FromStr for FeePriorityArg {
    type Err = String;

    fn from_str(s: &str) -> (out: Result<Self, String>)
        ensures
            match spec_priority_named(spec_lowercase(s@)) {
                Some(priority) => out is Ok && out->Ok_0.spec_priority() == priority,
                None => out is Err,
            },
    {
        FeePriorityArg::parse(s)
    }
}

impl FeeModeArg {
    /// The fee mode that the argument asks for: the fixed fee it names, or
    /// the dynamic fee with its default configuration.
    pub fn to_fee_mode(&self) -> (mode: FeeMode)
        ensures
            mode@ == (match *self {
                FeeModeArg::Fixed(amount) => ModeModel::Fixed { amount },
                FeeModeArg::Dynamic => ModeModel::Dynamic {
                    config: ConfigModel {
                        base_fee: 1,
                        max_fee: 10,
                        congestion_threshold: 20,
                        priority_multipliers: spec_default_multipliers(),
                        coinbase_reward: crate::chain::monetary::INITIAL_BLOCK_REWARD,
                    },
                },
            }),
    {
        match *self {
            FeeModeArg::Fixed(amount) => FeeMode::Fixed { amount },
            FeeModeArg::Dynamic => FeeMode::Dynamic { config: DynamicFeeConfig::default() },
        }
    }

    /// What a text asks for.
    pub open spec fn spec_parse(text: Seq<char>) -> Option<FeeModeArg> {
        if spec_lowercase(text) == "dynamic"@ {
            Some(FeeModeArg::Dynamic)
        } else {
            match spec_parse_decimal(text) {
                Some(amount) => Some(FeeModeArg::Fixed(amount)),
                None => None,
            }
        }
    }

    /// The dynamic mode for the word dynamic in any case, a fixed fee for a
    /// decimal number; else a message that says what can be named.
    pub fn parse(s: &str) -> (out: Result<FeeModeArg, String>)
        ensures
            match Self::spec_parse(s@) {
                Some(mode) => out == Ok::<FeeModeArg, String>(mode),
                None => out is Err && out->Err_0@ == "Invalid fee mode: "@ + s@
                    + ". Use 'dynamic' or a fixed amount (e.g., '1')"@,
            },
    {
        if lowercase(s) == owned("dynamic") {
            return Ok(FeeModeArg::Dynamic);
        }
        match parse_decimal(s) {
            Some(amount) => Ok(FeeModeArg::Fixed(amount)),
            None => Err(
                String::from_str("Invalid fee mode: ").concat(s).concat(
                    ". Use 'dynamic' or a fixed amount (e.g., '1')",
                ),
            ),
        }
    }
}

impl std::str::FromStr for FeeModeArg {
    type Err = String;

    fn from_str(s: &str) -> (out: Result<Self, String>)
        ensures
            match FeeModeArg::spec_parse(s@) {
                Some(mode) => out == Ok::<FeeModeArg, String>(mode),
                None => out is Err,
            },
    {
        FeeModeArg::parse(s)
    }
}

/// One command of the command line.
#[derive(Debug)]
#[allow(inconsistent_fields)]
pub enum Command {
    /// Create a new chain whose first reward goes to `address`.
    Createblockchain { address: String },
    /// Create a new wallet.
    Createwallet,
    /// The balance of `address`.
    GetBalance { address: String },
    /// The addresses of the local wallets.
    ListAddresses,
    /// Send `amount` from `from` to `to`; mine at once where `mine` is 1.
    Send { from: String, to: String, amount: u64, mine: usize, priority: Option<FeePriorityArg> },
    /// Print all blocks.
    Printchain,
    /// Rebuild the UTXO index.
    Reindexutxo,
    /// Start a node; mine for `miner` where one is named.
    StartNode { miner: Option<String> },
    /// The fee to expect for `priority`.
    EstimateFee { priority: FeePriorityArg },
    /// The state of the fee engine.
    FeeStatus,
    /// Set the fee mode.
    SetFeeMode { mode: FeeModeArg },
}

/// What the command line holds: one command.
#[derive(Debug)]
pub struct Opt {
    pub command: Command,
}

} // verus!
