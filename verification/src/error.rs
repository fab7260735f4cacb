//! The one error type that every operation of the node returns.

use vstd::prelude::*;
use vstd::string::*;

verus! {

/// What went wrong, by the part of the node that found it.
#[derive(Debug)]
pub enum BlockchainError {
    /// The block store failed or holds no tip.
    Database(String),
    /// Key generation, signing, hashing or the clock failed.
    Crypto(String),
    /// A peer could not be reached or sent what cannot be read.
    Network(String),
    /// A transaction breaks a rule.
    Transaction(String),
    /// A signing key is not known.
    Wallet(String),
    /// The configuration does not allow the operation.
    Config(String),
    /// Bytes or text could not be encoded or decoded.
    Serialization(String),
    /// A file could not be read or written.
    Io(String),
    /// An address is malformed or fails its checksum.
    InvalidAddress(String),
    /// A spend asks for more than the sender owns.
    InsufficientFunds { required: u64, available: u64 },
    /// A block breaks a rule.
    InvalidBlock(String),
    /// Mining failed.
    Mining(String),
    /// Encryption or decryption failed.
    Encryption(String),
}

/// The decimal digits of `n`, most significant first.
pub open spec fn spec_decimal(n: nat) -> Seq<char>
    decreases n,
{
    let digit = seq!['0', '1', '2', '3', '4', '5', '6', '7', '8', '9'][(n % 10) as int];
    if n < 10 {
        seq![digit]
    } else {
        spec_decimal(n / 10).push(digit)
    }
}

/// Formats `n` with `format!("{}", n)`: the decimal digits of `n` without sign
/// or padding.
#[verifier::external_body]
pub(crate) fn decimal_text(n: u64) -> (text: String)
    ensures
        text@ == spec_decimal(n as nat),
{
    format!("{}", n)
}

impl BlockchainError {
    /// The text that stands before the detail of each kind of error.
    pub open spec fn spec_prefix(self) -> Seq<char> {
        match self {
            BlockchainError::Database(_) => "Database error: "@,
            BlockchainError::Crypto(_) => "Cryptographic error: "@,
            BlockchainError::Network(_) => "Network error: "@,
            BlockchainError::Transaction(_) => "Transaction error: "@,
            BlockchainError::Wallet(_) => "Wallet error: "@,
            BlockchainError::Config(_) => "Configuration error: "@,
            BlockchainError::Serialization(_) => "Serialization error: "@,
            BlockchainError::Io(_) => "I/O error: "@,
            BlockchainError::InvalidAddress(_) => "Invalid address: "@,
            BlockchainError::InsufficientFunds { .. } => "Insufficient funds: required "@,
            BlockchainError::InvalidBlock(_) => "Invalid block: "@,
            BlockchainError::Mining(_) => "Mining error: "@,
            BlockchainError::Encryption(_) => "Encryption error: "@,
        }
    }

    /// The detail that follows the prefix.
    pub open spec fn spec_detail(self) -> Seq<char> {
        match self {
            BlockchainError::Database(m) => m@,
            BlockchainError::Crypto(m) => m@,
            BlockchainError::Network(m) => m@,
            BlockchainError::Transaction(m) => m@,
            BlockchainError::Wallet(m) => m@,
            BlockchainError::Config(m) => m@,
            BlockchainError::Serialization(m) => m@,
            BlockchainError::Io(m) => m@,
            BlockchainError::InvalidAddress(m) => m@,
            BlockchainError::InsufficientFunds { required, available } => spec_decimal(
                required as nat,
            ) + ", available "@ + spec_decimal(available as nat),
            BlockchainError::InvalidBlock(m) => m@,
            BlockchainError::Mining(m) => m@,
            BlockchainError::Encryption(m) => m@,
        }
    }

    /// The whole message: prefix, then detail.
    pub open spec fn spec_text(self) -> Seq<char> {
        self.spec_prefix() + self.spec_detail()
    }

    /// The message of this error as text.
    pub fn to_string(&self) -> (text: String)
        ensures
            text@ == self.spec_text(),
    {
        match self {
            BlockchainError::Database(m) => String::from_str("Database error: ").concat(
                m.as_str(),
            ),
            BlockchainError::Crypto(m) => String::from_str("Cryptographic error: ").concat(
                m.as_str(),
            ),
            BlockchainError::Network(m) => String::from_str("Network error: ").concat(m.as_str()),
            BlockchainError::Transaction(m) => String::from_str("Transaction error: ").concat(
                m.as_str(),
            ),
            BlockchainError::Wallet(m) => String::from_str("Wallet error: ").concat(m.as_str()),
            BlockchainError::Config(m) => String::from_str("Configuration error: ").concat(
                m.as_str(),
            ),
            BlockchainError::Serialization(m) => String::from_str("Serialization error: ").concat(
                m.as_str(),
            ),
            BlockchainError::Io(m) => String::from_str("I/O error: ").concat(m.as_str()),
            BlockchainError::InvalidAddress(m) => String::from_str("Invalid address: ").concat(
                m.as_str(),
            ),
            BlockchainError::InsufficientFunds { required, available } => {
                let required_text = decimal_text(*required);
                let available_text = decimal_text(*available);
                let detail = required_text.concat(", available ").concat(available_text.as_str());
                let text = String::from_str("Insufficient funds: required ").concat(
                    detail.as_str(),
                );
                assert(text@ =~= self.spec_text());
                text
            },
            BlockchainError::InvalidBlock(m) => String::from_str("Invalid block: ").concat(
                m.as_str(),
            ),
            BlockchainError::Mining(m) => String::from_str("Mining error: ").concat(m.as_str()),
            BlockchainError::Encryption(m) => String::from_str("Encryption error: ").concat(
                m.as_str(),
            ),
        }
    }
}

/// A copy of `text`.
pub(crate) fn owned(text: &str) -> (copy: String)
    ensures
        copy@ == text@,
{
    String::from_str(text)
}

/// Whether an error reports that an output is spent twice: a `Transaction`
/// error whose message begins with the words for it.
pub open spec fn spec_reports_double_spend(e: BlockchainError) -> bool {
    e is Transaction && "Double-spending detected"@.is_prefix_of(e->Transaction_0@)
}

/// The error for an output that a transaction of a list spends after
/// another input of the list did: it names the transaction and the output,
/// each identifier in hexadecimal.
pub fn double_spend_error(transaction: &str, spent: &str, vout: usize) -> (e: BlockchainError)
    ensures
        spec_reports_double_spend(e),
        e->Transaction_0@ == "Double-spending detected"@ + " in transaction "@ + transaction@
            + ": output "@ + spent@ + ":"@ + spec_decimal(vout as nat)
            + " already spent in this block"@,
{
    let head = String::from_str("Double-spending detected");
    let message = head.concat(" in transaction ").concat(transaction).concat(": output ").concat(
        spent,
    ).concat(":").concat(decimal_text(vout as u64).as_str()).concat(
        " already spent in this block",
    );
    proof {
        let words = "Double-spending detected"@;
        assert(message@.subrange(0, words.len() as int) =~= words);
    }
    BlockchainError::Transaction(message)
}

} // verus!
