//! Error values surfaced as status text on the active modal.

use vstd::prelude::*;

verus! {

/// Everything the core can refuse: a connection string without a target, a
/// form without name and host, a non-numeric port, and the bastion-graph
/// failures found while validating or resolving a chain.
#[derive(Clone, Debug, PartialEq)]
pub enum AppError {
    /// The free-text connection spec held no target token.
    TargetMissing,
    /// Form submission with both the name and the host field blank.
    NameHostEmpty,
    /// The port field did not parse as an unsigned 16-bit number.
    PortNotNumeric,
    /// A host names itself as its bastion; carries the host name.
    SelfBastion(String),
    /// Validation found a circular bastion chain; carries a host on the cycle.
    CircularBastion(String),
    /// Resolving a chain revisited a host; carries the revisited name.
    ResolveCycle(String),
    /// A bastion name was not found in the registry at connect time.
    BastionNotFound(String),
}

/// The status-line text of each error.
pub open spec fn spec_message(e: AppError) -> Seq<char> {
    match e {
        AppError::TargetMissing => "ssh target missing (expected user@host or host)"@,
        AppError::NameHostEmpty => "name and host cannot be empty"@,
        AppError::PortNotNumeric => "port must be numeric"@,
        AppError::SelfBastion(n) => "Host '"@ + n@ + "' cannot use itself as bastion."@,
        AppError::CircularBastion(n) => "Circular bastion reference detected involving '"@ + n@
            + "'."@,
        AppError::ResolveCycle(n) => "circular bastion reference detected: "@ + n@,
        AppError::BastionNotFound(n) => "bastion host '"@ + n@ + "' not found"@,
    }
}

impl AppError {
    /// The status-line text for this error.
    pub fn message(&self) -> (r: String)
        ensures
            r@ == spec_message(*self),
    {
        match self {
            AppError::TargetMissing => String::from_str(
                "ssh target missing (expected user@host or host)",
            ),
            AppError::NameHostEmpty => String::from_str("name and host cannot be empty"),
            AppError::PortNotNumeric => String::from_str("port must be numeric"),
            AppError::SelfBastion(n) => String::from_str("Host '").concat(n.as_str()).concat(
                "' cannot use itself as bastion.",
            ),
            AppError::CircularBastion(n) => String::from_str(
                "Circular bastion reference detected involving '",
            ).concat(n.as_str()).concat("'."),
            AppError::ResolveCycle(n) => String::from_str(
                "circular bastion reference detected: ",
            ).concat(n.as_str()),
            AppError::BastionNotFound(n) => String::from_str("bastion host '").concat(
                n.as_str(),
            ).concat("' not found"),
        }
    }
}

} // verus!
