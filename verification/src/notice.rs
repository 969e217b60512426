//! The severities at which the ingress layer reports what it does.

use vstd::prelude::*;

verus! {

/// How loudly a step is logged.
#[derive(Clone, Copy, Debug, PartialEq, Eq, Structural)]
pub enum Severity {
    /// The ordinary course of a listener or connection: accepted, closed,
    /// stopped.
    Info,
    /// A failure that was contained where it arose.
    Error,
}

} // verus!
