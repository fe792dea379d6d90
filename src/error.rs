use vstd::prelude::*;

verus! {

/// The failures that the guard reports.
#[derive(Clone, Copy, Debug, PartialEq, Eq, Structural)]
pub enum GuardError {
    /// The filter was asked for with sizing parameters it cannot be built from.
    ConfigurationError,
    /// The store could not be reached, or failed transiently.
    StoreUnavailable,
    /// The store refused a write (a duplicate identifier, for one).
    StoreConstraintViolation,
}

} // verus!
