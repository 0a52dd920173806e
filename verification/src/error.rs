//! The ways in which an operation can fail.

use vstd::prelude::*;

verus! {

/// The kind of entity that an identity was expected to name.
#[derive(Clone, Copy, Debug, PartialEq, Eq, Structural)]
pub enum EntityKind {
    Member,
    Plan,
    Subscription,
    Trainer,
}

/// The field of an input record that a validation failure points at.
#[derive(Clone, Copy, Debug, PartialEq, Eq, Structural)]
pub enum Field {
    FirstName,
    LastName,
    DateOfBirth,
    PlanName,
    DurationMonths,
    Fee,
    StartDate,
    EndDate,
    MembershipStatus,
}

/// Why a field was turned down.
#[derive(Clone, Copy, Debug, PartialEq, Eq, Structural)]
pub enum Reason {
    /// A required text is empty.
    Empty,
    /// A date that has to lie in the past does not.
    NotInPast,
    /// A number that has to be above zero is not.
    NotPositive,
    /// A number that may not be below zero is.
    Negative,
    /// The parts of a date name no day of the calendar.
    NoSuchDay,
    /// The end of a window is not after its start.
    NotAfterStart,
    /// A derived date would lie beyond the last year of the calendar.
    OutOfRange,
    /// A text is none of the values the field can take.
    UnknownValue,
}

/// The invariant that an operation would have broken.
#[derive(Clone, Copy, Debug, PartialEq, Eq, Structural)]
pub enum ConflictKind {
    /// The member already holds an active subscription whose window
    /// intersects the requested one.
    OverlappingActiveSubscription,
    /// The member is still referenced by a subscription that is active.
    LiveSubscription,
    /// The subscription has reached a terminal state and cannot change.
    SubscriptionClosed,
}

/// The failure of a service operation.
#[derive(Clone, Copy, Debug, PartialEq, Eq, Structural)]
pub enum ServiceError {
    /// The input is malformed or out of range; the caller can correct it.
    Validation { field: Field, reason: Reason },
    /// No entity of the given kind has the identity that was referred to.
    NotFound(EntityKind),
    /// Carrying out the operation would break an invariant.
    Conflict(ConflictKind),
    /// The store could not take or answer the request.
    StorageUnavailable,
}

impl Field {
    /// The field's name as input records spell it.
    pub open spec fn label(self) -> Seq<char> {
        match self {
            Field::FirstName => "first_name"@,
            Field::LastName => "last_name"@,
            Field::DateOfBirth => "dob"@,
            Field::PlanName => "plan_name"@,
            Field::DurationMonths => "duration_months"@,
            Field::Fee => "fee"@,
            Field::StartDate => "start_date"@,
            Field::EndDate => "end_date"@,
            Field::MembershipStatus => "membership_status"@,
        }
    }

    /// The field's name as input records spell it.
    pub fn name(&self) -> (r: &'static str)
        ensures
            r@ == self.label(),
    {
        match self {
            Field::FirstName => "first_name",
            Field::LastName => "last_name",
            Field::DateOfBirth => "dob",
            Field::PlanName => "plan_name",
            Field::DurationMonths => "duration_months",
            Field::Fee => "fee",
            Field::StartDate => "start_date",
            Field::EndDate => "end_date",
            Field::MembershipStatus => "membership_status",
        }
    }
}

impl ServiceError {
    /// Whether the same request may succeed when it is sent again unchanged:
    /// true of a storage failure only.
    pub fn is_retryable(&self) -> (r: bool)
        ensures
            r == (*self == ServiceError::StorageUnavailable),
    {
        match self {
            ServiceError::StorageUnavailable => true,
            _ => false,
        }
    }
}

/// Shorthand for a validation failure.
pub open spec fn invalid(field: Field, reason: Reason) -> ServiceError {
    ServiceError::Validation { field, reason }
}

} // verus!
