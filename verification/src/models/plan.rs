//! Membership plans: named offerings with a duration and a fee.

use crate::error::{invalid, Field, Reason, ServiceError};
use vstd::prelude::*;

verus! {

/// A membership offering. The fee is held in hundredths of the currency unit.
#[derive(Debug, PartialEq, Eq)]
pub struct MembershipPlan {
    pub plan_id: i32,
    pub plan_name: String,
    pub duration_months: i32,
    pub fee_cents: i64,
    pub description: Option<String>,
}

/// What a caller supplies to create a plan.
#[derive(Debug, PartialEq, Eq)]
pub struct NewPlan {
    pub plan_name: String,
    pub duration_months: i32,
    pub fee_cents: i64,
    pub description: Option<String>,
}

impl Clone for MembershipPlan {
    fn clone(&self) -> (r: Self)
        ensures
            r == *self,
    {
        MembershipPlan {
            plan_id: self.plan_id,
            plan_name: self.plan_name.clone(),
            duration_months: self.duration_months,
            fee_cents: self.fee_cents,
            description: self.description.clone(),
        }
    }
}

impl Clone for NewPlan {
    fn clone(&self) -> (r: Self)
        ensures
            r == *self,
    {
        NewPlan {
            plan_name: self.plan_name.clone(),
            duration_months: self.duration_months,
            fee_cents: self.fee_cents,
            description: self.description.clone(),
        }
    }
}

impl NewPlan {
    /// The first rule that the record breaks, if it breaks one: the name is
    /// required, the duration is above zero and the fee is not below zero.
    pub open spec fn violation(self) -> Option<ServiceError> {
        if self.plan_name@.len() == 0 {
            Some(invalid(Field::PlanName, Reason::Empty))
        } else if self.duration_months <= 0 {
            Some(invalid(Field::DurationMonths, Reason::NotPositive))
        } else if self.fee_cents < 0 {
            Some(invalid(Field::Fee, Reason::Negative))
        } else {
            None
        }
    }

    /// Checks the record against the rules for a plan's fields.
    pub fn validate(&self) -> (r: Result<(), ServiceError>)
        ensures
            r == (match self.violation() {
                Some(e) => Err::<(), ServiceError>(e),
                None => Ok(()),
            }),
    {
        if self.plan_name.as_str().is_empty() {
            return Err(ServiceError::Validation { field: Field::PlanName, reason: Reason::Empty });
        }
        if self.duration_months <= 0 {
            return Err(
                ServiceError::Validation {
                    field: Field::DurationMonths,
                    reason: Reason::NotPositive,
                },
            );
        }
        if self.fee_cents < 0 {
            return Err(ServiceError::Validation { field: Field::Fee, reason: Reason::Negative });
        }
        Ok(())
    }
}

impl MembershipPlan {
    /// The plan that a valid record becomes under the identity `plan_id`.
    pub open spec fn offered(plan_id: i32, data: NewPlan) -> MembershipPlan {
        MembershipPlan {
            plan_id,
            plan_name: data.plan_name,
            duration_months: data.duration_months,
            fee_cents: data.fee_cents,
            description: data.description,
        }
    }

    /// The plan's fields obey their rules.
    pub open spec fn sound(self) -> bool {
        self.plan_name@.len() > 0 && self.duration_months > 0 && self.fee_cents >= 0
    }

    /// Whether the plan's fields obey their rules.
    pub fn is_sound(&self) -> (r: bool)
        ensures
            r == self.sound(),
    {
        !self.plan_name.as_str().is_empty() && self.duration_months > 0 && self.fee_cents >= 0
    }
}

} // verus!
