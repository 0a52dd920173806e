//! Trainers: the staff of the gym.

use crate::error::{invalid, Field, Reason, ServiceError};
use vstd::prelude::*;

verus! {

/// A trainer on the gym's staff.
#[derive(Debug, PartialEq, Eq)]
pub struct Trainer {
    pub trainer_id: i32,
    pub first_name: String,
    pub last_name: String,
    pub specialization: Option<String>,
    pub phone: Option<String>,
    pub email: Option<String>,
}

/// What a caller supplies to create a trainer.
#[derive(Debug, PartialEq, Eq)]
pub struct NewTrainer {
    pub first_name: String,
    pub last_name: String,
    pub specialization: Option<String>,
    pub phone: Option<String>,
    pub email: Option<String>,
}

impl Clone for Trainer {
    fn clone(&self) -> (r: Self)
        ensures
            r == *self,
    {
        Trainer {
            trainer_id: self.trainer_id,
            first_name: self.first_name.clone(),
            last_name: self.last_name.clone(),
            specialization: self.specialization.clone(),
            phone: self.phone.clone(),
            email: self.email.clone(),
        }
    }
}

impl Clone for NewTrainer {
    fn clone(&self) -> (r: Self)
        ensures
            r == *self,
    {
        NewTrainer {
            first_name: self.first_name.clone(),
            last_name: self.last_name.clone(),
            specialization: self.specialization.clone(),
            phone: self.phone.clone(),
            email: self.email.clone(),
        }
    }
}

impl NewTrainer {
    /// The first rule that the record breaks, if it breaks one: both names
    /// are required.
    pub open spec fn violation(self) -> Option<ServiceError> {
        if self.first_name@.len() == 0 {
            Some(invalid(Field::FirstName, Reason::Empty))
        } else if self.last_name@.len() == 0 {
            Some(invalid(Field::LastName, Reason::Empty))
        } else {
            None
        }
    }

    /// Checks the record against the rules for a trainer's fields.
    pub fn validate(&self) -> (r: Result<(), ServiceError>)
        ensures
            r == (match self.violation() {
                Some(e) => Err::<(), ServiceError>(e),
                None => Ok(()),
            }),
    {
        if self.first_name.as_str().is_empty() {
            return Err(ServiceError::Validation { field: Field::FirstName, reason: Reason::Empty });
        }
        if self.last_name.as_str().is_empty() {
            return Err(ServiceError::Validation { field: Field::LastName, reason: Reason::Empty });
        }
        Ok(())
    }
}

impl Trainer {
    /// The trainer that a valid record becomes under the identity `trainer_id`.
    pub open spec fn hired(trainer_id: i32, data: NewTrainer) -> Trainer {
        Trainer {
            trainer_id,
            first_name: data.first_name,
            last_name: data.last_name,
            specialization: data.specialization,
            phone: data.phone,
            email: data.email,
        }
    }

    /// Both names are present.
    pub open spec fn named(self) -> bool {
        self.first_name@.len() > 0 && self.last_name@.len() > 0
    }

    /// Whether both names are present.
    pub fn is_named(&self) -> (r: bool)
        ensures
            r == self.named(),
    {
        !self.first_name.as_str().is_empty() && !self.last_name.as_str().is_empty()
    }
}

} // verus!
