//! Members and the record from which one is created or updated.

use crate::date::Date;
use crate::error::{invalid, Field, Reason, ServiceError};
use crate::text::{contains_ignoring_case, occurs_in_ignoring_case};
use vstd::prelude::*;

verus! {

/// Whether a member may currently use the gym.
#[derive(Clone, Copy, Debug, PartialEq, Eq, Structural)]
pub enum MembershipStatus {
    Active,
    Inactive,
}

impl MembershipStatus {
    /// The status's name.
    pub open spec fn label(self) -> Seq<char> {
        match self {
            MembershipStatus::Active => "Active"@,
            MembershipStatus::Inactive => "Inactive"@,
        }
    }

    /// The status that `text` names, if it names one.
    pub open spec fn named(text: Seq<char>) -> Option<MembershipStatus> {
        if text == "Active"@ {
            Some(MembershipStatus::Active)
        } else if text == "Inactive"@ {
            Some(MembershipStatus::Inactive)
        } else {
            None
        }
    }

    /// The status's name.
    pub fn as_str(&self) -> (r: &'static str)
        ensures
            r@ == self.label(),
    {
        match self {
            MembershipStatus::Active => "Active",
            MembershipStatus::Inactive => "Inactive",
        }
    }

    /// Reads a status from its name; any other text gives `None`.
    pub fn parse(text: &str) -> (r: Option<MembershipStatus>)
        ensures
            r == Self::named(text@),
    {
        let given = text.to_owned();
        if given == "Active".to_owned() {
            Some(MembershipStatus::Active)
        } else if given == "Inactive".to_owned() {
            Some(MembershipStatus::Inactive)
        } else {
            None
        }
    }
}

/// A person enrolled in the gym.
#[derive(Debug, PartialEq, Eq)]
pub struct Member {
    pub member_id: i32,
    pub first_name: String,
    pub last_name: String,
    pub gender: Option<String>,
    pub dob: Option<Date>,
    pub phone: Option<String>,
    pub email: Option<String>,
    pub address: Option<String>,
    pub join_date: Date,
    pub membership_status: MembershipStatus,
}

/// What a caller supplies to create a member or to update one.
#[derive(Debug, PartialEq, Eq)]
pub struct NewMember {
    pub first_name: String,
    pub last_name: String,
    pub gender: Option<String>,
    pub dob: Option<Date>,
    pub phone: Option<String>,
    pub email: Option<String>,
    pub address: Option<String>,
}

impl Clone for Member {
    fn clone(&self) -> (r: Self)
        ensures
            r == *self,
    {
        Member {
            member_id: self.member_id,
            first_name: self.first_name.clone(),
            last_name: self.last_name.clone(),
            gender: self.gender.clone(),
            dob: self.dob,
            phone: self.phone.clone(),
            email: self.email.clone(),
            address: self.address.clone(),
            join_date: self.join_date,
            membership_status: self.membership_status,
        }
    }
}

impl Clone for NewMember {
    fn clone(&self) -> (r: Self)
        ensures
            r == *self,
    {
        NewMember {
            first_name: self.first_name.clone(),
            last_name: self.last_name.clone(),
            gender: self.gender.clone(),
            dob: self.dob,
            phone: self.phone.clone(),
            email: self.email.clone(),
            address: self.address.clone(),
        }
    }
}

impl NewMember {
    /// The first rule that the record breaks on the day `today`, if it breaks
    /// one: both names are required, and a date of birth has to name a day that
    /// exists and lies before `today`.
    pub open spec fn violation(self, today: Date) -> Option<ServiceError> {
        if self.first_name@.len() == 0 {
            Some(invalid(Field::FirstName, Reason::Empty))
        } else if self.last_name@.len() == 0 {
            Some(invalid(Field::LastName, Reason::Empty))
        } else if self.dob is Some && !self.dob->0.valid() {
            Some(invalid(Field::DateOfBirth, Reason::NoSuchDay))
        } else if self.dob is Some && !self.dob->0.before(today) {
            Some(invalid(Field::DateOfBirth, Reason::NotInPast))
        } else {
            None
        }
    }

    /// Checks the record against the rules for a member's fields.
    pub fn validate(&self, today: &Date) -> (r: Result<(), ServiceError>)
        ensures
            r == (match self.violation(*today) {
                Some(e) => Err::<(), ServiceError>(e),
                None => Ok(()),
            }),
    {
        if self.first_name.as_str().is_empty() {
            return Err(ServiceError::Validation { field: Field::FirstName, reason: Reason::Empty });
        }
        if self.last_name.as_str().is_empty() {
            return Err(ServiceError::Validation { field: Field::LastName, reason: Reason::Empty });
        }
        match &self.dob {
            Some(dob) => {
                if !dob.is_valid() {
                    return Err(
                        ServiceError::Validation {
                            field: Field::DateOfBirth,
                            reason: Reason::NoSuchDay,
                        },
                    );
                }
                if !dob.is_before(today) {
                    return Err(
                        ServiceError::Validation {
                            field: Field::DateOfBirth,
                            reason: Reason::NotInPast,
                        },
                    );
                }
            },
            None => {},
        }
        Ok(())
    }
}

impl Member {
    /// The member that a valid record becomes on the day `today` under the
    /// identity `member_id`: the caller's fields as given, joined today, active.
    pub open spec fn enrolled(member_id: i32, data: NewMember, today: Date) -> Member {
        Member {
            member_id,
            first_name: data.first_name,
            last_name: data.last_name,
            gender: data.gender,
            dob: data.dob,
            phone: data.phone,
            email: data.email,
            address: data.address,
            join_date: today,
            membership_status: MembershipStatus::Active,
        }
    }

    /// The member with the caller's fields replaced by those of `data`;
    /// identity, join date and status stay as they are.
    pub open spec fn revised(self, data: NewMember) -> Member {
        Member {
            member_id: self.member_id,
            first_name: data.first_name,
            last_name: data.last_name,
            gender: data.gender,
            dob: data.dob,
            phone: data.phone,
            email: data.email,
            address: data.address,
            join_date: self.join_date,
            membership_status: self.membership_status,
        }
    }

    /// The member with another status and nothing else changed.
    pub open spec fn with_status(self, status: MembershipStatus) -> Member {
        Member { membership_status: status, ..self }
    }

    /// Both names are present.
    pub open spec fn named(self) -> bool {
        self.first_name@.len() > 0 && self.last_name@.len() > 0
    }

    /// The text `query` is part of the first name or of the last name, letter
    /// case disregarded.
    pub open spec fn matches(self, query: Seq<char>) -> bool {
        occurs_in_ignoring_case(query, self.first_name@) || occurs_in_ignoring_case(
            query,
            self.last_name@,
        )
    }

    /// `self` comes before `other` where the most recently joined come first:
    /// it joined later, or on the same day under a later identity.
    pub open spec fn newer_than(self, other: Member) -> bool {
        other.join_date.before(self.join_date) || (other.join_date == self.join_date
            && other.member_id < self.member_id)
    }
}

impl Member {
    /// Whether the text `query` is part of the first name or of the last
    /// name, letter case disregarded.
    pub fn name_matches(&self, query: &str) -> (r: bool)
        ensures
            r == self.matches(query@),
    {
        contains_ignoring_case(self.first_name.as_str(), query) || contains_ignoring_case(
            self.last_name.as_str(),
            query,
        )
    }

    /// Whether both names are present.
    pub fn is_named(&self) -> (r: bool)
        ensures
            r == self.named(),
    {
        !self.first_name.as_str().is_empty() && !self.last_name.as_str().is_empty()
    }

    /// Whether `self` comes before `other` where the most recently joined
    /// come first.
    pub fn is_newer_than(&self, other: &Member) -> (r: bool)
        ensures
            r == self.newer_than(*other),
    {
        other.join_date.is_before(&self.join_date) || (other.join_date == self.join_date
            && other.member_id < self.member_id)
    }
}

} // verus!
