//! Subscriptions: the time-bounded contracts that bind a member to a plan,
//! their states, and the rules under which a new one is admitted.

use crate::date::{add_months, Date};
use crate::error::{invalid, ConflictKind, EntityKind, Field, Reason, ServiceError};
use vstd::prelude::*;

verus! {

/// The state of a subscription. `Active` is the state every subscription
/// starts in and the only one it can leave.
#[derive(Clone, Copy, Debug, PartialEq, Eq, Structural)]
pub enum SubscriptionStatus {
    Active,
    Expired,
    Cancelled,
}

impl SubscriptionStatus {
    /// The status's name.
    pub open spec fn label(self) -> Seq<char> {
        match self {
            SubscriptionStatus::Active => "Active"@,
            SubscriptionStatus::Expired => "Expired"@,
            SubscriptionStatus::Cancelled => "Cancelled"@,
        }
    }

    /// The status that `text` names, if it names one.
    pub open spec fn named(text: Seq<char>) -> Option<SubscriptionStatus> {
        if text == "Active"@ {
            Some(SubscriptionStatus::Active)
        } else if text == "Expired"@ {
            Some(SubscriptionStatus::Expired)
        } else if text == "Cancelled"@ {
            Some(SubscriptionStatus::Cancelled)
        } else {
            None
        }
    }

    /// No transition leaves this state.
    pub open spec fn terminal(self) -> bool {
        self != SubscriptionStatus::Active
    }

    /// A subscription in state `self` may move to state `next`: only from
    /// `Active`, and only to `Expired` or `Cancelled`.
    pub open spec fn may_become(self, next: SubscriptionStatus) -> bool {
        self == SubscriptionStatus::Active && next != SubscriptionStatus::Active
    }

    /// The status's name.
    pub fn as_str(&self) -> (r: &'static str)
        ensures
            r@ == self.label(),
    {
        match self {
            SubscriptionStatus::Active => "Active",
            SubscriptionStatus::Expired => "Expired",
            SubscriptionStatus::Cancelled => "Cancelled",
        }
    }

    /// Reads a status from its name; any other text gives `None`.
    pub fn parse(text: &str) -> (r: Option<SubscriptionStatus>)
        ensures
            r == Self::named(text@),
    {
        let given = text.to_owned();
        if given == "Active".to_owned() {
            Some(SubscriptionStatus::Active)
        } else if given == "Expired".to_owned() {
            Some(SubscriptionStatus::Expired)
        } else if given == "Cancelled".to_owned() {
            Some(SubscriptionStatus::Cancelled)
        } else {
            None
        }
    }

    /// Whether no transition leaves this state.
    pub fn is_terminal(&self) -> (r: bool)
        ensures
            r == self.terminal(),
    {
        match self {
            SubscriptionStatus::Active => false,
            _ => true,
        }
    }

    /// Whether a subscription in this state may move to state `next`.
    pub fn can_become(&self, next: &SubscriptionStatus) -> (r: bool)
        ensures
            r == self.may_become(*next),
            self.terminal() ==> !r,
    {
        match (self, next) {
            (SubscriptionStatus::Active, SubscriptionStatus::Expired) => true,
            (SubscriptionStatus::Active, SubscriptionStatus::Cancelled) => true,
            _ => false,
        }
    }
}

/// A member's contract for a plan over the window from `start_date` up to,
/// but not including, `end_date`.
#[derive(Clone, Copy, Debug, PartialEq, Eq, Structural)]
pub struct MemberSubscription {
    pub subscription_id: i32,
    pub member_id: i32,
    pub plan_id: i32,
    pub start_date: Date,
    pub end_date: Date,
    pub status: SubscriptionStatus,
}

/// What a caller supplies to create a subscription. Without an `end_date`
/// the window runs for the plan's duration.
#[derive(Clone, Copy, Debug, PartialEq, Eq, Structural)]
pub struct NewSubscription {
    pub member_id: i32,
    pub plan_id: i32,
    pub start_date: Date,
    pub end_date: Option<Date>,
}

/// The half-open windows `[start_a, end_a)` and `[start_b, end_b)` share a day.
pub open spec fn windows_overlap(start_a: Date, end_a: Date, start_b: Date, end_b: Date) -> bool {
    start_a.before(end_b) && start_b.before(end_a)
}

impl MemberSubscription {
    /// The window is not empty: it ends after it starts.
    pub open spec fn window_ordered(self) -> bool {
        self.start_date.before(self.end_date)
    }

    /// The subscription is active, belongs to `member_id`, and its window
    /// shares a day with `[start, end)`.
    pub open spec fn stands_against(self, member_id: i32, start: Date, end: Date) -> bool {
        self.member_id == member_id && self.status == SubscriptionStatus::Active
            && windows_overlap(self.start_date, self.end_date, start, end)
    }

    /// The subscription is active, belongs to `member_id`, and `today` lies
    /// in its window.
    pub open spec fn covers(self, member_id: i32, today: Date) -> bool {
        self.member_id == member_id && self.status == SubscriptionStatus::Active
            && !today.before(self.start_date) && today.before(self.end_date)
    }

    /// The subscription is active and its window has run out by `today`.
    pub open spec fn due(self, today: Date) -> bool {
        self.status == SubscriptionStatus::Active && !today.before(self.end_date)
    }

    /// The state as it reads on the day `today`: an active subscription whose
    /// window has run out counts as expired, whatever is stored.
    pub open spec fn status_on(self, today: Date) -> SubscriptionStatus {
        if self.due(today) {
            SubscriptionStatus::Expired
        } else {
            self.status
        }
    }

    /// The subscription with another status and nothing else changed.
    pub open spec fn with_status(self, status: SubscriptionStatus) -> MemberSubscription {
        MemberSubscription { status, ..self }
    }

    /// The subscription that an admitted request becomes under the identity
    /// `subscription_id`, with its window ending on `end`.
    pub open spec fn opened(subscription_id: i32, data: NewSubscription, end: Date)
        -> MemberSubscription {
        MemberSubscription {
            subscription_id,
            member_id: data.member_id,
            plan_id: data.plan_id,
            start_date: data.start_date,
            end_date: end,
            status: SubscriptionStatus::Active,
        }
    }

    /// Whether the two windows share a day.
    pub fn overlaps(&self, start: &Date, end: &Date) -> (r: bool)
        ensures
            r == windows_overlap(self.start_date, self.end_date, *start, *end),
    {
        self.start_date.is_before(end) && start.is_before(&self.end_date)
    }

    /// The state as it reads on the day `today`, computed without changing
    /// what is stored.
    pub fn effective_status(&self, today: &Date) -> (r: SubscriptionStatus)
        ensures
            r == self.status_on(*today),
            r == self.status || self.status.may_become(r),
    {
        match self.status {
            SubscriptionStatus::Active => {
                if today.is_before(&self.end_date) {
                    SubscriptionStatus::Active
                } else {
                    SubscriptionStatus::Expired
                }
            },
            other => other,
        }
    }
}

/// Some subscription in `held` stands against the window `[start, end)` of
/// the member `member_id`.
pub open spec fn window_taken(
    held: Seq<MemberSubscription>,
    member_id: i32,
    start: Date,
    end: Date,
) -> bool {
    exists|i: int| 0 <= i < held.len() && #[trigger] held[i].stands_against(member_id, start, end)
}

/// Some subscription in `held` covers the member `member_id` on `today`.
pub open spec fn is_covered(held: Seq<MemberSubscription>, member_id: i32, today: Date) -> bool {
    exists|i: int| 0 <= i < held.len() && #[trigger] held[i].covers(member_id, today)
}

/// Some subscription in `held` is active and belongs to `member_id`.
pub open spec fn has_live_subscription(held: Seq<MemberSubscription>, member_id: i32) -> bool {
    exists|i: int|
        0 <= i < held.len() && (#[trigger] held[i]).member_id == member_id && held[i].status
            == SubscriptionStatus::Active
}

/// The number of months that a plan of the given duration adds to a start
/// date. A duration that is not above zero adds none.
pub open spec fn months_of(duration_months: i32) -> nat {
    if duration_months > 0 {
        duration_months as nat
    } else {
        0
    }
}

/// The day on which the requested window ends: the one the caller gave, or
/// else the start date moved on by the plan's duration. `None` where that
/// day would lie beyond the calendar.
pub open spec fn end_of_window(data: NewSubscription, duration_months: i32) -> Option<Date> {
    match data.end_date {
        Some(end) => Some(end),
        None => data.start_date.plus_months(months_of(duration_months)),
    }
}

/// The decision on a request for a subscription, given whether the member
/// exists, the duration of the plan if the plan exists, and the subscriptions
/// on record. The checks run in this order: member, plan, the dates name days
/// that exist, the end can be derived, the end lies after the start, and no
/// active subscription of the member shares a day with the window. An
/// admitted request gives the day on which its window ends.
pub open spec fn admission(
    member_known: bool,
    plan_duration: Option<i32>,
    held: Seq<MemberSubscription>,
    data: NewSubscription,
) -> Result<Date, ServiceError> {
    if !member_known {
        Err(ServiceError::NotFound(EntityKind::Member))
    } else if plan_duration is None {
        Err(ServiceError::NotFound(EntityKind::Plan))
    } else if !data.start_date.valid() {
        Err(invalid(Field::StartDate, Reason::NoSuchDay))
    } else if data.end_date is Some && !data.end_date->0.valid() {
        Err(invalid(Field::EndDate, Reason::NoSuchDay))
    } else {
        match end_of_window(data, plan_duration->0) {
            None => Err(invalid(Field::EndDate, Reason::OutOfRange)),
            Some(end) => if !data.start_date.before(end) {
                Err(invalid(Field::EndDate, Reason::NotAfterStart))
            } else if window_taken(held, data.member_id, data.start_date, end) {
                Err(ServiceError::Conflict(ConflictKind::OverlappingActiveSubscription))
            } else {
                Ok(end)
            },
        }
    }
}

/// A request is granted only for a member and a plan on record and for a
/// window that starts and ends on days that exist, ends after it starts, and
/// is not taken.
pub proof fn lemma_granted_window(
    member_known: bool,
    plan_duration: Option<i32>,
    held: Seq<MemberSubscription>,
    data: NewSubscription,
)
    requires
        admission(member_known, plan_duration, held, data) is Ok,
    ensures
        member_known,
        plan_duration is Some,
        data.start_date.valid(),
        Some(admission(member_known, plan_duration, held, data)->Ok_0) == end_of_window(
            data,
            plan_duration->0,
        ),
        admission(member_known, plan_duration, held, data)->Ok_0.valid(),
        data.start_date.before(admission(member_known, plan_duration, held, data)->Ok_0),
        !window_taken(
            held,
            data.member_id,
            data.start_date,
            admission(member_known, plan_duration, held, data)->Ok_0,
        ),
{
    if data.end_date is None {
        data.start_date.lemma_plus_months(months_of(plan_duration->0));
    }
}

/// Whether some subscription in `held` stands against the window
/// `[start, end)` of the member `member_id`.
pub fn is_window_taken(held: &Vec<MemberSubscription>, member_id: i32, start: &Date, end: &Date)
    -> (r: bool)
    ensures
        r == window_taken(held@, member_id, *start, *end),
{
    let mut i: usize = 0;
    while i < held.len()
        invariant
            i <= held.len(),
            forall|j: int| 0 <= j < i ==> !(#[trigger] held@[j]).stands_against(member_id, *start, *end),
        decreases held.len() - i,
    {
        let s = &held[i];
        if s.member_id == member_id && s.status == SubscriptionStatus::Active && s.overlaps(
            start,
            end,
        ) {
            assert(held@[i as int].stands_against(member_id, *start, *end));
            return true;
        }
        i += 1;
    }
    false
}

/// Whether some subscription in `held` is active, belongs to `member_id`,
/// and has `today` in its window.
pub fn has_cover(held: &Vec<MemberSubscription>, member_id: i32, today: &Date) -> (r: bool)
    ensures
        r == is_covered(held@, member_id, *today),
{
    let mut i: usize = 0;
    while i < held.len()
        invariant
            i <= held.len(),
            forall|j: int| 0 <= j < i ==> !(#[trigger] held@[j]).covers(member_id, *today),
        decreases held.len() - i,
    {
        let s = &held[i];
        if s.member_id == member_id && s.status == SubscriptionStatus::Active
            && !today.is_before(&s.start_date) && today.is_before(&s.end_date) {
            assert(held@[i as int].covers(member_id, *today));
            return true;
        }
        i += 1;
    }
    false
}

/// Whether a subscription in `held` is active and belongs to `member_id`, so
/// that the member cannot be removed. A subscription whose window has run out
/// but which is still recorded as active counts.
pub fn blocks_removal(held: &Vec<MemberSubscription>, member_id: i32) -> (r: bool)
    ensures
        r == has_live_subscription(held@, member_id),
{
    let mut i: usize = 0;
    while i < held.len()
        invariant
            i <= held.len(),
            forall|j: int|
                0 <= j < i ==> !((#[trigger] held@[j]).member_id == member_id && held@[j].status
                    == SubscriptionStatus::Active),
        decreases held.len() - i,
    {
        if held[i].member_id == member_id && held[i].status == SubscriptionStatus::Active {
            return true;
        }
        i += 1;
    }
    false
}

/// Decides on a request for a subscription. `member_known` says whether the
/// member referred to exists, `plan_duration` holds the duration in months of
/// the plan referred to if that plan exists, and `held` the subscriptions on
/// record. An admitted request gives the day on which its window ends.
pub fn assess_request(
    member_known: bool,
    plan_duration: Option<i32>,
    held: &Vec<MemberSubscription>,
    data: &NewSubscription,
) -> (r: Result<Date, ServiceError>)
    ensures
        r == admission(member_known, plan_duration, held@, *data),
        r is Ok ==> r->Ok_0.valid() && data.start_date.before(r->Ok_0),
{
    if !member_known {
        return Err(ServiceError::NotFound(EntityKind::Member));
    }
    let duration = match plan_duration {
        Some(d) => d,
        None => {
            return Err(ServiceError::NotFound(EntityKind::Plan));
        },
    };
    if !data.start_date.is_valid() {
        return Err(ServiceError::Validation { field: Field::StartDate, reason: Reason::NoSuchDay });
    }
    let end = match data.end_date {
        Some(end) => {
            if !end.is_valid() {
                return Err(
                    ServiceError::Validation { field: Field::EndDate, reason: Reason::NoSuchDay },
                );
            }
            end
        },
        None => {
            let months: u32 = if duration > 0 {
                duration as u32
            } else {
                0
            };
            proof {
                data.start_date.lemma_plus_months(months as nat);
            }
            match add_months(data.start_date, months) {
                Some(end) => end,
                None => {
                    return Err(
                        ServiceError::Validation {
                            field: Field::EndDate,
                            reason: Reason::OutOfRange,
                        },
                    );
                },
            }
        },
    };
    if !data.start_date.is_before(&end) {
        return Err(
            ServiceError::Validation { field: Field::EndDate, reason: Reason::NotAfterStart },
        );
    }
    if is_window_taken(held, data.member_id, &data.start_date, &end) {
        return Err(ServiceError::Conflict(ConflictKind::OverlappingActiveSubscription));
    }
    Ok(end)
}

} // verus!
