//! What holds of the services whatever the records and the requests are.

use crate::date::Date;
use crate::error::{invalid, ConflictKind, Field, Reason, ServiceError};
use crate::models::member::{Member, MembershipStatus, NewMember};
use crate::models::plan::NewPlan;
use crate::models::subscription::{
    lemma_granted_window, windows_overlap, MemberSubscription, NewSubscription,
    SubscriptionStatus,
};
use crate::models::trainer::NewTrainer;
use crate::records::{
    holds_key, lemma_table_push, lemma_table_remove, lemma_table_update, position_of, Records,
};
use crate::services::member_service::{
    member_created, member_creation, member_lookup, member_removal, member_updated,
    status_change,
};
use crate::services::plan_service::plan_creation;
use crate::services::subscription_service::{
    cancellation, lemma_opening_keeps_order, plan_duration, subscription_creation,
};
use crate::services::trainer_service::trainer_creation;
use vstd::prelude::*;

verus! {

/// A member's join date is the day of the enrolment.
pub proof fn law_join_date_is_day_of_enrolment(pre: Records, data: NewMember, today: Date)
    requires
        member_creation(pre, data, today) is Ok,
    ensures
        member_creation(pre, data, today)->Ok_0.join_date == today,
        member_creation(pre, data, today)->Ok_0.membership_status == MembershipStatus::Active,
{
}

/// An update leaves the member's identity, join date and status as they
/// were, and leaves every other member untouched.
pub proof fn law_update_keeps_join_date(
    pre: Records,
    id: i32,
    data: NewMember,
    today: Date,
    r: Result<Member, ServiceError>,
    post: Records,
)
    requires
        pre.wf(),
        member_updated(pre, id, data, today, r, post),
        r is Ok,
    ensures
        pre.member(id) is Some,
        post.member(id) == Some(r->Ok_0),
        r->Ok_0.member_id == id,
        r->Ok_0.join_date == pre.member(id)->0.join_date,
        r->Ok_0.membership_status == pre.member(id)->0.membership_status,
        forall|other: i32| other != id ==> #[trigger] post.member(other) == pre.member(other),
{
    let at = position_of(pre.members, id);
    lemma_table_update(pre.members, pre.last_member_id, at, r->Ok_0);
}

/// A member's status is `Active` or `Inactive` and nothing else.
pub proof fn law_status_is_active_or_inactive(member: Member)
    ensures
        member.membership_status == MembershipStatus::Active || member.membership_status
            == MembershipStatus::Inactive,
{
}

/// Setting a member's status to a text that names no status fails as a
/// validation error, whether or not the member exists.
pub proof fn law_unknown_status_is_refused(pre: Records, id: i32, status: Seq<char>)
    requires
        status != "Active"@,
        status != "Inactive"@,
    ensures
        status_change(pre, id, status) == Err::<Member, ServiceError>(
            invalid(Field::MembershipStatus, Reason::UnknownValue),
        ),
{
}

/// In records in good order every subscription ends after it starts.
pub proof fn law_windows_ordered(records: Records, i: int)
    requires
        records.wf(),
        0 <= i < records.subscriptions.len(),
    ensures
        records.subscriptions[i].start_date.before(records.subscriptions[i].end_date),
{
}

/// A request whose window would not end after it starts is never granted;
/// where the member and the plan are on record and the dates name days that
/// exist, it fails as a validation error.
pub proof fn law_disordered_window_is_refused(pre: Records, data: NewSubscription, end: Date)
    requires
        data.end_date == Some(end),
        !data.start_date.before(end),
    ensures
        subscription_creation(pre, data) is Err,
        holds_key(pre.members, data.member_id) && holds_key(pre.plans, data.plan_id)
            && data.start_date.valid() && end.valid() ==> subscription_creation(pre, data) == Err::<
            MemberSubscription,
            ServiceError,
        >(invalid(Field::EndDate, Reason::NotAfterStart)),
{
}

/// A subscription that is granted is active and ends after it starts.
pub proof fn law_granted_window_is_ordered(pre: Records, data: NewSubscription)
    requires
        subscription_creation(pre, data) is Ok,
    ensures
        subscription_creation(pre, data)->Ok_0.status == SubscriptionStatus::Active,
        subscription_creation(pre, data)->Ok_0.start_date.before(
            subscription_creation(pre, data)->Ok_0.end_date,
        ),
{
}

/// In records in good order no two active subscriptions of one member share
/// a day.
pub proof fn law_active_windows_disjoint(records: Records, i: int, j: int)
    requires
        records.wf(),
        0 <= i < records.subscriptions.len(),
        0 <= j < records.subscriptions.len(),
        i != j,
        records.subscriptions[i].status == SubscriptionStatus::Active,
        records.subscriptions[j].status == SubscriptionStatus::Active,
        records.subscriptions[i].member_id == records.subscriptions[j].member_id,
    ensures
        !windows_overlap(
            records.subscriptions[i].start_date,
            records.subscriptions[i].end_date,
            records.subscriptions[j].start_date,
            records.subscriptions[j].end_date,
        ),
{
    if i < j {
        assert(records.subscriptions[i].status == SubscriptionStatus::Active
            && records.subscriptions[j].status == SubscriptionStatus::Active);
    } else {
        assert(records.subscriptions[j].status == SubscriptionStatus::Active
            && records.subscriptions[i].status == SubscriptionStatus::Active);
    }
}

/// Reading a member twice from the same records gives the same result.
pub proof fn law_lookup_is_repeatable(
    records: Records,
    id: i32,
    first: Result<Member, ServiceError>,
    second: Result<Member, ServiceError>,
)
    requires
        first == member_lookup(records, id),
        second == member_lookup(records, id),
    ensures
        first == second,
{
}

/// A member that was enrolled is read back under the identity it was given,
/// with every field as the caller supplied it.
pub proof fn law_enrolled_member_is_read_back(
    pre: Records,
    data: NewMember,
    today: Date,
    r: Result<Member, ServiceError>,
    post: Records,
)
    requires
        pre.wf(),
        member_created(pre, data, today, r, post),
        r is Ok,
    ensures
        member_lookup(post, r->Ok_0.member_id) == r,
        r->Ok_0.first_name == data.first_name,
        r->Ok_0.last_name == data.last_name,
        r->Ok_0.gender == data.gender,
        r->Ok_0.dob == data.dob,
        r->Ok_0.phone == data.phone,
        r->Ok_0.email == data.email,
        r->Ok_0.address == data.address,
{
    lemma_table_push(pre.members, pre.last_member_id, r->Ok_0);
}

/// Cancelling moves a subscription along a transition of its state machine;
/// one that has left the active state is never changed.
pub proof fn law_closed_subscription_stays_closed(pre: Records, id: i32)
    requires
        pre.subscription(id) is Some,
    ensures
        pre.subscription(id)->0.status.terminal() ==> cancellation(pre, id) == Err::<
            MemberSubscription,
            ServiceError,
        >(ServiceError::Conflict(ConflictKind::SubscriptionClosed)),
        cancellation(pre, id) is Ok ==> pre.subscription(id)->0.status.may_become(
            cancellation(pre, id)->Ok_0.status,
        ),
{
}

/// Expiring what is due changes a subscription's state along a transition of
/// its state machine or not at all, and changes nothing else of it.
pub proof fn law_expiry_follows_state_machine(pre: Records, today: Date, i: int)
    requires
        0 <= i < pre.subscriptions.len(),
    ensures
        pre.with_due_expired(today).subscriptions.len() == pre.subscriptions.len(),
        pre.with_due_expired(today).subscriptions[i] == pre.subscriptions[i].with_status(
            pre.with_due_expired(today).subscriptions[i].status,
        ),
        pre.with_due_expired(today).subscriptions[i].status == pre.subscriptions[i].status
            || pre.subscriptions[i].status.may_become(
            pre.with_due_expired(today).subscriptions[i].status,
        ),
        pre.subscriptions[i].status.terminal() ==> pre.with_due_expired(today).subscriptions[i]
            == pre.subscriptions[i],
{
}

/// A change of status leaves the member's identity, join date and every
/// other field as they were.
pub proof fn law_status_change_keeps_join_date(pre: Records, id: i32, status: Seq<char>)
    requires
        status_change(pre, id, status) is Ok,
    ensures
        pre.member(id) is Some,
        MembershipStatus::named(status) is Some,
        status_change(pre, id, status)->Ok_0 == pre.member(id)->0.with_status(
            MembershipStatus::named(status)->0,
        ),
        status_change(pre, id, status)->Ok_0.join_date == pre.member(id)->0.join_date,
        status_change(pre, id, status)->Ok_0.member_id == pre.member(id)->0.member_id,
{
}

/// Enrolling a member keeps records in good order.
pub proof fn law_enrolment_keeps_order(
    pre: Records,
    data: NewMember,
    today: Date,
    r: Result<Member, ServiceError>,
    post: Records,
)
    requires
        pre.wf(),
        member_created(pre, data, today, r, post),
    ensures
        post.wf(),
{
    if r is Ok {
        lemma_table_push(pre.members, pre.last_member_id, r->Ok_0);
    }
}

/// Updating a member keeps records in good order.
pub proof fn law_update_keeps_order(
    pre: Records,
    id: i32,
    data: NewMember,
    today: Date,
    r: Result<Member, ServiceError>,
    post: Records,
)
    requires
        pre.wf(),
        member_updated(pre, id, data, today, r, post),
    ensures
        post.wf(),
{
    if r is Ok {
        let at = position_of(pre.members, id);
        lemma_table_update(pre.members, pre.last_member_id, at, r->Ok_0);
    }
}

/// Changing a member's status keeps records in good order.
pub proof fn law_status_change_keeps_order(pre: Records, id: i32, status: Seq<char>)
    requires
        pre.wf(),
        status_change(pre, id, status) is Ok,
    ensures
        pre.with_member_at(position_of(pre.members, id), status_change(pre, id, status)->Ok_0).wf(),
{
    let at = position_of(pre.members, id);
    lemma_table_update(pre.members, pre.last_member_id, at, status_change(pre, id, status)->Ok_0);
}

/// Removing a member keeps records in good order: it is refused while an
/// active subscription refers to the member.
pub proof fn law_removal_keeps_order(pre: Records, id: i32)
    requires
        pre.wf(),
        member_removal(pre, id) == Ok::<u64, ServiceError>(1),
    ensures
        pre.without_member_at(position_of(pre.members, id)).wf(),
        pre.without_member_at(position_of(pre.members, id)).member(id) is None,
{
    let at = position_of(pre.members, id);
    lemma_table_remove(pre.members, pre.last_member_id, at);
    let post = pre.without_member_at(at);
    assert(post.references_resolve()) by {
        assert forall|i: int| 0 <= i < post.subscriptions.len() implies {
            &&& holds_key(post.plans, (#[trigger] post.subscriptions[i]).plan_id)
            &&& 0 < post.subscriptions[i].member_id <= post.last_member_id
            &&& post.subscriptions[i].status == SubscriptionStatus::Active ==> holds_key(
                post.members,
                post.subscriptions[i].member_id,
            )
        } by {
            assert(holds_key(pre.plans, pre.subscriptions[i].plan_id));
            if post.subscriptions[i].status == SubscriptionStatus::Active {
                assert(pre.subscriptions[i].member_id != id);
                assert(holds_key(pre.members, pre.subscriptions[i].member_id));
            }
        }
    }
    assert(post.rows_sound()) by {
        pre.members.remove_ensures(at);
        assert forall|i: int| 0 <= i < post.members.len() implies (
        #[trigger] post.members[i]).named() by {
            if i < at {
                assert(pre.members[i].named());
            } else {
                assert(pre.members[i + 1].named());
            }
        }
    }
}

/// Recording a plan keeps records in good order.
pub proof fn law_plan_creation_keeps_order(pre: Records, data: NewPlan)
    requires
        pre.wf(),
        plan_creation(pre, data) is Ok,
    ensures
        pre.with_plan(plan_creation(pre, data)->Ok_0).wf(),
        pre.with_plan(plan_creation(pre, data)->Ok_0).plan(plan_creation(pre, data)->Ok_0.plan_id)
            == Some(plan_creation(pre, data)->Ok_0),
{
    lemma_table_push(pre.plans, pre.last_plan_id, plan_creation(pre, data)->Ok_0);
}

/// Recording a trainer keeps records in good order.
pub proof fn law_trainer_creation_keeps_order(pre: Records, data: NewTrainer)
    requires
        pre.wf(),
        trainer_creation(pre, data) is Ok,
    ensures
        pre.with_trainer(trainer_creation(pre, data)->Ok_0).wf(),
{
    lemma_table_push(pre.trainers, pre.last_trainer_id, trainer_creation(pre, data)->Ok_0);
}

/// Opening a subscription keeps records in good order: every window still
/// ends after it starts, and no two active subscriptions of a member share
/// a day.
pub proof fn law_subscription_creation_keeps_order(pre: Records, data: NewSubscription)
    requires
        pre.wf(),
        subscription_creation(pre, data) is Ok,
    ensures
        pre.with_subscription(subscription_creation(pre, data)->Ok_0).wf(),
{
    lemma_granted_window(
        holds_key(pre.members, data.member_id),
        plan_duration(pre, data.plan_id),
        pre.subscriptions,
        data,
    );
    lemma_opening_keeps_order(pre, subscription_creation(pre, data)->Ok_0);
}

/// Cancelling a subscription keeps records in good order.
pub proof fn law_cancellation_keeps_order(pre: Records, id: i32)
    requires
        pre.wf(),
        cancellation(pre, id) is Ok,
    ensures
        pre.with_subscription_at(position_of(pre.subscriptions, id), cancellation(pre, id)->Ok_0).wf(),
{
    let at = position_of(pre.subscriptions, id);
    let cancelled = cancellation(pre, id)->Ok_0;
    lemma_table_update(pre.subscriptions, pre.last_subscription_id, at, cancelled);
    let post = pre.with_subscription_at(at, cancelled);
    assert forall|i: int| 0 <= i < post.subscriptions.len() implies #[trigger] post.subscriptions[i]
        == (if i == at {
        cancelled
    } else {
        pre.subscriptions[i]
    }) by {}
    assert(post.windows_ordered()) by {
        assert forall|i: int| 0 <= i < post.subscriptions.len() implies {
            &&& (#[trigger] post.subscriptions[i]).start_date.valid()
            &&& post.subscriptions[i].end_date.valid()
            &&& post.subscriptions[i].window_ordered()
        } by {
            assert(pre.subscriptions[i].window_ordered());
        }
    }
    assert(post.references_resolve()) by {
        assert forall|i: int| 0 <= i < post.subscriptions.len() implies {
            &&& holds_key(post.plans, (#[trigger] post.subscriptions[i]).plan_id)
            &&& 0 < post.subscriptions[i].member_id <= post.last_member_id
            &&& post.subscriptions[i].status == SubscriptionStatus::Active ==> holds_key(
                post.members,
                post.subscriptions[i].member_id,
            )
        } by {
            assert(holds_key(pre.plans, pre.subscriptions[i].plan_id));
        }
    }
    assert(post.active_windows_disjoint()) by {
        assert forall|i: int, j: int|
            0 <= i < j < post.subscriptions.len() && (#[trigger] post.subscriptions[i]).status
                == SubscriptionStatus::Active && (#[trigger] post.subscriptions[j]).status
                == SubscriptionStatus::Active && post.subscriptions[i].member_id
                == post.subscriptions[j].member_id implies !windows_overlap(
            post.subscriptions[i].start_date,
            post.subscriptions[i].end_date,
            post.subscriptions[j].start_date,
            post.subscriptions[j].end_date,
        ) by {
            assert(pre.subscriptions[i].status == SubscriptionStatus::Active);
            assert(pre.subscriptions[j].status == SubscriptionStatus::Active);
        }
    }
}

} // verus!
