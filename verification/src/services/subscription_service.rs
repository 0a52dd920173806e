//! The subscription lifecycle: a subscription is opened for a member and a
//! plan, and leaves the active state by cancellation or by expiry.

use crate::date::Date;
use crate::error::{ConflictKind, EntityKind, ServiceError};
use crate::models::member::MembershipStatus;
use crate::models::subscription::{
    admission, assess_request, has_cover, is_covered, window_taken, windows_overlap,
    MemberSubscription, NewSubscription, SubscriptionStatus,
};
use crate::records::{
    holds_key, keys_ascending, keys_issued, lemma_table_push, lemma_table_update, locate,
    position_of, Keyed, Records,
};
use crate::services::Registry;
use vstd::prelude::*;

verus! {

/// The duration in months of the plan `plan_id`, if the plan is on record.
pub open spec fn plan_duration(pre: Records, plan_id: i32) -> Option<i32> {
    match pre.plan(plan_id) {
        Some(plan) => Some(plan.duration_months),
        None => None,
    }
}

/// What opening a subscription from `data` returns on the records `pre`: the
/// reason for which the request is turned down, or a storage failure where no
/// further identity can be given out, or else the active subscription under
/// the next identity, its window ending on the day that was given or derived.
pub open spec fn subscription_creation(pre: Records, data: NewSubscription) -> Result<
    MemberSubscription,
    ServiceError,
> {
    match admission(
        holds_key(pre.members, data.member_id),
        plan_duration(pre, data.plan_id),
        pre.subscriptions,
        data,
    ) {
        Err(e) => Err(e),
        Ok(end) => if pre.last_subscription_id == i32::MAX {
            Err(ServiceError::StorageUnavailable)
        } else {
            Ok(MemberSubscription::opened((pre.last_subscription_id + 1) as i32, data, end))
        },
    }
}

/// What cancelling the subscription `id` returns on the records `pre`: that
/// there is no such subscription, or a conflict where it has left the active
/// state, or else the subscription as cancelled.
pub open spec fn cancellation(pre: Records, id: i32) -> Result<MemberSubscription, ServiceError> {
    match pre.subscription(id) {
        None => Err(ServiceError::NotFound(EntityKind::Subscription)),
        Some(subscription) => if subscription.status != SubscriptionStatus::Active {
            Err(ServiceError::Conflict(ConflictKind::SubscriptionClosed))
        } else {
            Ok(subscription.with_status(SubscriptionStatus::Cancelled))
        },
    }
}

/// The status of the member `id` as it reads on the day `today`: active
/// where the member is recorded as active and holds an active subscription
/// with `today` in its window, inactive otherwise.
pub open spec fn derived_status(pre: Records, id: i32, today: Date) -> Result<
    MembershipStatus,
    ServiceError,
> {
    match pre.member(id) {
        None => Err(ServiceError::NotFound(EntityKind::Member)),
        Some(member) => if member.membership_status == MembershipStatus::Active && is_covered(
            pre.subscriptions,
            id,
            today,
        ) {
            Ok(MembershipStatus::Active)
        } else {
            Ok(MembershipStatus::Inactive)
        },
    }
}

/// The test that picks the subscriptions that are due to expire on `today`.
pub open spec fn due_on(today: Date) -> spec_fn(MemberSubscription) -> bool {
    |s: MemberSubscription| s.due(today)
}

/// All subscriptions in order of identity.
pub fn list_subscriptions(reg: &Registry) -> (r: Vec<MemberSubscription>)
    ensures
        r@ == reg@.subscriptions,
{
    let out = reg.subscriptions.clone();
    assert(out@ =~= reg.subscriptions@);
    out
}

/// Opens a subscription and returns it. The member and the plan have to be
/// on record; without an end date the window runs for the plan's duration; the
/// window has to end after it starts and may share no day with an active
/// subscription of the same member. The member's status is not touched. On
/// failure the records stay as they were.
pub fn create_subscription(reg: &mut Registry, data: NewSubscription) -> (r: Result<
    MemberSubscription,
    ServiceError,
>)
    requires
        old(reg)@.wf(),
    ensures
        r == subscription_creation(old(reg)@, data),
        final(reg)@ == (match r {
            Ok(subscription) => old(reg)@.with_subscription(subscription),
            Err(_) => old(reg)@,
        }),
        final(reg)@.wf(),
{
    let member_known = match locate(&reg.members, data.member_id) {
        Some(_) => true,
        None => false,
    };
    let duration = match locate(&reg.plans, data.plan_id) {
        Some(at) => Some(reg.plans[at].duration_months),
        None => None,
    };
    let end = match assess_request(member_known, duration, &reg.subscriptions, &data) {
        Ok(end) => end,
        Err(e) => {
            return Err(e);
        },
    };
    if reg.last_subscription_id == i32::MAX {
        return Err(ServiceError::StorageUnavailable);
    }
    let subscription = MemberSubscription {
        subscription_id: reg.last_subscription_id + 1,
        member_id: data.member_id,
        plan_id: data.plan_id,
        start_date: data.start_date,
        end_date: end,
        status: SubscriptionStatus::Active,
    };
    proof {
        lemma_opening_keeps_order(reg@, subscription);
    }
    reg.last_subscription_id = subscription.subscription_id;
    reg.subscriptions.push(subscription);
    Ok(subscription)
}

/// The status of the member `member_id` as it reads on the day `today`,
/// derived without changing what is recorded: active where the member is
/// recorded as active and holds an active subscription with `today` in its
/// window, inactive otherwise.
pub fn effective_membership_status(reg: &Registry, member_id: i32, today: Date) -> (r: Result<
    MembershipStatus,
    ServiceError,
>)
    requires
        reg@.wf(),
    ensures
        r == derived_status(reg@, member_id, today),
{
    let at = match locate(&reg.members, member_id) {
        Some(at) => at,
        None => {
            return Err(ServiceError::NotFound(EntityKind::Member));
        },
    };
    if reg.members[at].membership_status == MembershipStatus::Active && has_cover(
        &reg.subscriptions,
        member_id,
        &today,
    ) {
        Ok(MembershipStatus::Active)
    } else {
        Ok(MembershipStatus::Inactive)
    }
}

/// Cancels the subscription `subscription_id` and returns it. Only an active
/// subscription can be cancelled: one that is expired or cancelled stays as it
/// is. On failure the records stay as they were.
pub fn cancel_subscription(reg: &mut Registry, subscription_id: i32) -> (r: Result<
    MemberSubscription,
    ServiceError,
>)
    requires
        old(reg)@.wf(),
    ensures
        r == cancellation(old(reg)@, subscription_id),
        final(reg)@ == (match r {
            Ok(subscription) => old(reg)@.with_subscription_at(
                position_of(old(reg)@.subscriptions, subscription_id),
                subscription,
            ),
            Err(_) => old(reg)@,
        }),
        final(reg)@.wf(),
{
    let at = match locate(&reg.subscriptions, subscription_id) {
        Some(at) => at,
        None => {
            return Err(ServiceError::NotFound(EntityKind::Subscription));
        },
    };
    let current = reg.subscriptions[at];
    if !current.status.can_become(&SubscriptionStatus::Cancelled) {
        return Err(ServiceError::Conflict(ConflictKind::SubscriptionClosed));
    }
    let cancelled = MemberSubscription { status: SubscriptionStatus::Cancelled, ..current };
    proof {
        lemma_table_update(reg.subscriptions@, reg.last_subscription_id, at as int, cancelled);
    }
    reg.subscriptions.set(at, cancelled);
    Ok(cancelled)
}

/// Marks as expired every active subscription whose window has run out by
/// `today`, that is, whose end date is `today` or earlier, and returns how
/// many there were. Nothing else is changed.
pub fn expire_due(reg: &mut Registry, today: Date) -> (r: usize)
    requires
        old(reg)@.wf(),
    ensures
        final(reg)@ == old(reg)@.with_due_expired(today),
        r == old(reg)@.subscriptions.filter(due_on(today)).len(),
        final(reg)@.wf(),
{
    let ghost pre = reg@;
    let mut count: usize = 0;
    let mut k: usize = 0;
    proof {
        assert(pre.subscriptions.take(0) =~= Seq::<MemberSubscription>::empty());
        assert(Seq::<MemberSubscription>::empty().filter(due_on(today)).len() == 0) by {
            reveal(Seq::filter);
        }
    }
    while k < reg.subscriptions.len()
        invariant
            k <= reg.subscriptions.len(),
            reg.subscriptions.len() == pre.subscriptions.len(),
            count == pre.subscriptions.take(k as int).filter(due_on(today)).len(),
            count <= k,
            reg@ == (Records { subscriptions: reg.subscriptions@, ..pre }),
            forall|i: int|
                0 <= i < k ==> #[trigger] reg.subscriptions@[i] == pre.subscriptions[i].with_status(
                    pre.subscriptions[i].status_on(today),
                ),
            forall|i: int|
                k <= i < reg.subscriptions.len() ==> #[trigger] reg.subscriptions@[i]
                    == pre.subscriptions[i],
        decreases reg.subscriptions.len() - k,
    {
        let current = reg.subscriptions[k];
        proof {
            assert(pre.subscriptions.take(k + 1) =~= pre.subscriptions.take(k as int).push(current));
            pre.subscriptions.take(k as int).lemma_filter_push(current, due_on(today));
        }
        if current.status == SubscriptionStatus::Active && !today.is_before(&current.end_date) {
            reg.subscriptions.set(
                k,
                MemberSubscription { status: SubscriptionStatus::Expired, ..current },
            );
            count += 1;
        }
        k += 1;
    }
    proof {
        assert(pre.subscriptions.take(k as int) =~= pre.subscriptions);
        assert(reg.subscriptions@ =~= pre.with_due_expired(today).subscriptions);
        lemma_expiry_keeps_order(pre, today);
    }
    count
}

/// Records in good order stay so when an active subscription is added under
/// a later identity, for a member and a plan on record, with a window that
/// ends after it starts and shares no day with an active subscription of the
/// same member.
pub proof fn lemma_opening_keeps_order(pre: Records, subscription: MemberSubscription)
    requires
        pre.wf(),
        pre.last_subscription_id < subscription.subscription_id,
        subscription.status == SubscriptionStatus::Active,
        subscription.start_date.valid(),
        subscription.end_date.valid(),
        subscription.window_ordered(),
        holds_key(pre.members, subscription.member_id),
        holds_key(pre.plans, subscription.plan_id),
        !window_taken(
            pre.subscriptions,
            subscription.member_id,
            subscription.start_date,
            subscription.end_date,
        ),
    ensures
        pre.with_subscription(subscription).wf(),
{
    let post = pre.with_subscription(subscription);
    let n = pre.subscriptions.len() as int;
    lemma_table_push(pre.subscriptions, pre.last_subscription_id, subscription);
    assert forall|i: int| 0 <= i < n implies #[trigger] post.subscriptions[i]
        == pre.subscriptions[i] by {}
    assert(post.subscriptions[n] == subscription);
    let member_at = position_of(pre.members, subscription.member_id);
    assert(0 < pre.members[member_at].key() <= pre.last_member_id);
    assert(post.windows_ordered()) by {
        assert forall|i: int| 0 <= i < post.subscriptions.len() implies {
            &&& (#[trigger] post.subscriptions[i]).start_date.valid()
            &&& post.subscriptions[i].end_date.valid()
            &&& post.subscriptions[i].window_ordered()
        } by {
            if i < n {
                assert(pre.subscriptions[i].window_ordered());
            }
        }
    }
    assert(post.references_resolve()) by {
        assert forall|i: int| 0 <= i < post.subscriptions.len() implies {
            &&& holds_key(post.plans, (#[trigger] post.subscriptions[i]).plan_id)
            &&& 0 < post.subscriptions[i].member_id <= post.last_member_id
            &&& post.subscriptions[i].status == SubscriptionStatus::Active ==> holds_key(
                post.members,
                post.subscriptions[i].member_id,
            )
        } by {
            if i < n {
                assert(holds_key(pre.plans, pre.subscriptions[i].plan_id));
            }
        }
    }
    assert(post.active_windows_disjoint()) by {
        assert forall|i: int, j: int|
            0 <= i < j < post.subscriptions.len() && (#[trigger] post.subscriptions[i]).status
                == SubscriptionStatus::Active && (#[trigger] post.subscriptions[j]).status
                == SubscriptionStatus::Active && post.subscriptions[i].member_id
                == post.subscriptions[j].member_id implies !windows_overlap(
            post.subscriptions[i].start_date,
            post.subscriptions[i].end_date,
            post.subscriptions[j].start_date,
            post.subscriptions[j].end_date,
        ) by {
            if j < n {
                assert(pre.subscriptions[i].status == SubscriptionStatus::Active);
                assert(pre.subscriptions[j].status == SubscriptionStatus::Active);
            } else {
                assert(!pre.subscriptions[i].stands_against(
                    subscription.member_id,
                    subscription.start_date,
                    subscription.end_date,
                ));
            }
        }
    }
}

/// Expiring what is due keeps records in good order.
pub proof fn lemma_expiry_keeps_order(pre: Records, today: Date)
    requires
        pre.wf(),
    ensures
        pre.with_due_expired(today).wf(),
{
    let post = pre.with_due_expired(today);
    assert forall|i: int| 0 <= i < post.subscriptions.len() implies #[trigger] post.subscriptions[i]
        == pre.subscriptions[i].with_status(pre.subscriptions[i].status_on(today)) by {}
    assert(keys_ascending(post.subscriptions)) by {
        assert forall|i: int, j: int| 0 <= i < j < post.subscriptions.len() implies (
        #[trigger] post.subscriptions[i]).key() < (#[trigger] post.subscriptions[j]).key() by {
            assert(pre.subscriptions[i].key() < pre.subscriptions[j].key());
        }
    }
    assert(keys_issued(post.subscriptions, post.last_subscription_id)) by {
        assert forall|i: int| 0 <= i < post.subscriptions.len() implies 0 < (
        #[trigger] post.subscriptions[i]).key() <= post.last_subscription_id by {
            assert(0 < pre.subscriptions[i].key() <= pre.last_subscription_id);
        }
    }
    assert(post.windows_ordered()) by {
        assert forall|i: int| 0 <= i < post.subscriptions.len() implies {
            &&& (#[trigger] post.subscriptions[i]).start_date.valid()
            &&& post.subscriptions[i].end_date.valid()
            &&& post.subscriptions[i].window_ordered()
        } by {
            assert(pre.subscriptions[i].window_ordered());
        }
    }
    assert(post.references_resolve()) by {
        assert forall|i: int| 0 <= i < post.subscriptions.len() implies {
            &&& holds_key(post.plans, (#[trigger] post.subscriptions[i]).plan_id)
            &&& 0 < post.subscriptions[i].member_id <= post.last_member_id
            &&& post.subscriptions[i].status == SubscriptionStatus::Active ==> holds_key(
                post.members,
                post.subscriptions[i].member_id,
            )
        } by {
            assert(holds_key(pre.plans, pre.subscriptions[i].plan_id));
        }
    }
    assert(post.active_windows_disjoint()) by {
        assert forall|i: int, j: int|
            0 <= i < j < post.subscriptions.len() && (#[trigger] post.subscriptions[i]).status
                == SubscriptionStatus::Active && (#[trigger] post.subscriptions[j]).status
                == SubscriptionStatus::Active && post.subscriptions[i].member_id
                == post.subscriptions[j].member_id implies !windows_overlap(
            post.subscriptions[i].start_date,
            post.subscriptions[i].end_date,
            post.subscriptions[j].start_date,
            post.subscriptions[j].end_date,
        ) by {
            assert(pre.subscriptions[i].status == SubscriptionStatus::Active);
            assert(pre.subscriptions[j].status == SubscriptionStatus::Active);
        }
    }
}

} // verus!
