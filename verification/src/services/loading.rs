//! Building a registry from rows that were kept elsewhere.

use crate::models::member::Member;
use crate::models::plan::MembershipPlan;
use crate::models::subscription::{windows_overlap, MemberSubscription, SubscriptionStatus};
use crate::models::trainer::Trainer;
use crate::records::{
    highest_member_ref, holds_key, keys_ascending, last_key, lemma_highest_member_ref,
    lemma_table_sound_by_last_key, locate, table_sound, Keyed, Records,
};
use crate::services::Registry;
use vstd::prelude::*;

verus! {

/// Whether the rows stand in strictly ascending order of identity, all
/// identities above zero.
pub fn is_table_in_order<T: Keyed>(rows: &Vec<T>) -> (r: bool)
    ensures
        r == table_sound(rows@, last_key(rows@)),
{
    if rows.len() == 0 {
        return true;
    }
    if rows[0].id() <= 0 {
        return false;
    }
    let mut i: usize = 1;
    while i < rows.len()
        invariant
            1 <= i <= rows.len(),
            0 < rows@[0].key(),
            forall|a: int, b: int|
                0 <= a < b < i ==> (#[trigger] rows@[a]).key() < (#[trigger] rows@[b]).key(),
        decreases rows.len() - i,
    {
        if rows[i - 1].id() >= rows[i].id() {
            return false;
        }
        proof {
            assert forall|a: int, b: int| 0 <= a < b < i + 1 implies (#[trigger] rows@[a]).key() < (
            #[trigger] rows@[b]).key() by {
                if b == i && a < i - 1 {
                    assert(rows@[a].key() < rows@[i - 1].key());
                }
            }
        }
        i += 1;
    }
    proof {
        let n = rows.len() - 1;
        assert forall|k: int| 0 <= k < rows.len() implies 0 < (#[trigger] rows@[k]).key()
            <= last_key(rows@) by {
            if 0 < k {
                assert(rows@[0].key() < rows@[k].key());
            }
            if k < n {
                assert(rows@[k].key() < rows@[n].key());
            }
        }
    }
    true
}

/// The identity of the last row, or zero for an empty table.
fn last_id<T: Keyed>(rows: &Vec<T>) -> (r: i32)
    ensures
        r == last_key(rows@),
{
    if rows.len() == 0 {
        0
    } else {
        rows[rows.len() - 1].id()
    }
}

/// The largest member identity that a subscription refers to, or zero.
fn highest_member_ref_of(subscriptions: &Vec<MemberSubscription>) -> (r: i32)
    ensures
        r == highest_member_ref(subscriptions@),
{
    let mut best: i32 = 0;
    let mut i: usize = 0;
    assert(subscriptions@.take(0) =~= Seq::<MemberSubscription>::empty());
    while i < subscriptions.len()
        invariant
            i <= subscriptions.len(),
            best == highest_member_ref(subscriptions@.take(i as int)),
        decreases subscriptions.len() - i,
    {
        proof {
            let next = subscriptions@.take(i + 1);
            assert(next.drop_last() =~= subscriptions@.take(i as int));
            assert(next.last() == subscriptions@[i as int]);
        }
        if subscriptions[i].member_id > best {
            best = subscriptions[i].member_id;
        }
        i += 1;
    }
    assert(subscriptions@.take(i as int) =~= subscriptions@);
    best
}

/// Whether every member has both names.
fn members_named(members: &Vec<Member>) -> (r: bool)
    ensures
        r == (forall|i: int| 0 <= i < members.len() ==> (#[trigger] members@[i]).named()),
{
    let mut i: usize = 0;
    while i < members.len()
        invariant
            i <= members.len(),
            forall|j: int| 0 <= j < i ==> (#[trigger] members@[j]).named(),
        decreases members.len() - i,
    {
        if !members[i].is_named() {
            return false;
        }
        i += 1;
    }
    true
}

/// Whether every plan obeys the rules for its fields.
fn plans_sound(plans: &Vec<MembershipPlan>) -> (r: bool)
    ensures
        r == (forall|i: int| 0 <= i < plans.len() ==> (#[trigger] plans@[i]).sound()),
{
    let mut i: usize = 0;
    while i < plans.len()
        invariant
            i <= plans.len(),
            forall|j: int| 0 <= j < i ==> (#[trigger] plans@[j]).sound(),
        decreases plans.len() - i,
    {
        if !plans[i].is_sound() {
            return false;
        }
        i += 1;
    }
    true
}

/// Whether every trainer has both names.
fn trainers_named(trainers: &Vec<Trainer>) -> (r: bool)
    ensures
        r == (forall|i: int| 0 <= i < trainers.len() ==> (#[trigger] trainers@[i]).named()),
{
    let mut i: usize = 0;
    while i < trainers.len()
        invariant
            i <= trainers.len(),
            forall|j: int| 0 <= j < i ==> (#[trigger] trainers@[j]).named(),
        decreases trainers.len() - i,
    {
        if !trainers[i].is_named() {
            return false;
        }
        i += 1;
    }
    true
}

/// The subscription has a window that starts and ends on days that exist
/// and ends after it starts, refers to a plan in `plans` and to a member
/// identity above zero, and, while active, to a member in `members`.
pub open spec fn subscription_fits(
    members: Seq<Member>,
    plans: Seq<MembershipPlan>,
    subscription: MemberSubscription,
) -> bool {
    &&& subscription.start_date.valid()
    &&& subscription.end_date.valid()
    &&& subscription.window_ordered()
    &&& holds_key(plans, subscription.plan_id)
    &&& 0 < subscription.member_id
    &&& subscription.status == SubscriptionStatus::Active ==> holds_key(
        members,
        subscription.member_id,
    )
}

/// Whether every subscription fits the members and plans given.
fn subscriptions_fit(
    members: &Vec<Member>,
    plans: &Vec<MembershipPlan>,
    subscriptions: &Vec<MemberSubscription>,
) -> (r: bool)
    requires
        keys_ascending(members@),
        keys_ascending(plans@),
    ensures
        r == (forall|i: int|
            0 <= i < subscriptions.len() ==> subscription_fits(
                members@,
                plans@,
                #[trigger] subscriptions@[i],
            )),
{
    let mut i: usize = 0;
    while i < subscriptions.len()
        invariant
            i <= subscriptions.len(),
            keys_ascending(members@),
            keys_ascending(plans@),
            forall|j: int|
                0 <= j < i ==> subscription_fits(members@, plans@, #[trigger] subscriptions@[j]),
        decreases subscriptions.len() - i,
    {
        let s = &subscriptions[i];
        let dated = s.start_date.is_valid() && s.end_date.is_valid() && s.start_date.is_before(
            &s.end_date,
        );
        if !dated || s.member_id <= 0 {
            return false;
        }
        if locate(plans, s.plan_id).is_none() {
            return false;
        }
        if s.status == SubscriptionStatus::Active && locate(members, s.member_id).is_none() {
            return false;
        }
        i += 1;
    }
    true
}

/// No two active subscriptions of one member among the first `upto` share a
/// day.
pub open spec fn disjoint_upto(subscriptions: Seq<MemberSubscription>, upto: int) -> bool {
    forall|i: int, j: int|
        0 <= i < j < upto && (#[trigger] subscriptions[i]).status == SubscriptionStatus::Active && (
        #[trigger] subscriptions[j]).status == SubscriptionStatus::Active
            && subscriptions[i].member_id == subscriptions[j].member_id ==> !windows_overlap(
            subscriptions[i].start_date,
            subscriptions[i].end_date,
            subscriptions[j].start_date,
            subscriptions[j].end_date,
        )
}

/// Whether no two active subscriptions of one member share a day.
pub fn are_active_windows_disjoint(subscriptions: &Vec<MemberSubscription>) -> (r: bool)
    ensures
        r == disjoint_upto(subscriptions@, subscriptions.len() as int),
{
    let mut j: usize = 0;
    while j < subscriptions.len()
        invariant
            j <= subscriptions.len(),
            disjoint_upto(subscriptions@, j as int),
        decreases subscriptions.len() - j,
    {
        let later = &subscriptions[j];
        if later.status == SubscriptionStatus::Active {
            let mut i: usize = 0;
            while i < j
                invariant
                    i <= j < subscriptions.len(),
                    *later == subscriptions@[j as int],
                    later.status == SubscriptionStatus::Active,
                    forall|k: int|
                        0 <= k < i && (#[trigger] subscriptions@[k]).status
                            == SubscriptionStatus::Active && subscriptions@[k].member_id
                            == later.member_id ==> !windows_overlap(
                            subscriptions@[k].start_date,
                            subscriptions@[k].end_date,
                            later.start_date,
                            later.end_date,
                        ),
                decreases j - i,
            {
                let earlier = &subscriptions[i];
                if earlier.status == SubscriptionStatus::Active && earlier.member_id
                    == later.member_id && earlier.overlaps(&later.start_date, &later.end_date) {
                    assert(!disjoint_upto(subscriptions@, subscriptions.len() as int)) by {
                        let a = subscriptions@[i as int];
                        let b = subscriptions@[j as int];
                        assert(a.status == SubscriptionStatus::Active && b.status
                            == SubscriptionStatus::Active);
                    }
                    return false;
                }
                i += 1;
            }
        }
        j += 1;
    }
    true
}

impl Registry {
    /// A registry that holds the given rows, provided they are in good order:
    /// each table sorted by identity without repeats, every row obeying the
    /// rules for its fields, every subscription's window in order and its
    /// references on record, and no two active subscriptions of a member
    /// sharing a day. Otherwise `None`. The identities continue after the
    /// largest in each table; for members, also after the largest that a
    /// subscription refers to.
    pub fn from_rows(
        members: Vec<Member>,
        plans: Vec<MembershipPlan>,
        subscriptions: Vec<MemberSubscription>,
        trainers: Vec<Trainer>,
    ) -> (r: Option<Registry>)
        ensures
            r is Some == Records::of_rows(members@, plans@, subscriptions@, trainers@).wf(),
            r is Some ==> r->0@ == Records::of_rows(members@, plans@, subscriptions@, trainers@),
    {
        let ghost target = Records::of_rows(members@, plans@, subscriptions@, trainers@);
        proof {
            lemma_highest_member_ref(subscriptions@);
            lemma_table_sound_by_last_key(members@, target.last_member_id);
        }
        if !is_table_in_order(&members) || !is_table_in_order(&plans) || !is_table_in_order(
            &subscriptions,
        ) || !is_table_in_order(&trainers) {
            return None;
        }
        if !members_named(&members) || !plans_sound(&plans) || !trainers_named(&trainers) {
            return None;
        }
        if !subscriptions_fit(&members, &plans, &subscriptions) {
            assert(!(target.windows_ordered() && target.references_resolve())) by {
                if target.windows_ordered() && target.references_resolve() {
                    assert forall|i: int| 0 <= i < subscriptions.len() implies subscription_fits(
                        members@,
                        plans@,
                        #[trigger] subscriptions@[i],
                    ) by {
                        assert(target.subscriptions[i].window_ordered());
                        assert(holds_key(target.plans, target.subscriptions[i].plan_id));
                    }
                }
            }
            return None;
        }
        if !are_active_windows_disjoint(&subscriptions) {
            return None;
        }
        let highest = highest_member_ref_of(&subscriptions);
        let last_member = last_id(&members);
        let reg = Registry {
            last_member_id: if last_member > highest {
                last_member
            } else {
                highest
            },
            last_plan_id: last_id(&plans),
            last_subscription_id: last_id(&subscriptions),
            last_trainer_id: last_id(&trainers),
            members,
            plans,
            subscriptions,
            trainers,
        };
        proof {
            assert(reg@ == target);
            assert(target.windows_ordered()) by {
                assert forall|i: int| 0 <= i < target.subscriptions.len() implies {
                    &&& (#[trigger] target.subscriptions[i]).start_date.valid()
                    &&& target.subscriptions[i].end_date.valid()
                    &&& target.subscriptions[i].window_ordered()
                } by {
                    assert(subscription_fits(target.members, target.plans, target.subscriptions[i]));
                }
            }
            assert(target.references_resolve()) by {
                assert forall|i: int| 0 <= i < target.subscriptions.len() implies {
                    &&& holds_key(target.plans, (#[trigger] target.subscriptions[i]).plan_id)
                    &&& 0 < target.subscriptions[i].member_id <= target.last_member_id
                    &&& target.subscriptions[i].status == SubscriptionStatus::Active ==> holds_key(
                        target.members,
                        target.subscriptions[i].member_id,
                    )
                } by {
                    assert(subscription_fits(target.members, target.plans, target.subscriptions[i]));
                }
            }
        }
        Some(reg)
    }
}

} // verus!
