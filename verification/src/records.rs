//! The mathematical model of what the gym has on record: four tables of rows
//! in order of identity, and the invariants that hold across them.

use crate::date::Date;
use crate::models::member::Member;
use crate::models::plan::MembershipPlan;
use crate::models::subscription::{windows_overlap, MemberSubscription, SubscriptionStatus};
use crate::models::trainer::Trainer;
use vstd::prelude::*;

verus! {

/// A row that is found by the identity the store gave it.
pub trait Keyed {
    /// The row's identity.
    spec fn key(&self) -> i32;

    /// The row's identity.
    fn id(&self) -> (r: i32)
        ensures
            r == self.key(),
    ;
}

impl Keyed for Member {
    open spec fn key(&self) -> i32 {
        self.member_id
    }

    fn id(&self) -> (r: i32) {
        self.member_id
    }
}

impl Keyed for MembershipPlan {
    open spec fn key(&self) -> i32 {
        self.plan_id
    }

    fn id(&self) -> (r: i32) {
        self.plan_id
    }
}

impl Keyed for MemberSubscription {
    open spec fn key(&self) -> i32 {
        self.subscription_id
    }

    fn id(&self) -> (r: i32) {
        self.subscription_id
    }
}

impl Keyed for Trainer {
    open spec fn key(&self) -> i32 {
        self.trainer_id
    }

    fn id(&self) -> (r: i32) {
        self.trainer_id
    }
}

/// The rows stand in strictly ascending order of identity, so that no
/// identity occurs twice.
pub open spec fn keys_ascending<T: Keyed>(rows: Seq<T>) -> bool {
    forall|i: int, j: int| 0 <= i < j < rows.len() ==> (#[trigger] rows[i]).key() < (
    #[trigger] rows[j]).key()
}

/// Every row's identity is one that was given out: above zero and not above
/// `last`, the latest one given out.
pub open spec fn keys_issued<T: Keyed>(rows: Seq<T>, last: i32) -> bool {
    forall|i: int| 0 <= i < rows.len() ==> 0 < (#[trigger] rows[i]).key() <= last
}

/// A table in good order.
pub open spec fn table_sound<T: Keyed>(rows: Seq<T>, last: i32) -> bool {
    0 <= last && keys_ascending(rows) && keys_issued(rows, last)
}

/// Some row has the identity `id`.
pub open spec fn holds_key<T: Keyed>(rows: Seq<T>, id: i32) -> bool {
    exists|i: int| 0 <= i < rows.len() && (#[trigger] rows[i]).key() == id
}

/// The position of a row with the identity `id`, where there is one.
pub open spec fn position_of<T: Keyed>(rows: Seq<T>, id: i32) -> int {
    choose|i: int| 0 <= i < rows.len() && (#[trigger] rows[i]).key() == id
}

/// The row with the identity `id`, if there is one.
pub open spec fn row_of<T: Keyed>(rows: Seq<T>, id: i32) -> Option<T> {
    if holds_key(rows, id) {
        Some(rows[position_of(rows, id)])
    } else {
        None
    }
}

/// In a table in ascending order a row is found at one position only.
pub proof fn lemma_position_unique<T: Keyed>(rows: Seq<T>, at: int)
    requires
        keys_ascending(rows),
        0 <= at < rows.len(),
    ensures
        holds_key(rows, rows[at].key()),
        position_of(rows, rows[at].key()) == at,
        row_of(rows, rows[at].key()) == Some(rows[at]),
{
    let id = rows[at].key();
    let found = position_of(rows, id);
    assert(0 <= found < rows.len() && rows[found].key() == id);
    if found < at {
        assert(rows[found].key() < rows[at].key());
    } else if at < found {
        assert(rows[at].key() < rows[found].key());
    }
}

/// A row added under a later identity than any given out keeps the table in
/// good order, and every row that was there is still found.
pub proof fn lemma_table_push<T: Keyed>(rows: Seq<T>, last: i32, row: T)
    requires
        table_sound(rows, last),
        last < row.key(),
    ensures
        table_sound(rows.push(row), row.key()),
        holds_key(rows.push(row), row.key()),
        row_of(rows.push(row), row.key()) == Some(row),
        forall|id: i32| holds_key(rows, id) ==> #[trigger] holds_key(rows.push(row), id),
        forall|id: i32| holds_key(rows, id) ==> #[trigger] row_of(rows.push(row), id) == row_of(rows, id),
{
    let grown = rows.push(row);
    assert(keys_ascending(grown)) by {
        assert forall|i: int, j: int| 0 <= i < j < grown.len() implies (#[trigger] grown[i]).key()
            < (#[trigger] grown[j]).key() by {
            if j < rows.len() {
                assert(grown[i] == rows[i] && grown[j] == rows[j]);
            } else {
                assert(grown[i] == rows[i]);
            }
        }
    }
    assert(grown[rows.len() as int] == row);
    lemma_position_unique(grown, rows.len() as int);
    assert forall|id: i32| holds_key(rows, id) implies #[trigger] holds_key(grown, id) && row_of(
        grown,
        id,
    ) == row_of(rows, id) by {
        let at = position_of(rows, id);
        assert(grown[at] == rows[at]);
        lemma_position_unique(grown, at);
    }
}

/// A row replaced by one of the same identity keeps the table in good order,
/// and every other row is found as before.
pub proof fn lemma_table_update<T: Keyed>(rows: Seq<T>, last: i32, at: int, row: T)
    requires
        table_sound(rows, last),
        0 <= at < rows.len(),
        row.key() == rows[at].key(),
    ensures
        table_sound(rows.update(at, row), last),
        row_of(rows.update(at, row), row.key()) == Some(row),
        forall|id: i32| holds_key(rows, id) == #[trigger] holds_key(rows.update(at, row), id),
        forall|id: i32|
            id != row.key() ==> #[trigger] row_of(rows.update(at, row), id) == row_of(rows, id),
{
    let changed = rows.update(at, row);
    assert(keys_ascending(changed)) by {
        assert forall|i: int, j: int| 0 <= i < j < changed.len() implies (
        #[trigger] changed[i]).key() < (#[trigger] changed[j]).key() by {
            assert(changed[i].key() == rows[i].key());
            assert(changed[j].key() == rows[j].key());
        }
    }
    assert(keys_issued(changed, last)) by {
        assert forall|i: int| 0 <= i < changed.len() implies 0 < (#[trigger] changed[i]).key()
            <= last by {
            assert(changed[i].key() == rows[i].key());
        }
    }
    lemma_position_unique(changed, at);
    assert forall|id: i32| holds_key(rows, id) == #[trigger] holds_key(changed, id) by {
        if holds_key(rows, id) {
            let k = position_of(rows, id);
            assert(changed[k].key() == id);
        }
        if holds_key(changed, id) {
            let k = position_of(changed, id);
            assert(rows[k].key() == id);
        }
    }
    assert forall|id: i32| id != row.key() implies #[trigger] row_of(changed, id) == row_of(
        rows,
        id,
    ) by {
        if holds_key(rows, id) {
            let k = position_of(rows, id);
            assert(changed[k] == rows[k]);
            lemma_position_unique(changed, k);
        }
    }
}

/// A table without one of its rows is in good order; the row's identity is
/// no longer found, and every other row is found as before.
pub proof fn lemma_table_remove<T: Keyed>(rows: Seq<T>, last: i32, at: int)
    requires
        table_sound(rows, last),
        0 <= at < rows.len(),
    ensures
        table_sound(rows.remove(at), last),
        !holds_key(rows.remove(at), rows[at].key()),
        forall|id: i32|
            id != rows[at].key() ==> holds_key(rows, id) == #[trigger] holds_key(
                rows.remove(at),
                id,
            ),
        forall|id: i32|
            id != rows[at].key() ==> #[trigger] row_of(rows.remove(at), id) == row_of(rows, id),
{
    let rest = rows.remove(at);
    rows.remove_ensures(at);
    assert(keys_ascending(rest)) by {
        assert forall|i: int, j: int| 0 <= i < j < rest.len() implies (#[trigger] rest[i]).key() < (
        #[trigger] rest[j]).key() by {
            let a = shifted(i, at);
            let b = shifted(j, at);
            assert(rest[i] == rows[a] && rest[j] == rows[b]);
        }
    }
    assert(keys_issued(rest, last)) by {
        assert forall|i: int| 0 <= i < rest.len() implies 0 < (#[trigger] rest[i]).key()
            <= last by {
            assert(rest[i] == rows[shifted(i, at)]);
        }
    }
    if holds_key(rest, rows[at].key()) {
        let k = position_of(rest, rows[at].key());
        let a = shifted(k, at);
        assert(rest[k] == rows[a]);
        if a < at {
            assert(rows[a].key() < rows[at].key());
        } else {
            assert(rows[at].key() < rows[a].key());
        }
    }
    assert forall|id: i32| id != rows[at].key() implies holds_key(rows, id) == #[trigger] holds_key(
        rest,
        id,
    ) by {
        if holds_key(rows, id) {
            let k = position_of(rows, id);
            let c = if k < at {
                k
            } else {
                k - 1
            };
            assert(rest[c] == rows[k]);
        }
        if holds_key(rest, id) {
            let k = position_of(rest, id);
            assert(rest[k] == rows[shifted(k, at)]);
        }
    }
    assert forall|id: i32| id != rows[at].key() implies #[trigger] row_of(rest, id) == row_of(
        rows,
        id,
    ) by {
        if holds_key(rows, id) {
            let k = position_of(rows, id);
            let c = if k < at {
                k
            } else {
                k - 1
            };
            assert(rest[c] == rows[k]);
            lemma_position_unique(rest, c);
        }
    }
}

/// Where the row at position `i` of a table stood before the row at
/// position `at` was taken out.
pub open spec fn shifted(i: int, at: int) -> int {
    if i < at {
        i
    } else {
        i + 1
    }
}

/// Finds the position of the row with the identity `id`.
pub fn locate<T: Keyed>(rows: &Vec<T>, id: i32) -> (r: Option<usize>)
    requires
        keys_ascending(rows@),
    ensures
        r is Some == holds_key(rows@, id),
        r is Some ==> r->0 < rows.len() && rows@[r->0 as int].key() == id && position_of(rows@, id)
            == r->0,
{
    let mut i: usize = 0;
    while i < rows.len()
        invariant
            i <= rows.len(),
            keys_ascending(rows@),
            forall|j: int| 0 <= j < i ==> (#[trigger] rows@[j]).key() != id,
        decreases rows.len() - i,
    {
        if rows[i].id() == id {
            proof {
                lemma_position_unique(rows@, i as int);
            }
            return Some(i);
        }
        i += 1;
    }
    None
}

/// The identity of the last row, or zero for an empty table: in a table in
/// ascending order, the largest identity in it.
pub open spec fn last_key<T: Keyed>(rows: Seq<T>) -> i32 {
    if rows.len() == 0 {
        0
    } else {
        rows.last().key()
    }
}

/// The largest member identity that a subscription refers to, or zero where
/// there is none above zero.
pub open spec fn highest_member_ref(subscriptions: Seq<MemberSubscription>) -> i32
    decreases subscriptions.len(),
{
    if subscriptions.len() == 0 {
        0
    } else {
        let rest = highest_member_ref(subscriptions.drop_last());
        if subscriptions.last().member_id > rest {
            subscriptions.last().member_id
        } else {
            rest
        }
    }
}

/// No subscription refers to a member identity above `highest_member_ref`.
pub proof fn lemma_highest_member_ref(subscriptions: Seq<MemberSubscription>)
    ensures
        0 <= highest_member_ref(subscriptions),
        forall|i: int|
            0 <= i < subscriptions.len() ==> (#[trigger] subscriptions[i]).member_id
                <= highest_member_ref(subscriptions),
    decreases subscriptions.len(),
{
    if subscriptions.len() > 0 {
        let rest = subscriptions.drop_last();
        lemma_highest_member_ref(rest);
        assert forall|i: int| 0 <= i < subscriptions.len() implies (
        #[trigger] subscriptions[i]).member_id <= highest_member_ref(subscriptions) by {
            if i < rest.len() {
                assert(rest[i] == subscriptions[i]);
            }
        }
    }
}

/// A table is in good order under some latest identity exactly if it is so
/// under the identity of its last row, and then under every later one.
pub proof fn lemma_table_sound_by_last_key<T: Keyed>(rows: Seq<T>, last: i32)
    ensures
        table_sound(rows, last) ==> table_sound(rows, last_key(rows)) && last_key(rows) <= last,
        table_sound(rows, last_key(rows)) && last_key(rows) <= last ==> table_sound(rows, last),
{
    if table_sound(rows, last) && rows.len() > 0 {
        let n = rows.len() - 1;
        assert(0 < rows[n].key() <= last);
        assert forall|i: int| 0 <= i < rows.len() implies 0 < (#[trigger] rows[i]).key()
            <= last_key(rows) by {
            assert(0 < rows[i].key() <= last);
            if i < n {
                assert(rows[i].key() < rows[n].key());
            }
        }
    }
    if table_sound(rows, last_key(rows)) && last_key(rows) <= last {
        assert forall|i: int| 0 <= i < rows.len() implies 0 < (#[trigger] rows[i]).key()
            <= last by {
            assert(0 < rows[i].key() <= last_key(rows));
        }
    }
}

/// Everything the gym has on record: each table in order of identity, and
/// for each the latest identity that was given out.
pub struct Records {
    pub members: Seq<Member>,
    pub plans: Seq<MembershipPlan>,
    pub subscriptions: Seq<MemberSubscription>,
    pub trainers: Seq<Trainer>,
    pub last_member_id: i32,
    pub last_plan_id: i32,
    pub last_subscription_id: i32,
    pub last_trainer_id: i32,
}

impl Records {
    /// Empty tables in which the identities continue after the given ones.
    pub open spec fn starting_after(member: i32, plan: i32, subscription: i32, trainer: i32)
        -> Records {
        Records {
            members: Seq::empty(),
            plans: Seq::empty(),
            subscriptions: Seq::empty(),
            trainers: Seq::empty(),
            last_member_id: member,
            last_plan_id: plan,
            last_subscription_id: subscription,
            last_trainer_id: trainer,
        }
    }

    /// The records that hold the given rows, with the latest identity of each
    /// table taken from the rows: the largest in the table, and for members
    /// also the largest that a subscription refers to.
    pub open spec fn of_rows(
        members: Seq<Member>,
        plans: Seq<MembershipPlan>,
        subscriptions: Seq<MemberSubscription>,
        trainers: Seq<Trainer>,
    ) -> Records {
        Records {
            members,
            plans,
            subscriptions,
            trainers,
            last_member_id: if last_key(members) > highest_member_ref(subscriptions) {
                last_key(members)
            } else {
                highest_member_ref(subscriptions)
            },
            last_plan_id: last_key(plans),
            last_subscription_id: last_key(subscriptions),
            last_trainer_id: last_key(trainers),
        }
    }

    /// Empty tables in which nothing was ever recorded.
    pub open spec fn empty() -> Records {
        Records::starting_after(0, 0, 0, 0)
    }

    /// The member with the identity `id`, if there is one.
    pub open spec fn member(self, id: i32) -> Option<Member> {
        row_of(self.members, id)
    }

    /// The plan with the identity `id`, if there is one.
    pub open spec fn plan(self, id: i32) -> Option<MembershipPlan> {
        row_of(self.plans, id)
    }

    /// The subscription with the identity `id`, if there is one.
    pub open spec fn subscription(self, id: i32) -> Option<MemberSubscription> {
        row_of(self.subscriptions, id)
    }

    /// The records with one more member, whose identity is the latest given out.
    pub open spec fn with_member(self, member: Member) -> Records {
        Records {
            members: self.members.push(member),
            last_member_id: member.member_id,
            ..self
        }
    }

    /// The records with the member at position `at` replaced.
    pub open spec fn with_member_at(self, at: int, member: Member) -> Records {
        Records { members: self.members.update(at, member), ..self }
    }

    /// The records without the member at position `at`.
    pub open spec fn without_member_at(self, at: int) -> Records {
        Records { members: self.members.remove(at), ..self }
    }

    /// The records with one more plan, whose identity is the latest given out.
    pub open spec fn with_plan(self, plan: MembershipPlan) -> Records {
        Records { plans: self.plans.push(plan), last_plan_id: plan.plan_id, ..self }
    }

    /// The records with one more subscription, whose identity is the latest
    /// given out.
    pub open spec fn with_subscription(self, subscription: MemberSubscription) -> Records {
        Records {
            subscriptions: self.subscriptions.push(subscription),
            last_subscription_id: subscription.subscription_id,
            ..self
        }
    }

    /// The records with the subscription at position `at` replaced.
    pub open spec fn with_subscription_at(self, at: int, subscription: MemberSubscription)
        -> Records {
        Records { subscriptions: self.subscriptions.update(at, subscription), ..self }
    }

    /// The records in which every active subscription whose window has run
    /// out by `today` is expired, and nothing else is changed.
    pub open spec fn with_due_expired(self, today: Date) -> Records {
        Records {
            subscriptions: self.subscriptions.map_values(
                |s: MemberSubscription| s.with_status(s.status_on(today)),
            ),
            ..self
        }
    }

    /// The records with one more trainer, whose identity is the latest given out.
    pub open spec fn with_trainer(self, trainer: Trainer) -> Records {
        Records {
            trainers: self.trainers.push(trainer),
            last_trainer_id: trainer.trainer_id,
            ..self
        }
    }

    /// Every member has both names, every plan obeys the rules for its
    /// fields, and so does every trainer.
    pub open spec fn rows_sound(self) -> bool {
        &&& forall|i: int| 0 <= i < self.members.len() ==> (#[trigger] self.members[i]).named()
        &&& forall|i: int| 0 <= i < self.plans.len() ==> (#[trigger] self.plans[i]).sound()
        &&& forall|i: int| 0 <= i < self.trainers.len() ==> (#[trigger] self.trainers[i]).named()
    }

    /// Every subscription's window starts and ends on days that exist, and
    /// ends after it starts.
    pub open spec fn windows_ordered(self) -> bool {
        forall|i: int|
            0 <= i < self.subscriptions.len() ==> {
                &&& (#[trigger] self.subscriptions[i]).start_date.valid()
                &&& self.subscriptions[i].end_date.valid()
                &&& self.subscriptions[i].window_ordered()
            }
    }

    /// Every subscription refers to a plan on record and to a member identity
    /// that was given out; an active one refers to a member on record.
    pub open spec fn references_resolve(self) -> bool {
        forall|i: int|
            0 <= i < self.subscriptions.len() ==> {
                &&& holds_key(self.plans, (#[trigger] self.subscriptions[i]).plan_id)
                &&& 0 < self.subscriptions[i].member_id <= self.last_member_id
                &&& self.subscriptions[i].status == SubscriptionStatus::Active ==> holds_key(
                    self.members,
                    self.subscriptions[i].member_id,
                )
            }
    }

    /// No two active subscriptions of one member share a day.
    pub open spec fn active_windows_disjoint(self) -> bool {
        forall|i: int, j: int|
            0 <= i < j < self.subscriptions.len() && (#[trigger] self.subscriptions[i]).status
                == SubscriptionStatus::Active && (#[trigger] self.subscriptions[j]).status
                == SubscriptionStatus::Active && self.subscriptions[i].member_id
                == self.subscriptions[j].member_id ==> !windows_overlap(
                self.subscriptions[i].start_date,
                self.subscriptions[i].end_date,
                self.subscriptions[j].start_date,
                self.subscriptions[j].end_date,
            )
    }

    /// The records are in good order: every table is sorted by identity
    /// without repeats, and the invariants across the tables hold.
    pub open spec fn wf(self) -> bool {
        &&& table_sound(self.members, self.last_member_id)
        &&& table_sound(self.plans, self.last_plan_id)
        &&& table_sound(self.subscriptions, self.last_subscription_id)
        &&& table_sound(self.trainers, self.last_trainer_id)
        &&& self.rows_sound()
        &&& self.windows_ordered()
        &&& self.references_resolve()
        &&& self.active_windows_disjoint()
    }
}

} // verus!
