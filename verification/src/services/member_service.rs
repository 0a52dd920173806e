//! The member lifecycle: enrolment, changes of a member's fields and status,
//! removal, and the ways of reading members back.

use crate::date::{today, Date};
use crate::error::{invalid, ConflictKind, EntityKind, Field, Reason, ServiceError};
use crate::models::member::{Member, MembershipStatus, NewMember};
use crate::models::subscription::{blocks_removal, has_live_subscription};
use crate::records::{
    holds_key, keys_ascending, lemma_table_push, lemma_table_remove, lemma_table_update, locate,
    position_of, Records,
};
use crate::services::Registry;
use vstd::prelude::*;

verus! {

/// What reading the member `id` returns on the records `pre`.
pub open spec fn member_lookup(pre: Records, id: i32) -> Result<Member, ServiceError> {
    match pre.member(id) {
        Some(member) => Ok(member),
        None => Err(ServiceError::NotFound(EntityKind::Member)),
    }
}

/// What enrolling a member from `data` on the day `today` returns on the
/// records `pre`: the first broken rule, or a storage failure where no further
/// identity can be given out, or else the member under the next identity.
pub open spec fn member_creation(pre: Records, data: NewMember, today: Date) -> Result<
    Member,
    ServiceError,
> {
    if data.violation(today) is Some {
        Err(data.violation(today)->0)
    } else if pre.last_member_id == i32::MAX {
        Err(ServiceError::StorageUnavailable)
    } else {
        Ok(Member::enrolled((pre.last_member_id + 1) as i32, data, today))
    }
}

/// Enrolling a member from `data` on the day `today` took the records from
/// `pre` to `post` and returned `r`.
pub open spec fn member_created(
    pre: Records,
    data: NewMember,
    today: Date,
    r: Result<Member, ServiceError>,
    post: Records,
) -> bool {
    &&& r == member_creation(pre, data, today)
    &&& post == match r {
        Ok(member) => pre.with_member(member),
        Err(_) => pre,
    }
}

/// What updating the member `id` from `data` on the day `today` returns on
/// the records `pre`: the first broken rule, or that there is no such member,
/// or else the member with the caller's fields replaced.
pub open spec fn member_revision(pre: Records, id: i32, data: NewMember, today: Date) -> Result<
    Member,
    ServiceError,
> {
    if data.violation(today) is Some {
        Err(data.violation(today)->0)
    } else {
        match pre.member(id) {
            Some(member) => Ok(member.revised(data)),
            None => Err(ServiceError::NotFound(EntityKind::Member)),
        }
    }
}

/// Updating the member `id` from `data` on the day `today` took the records
/// from `pre` to `post` and returned `r`.
pub open spec fn member_updated(
    pre: Records,
    id: i32,
    data: NewMember,
    today: Date,
    r: Result<Member, ServiceError>,
    post: Records,
) -> bool {
    &&& r == member_revision(pre, id, data, today)
    &&& post == match r {
        Ok(member) => pre.with_member_at(position_of(pre.members, id), member),
        Err(_) => pre,
    }
}

/// What removing the member `id` returns on the records `pre`: a conflict
/// while an active subscription refers to the member, else the number of
/// members removed, which is 1 where the member is on record and 0 where not.
pub open spec fn member_removal(pre: Records, id: i32) -> Result<u64, ServiceError> {
    if has_live_subscription(pre.subscriptions, id) {
        Err(ServiceError::Conflict(ConflictKind::LiveSubscription))
    } else if holds_key(pre.members, id) {
        Ok(1)
    } else {
        Ok(0)
    }
}

/// What setting the status of the member `id` to the one that `status` names
/// returns on the records `pre`: a validation failure where the text names no
/// status, or that there is no such member, or else the member with the new
/// status.
pub open spec fn status_change(pre: Records, id: i32, status: Seq<char>) -> Result<
    Member,
    ServiceError,
> {
    match MembershipStatus::named(status) {
        None => Err(invalid(Field::MembershipStatus, Reason::UnknownValue)),
        Some(wanted) => match pre.member(id) {
            Some(member) => Ok(member.with_status(wanted)),
            None => Err(ServiceError::NotFound(EntityKind::Member)),
        },
    }
}

/// The members stand with the most recently joined first; of two who joined
/// on the same day, the one enrolled later comes first.
pub open spec fn newest_first(members: Seq<Member>) -> bool {
    forall|i: int, j: int|
        0 <= i < j < members.len() ==> #[trigger] members[i].newer_than(members[j])
}

/// The test that picks the members whose first or last name holds `query`.
pub open spec fn name_holds(query: Seq<char>) -> spec_fn(Member) -> bool {
    |member: Member| member.matches(query)
}

/// All members, the most recently joined first. Of two members who joined on
/// the same day the one enrolled later comes first, so the order is fixed.
pub fn list_members(reg: &Registry) -> (r: Vec<Member>)
    requires
        reg@.wf(),
    ensures
        r@.to_multiset() == reg@.members.to_multiset(),
        newest_first(r@),
{
    let mut out: Vec<Member> = Vec::new();
    let mut k: usize = 0;
    assert(reg.members@.take(0) =~= out@);
    while k < reg.members.len()
        invariant
            k <= reg.members.len(),
            keys_ascending(reg.members@),
            newest_first(out@),
            out@.to_multiset() == reg.members@.take(k as int).to_multiset(),
            forall|i: int|
                0 <= i < out.len() && k < reg.members.len() ==> (#[trigger] out@[i]).member_id
                    < reg.members@[k as int].member_id,
        decreases reg.members.len() - k,
    {
        let member = &reg.members[k];
        let mut at: usize = 0;
        while at < out.len() && !member.is_newer_than(&out[at])
            invariant
                at <= out.len(),
                forall|i: int| 0 <= i < at ==> !member.newer_than(#[trigger] out@[i]),
            decreases out.len() - at,
        {
            at += 1;
        }
        let ghost before = out@;
        out.insert(at, member.clone());
        proof {
            before.insert_ensures(at as int, *member);
            assert(newest_first(out@)) by {
                assert forall|i: int, j: int| 0 <= i < j < out@.len() implies #[trigger] out@[i].newer_than(
                    out@[j],
                ) by {
                    if j < at {
                        assert(before[i].newer_than(before[j]));
                    } else if j == at {
                        assert(!member.newer_than(before[i]));
                        assert(before[i].member_id < member.member_id);
                    } else if i < at {
                        assert(before[i].newer_than(before[j - 1]));
                    } else if i == at {
                        assert(member.newer_than(before[at as int]));
                        if j - 1 > at {
                            assert(before[at as int].newer_than(before[j - 1]));
                        }
                    } else {
                        assert(before[i - 1].newer_than(before[j - 1]));
                    }
                }
            }
            assert(reg.members@.take(k + 1) =~= reg.members@.take(k as int).push(*member));
            vstd::seq_lib::to_multiset_insert(before, at as int, *member);
            reg.members@.take(k as int).to_multiset_ensures();
            assert(out@.to_multiset() =~= reg.members@.take(k + 1).to_multiset());
            assert forall|i: int|
                0 <= i < out.len() && k + 1 < reg.members.len() implies (#[trigger] out@[i]).member_id
                < reg.members@[k + 1].member_id by {
                assert(reg.members@[k as int].member_id < reg.members@[k + 1].member_id);
                if i < at {
                    assert(out@[i] == before[i]);
                } else if i > at {
                    assert(out@[i] == before[i - 1]);
                }
            }
        }
        k += 1;
    }
    assert(reg.members@.take(k as int) =~= reg.members@);
    out
}

/// The members whose first or last name holds `query`, letter case
/// disregarded, in order of identity. An empty `query` is held by every name.
pub fn search_members(reg: &Registry, query: &str) -> (r: Vec<Member>)
    ensures
        r@ == reg@.members.filter(name_holds(query@)),
{
    let mut out: Vec<Member> = Vec::new();
    let mut k: usize = 0;
    assert(reg.members@.take(0) =~= Seq::<Member>::empty());
    assert(Seq::<Member>::empty().filter(name_holds(query@)) =~= Seq::<Member>::empty()) by {
        reveal(Seq::filter);
    }
    while k < reg.members.len()
        invariant
            k <= reg.members.len(),
            out@ == reg.members@.take(k as int).filter(name_holds(query@)),
        decreases reg.members.len() - k,
    {
        let member = &reg.members[k];
        proof {
            assert(reg.members@.take(k + 1) =~= reg.members@.take(k as int).push(*member));
            reg.members@.take(k as int).lemma_filter_push(*member, name_holds(query@));
        }
        if member.name_matches(query) {
            out.push(member.clone());
        }
        k += 1;
    }
    assert(reg.members@.take(k as int) =~= reg.members@);
    out
}

/// The member with the identity `member_id`.
pub fn get_member_by_id(reg: &Registry, member_id: i32) -> (r: Result<Member, ServiceError>)
    requires
        reg@.wf(),
    ensures
        r == member_lookup(reg@, member_id),
{
    match locate(&reg.members, member_id) {
        Some(at) => Ok(reg.members[at].clone()),
        None => Err(ServiceError::NotFound(EntityKind::Member)),
    }
}

/// Enrols a member on the day `today` and returns it: the caller's fields as
/// given, `today` as the join date, active, under the next identity. On
/// failure the records stay as they were.
pub fn create_member_on(reg: &mut Registry, data: NewMember, today: Date) -> (r: Result<
    Member,
    ServiceError,
>)
    requires
        old(reg)@.wf(),
    ensures
        member_created(old(reg)@, data, today, r, final(reg)@),
        r is Ok ==> member_lookup(final(reg)@, r->Ok_0.member_id) == r,
        final(reg)@.wf(),
{
    match data.validate(&today) {
        Err(e) => {
            return Err(e);
        },
        Ok(_) => {},
    }
    if reg.last_member_id == i32::MAX {
        return Err(ServiceError::StorageUnavailable);
    }
    let member = Member {
        member_id: reg.last_member_id + 1,
        first_name: data.first_name,
        last_name: data.last_name,
        gender: data.gender,
        dob: data.dob,
        phone: data.phone,
        email: data.email,
        address: data.address,
        join_date: today,
        membership_status: MembershipStatus::Active,
    };
    proof {
        lemma_table_push(reg.members@, reg.last_member_id, member);
    }
    reg.last_member_id = member.member_id;
    reg.members.push(member.clone());
    Ok(member)
}

/// Enrols a member on the current day, as `create_member_on` does for the
/// date that the system clock shows.
pub fn create_member(reg: &mut Registry, data: NewMember) -> (r: Result<Member, ServiceError>)
    requires
        old(reg)@.wf(),
    ensures
        exists|today: Date| today.valid() && member_created(old(reg)@, data, today, r, final(reg)@),
        r is Ok ==> member_lookup(final(reg)@, r->Ok_0.member_id) == r,
        final(reg)@.wf(),
{
    let now = today();
    create_member_on(reg, data, now)
}

/// Replaces the name and contact fields of the member `member_id` by those
/// of `data`, checked on the day `today`, and returns the member. Identity,
/// join date and status are not touched. On failure the records stay as they
/// were.
pub fn update_member_on(reg: &mut Registry, member_id: i32, data: NewMember, today: Date) -> (r:
    Result<Member, ServiceError>)
    requires
        old(reg)@.wf(),
    ensures
        member_updated(old(reg)@, member_id, data, today, r, final(reg)@),
        final(reg)@.wf(),
{
    match data.validate(&today) {
        Err(e) => {
            return Err(e);
        },
        Ok(_) => {},
    }
    let at = match locate(&reg.members, member_id) {
        Some(at) => at,
        None => {
            return Err(ServiceError::NotFound(EntityKind::Member));
        },
    };
    let revised = Member {
        member_id: reg.members[at].member_id,
        first_name: data.first_name,
        last_name: data.last_name,
        gender: data.gender,
        dob: data.dob,
        phone: data.phone,
        email: data.email,
        address: data.address,
        join_date: reg.members[at].join_date,
        membership_status: reg.members[at].membership_status,
    };
    proof {
        lemma_table_update(reg.members@, reg.last_member_id, at as int, revised);
    }
    reg.members.set(at, revised.clone());
    Ok(revised)
}

/// Updates a member on the current day, as `update_member_on` does for the
/// date that the system clock shows.
pub fn update_member(reg: &mut Registry, member_id: i32, data: NewMember) -> (r: Result<
    Member,
    ServiceError,
>)
    requires
        old(reg)@.wf(),
    ensures
        exists|today: Date|
            today.valid() && member_updated(old(reg)@, member_id, data, today, r, final(reg)@),
        final(reg)@.wf(),
{
    let now = today();
    update_member_on(reg, member_id, data, now)
}

/// Removes the member `member_id` unless an active subscription refers to
/// it, and returns how many members were removed: 1, or 0 where there was no
/// such member. A subscription whose window has run out but which is still
/// recorded as active stands in the way like any other active one. The
/// member's closed subscriptions stay on record.
pub fn delete_member(reg: &mut Registry, member_id: i32) -> (r: Result<u64, ServiceError>)
    requires
        old(reg)@.wf(),
    ensures
        r == member_removal(old(reg)@, member_id),
        final(reg)@ == (if r == Ok::<u64, ServiceError>(1) {
            old(reg)@.without_member_at(position_of(old(reg)@.members, member_id))
        } else {
            old(reg)@
        }),
        final(reg)@.wf(),
{
    if blocks_removal(&reg.subscriptions, member_id) {
        return Err(ServiceError::Conflict(ConflictKind::LiveSubscription));
    }
    match locate(&reg.members, member_id) {
        None => Ok(0),
        Some(at) => {
            proof {
                lemma_table_remove(reg.members@, reg.last_member_id, at as int);
            }
            reg.members.remove(at);
            Ok(1)
        },
    }
}

/// Sets the status of the member `member_id` to the one that `status` names
/// and returns the member. A text other than `Active` or `Inactive` is
/// turned down before the member is looked up. On failure the records stay
/// as they were.
pub fn set_membership_status(reg: &mut Registry, member_id: i32, status: &str) -> (r: Result<
    Member,
    ServiceError,
>)
    requires
        old(reg)@.wf(),
    ensures
        r == status_change(old(reg)@, member_id, status@),
        final(reg)@ == (match r {
            Ok(member) => old(reg)@.with_member_at(
                position_of(old(reg)@.members, member_id),
                member,
            ),
            Err(_) => old(reg)@,
        }),
        final(reg)@.wf(),
{
    let wanted = match MembershipStatus::parse(status) {
        Some(wanted) => wanted,
        None => {
            return Err(
                ServiceError::Validation {
                    field: Field::MembershipStatus,
                    reason: Reason::UnknownValue,
                },
            );
        },
    };
    let at = match locate(&reg.members, member_id) {
        Some(at) => at,
        None => {
            return Err(ServiceError::NotFound(EntityKind::Member));
        },
    };
    let mut changed = reg.members[at].clone();
    changed.membership_status = wanted;
    proof {
        lemma_table_update(reg.members@, reg.last_member_id, at as int, changed);
    }
    reg.members.set(at, changed.clone());
    Ok(changed)
}

} // verus!
