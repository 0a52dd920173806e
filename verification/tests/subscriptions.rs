use gym_management::date::Date;
use gym_management::error::{ConflictKind, EntityKind, Field, Reason, ServiceError};
use gym_management::models::member::{MembershipStatus, NewMember};
use gym_management::models::plan::NewPlan;
use gym_management::models::subscription::{
    assess_request, blocks_removal, has_cover, is_window_taken, MemberSubscription,
    NewSubscription, SubscriptionStatus,
};
use gym_management::services::member_service::{
    create_member_on, delete_member, get_member_by_id, set_membership_status,
};
use gym_management::services::plan_service::create_plan;
use gym_management::services::subscription_service::{
    cancel_subscription, create_subscription, effective_membership_status, expire_due,
    list_subscriptions,
};
use gym_management::services::Registry;

fn on(year: i32, month: u32, day: u32) -> Date {
    Date::new(year, month, day).unwrap()
}

fn plan_of(name: &str, months: i32) -> NewPlan {
    NewPlan {
        plan_name: name.to_string(),
        duration_months: months,
        fee_cents: 2000,
        description: None,
    }
}

fn member_named(first: &str, last: &str) -> NewMember {
    NewMember {
        first_name: first.to_string(),
        last_name: last.to_string(),
        gender: None,
        dob: None,
        phone: None,
        email: None,
        address: None,
    }
}

fn gym_with_jane_and_monthly() -> Registry {
    let mut reg = Registry::new();
    create_member_on(&mut reg, member_named("Jane", "Doe"), on(2024, 1, 1)).unwrap();
    create_plan(&mut reg, plan_of("Monthly", 1)).unwrap();
    reg
}

fn request(member_id: i32, plan_id: i32, start: Date) -> NewSubscription {
    NewSubscription { member_id, plan_id, start_date: start, end_date: None }
}

fn held(id: i32, member_id: i32, start: Date, end: Date, status: SubscriptionStatus)
    -> MemberSubscription {
    MemberSubscription {
        subscription_id: id,
        member_id,
        plan_id: 1,
        start_date: start,
        end_date: end,
        status,
    }
}

fn same_day(a: Date, b: chrono::NaiveDate) -> bool {
    chrono::NaiveDate::from_ymd_opt(a.year, a.month, a.day) == Some(b)
}

#[test]
fn jane_subscribes_to_monthly_overlap_is_refused_and_adjacent_is_granted() {
    let mut reg = Registry::new();
    let jane = create_member_on(&mut reg, member_named("Jane", "Doe"), on(2024, 1, 1)).unwrap();
    assert_eq!(jane.membership_status, MembershipStatus::Active);
    assert_eq!(jane.join_date, on(2024, 1, 1));
    let monthly = create_plan(&mut reg, plan_of("Monthly", 1)).unwrap();
    assert_eq!((monthly.duration_months, monthly.fee_cents), (1, 2000));

    let first = create_subscription(
        &mut reg,
        request(jane.member_id, monthly.plan_id, on(2024, 1, 1)),
    );
    assert_eq!(
        first,
        Ok(MemberSubscription {
            subscription_id: 1,
            member_id: 1,
            plan_id: 1,
            start_date: on(2024, 1, 1),
            end_date: on(2024, 2, 1),
            status: SubscriptionStatus::Active,
        })
    );
    assert_eq!(
        create_subscription(&mut reg, request(1, 1, on(2024, 1, 15))),
        Err(ServiceError::Conflict(ConflictKind::OverlappingActiveSubscription))
    );
    assert_eq!(
        create_subscription(&mut reg, request(1, 1, on(2024, 2, 1))),
        Ok(MemberSubscription {
            subscription_id: 2,
            member_id: 1,
            plan_id: 1,
            start_date: on(2024, 2, 1),
            end_date: on(2024, 3, 1),
            status: SubscriptionStatus::Active,
        })
    );
    assert_eq!(list_subscriptions(&reg).len(), 2);
    assert_eq!(get_member_by_id(&reg, 1), Ok(jane));
}

#[test]
fn create_subscription_needs_the_member_and_the_plan() {
    let mut reg = gym_with_jane_and_monthly();
    assert_eq!(
        create_subscription(&mut reg, request(7, 1, on(2024, 1, 1))),
        Err(ServiceError::NotFound(EntityKind::Member))
    );
    assert_eq!(
        create_subscription(&mut reg, request(1, 7, on(2024, 1, 1))),
        Err(ServiceError::NotFound(EntityKind::Plan))
    );
    assert_eq!(
        create_subscription(&mut reg, request(7, 7, on(2024, 1, 1))),
        Err(ServiceError::NotFound(EntityKind::Member))
    );
    assert!(list_subscriptions(&reg).is_empty());
}

#[test]
fn create_subscription_with_end_not_after_start_is_a_validation_error() {
    let mut reg = gym_with_jane_and_monthly();
    let refused = Err(ServiceError::Validation {
        field: Field::EndDate,
        reason: Reason::NotAfterStart,
    });
    let mut data = request(1, 1, on(2024, 5, 10));
    data.end_date = Some(on(2024, 5, 10));
    assert_eq!(create_subscription(&mut reg, data), refused);
    data.end_date = Some(on(2024, 5, 9));
    assert_eq!(create_subscription(&mut reg, data), refused);
    data.end_date = Some(on(2023, 12, 31));
    assert_eq!(create_subscription(&mut reg, data), refused);
    assert!(list_subscriptions(&reg).is_empty());
    data.end_date = Some(on(2024, 5, 11));
    let made = create_subscription(&mut reg, data).unwrap();
    assert_eq!((made.start_date, made.end_date), (on(2024, 5, 10), on(2024, 5, 11)));
}

#[test]
fn an_explicit_end_date_overrides_the_plan_duration() {
    let mut reg = gym_with_jane_and_monthly();
    let mut data = request(1, 1, on(2024, 1, 1));
    data.end_date = Some(on(2024, 7, 1));
    let made = create_subscription(&mut reg, data).unwrap();
    assert_eq!(made.end_date, on(2024, 7, 1));
    assert_eq!(
        create_subscription(&mut reg, request(1, 1, on(2024, 6, 30))),
        Err(ServiceError::Conflict(ConflictKind::OverlappingActiveSubscription))
    );
}

#[test]
fn dates_that_name_no_day_are_refused() {
    let mut reg = gym_with_jane_and_monthly();
    let bad = Date { year: 2023, month: 2, day: 29 };
    assert_eq!(
        create_subscription(&mut reg, request(1, 1, bad)),
        Err(ServiceError::Validation { field: Field::StartDate, reason: Reason::NoSuchDay })
    );
    let mut data = request(1, 1, on(2024, 1, 1));
    data.end_date = Some(Date { year: 2024, month: 13, day: 1 });
    assert_eq!(
        create_subscription(&mut reg, data),
        Err(ServiceError::Validation { field: Field::EndDate, reason: Reason::NoSuchDay })
    );
}

#[test]
fn the_derived_end_date_is_the_one_chrono_computes() {
    let mut reg = Registry::new();
    create_member_on(&mut reg, member_named("Jane", "Doe"), on(2024, 1, 1)).unwrap();
    for months in [1, 2, 3, 6, 12, 13, 24, 48, 1200] {
        create_plan(&mut reg, plan_of("Plan", months)).unwrap();
    }
    let starts = [
        on(2024, 1, 31),
        on(2023, 1, 31),
        on(2024, 2, 29),
        on(2023, 12, 31),
        on(2024, 11, 30),
        on(1999, 8, 31),
        on(-1, 3, 31),
    ];
    for (k, months) in [1u32, 2, 3, 6, 12, 13, 24, 48, 1200].iter().enumerate() {
        for start in starts {
            let made = create_subscription(&mut reg, request(1, k as i32 + 1, start)).unwrap();
            let expected = chrono::NaiveDate::from_ymd_opt(start.year, start.month, start.day)
                .unwrap()
                .checked_add_months(chrono::Months::new(*months))
                .unwrap();
            assert!(same_day(made.end_date, expected));
            assert!(made.end_date.is_valid());
            assert!(made.start_date.is_before(&made.end_date));
            cancel_subscription(&mut reg, made.subscription_id).unwrap();
        }
    }
}

#[test]
fn the_derived_end_date_keeps_the_day_or_takes_the_last_of_the_month() {
    let mut reg = gym_with_jane_and_monthly();
    create_plan(&mut reg, plan_of("Quarterly", 3)).unwrap();
    create_plan(&mut reg, plan_of("Yearly", 12)).unwrap();
    let cases = [
        (1, on(2024, 1, 31), on(2024, 2, 29)),
        (1, on(2023, 1, 31), on(2023, 2, 28)),
        (1, on(2024, 12, 15), on(2025, 1, 15)),
        (1, on(1900, 1, 30), on(1900, 2, 28)),
        (1, on(2000, 1, 30), on(2000, 2, 29)),
        (2, on(2024, 11, 30), on(2025, 2, 28)),
        (2, on(2024, 3, 31), on(2024, 6, 30)),
        (3, on(2024, 2, 29), on(2025, 2, 28)),
        (3, on(2023, 7, 4), on(2024, 7, 4)),
    ];
    for (plan_id, start, end) in cases {
        let made = create_subscription(&mut reg, request(1, plan_id, start)).unwrap();
        assert_eq!(made.end_date, end);
        cancel_subscription(&mut reg, made.subscription_id).unwrap();
    }
}

#[test]
fn a_derived_end_date_beyond_the_calendar_is_refused() {
    let mut reg = gym_with_jane_and_monthly();
    assert_eq!(
        create_subscription(&mut reg, request(1, 1, on(262142, 12, 1))),
        Err(ServiceError::Validation { field: Field::EndDate, reason: Reason::OutOfRange })
    );
    let made = create_subscription(&mut reg, request(1, 1, on(262142, 11, 30))).unwrap();
    assert_eq!(made.end_date, on(262142, 12, 30));
}

#[test]
fn create_subscription_fails_when_no_identity_is_left() {
    let mut reg = Registry::starting_after(0, 0, i32::MAX, 0);
    create_member_on(&mut reg, member_named("Jane", "Doe"), on(2024, 1, 1)).unwrap();
    create_plan(&mut reg, plan_of("Monthly", 1)).unwrap();
    assert_eq!(
        create_subscription(&mut reg, request(1, 1, on(2024, 1, 1))),
        Err(ServiceError::StorageUnavailable)
    );
    assert_eq!(
        create_subscription(&mut reg, request(2, 1, on(2024, 1, 1))),
        Err(ServiceError::NotFound(EntityKind::Member))
    );
}

#[test]
fn windows_of_different_members_may_overlap() {
    let mut reg = gym_with_jane_and_monthly();
    create_member_on(&mut reg, member_named("John", "Roe"), on(2024, 1, 1)).unwrap();
    assert!(create_subscription(&mut reg, request(1, 1, on(2024, 1, 1))).is_ok());
    assert!(create_subscription(&mut reg, request(2, 1, on(2024, 1, 1))).is_ok());
    assert_eq!(
        create_subscription(&mut reg, request(2, 1, on(2024, 1, 31))),
        Err(ServiceError::Conflict(ConflictKind::OverlappingActiveSubscription))
    );
}

#[test]
fn a_window_that_ends_where_another_starts_or_encloses_it() {
    let mut reg = gym_with_jane_and_monthly();
    create_subscription(&mut reg, request(1, 1, on(2024, 3, 1))).unwrap();
    let conflict = Err(ServiceError::Conflict(ConflictKind::OverlappingActiveSubscription));
    let mut data = request(1, 1, on(2024, 2, 1));
    data.end_date = Some(on(2024, 3, 2));
    assert_eq!(create_subscription(&mut reg, data), conflict);
    data.end_date = Some(on(2024, 12, 1));
    assert_eq!(create_subscription(&mut reg, data), conflict);
    let mut inner = request(1, 1, on(2024, 3, 10));
    inner.end_date = Some(on(2024, 3, 11));
    assert_eq!(create_subscription(&mut reg, inner), conflict);
    data.end_date = Some(on(2024, 3, 1));
    assert!(create_subscription(&mut reg, data).is_ok());
    assert!(create_subscription(&mut reg, request(1, 1, on(2024, 4, 1))).is_ok());
}

#[test]
fn active_windows_of_a_member_never_overlap() {
    let mut reg = gym_with_jane_and_monthly();
    create_member_on(&mut reg, member_named("John", "Roe"), on(2024, 1, 1)).unwrap();
    create_plan(&mut reg, plan_of("Quarterly", 3)).unwrap();
    let mut step = 0;
    for month in 1..=12u32 {
        for d in [1u32, 10, 20, 28] {
            for member_id in [1, 2] {
                step += 1;
                let plan_id = 1 + (step % 2);
                let _ = create_subscription(
                    &mut reg,
                    request(member_id, plan_id, on(2024, month, d)),
                );
                if step % 7 == 0 {
                    let _ = cancel_subscription(&mut reg, step / 7);
                }
                if step % 25 == 0 {
                    expire_due(&mut reg, on(2024, month, d));
                }
            }
        }
    }
    let all = list_subscriptions(&reg);
    assert!(all.len() > 10);
    for a in &all {
        assert!(a.start_date.is_before(&a.end_date));
        for b in &all {
            if a.subscription_id != b.subscription_id
                && a.member_id == b.member_id
                && a.status == SubscriptionStatus::Active
                && b.status == SubscriptionStatus::Active
            {
                assert!(!a.overlaps(&b.start_date, &b.end_date));
            }
        }
    }
}

#[test]
fn list_subscriptions_is_in_order_of_identity() {
    let mut reg = gym_with_jane_and_monthly();
    create_subscription(&mut reg, request(1, 1, on(2024, 6, 1))).unwrap();
    create_subscription(&mut reg, request(1, 1, on(2024, 1, 1))).unwrap();
    create_subscription(&mut reg, request(1, 1, on(2024, 3, 1))).unwrap();
    let ids: Vec<i32> = list_subscriptions(&reg).iter().map(|s| s.subscription_id).collect();
    assert_eq!(ids, vec![1, 2, 3]);
}

#[test]
fn cancel_subscription_is_final() {
    let mut reg = gym_with_jane_and_monthly();
    let made = create_subscription(&mut reg, request(1, 1, on(2024, 1, 1))).unwrap();
    assert_eq!(
        cancel_subscription(&mut reg, 1),
        Ok(MemberSubscription { status: SubscriptionStatus::Cancelled, ..made })
    );
    assert_eq!(
        cancel_subscription(&mut reg, 1),
        Err(ServiceError::Conflict(ConflictKind::SubscriptionClosed))
    );
    assert_eq!(
        cancel_subscription(&mut reg, 2),
        Err(ServiceError::NotFound(EntityKind::Subscription))
    );
    assert_eq!(list_subscriptions(&reg)[0].status, SubscriptionStatus::Cancelled);
    assert!(create_subscription(&mut reg, request(1, 1, on(2024, 1, 1))).is_ok());
    assert_eq!(list_subscriptions(&reg)[0].status, SubscriptionStatus::Cancelled);
}

#[test]
fn expire_due_marks_what_has_run_out_and_counts_it() {
    let mut reg = gym_with_jane_and_monthly();
    create_subscription(&mut reg, request(1, 1, on(2024, 1, 1))).unwrap();
    create_subscription(&mut reg, request(1, 1, on(2024, 2, 1))).unwrap();
    create_subscription(&mut reg, request(1, 1, on(2024, 3, 1))).unwrap();
    create_subscription(&mut reg, request(1, 1, on(2024, 4, 1))).unwrap();
    cancel_subscription(&mut reg, 2).unwrap();
    assert_eq!(expire_due(&mut reg, on(2024, 1, 31)), 0);
    assert_eq!(expire_due(&mut reg, on(2024, 4, 1)), 2);
    let states: Vec<SubscriptionStatus> =
        list_subscriptions(&reg).iter().map(|s| s.status).collect();
    assert_eq!(
        states,
        vec![
            SubscriptionStatus::Expired,
            SubscriptionStatus::Cancelled,
            SubscriptionStatus::Expired,
            SubscriptionStatus::Active,
        ]
    );
    assert_eq!(expire_due(&mut reg, on(2024, 4, 1)), 0);
    assert_eq!(
        cancel_subscription(&mut reg, 1),
        Err(ServiceError::Conflict(ConflictKind::SubscriptionClosed))
    );
    assert_eq!(expire_due(&mut reg, on(2030, 1, 1)), 1);
    assert_eq!(expire_due(&mut reg, on(2030, 1, 1)), 0);
}

#[test]
fn a_subscription_expires_on_its_end_date() {
    let mut reg = gym_with_jane_and_monthly();
    let made = create_subscription(&mut reg, request(1, 1, on(2024, 1, 1))).unwrap();
    assert_eq!(made.effective_status(&on(2024, 1, 31)), SubscriptionStatus::Active);
    assert_eq!(made.effective_status(&on(2024, 2, 1)), SubscriptionStatus::Expired);
    assert_eq!(made.effective_status(&on(2024, 2, 2)), SubscriptionStatus::Expired);
    assert_eq!(made.effective_status(&on(2023, 1, 1)), SubscriptionStatus::Active);
    assert_eq!(list_subscriptions(&reg)[0].status, SubscriptionStatus::Active);
    let cancelled = cancel_subscription(&mut reg, 1).unwrap();
    assert_eq!(cancelled.effective_status(&on(2024, 1, 2)), SubscriptionStatus::Cancelled);
    assert_eq!(cancelled.effective_status(&on(2024, 2, 2)), SubscriptionStatus::Cancelled);
}

#[test]
fn an_expired_subscription_does_not_stand_in_the_way() {
    let mut reg = gym_with_jane_and_monthly();
    create_subscription(&mut reg, request(1, 1, on(2024, 1, 1))).unwrap();
    assert_eq!(
        delete_member(&mut reg, 1),
        Err(ServiceError::Conflict(ConflictKind::LiveSubscription))
    );
    assert_eq!(expire_due(&mut reg, on(2024, 2, 1)), 1);
    assert!(create_subscription(&mut reg, request(1, 1, on(2024, 1, 15))).is_ok());
    assert_eq!(cancel_subscription(&mut reg, 2).map(|s| s.status), Ok(SubscriptionStatus::Cancelled));
    assert_eq!(delete_member(&mut reg, 1), Ok(1));
    assert_eq!(list_subscriptions(&reg).len(), 2);
    assert_eq!(
        create_subscription(&mut reg, request(1, 1, on(2025, 1, 1))),
        Err(ServiceError::NotFound(EntityKind::Member))
    );
}

#[test]
fn a_subscription_past_its_end_but_still_active_blocks_removal() {
    let mut reg = gym_with_jane_and_monthly();
    create_subscription(&mut reg, request(1, 1, on(2000, 1, 1))).unwrap();
    assert_eq!(
        delete_member(&mut reg, 1),
        Err(ServiceError::Conflict(ConflictKind::LiveSubscription))
    );
}

#[test]
fn creating_a_subscription_leaves_the_member_status_alone() {
    let mut reg = gym_with_jane_and_monthly();
    set_membership_status(&mut reg, 1, "Inactive").unwrap();
    create_subscription(&mut reg, request(1, 1, on(2024, 1, 1))).unwrap();
    assert_eq!(
        get_member_by_id(&reg, 1).unwrap().membership_status,
        MembershipStatus::Inactive
    );
}

#[test]
fn assess_request_runs_its_checks_in_order() {
    let none: Vec<MemberSubscription> = Vec::new();
    let start = on(2024, 1, 1);
    let data = request(1, 1, start);
    assert_eq!(
        assess_request(false, None, &none, &data),
        Err(ServiceError::NotFound(EntityKind::Member))
    );
    assert_eq!(
        assess_request(true, None, &none, &data),
        Err(ServiceError::NotFound(EntityKind::Plan))
    );
    assert_eq!(assess_request(true, Some(1), &none, &data), Ok(on(2024, 2, 1)));
    assert_eq!(assess_request(true, Some(18), &none, &data), Ok(on(2025, 7, 1)));
    let refused = Err(ServiceError::Validation {
        field: Field::EndDate,
        reason: Reason::NotAfterStart,
    });
    assert_eq!(assess_request(true, Some(0), &none, &data), refused);
    assert_eq!(assess_request(true, Some(-3), &none, &data), refused);
    assert_eq!(assess_request(true, Some(i32::MIN), &none, &data), refused);
    assert_eq!(
        assess_request(true, Some(i32::MAX), &none, &data),
        Err(ServiceError::Validation { field: Field::EndDate, reason: Reason::OutOfRange })
    );
    let mut explicit = data;
    explicit.end_date = Some(on(2024, 1, 2));
    assert_eq!(assess_request(true, Some(-3), &none, &explicit), Ok(on(2024, 1, 2)));
    let taken = vec![held(1, 1, on(2024, 1, 20), on(2024, 2, 20), SubscriptionStatus::Active)];
    assert_eq!(
        assess_request(true, Some(1), &taken, &data),
        Err(ServiceError::Conflict(ConflictKind::OverlappingActiveSubscription))
    );
    assert_eq!(assess_request(true, Some(1), &taken, &explicit), Ok(on(2024, 1, 2)));
    assert_eq!(
        assess_request(false, Some(1), &taken, &data),
        Err(ServiceError::NotFound(EntityKind::Member))
    );
}

#[test]
fn only_active_subscriptions_of_the_member_take_a_window() {
    let jan = (on(2024, 1, 1), on(2024, 2, 1));
    let rows = vec![
        held(1, 1, jan.0, jan.1, SubscriptionStatus::Cancelled),
        held(2, 1, jan.0, jan.1, SubscriptionStatus::Expired),
        held(3, 2, jan.0, jan.1, SubscriptionStatus::Active),
        held(4, 1, on(2024, 3, 1), on(2024, 4, 1), SubscriptionStatus::Active),
    ];
    assert!(!is_window_taken(&rows, 1, &jan.0, &jan.1));
    assert!(is_window_taken(&rows, 2, &jan.0, &jan.1));
    assert!(!is_window_taken(&rows, 3, &jan.0, &jan.1));
    assert!(is_window_taken(&rows, 1, &on(2024, 3, 31), &on(2024, 5, 1)));
    assert!(!is_window_taken(&rows, 1, &on(2024, 4, 1), &on(2024, 5, 1)));
    assert!(!is_window_taken(&rows, 1, &on(2024, 2, 1), &on(2024, 3, 1)));
    assert!(blocks_removal(&rows, 1));
    assert!(blocks_removal(&rows, 2));
    assert!(!blocks_removal(&rows, 3));
    assert!(!blocks_removal(&rows[..2].to_vec(), 1));
}

#[test]
fn subscription_states_move_one_way() {
    let all = [
        SubscriptionStatus::Active,
        SubscriptionStatus::Expired,
        SubscriptionStatus::Cancelled,
    ];
    for from in all {
        for to in all {
            let allowed = from == SubscriptionStatus::Active && to != SubscriptionStatus::Active;
            assert_eq!(from.can_become(&to), allowed);
        }
    }
    assert!(!SubscriptionStatus::Active.is_terminal());
    assert!(SubscriptionStatus::Expired.is_terminal());
    assert!(SubscriptionStatus::Cancelled.is_terminal());
    for s in all {
        assert_eq!(SubscriptionStatus::parse(s.as_str()), Some(s));
    }
    assert_eq!(SubscriptionStatus::Expired.as_str(), "Expired");
    assert_eq!(SubscriptionStatus::parse("expired"), None);
    assert_eq!(SubscriptionStatus::parse(""), None);
}

#[test]
fn the_derived_member_status_follows_the_active_window() {
    let mut reg = gym_with_jane_and_monthly();
    let not_found = Err(ServiceError::NotFound(EntityKind::Member));
    assert_eq!(effective_membership_status(&reg, 2, on(2024, 1, 1)), not_found);
    assert_eq!(
        effective_membership_status(&reg, 1, on(2024, 1, 1)),
        Ok(MembershipStatus::Inactive)
    );
    create_subscription(&mut reg, request(1, 1, on(2024, 1, 10))).unwrap();
    let read = |reg: &Registry, d: Date| effective_membership_status(reg, 1, d);
    assert_eq!(read(&reg, on(2024, 1, 9)), Ok(MembershipStatus::Inactive));
    assert_eq!(read(&reg, on(2024, 1, 10)), Ok(MembershipStatus::Active));
    assert_eq!(read(&reg, on(2024, 2, 9)), Ok(MembershipStatus::Active));
    assert_eq!(read(&reg, on(2024, 2, 10)), Ok(MembershipStatus::Inactive));
    set_membership_status(&mut reg, 1, "Inactive").unwrap();
    assert_eq!(read(&reg, on(2024, 1, 15)), Ok(MembershipStatus::Inactive));
    set_membership_status(&mut reg, 1, "Active").unwrap();
    assert_eq!(read(&reg, on(2024, 1, 15)), Ok(MembershipStatus::Active));
    assert_eq!(get_member_by_id(&reg, 1).unwrap().membership_status, MembershipStatus::Active);
    cancel_subscription(&mut reg, 1).unwrap();
    assert_eq!(read(&reg, on(2024, 1, 15)), Ok(MembershipStatus::Inactive));
    assert_eq!(get_member_by_id(&reg, 1).unwrap().membership_status, MembershipStatus::Active);
}

#[test]
fn a_member_is_covered_by_an_active_window_that_holds_the_day() {
    let rows = vec![
        held(1, 1, on(2024, 1, 1), on(2024, 2, 1), SubscriptionStatus::Expired),
        held(2, 1, on(2024, 2, 1), on(2024, 3, 1), SubscriptionStatus::Active),
        held(3, 2, on(2024, 1, 1), on(2024, 2, 1), SubscriptionStatus::Active),
    ];
    assert!(!has_cover(&rows, 1, &on(2024, 1, 15)));
    assert!(!has_cover(&rows, 1, &on(2024, 1, 31)));
    assert!(has_cover(&rows, 1, &on(2024, 2, 1)));
    assert!(has_cover(&rows, 1, &on(2024, 2, 29)));
    assert!(!has_cover(&rows, 1, &on(2024, 3, 1)));
    assert!(has_cover(&rows, 2, &on(2024, 1, 15)));
    assert!(!has_cover(&rows, 3, &on(2024, 1, 15)));
    assert!(!has_cover(&Vec::new(), 1, &on(2024, 1, 15)));
}
