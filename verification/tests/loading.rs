use gym_management::date::Date;
use gym_management::error::{ConflictKind, ServiceError};
use gym_management::models::member::{Member, MembershipStatus, NewMember};
use gym_management::models::plan::MembershipPlan;
use gym_management::models::subscription::{
    MemberSubscription, NewSubscription, SubscriptionStatus,
};
use gym_management::models::trainer::{NewTrainer, Trainer};
use gym_management::services::loading::{are_active_windows_disjoint, is_table_in_order};
use gym_management::services::member_service::{create_member_on, delete_member, list_members};
use gym_management::services::plan_service::list_plans;
use gym_management::services::subscription_service::{create_subscription, list_subscriptions};
use gym_management::services::trainer_service::{create_trainer, list_trainers};
use gym_management::services::Registry;

fn at(year: i32, month: u32, day: u32) -> Date {
    Date::new(year, month, day).unwrap()
}

fn member(id: i32, first: &str) -> Member {
    Member {
        member_id: id,
        first_name: first.to_string(),
        last_name: "Doe".to_string(),
        gender: None,
        dob: None,
        phone: None,
        email: None,
        address: None,
        join_date: at(2024, 1, 1),
        membership_status: MembershipStatus::Active,
    }
}

fn plan(id: i32, months: i32) -> MembershipPlan {
    MembershipPlan {
        plan_id: id,
        plan_name: "Plan".to_string(),
        duration_months: months,
        fee_cents: 1000,
        description: None,
    }
}

fn trainer(id: i32) -> Trainer {
    Trainer {
        trainer_id: id,
        first_name: "Kim".to_string(),
        last_name: "Lee".to_string(),
        specialization: None,
        phone: None,
        email: None,
    }
}

fn sub(id: i32, member_id: i32, start: Date, end: Date, status: SubscriptionStatus)
    -> MemberSubscription {
    MemberSubscription {
        subscription_id: id,
        member_id,
        plan_id: 1,
        start_date: start,
        end_date: end,
        status,
    }
}

fn loads(
    members: Vec<Member>,
    plans: Vec<MembershipPlan>,
    subscriptions: Vec<MemberSubscription>,
    trainers: Vec<Trainer>,
) -> bool {
    Registry::from_rows(members, plans, subscriptions, trainers).is_some()
}

fn newcomer() -> NewMember {
    NewMember {
        first_name: "New".to_string(),
        last_name: "Comer".to_string(),
        gender: None,
        dob: None,
        phone: None,
        email: None,
        address: None,
    }
}

#[test]
fn rows_in_good_order_are_taken_as_they_are() {
    let members = vec![member(2, "Jane"), member(5, "John")];
    let plans = vec![plan(1, 1), plan(3, 12)];
    let subscriptions = vec![
        sub(1, 2, at(2024, 1, 1), at(2024, 2, 1), SubscriptionStatus::Expired),
        sub(4, 2, at(2024, 2, 1), at(2024, 3, 1), SubscriptionStatus::Active),
        sub(6, 5, at(2024, 2, 1), at(2024, 3, 1), SubscriptionStatus::Active),
    ];
    let trainers = vec![trainer(7)];
    let mut reg = Registry::from_rows(
        members.clone(),
        plans.clone(),
        subscriptions.clone(),
        trainers.clone(),
    )
    .unwrap();
    assert_eq!(list_plans(&reg), plans);
    assert_eq!(list_subscriptions(&reg), subscriptions);
    assert_eq!(list_trainers(&reg), trainers);
    assert_eq!(list_members(&reg), vec![member(5, "John"), member(2, "Jane")]);

    let next = create_member_on(&mut reg, newcomer(), at(2024, 6, 1)).unwrap();
    assert_eq!(next.member_id, 6);
    let coach = NewTrainer {
        first_name: "Amy".to_string(),
        last_name: "Adams".to_string(),
        specialization: None,
        phone: None,
        email: None,
    };
    assert_eq!(create_trainer(&mut reg, coach).unwrap().trainer_id, 8);
    let request =
        NewSubscription { member_id: 2, plan_id: 3, start_date: at(2024, 2, 15), end_date: None };
    assert_eq!(
        create_subscription(&mut reg, request),
        Err(ServiceError::Conflict(ConflictKind::OverlappingActiveSubscription))
    );
    let later = NewSubscription { start_date: at(2024, 3, 1), ..request };
    let made = create_subscription(&mut reg, later).unwrap();
    assert_eq!((made.subscription_id, made.end_date), (7, at(2025, 3, 1)));
    assert_eq!(
        delete_member(&mut reg, 5),
        Err(ServiceError::Conflict(ConflictKind::LiveSubscription))
    );
}

#[test]
fn no_rows_give_an_empty_registry() {
    let mut reg = Registry::from_rows(vec![], vec![], vec![], vec![]).unwrap();
    assert!(list_members(&reg).is_empty());
    assert_eq!(create_member_on(&mut reg, newcomer(), at(2024, 6, 1)).unwrap().member_id, 1);
}

#[test]
fn member_identities_continue_after_the_largest_that_is_referred_to() {
    let closed = vec![
        sub(1, 9, at(2024, 1, 1), at(2024, 2, 1), SubscriptionStatus::Cancelled),
        sub(2, 4, at(2024, 1, 1), at(2024, 2, 1), SubscriptionStatus::Expired),
    ];
    let mut reg =
        Registry::from_rows(vec![member(3, "Jane")], vec![plan(1, 1)], closed, vec![]).unwrap();
    assert_eq!(create_member_on(&mut reg, newcomer(), at(2024, 6, 1)).unwrap().member_id, 10);
}

#[test]
fn tables_out_of_order_are_turned_down() {
    assert!(loads(vec![member(1, "A"), member(2, "B")], vec![], vec![], vec![]));
    assert!(!loads(vec![member(2, "A"), member(1, "B")], vec![], vec![], vec![]));
    assert!(!loads(vec![member(1, "A"), member(1, "B")], vec![], vec![], vec![]));
    assert!(!loads(vec![member(0, "A")], vec![], vec![], vec![]));
    assert!(!loads(vec![member(-1, "A"), member(1, "B")], vec![], vec![], vec![]));
    assert!(!loads(vec![], vec![plan(2, 1), plan(2, 1)], vec![], vec![]));
    assert!(!loads(vec![], vec![], vec![], vec![trainer(3), trainer(1)]));
    assert!(loads(vec![member(i32::MAX, "A")], vec![], vec![], vec![]));
    assert!(is_table_in_order(&vec![plan(1, 1), plan(2, 1), plan(40, 1)]));
    assert!(!is_table_in_order(&vec![plan(1, 1), plan(3, 1), plan(2, 1)]));
    assert!(is_table_in_order(&Vec::<Trainer>::new()));
}

#[test]
fn rows_that_break_a_field_rule_are_turned_down() {
    assert!(!loads(vec![member(1, "")], vec![], vec![], vec![]));
    let mut nameless = member(1, "A");
    nameless.last_name = String::new();
    assert!(!loads(vec![nameless], vec![], vec![], vec![]));
    assert!(!loads(vec![], vec![plan(1, 0)], vec![], vec![]));
    let mut free = plan(1, 1);
    free.fee_cents = 0;
    assert!(loads(vec![], vec![free.clone()], vec![], vec![]));
    free.fee_cents = -1;
    assert!(!loads(vec![], vec![free.clone()], vec![], vec![]));
    free.fee_cents = 1;
    free.plan_name = String::new();
    assert!(!loads(vec![], vec![free], vec![], vec![]));
    let mut unnamed = trainer(1);
    unnamed.first_name = String::new();
    assert!(!loads(vec![], vec![], vec![], vec![unnamed]));
}

#[test]
fn subscriptions_that_do_not_fit_are_turned_down() {
    let jane = || vec![member(1, "Jane")];
    let monthly = || vec![plan(1, 1)];
    let jan = (at(2024, 1, 1), at(2024, 2, 1));
    let active = SubscriptionStatus::Active;
    assert!(loads(jane(), monthly(), vec![sub(1, 1, jan.0, jan.1, active)], vec![]));
    assert!(!loads(jane(), vec![], vec![sub(1, 1, jan.0, jan.1, active)], vec![]));
    assert!(!loads(jane(), vec![plan(2, 1)], vec![sub(1, 1, jan.0, jan.1, active)], vec![]));
    assert!(!loads(vec![], monthly(), vec![sub(1, 1, jan.0, jan.1, active)], vec![]));
    assert!(!loads(jane(), monthly(), vec![sub(1, 2, jan.0, jan.1, active)], vec![]));
    assert!(loads(
        jane(),
        monthly(),
        vec![sub(1, 2, jan.0, jan.1, SubscriptionStatus::Cancelled)],
        vec![]
    ));
    assert!(!loads(
        jane(),
        monthly(),
        vec![sub(1, 0, jan.0, jan.1, SubscriptionStatus::Cancelled)],
        vec![]
    ));
    assert!(!loads(jane(), monthly(), vec![sub(1, 1, jan.1, jan.0, active)], vec![]));
    assert!(!loads(jane(), monthly(), vec![sub(1, 1, jan.0, jan.0, active)], vec![]));
    let no_day = Date { year: 2024, month: 2, day: 30 };
    assert!(!loads(jane(), monthly(), vec![sub(1, 1, jan.0, no_day, active)], vec![]));
    assert!(!loads(
        jane(),
        monthly(),
        vec![sub(1, 1, Date { year: 2023, month: 0, day: 1 }, jan.1, active)],
        vec![]
    ));
}

#[test]
fn overlapping_active_windows_are_turned_down() {
    let two = || vec![member(1, "Jane"), member(2, "John")];
    let monthly = || vec![plan(1, 1)];
    let active = SubscriptionStatus::Active;
    let a = sub(1, 1, at(2024, 1, 1), at(2024, 2, 1), active);
    let b = sub(2, 1, at(2024, 1, 31), at(2024, 3, 1), active);
    let c = sub(3, 1, at(2024, 2, 1), at(2024, 3, 1), active);
    assert!(!loads(two(), monthly(), vec![a, b], vec![]));
    assert!(loads(two(), monthly(), vec![a, c], vec![]));
    assert!(!loads(two(), monthly(), vec![a, b, c], vec![]));
    let b_closed = MemberSubscription { status: SubscriptionStatus::Expired, ..b };
    assert!(loads(two(), monthly(), vec![a, b_closed, c], vec![]));
    let b_other = MemberSubscription { member_id: 2, ..b };
    assert!(loads(two(), monthly(), vec![a, b_other, c], vec![]));
    assert!(are_active_windows_disjoint(&vec![a, b_other, c]));
    assert!(are_active_windows_disjoint(&vec![a, b_closed]));
    assert!(!are_active_windows_disjoint(&vec![c, a, b]));
    assert!(are_active_windows_disjoint(&vec![]));
}
