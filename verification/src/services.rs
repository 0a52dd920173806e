//! The registry that holds the gym's records, and the services that work on it.

use crate::models::member::Member;
use crate::models::plan::MembershipPlan;
use crate::models::subscription::MemberSubscription;
use crate::models::trainer::Trainer;
use crate::records::Records;
use vstd::prelude::*;

pub mod loading;
pub mod member_service;
pub mod plan_service;
pub mod subscription_service;
pub mod trainer_service;

verus! {

/// The gym's records. Every service operation takes the registry it works on;
/// a new registry is empty, and the operations keep it in good order.
pub struct Registry {
    members: Vec<Member>,
    plans: Vec<MembershipPlan>,
    subscriptions: Vec<MemberSubscription>,
    trainers: Vec<Trainer>,
    last_member_id: i32,
    last_plan_id: i32,
    last_subscription_id: i32,
    last_trainer_id: i32,
}

impl View for Registry {
    type V = Records;

    closed spec fn view(&self) -> Records {
        Records {
            members: self.members@,
            plans: self.plans@,
            subscriptions: self.subscriptions@,
            trainers: self.trainers@,
            last_member_id: self.last_member_id,
            last_plan_id: self.last_plan_id,
            last_subscription_id: self.last_subscription_id,
            last_trainer_id: self.last_trainer_id,
        }
    }
}

impl Registry {
    /// A registry with nothing on record. The first identity given out in
    /// each table is 1.
    pub fn new() -> (r: Registry)
        ensures
            r@ == Records::empty(),
            r@.wf(),
    {
        Registry::starting_after(0, 0, 0, 0)
    }

    /// A registry with nothing on record in which the identities continue
    /// after the given ones. An argument below zero counts as zero.
    pub fn starting_after(member: i32, plan: i32, subscription: i32, trainer: i32) -> (r: Registry)
        ensures
            r@ == Records::starting_after(
                floor_zero(member),
                floor_zero(plan),
                floor_zero(subscription),
                floor_zero(trainer),
            ),
            r@.wf(),
    {
        Registry {
            members: Vec::new(),
            plans: Vec::new(),
            subscriptions: Vec::new(),
            trainers: Vec::new(),
            last_member_id: at_least_zero(member),
            last_plan_id: at_least_zero(plan),
            last_subscription_id: at_least_zero(subscription),
            last_trainer_id: at_least_zero(trainer),
        }
    }
}

/// `n`, or zero where `n` is below zero.
pub open spec fn floor_zero(n: i32) -> i32 {
    if n < 0 {
        0
    } else {
        n
    }
}

fn at_least_zero(n: i32) -> (r: i32)
    ensures
        r == floor_zero(n),
{
    if n < 0 {
        0
    } else {
        n
    }
}

} // verus!
