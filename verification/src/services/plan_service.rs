//! The plan catalog: plans are recorded and listed, never changed.

use crate::error::ServiceError;
use crate::models::plan::{MembershipPlan, NewPlan};
use crate::records::{lemma_table_push, Records};
use crate::services::Registry;
use vstd::prelude::*;

verus! {

/// What creating a plan from `data` returns on the records `pre`: the first
/// broken rule, or a storage failure where no further identity can be given
/// out, or else the plan under the next identity.
pub open spec fn plan_creation(pre: Records, data: NewPlan) -> Result<MembershipPlan, ServiceError> {
    if data.violation() is Some {
        Err(data.violation()->0)
    } else if pre.last_plan_id == i32::MAX {
        Err(ServiceError::StorageUnavailable)
    } else {
        Ok(MembershipPlan::offered((pre.last_plan_id + 1) as i32, data))
    }
}

/// All plans in order of identity, which is the order of their creation.
pub fn list_plans(reg: &Registry) -> (r: Vec<MembershipPlan>)
    ensures
        r@ == reg@.plans,
{
    let out = reg.plans.clone();
    assert(out@ =~= reg.plans@);
    out
}

/// Records a new plan and returns it. On failure the records stay as they were.
pub fn create_plan(reg: &mut Registry, data: NewPlan) -> (r: Result<MembershipPlan, ServiceError>)
    requires
        old(reg)@.wf(),
    ensures
        r == plan_creation(old(reg)@, data),
        r is Ok ==> final(reg)@ == old(reg)@.with_plan(r->Ok_0),
        r is Err ==> final(reg)@ == old(reg)@,
        final(reg)@.wf(),
{
    match data.validate() {
        Err(e) => {
            return Err(e);
        },
        Ok(_) => {},
    }
    if reg.last_plan_id == i32::MAX {
        return Err(ServiceError::StorageUnavailable);
    }
    let plan = MembershipPlan {
        plan_id: reg.last_plan_id + 1,
        plan_name: data.plan_name,
        duration_months: data.duration_months,
        fee_cents: data.fee_cents,
        description: data.description,
    };
    proof {
        lemma_table_push(reg.plans@, reg.last_plan_id, plan);
    }
    reg.last_plan_id = plan.plan_id;
    reg.plans.push(plan.clone());
    Ok(plan)
}

} // verus!
