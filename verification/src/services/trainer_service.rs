//! The trainer directory: trainers are recorded and listed.

use crate::error::ServiceError;
use crate::models::trainer::{NewTrainer, Trainer};
use crate::records::{lemma_table_push, Records};
use crate::services::Registry;
use vstd::prelude::*;

verus! {

/// What creating a trainer from `data` returns on the records `pre`: the
/// first broken rule, or a storage failure where no further identity can be
/// given out, or else the trainer under the next identity.
pub open spec fn trainer_creation(pre: Records, data: NewTrainer) -> Result<Trainer, ServiceError> {
    if data.violation() is Some {
        Err(data.violation()->0)
    } else if pre.last_trainer_id == i32::MAX {
        Err(ServiceError::StorageUnavailable)
    } else {
        Ok(Trainer::hired((pre.last_trainer_id + 1) as i32, data))
    }
}

/// All trainers in order of identity.
pub fn list_trainers(reg: &Registry) -> (r: Vec<Trainer>)
    ensures
        r@ == reg@.trainers,
{
    let out = reg.trainers.clone();
    assert(out@ =~= reg.trainers@);
    out
}

/// Records a new trainer and returns it. On failure the records stay as
/// they were.
pub fn create_trainer(reg: &mut Registry, data: NewTrainer) -> (r: Result<Trainer, ServiceError>)
    requires
        old(reg)@.wf(),
    ensures
        r == trainer_creation(old(reg)@, data),
        r is Ok ==> final(reg)@ == old(reg)@.with_trainer(r->Ok_0),
        r is Err ==> final(reg)@ == old(reg)@,
        final(reg)@.wf(),
{
    match data.validate() {
        Err(e) => {
            return Err(e);
        },
        Ok(_) => {},
    }
    if reg.last_trainer_id == i32::MAX {
        return Err(ServiceError::StorageUnavailable);
    }
    let trainer = Trainer {
        trainer_id: reg.last_trainer_id + 1,
        first_name: data.first_name,
        last_name: data.last_name,
        specialization: data.specialization,
        phone: data.phone,
        email: data.email,
    };
    proof {
        lemma_table_push(reg.trainers@, reg.last_trainer_id, trainer);
    }
    reg.last_trainer_id = trainer.trainer_id;
    reg.trainers.push(trainer.clone());
    Ok(trainer)
}

} // verus!
