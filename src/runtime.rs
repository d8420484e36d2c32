use vstd::prelude::*;

verus! {

/// Input of a job runtime that is fed to the device step by step.
pub trait JobInput {
    /// One chunk of the whole input at a step.
    type Chunk;

    /// Advance the input for a step.
    fn step(&mut self);

    /// The current step's chunk to feed into the job.
    fn chunk(&self) -> Self::Chunk;
}

/// Takes the job prepared ahead during the previous step, if there is one and
/// `check` finds it fit for this step's input; a job found unfit is dropped.
/// Either way no prepared job is left behind.
pub fn take_predicted<J, F: Fn(&J) -> bool>(predict: &mut Option<J>, check: F) -> (r: Option<J>)
    requires
        forall|j: &J| #[trigger] check.requires((j,)),
    ensures
        *final(predict) is None,
        *old(predict) is None ==> r is None,
        *old(predict) matches Some(job) ==> (r is Some ==> r == Some(job) && check.ensures(
            (&job,),
            true,
        )) && (r is None ==> check.ensures((&job,), false)),
{
    let mut taken: Option<J> = None;
    std::mem::swap(&mut taken, predict);
    match taken {
        Some(job) => {
            if check(&job) {
                Some(job)
            } else {
                None
            }
        },
        None => None,
    }
}

} // verus!
