//! Job market: the per-job state machine `Submitted -> Assigned ->
//! Finalized`, with a `Disputed` branch open to the job's customer or
//! gateway until the job is finalized.

use vstd::prelude::*;

use crate::keymap::KeyMap;
use crate::primitives::{AccountId, BlockNumber, Origin, H256};

pub mod weights;

verus! {

#[derive(Clone, Copy, Debug, PartialEq, Eq, Structural)]
pub enum JobState {
    Submitted,
    Assigned,
    Finalized,
    Disputed,
}

/// An inference job.
#[derive(Clone, Copy, Debug, PartialEq, Eq, Structural)]
pub struct Job {
    pub customer: AccountId,
    pub gateway: AccountId,
    pub model_id: H256,
    pub adapter_id: Option<H256>,
    pub state: JobState,
    pub assigned_operator: Option<AccountId>,
    pub created_at: BlockNumber,
}

#[derive(Clone, Copy, Debug, PartialEq, Eq, Structural)]
pub enum Event {
    JobSubmitted { job_id: H256, customer: AccountId },
    JobAssigned { job_id: H256, operator: AccountId },
    JobFinalized { job_id: H256 },
    JobDisputed { job_id: H256 },
}

#[derive(Clone, Copy, Debug, PartialEq, Eq, Structural)]
pub enum Error {
    /// The origin is not the one the call requires.
    BadOrigin,
    AlreadyExists,
    UnknownJob,
    BadState,
    NotAuthorized,
}

/// The pallet's storage.
pub struct Pallet {
    pub jobs: KeyMap<H256, Job>,
}

/// The moves a job's state may make in one call.
pub open spec fn job_step(from: JobState, to: JobState) -> bool {
    ||| from == to
    ||| from == JobState::Submitted && to == JobState::Assigned
    ||| from == JobState::Assigned && to == JobState::Finalized
    ||| from == JobState::Submitted && to == JobState::Disputed
    ||| from == JobState::Assigned && to == JobState::Disputed
}

/// Every job of `before` is still in `after`, with the same customer,
/// gateway, model, adapter and creation block, and a state reached by an
/// allowed step; the assigned operator changes only when the job is
/// assigned.
pub open spec fn jobs_advance(before: Map<H256, Job>, after: Map<H256, Job>) -> bool {
    forall|id: H256| #[trigger]
        before.contains_key(id) ==> {
            let (b, a) = (before[id], after[id]);
            &&& after.contains_key(id)
            &&& a == Job { state: a.state, assigned_operator: a.assigned_operator, ..b }
            &&& job_step(b.state, a.state)
            &&& (a.assigned_operator == b.assigned_operator || b.state == JobState::Submitted && a.state
                == JobState::Assigned)
        }
}

/// Law: no call moves a job back, and finalized or disputed jobs stay as
/// they are.
pub proof fn lemma_jobs_never_go_back(before: Map<H256, Job>, after: Map<H256, Job>, id: H256)
    requires
        jobs_advance(before, after),
        before.contains_key(id),
        before[id].state == JobState::Finalized || before[id].state == JobState::Disputed,
    ensures
        after.contains_key(id),
        after[id] == before[id],
{
}

impl Pallet {
    pub open spec fn wf(&self) -> bool {
        self.jobs.wf()
    }

    pub fn new() -> (p: Pallet)
        ensures
            p.wf(),
            p.jobs@ == Map::<H256, Job>::empty(),
    {
        Pallet { jobs: KeyMap::new() }
    }

    /// A job's record.
    pub fn job(&self, job_id: &H256) -> (r: Option<Job>)
        requires
            self.wf(),
        ensures
            r == if self.jobs@.contains_key(*job_id) { Some(self.jobs@[*job_id]) } else { None::<Job> },
    {
        match self.jobs.get(job_id) {
            Some(j) => Some(*j),
            None => None,
        }
    }

    /// A customer submits a new job for a gateway.
    pub fn submit_job(
        &mut self,
        origin: Origin,
        job_id: H256,
        gateway: AccountId,
        model_id: H256,
        adapter_id: Option<H256>,
        now: BlockNumber,
    ) -> (r: Result<Event, Error>)
        requires
            old(self).wf(),
        ensures
            jobs_advance(old(self).jobs@, final(self).jobs@),
            final(self).wf(),
            r is Err ==> *final(self) == *old(self),
            match origin {
                Origin::Signed(who) => if old(self).jobs@.contains_key(job_id) {
                    r == Err::<Event, Error>(Error::AlreadyExists)
                } else {
                    r == Ok::<Event, Error>(Event::JobSubmitted { job_id, customer: who }) && final(self).jobs@
                        == old(self).jobs@.insert(
                        job_id,
                        Job {
                            customer: who,
                            gateway,
                            model_id,
                            adapter_id,
                            state: JobState::Submitted,
                            assigned_operator: None,
                            created_at: now,
                        },
                    )
                },
                _ => r == Err::<Event, Error>(Error::BadOrigin),
            },
    {
        let who = match origin.signer() {
            Some(who) => who,
            None => return Err(Error::BadOrigin),
        };
        if self.jobs.contains_key(&job_id) {
            return Err(Error::AlreadyExists);
        }
        self.jobs.insert(
            job_id,
            Job {
                customer: who,
                gateway,
                model_id,
                adapter_id,
                state: JobState::Submitted,
                assigned_operator: None,
                created_at: now,
            },
        );
        Ok(Event::JobSubmitted { job_id, customer: who })
    }

    /// The gateway origin (root) assigns a submitted job to an operator.
    pub fn assign(&mut self, origin: Origin, job_id: H256, operator: AccountId) -> (r: Result<Event, Error>)
        requires
            old(self).wf(),
        ensures
            jobs_advance(old(self).jobs@, final(self).jobs@),
            final(self).wf(),
            r is Err ==> *final(self) == *old(self),
            r == if !(origin is Root) {
                Err::<Event, Error>(Error::BadOrigin)
            } else if !old(self).jobs@.contains_key(job_id) {
                Err(Error::UnknownJob)
            } else if old(self).jobs@[job_id].state != JobState::Submitted {
                Err(Error::BadState)
            } else {
                Ok(Event::JobAssigned { job_id, operator })
            },
            r is Ok ==> final(self).jobs@ == old(self).jobs@.insert(
                job_id,
                Job { state: JobState::Assigned, assigned_operator: Some(operator), ..old(self).jobs@[job_id] },
            ),
    {
        if !origin.is_root() {
            return Err(Error::BadOrigin);
        }
        let job = match self.jobs.get(&job_id) {
            Some(j) => *j,
            None => return Err(Error::UnknownJob),
        };
        if job.state != JobState::Submitted {
            return Err(Error::BadState);
        }
        self.jobs.insert(job_id, Job { state: JobState::Assigned, assigned_operator: Some(operator), ..job });
        Ok(Event::JobAssigned { job_id, operator })
    }

    /// The gateway origin (root) finalizes an assigned job.
    pub fn finalize(&mut self, origin: Origin, job_id: H256) -> (r: Result<Event, Error>)
        requires
            old(self).wf(),
        ensures
            jobs_advance(old(self).jobs@, final(self).jobs@),
            final(self).wf(),
            r is Err ==> *final(self) == *old(self),
            r == if !(origin is Root) {
                Err::<Event, Error>(Error::BadOrigin)
            } else if !old(self).jobs@.contains_key(job_id) {
                Err(Error::UnknownJob)
            } else if old(self).jobs@[job_id].state != JobState::Assigned {
                Err(Error::BadState)
            } else {
                Ok(Event::JobFinalized { job_id })
            },
            r is Ok ==> final(self).jobs@ == old(self).jobs@.insert(
                job_id,
                Job { state: JobState::Finalized, ..old(self).jobs@[job_id] },
            ),
    {
        if !origin.is_root() {
            return Err(Error::BadOrigin);
        }
        let job = match self.jobs.get(&job_id) {
            Some(j) => *j,
            None => return Err(Error::UnknownJob),
        };
        if job.state != JobState::Assigned {
            return Err(Error::BadState);
        }
        self.jobs.insert(job_id, Job { state: JobState::Finalized, ..job });
        Ok(Event::JobFinalized { job_id })
    }

    /// The job's customer or gateway disputes a job that is not yet
    /// finalized or disputed.
    pub fn dispute(&mut self, origin: Origin, job_id: H256) -> (r: Result<Event, Error>)
        requires
            old(self).wf(),
        ensures
            jobs_advance(old(self).jobs@, final(self).jobs@),
            final(self).wf(),
            r is Err ==> *final(self) == *old(self),
            match origin {
                Origin::Signed(who) => r == if !old(self).jobs@.contains_key(job_id) {
                    Err::<Event, Error>(Error::UnknownJob)
                } else if old(self).jobs@[job_id].state != JobState::Submitted && old(self).jobs@[job_id].state
                    != JobState::Assigned {
                    Err(Error::BadState)
                } else if who != old(self).jobs@[job_id].customer && who != old(self).jobs@[job_id].gateway {
                    Err(Error::NotAuthorized)
                } else {
                    Ok(Event::JobDisputed { job_id })
                },
                _ => r == Err::<Event, Error>(Error::BadOrigin),
            },
            r is Ok ==> final(self).jobs@ == old(self).jobs@.insert(
                job_id,
                Job { state: JobState::Disputed, ..old(self).jobs@[job_id] },
            ),
    {
        let who = match origin.signer() {
            Some(who) => who,
            None => return Err(Error::BadOrigin),
        };
        let job = match self.jobs.get(&job_id) {
            Some(j) => *j,
            None => return Err(Error::UnknownJob),
        };
        if job.state != JobState::Submitted && job.state != JobState::Assigned {
            return Err(Error::BadState);
        }
        if who != job.customer && who != job.gateway {
            return Err(Error::NotAuthorized);
        }
        self.jobs.insert(job_id, Job { state: JobState::Disputed, ..job });
        Ok(Event::JobDisputed { job_id })
    }
}

} // verus!
