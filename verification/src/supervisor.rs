use vstd::prelude::*;

use crate::cfg::CfgMulticastGroup;
use crate::errors::RelayError;

verus! {

/// One relay task to spawn: the group it owns and the bus subject its
/// traffic uses — the group's own address string.
#[derive(Debug)]
pub struct TaskPlan {
    pub subject: String,
    pub group: CfgMulticastGroup,
}

/// The bus subject for a group: its address string, unchanged.
pub fn subject_for_group(grp: &CfgMulticastGroup) -> (r: String)
    ensures
        r@ == grp.multicast_addr@,
{
    grp.multicast_addr.clone()
}

/// The supervisor's fan-out: exactly one task per configured group, in
/// configuration order, each on the subject named after its group. Zero
/// groups plan zero tasks.
pub fn plan_tasks(groups: &Vec<CfgMulticastGroup>) -> (r: Vec<TaskPlan>)
    ensures
        r@.len() == groups@.len(),
        forall|i: int|
            0 <= i < groups@.len() ==> (#[trigger] r@[i]).group == groups@[i] && r@[i].subject@
                == groups@[i].multicast_addr@,
{
    let mut plans: Vec<TaskPlan> = Vec::new();
    let mut i: usize = 0;
    while i < groups.len()
        invariant
            i <= groups.len(),
            plans@.len() == i as int,
            forall|k: int|
                0 <= k < i ==> (#[trigger] plans@[k]).group == groups@[k] && plans@[k].subject@
                    == groups@[k].multicast_addr@,
        decreases groups.len() - i,
    {
        let subject = subject_for_group(&groups[i]);
        plans.push(TaskPlan { subject, group: groups[i].clone() });
        i += 1;
    }
    plans
}

/// How the supervisor treats a task that terminated with an error:
/// log-and-continue keeps the fleet running and swallows the failure;
/// abort-all surfaces it.
#[derive(Clone, Copy, Debug, PartialEq, Eq, Structural)]
pub enum FailurePolicy {
    LogAndContinue,
    AbortAll,
}

/// How waiting for one spawned task ended: the task was joined and
/// reported its own result, or the join itself failed — an infrastructure
/// fault, not a relay fault.
#[derive(Clone, Copy, Debug, PartialEq, Eq)]
pub enum JoinOutcome {
    Joined(Result<(), RelayError>),
    JoinFailed,
}

/// The supervisor's own failure: a task could not be joined at all, or —
/// under the abort-all policy only — a task reported this error.
#[derive(Clone, Copy, Debug, PartialEq, Eq, Structural)]
pub enum SupervisorError {
    JoinFailure,
    TaskFailure(RelayError),
}

/// The first fault a policy surfaces in a list of join outcomes, if any.
/// A failed join is a fault under either policy; a task's own error is
/// one only under abort-all.
pub open spec fn spec_first_fault(policy: FailurePolicy, outcomes: Seq<JoinOutcome>) -> Option<
    SupervisorError,
>
    decreases outcomes.len(),
{
    if outcomes.len() == 0 {
        None
    } else {
        match outcomes[0] {
            JoinOutcome::JoinFailed => Some(SupervisorError::JoinFailure),
            JoinOutcome::Joined(res) => match res {
                Err(e) => if policy == FailurePolicy::AbortAll {
                    Some(SupervisorError::TaskFailure(e))
                } else {
                    spec_first_fault(policy, outcomes.skip(1))
                },
                Ok(u) => spec_first_fault(policy, outcomes.skip(1)),
            },
        }
    }
}

/// The supervisor's verdict once every spawned task has terminated: the
/// first fault the policy surfaces, or success. Under log-and-continue a
/// task's own failure never changes the verdict — only an unjoinable
/// task does.
pub fn supervisor_verdict(policy: FailurePolicy, outcomes: &Vec<JoinOutcome>) -> (r: Result<
    (),
    SupervisorError,
>)
    ensures
        (match spec_first_fault(policy, outcomes@) {
            None => r == Ok::<(), SupervisorError>(()),
            Some(e) => r == Err::<(), SupervisorError>(e),
        }),
{
    proof {
        assert(outcomes@.skip(0) =~= outcomes@);
    }
    let mut i: usize = 0;
    while i < outcomes.len()
        invariant
            i <= outcomes.len(),
            spec_first_fault(policy, outcomes@) == spec_first_fault(
                policy,
                outcomes@.skip(i as int),
            ),
        decreases outcomes.len() - i,
    {
        proof {
            assert(outcomes@.skip(i as int)[0] == outcomes@[i as int]);
        }
        match outcomes[i] {
            JoinOutcome::JoinFailed => { return Err(SupervisorError::JoinFailure); },
            JoinOutcome::Joined(res) => {
                if let Err(e) = res {
                    if matches!(policy, FailurePolicy::AbortAll) {
                        return Err(SupervisorError::TaskFailure(e));
                    }
                }
            },
        }
        proof {
            assert(outcomes@.skip(i as int).skip(1) =~= outcomes@.skip(i + 1));
        }
        i += 1;
    }
    Ok(())
}

/// Partial availability: under log-and-continue, as long as every task
/// could be joined, the verdict is success — however many tasks failed on
/// their own. One bad group never takes down the supervisor.
pub proof fn lemma_task_failures_invisible(outcomes: Seq<JoinOutcome>)
    requires
        forall|i: int| 0 <= i < outcomes.len() ==> outcomes[i] is Joined,
    ensures
        spec_first_fault(FailurePolicy::LogAndContinue, outcomes) is None,
    decreases outcomes.len(),
{
    if outcomes.len() > 0 {
        assert(forall|i: int|
            0 <= i < outcomes.skip(1).len() ==> outcomes.skip(1)[i] == outcomes[i + 1]);
        lemma_task_failures_invisible(outcomes.skip(1));
    }
}

} // verus!
