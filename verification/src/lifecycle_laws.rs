//! What holds of every run of [`crate::lifecycle`], whatever the platform
//! answers.
use vstd::prelude::*;

use crate::api::{CreateSandboxBody, SandboxInfo, SandboxStatus};
use crate::error::BackendError;
use crate::http::{Method, Reply};
use crate::lifecycle::{
    follows, found, Create, Evict, Intent, LookUp, Poll, Step, TensorlakeBackendHandle,
    NAME_CONFLICT_RETRIES,
};
use crate::sandbox::TimeSpan;

verus! {

/// Steps that came one after the other.
pub open spec fn is_run(steps: Seq<Step>) -> bool {
    &&& steps.len() > 0
    &&& forall|i: int|
        #![trigger steps[i]]
        0 <= i < steps.len() - 1 ==> follows(steps[i], steps[i + 1])
}

/// How many of the steps are of a kind.
pub open spec fn count(steps: Seq<Step>, kind: spec_fn(Step) -> bool) -> nat
    decreases steps.len(),
{
    if steps.len() == 0 {
        0
    } else {
        count(steps.drop_last(), kind) + if kind(steps.last()) {
            1nat
        } else {
            0nat
        }
    }
}

/// The step sends a resume.
pub open spec fn is_resume(step: Step) -> bool {
    step is Resume || step is PollResume
}

/// The step sends a create.
pub open spec fn is_create(step: Step) -> bool {
    step is Create
}

/// How many resumes can still come after this step.
spec fn resumes_after(step: Step) -> nat {
    match step {
        Step::LookUp(_) | Step::Evict(_) | Step::Create(_) | Step::Backoff(_) => 1,
        Step::Poll(poll) | Step::Pause(poll) => if poll.resumed {
            0
        } else {
            1
        },
        _ => 0,
    }
}

/// How many creates can still come after this step.
spec fn creates_after(step: Step) -> nat {
    match step {
        Step::LookUp(look) => if look.intent is Refresh {
            0
        } else {
            NAME_CONFLICT_RETRIES as nat
        },
        Step::Evict(_) => NAME_CONFLICT_RETRIES as nat,
        Step::Create(create) => if create.attempt < NAME_CONFLICT_RETRIES {
            (NAME_CONFLICT_RETRIES - 1 - create.attempt) as nat
        } else {
            0
        },
        Step::Backoff(create) => if create.attempt < NAME_CONFLICT_RETRIES {
            (NAME_CONFLICT_RETRIES - create.attempt) as nat
        } else {
            1
        },
        _ => 0,
    }
}

proof fn lemma_prefix_is_run(steps: Seq<Step>)
    requires
        is_run(steps),
        steps.len() > 1,
    ensures
        is_run(steps.drop_last()),
        follows(steps.drop_last().last(), steps.last()),
        steps.drop_last().first() == steps.first(),
{
    let init = steps.drop_last();
    assert forall|i: int|
        #![trigger init[i]]
        0 <= i < init.len() - 1 implies follows(init[i], init[i + 1]) by {
        assert(init[i] == steps[i]);
        assert(init[i + 1] == steps[i + 1]);
    }
    assert(follows(steps[steps.len() - 2], steps[steps.len() - 2 + 1]));
}

proof fn lemma_resumes_step(step: Step, next: Step)
    requires
        follows(step, next),
    ensures
        resumes_after(next) + (if is_resume(next) {
            1nat
        } else {
            0nat
        }) <= resumes_after(step),
{
}

proof fn lemma_resumes(steps: Seq<Step>)
    requires
        is_run(steps),
    ensures
        count(steps, |s: Step| is_resume(s)) + resumes_after(steps.last()) <= resumes_after(
            steps.first(),
        ) + (if is_resume(steps.first()) {
            1nat
        } else {
            0nat
        }),
    decreases steps.len(),
{
    let kind = |s: Step| is_resume(s);
    if steps.len() == 1 {
        assert(count(steps.drop_last(), kind) == 0);
    } else {
        lemma_prefix_is_run(steps);
        lemma_resumes(steps.drop_last());
        lemma_resumes_step(steps.drop_last().last(), steps.last());
    }
}

/// A run sends no more than one resume.
pub proof fn law_a_run_resumes_at_most_once(steps: Seq<Step>)
    requires
        is_run(steps),
    ensures
        count(steps, |s: Step| is_resume(s)) <= 1,
{
    lemma_resumes(steps);
}

/// Once a resume has been sent, waiting for the sandbox sends no other.
pub proof fn law_waiting_after_a_resume_sends_none(steps: Seq<Step>)
    requires
        is_run(steps),
        steps.first() matches Step::Poll(poll) && poll.resumed,
    ensures
        count(steps, |s: Step| is_resume(s)) == 0,
{
    lemma_resumes(steps);
}

proof fn lemma_creates_step(step: Step, next: Step)
    requires
        follows(step, next),
    ensures
        creates_after(next) + (if is_create(next) {
            1nat
        } else {
            0nat
        }) <= creates_after(step),
{
}

proof fn lemma_creates(steps: Seq<Step>)
    requires
        is_run(steps),
    ensures
        count(steps, |s: Step| is_create(s)) + creates_after(steps.last()) <= creates_after(
            steps.first(),
        ) + (if is_create(steps.first()) {
            1nat
        } else {
            0nat
        }),
    decreases steps.len(),
{
    let kind = |s: Step| is_create(s);
    if steps.len() == 1 {
        assert(count(steps.drop_last(), kind) == 0);
    } else {
        lemma_prefix_is_run(steps);
        lemma_creates(steps.drop_last());
        lemma_creates_step(steps.drop_last().last(), steps.last());
    }
}

/// The run begins with a look or with a first attempt to create.
pub open spec fn is_start(step: Step) -> bool {
    match step {
        Step::LookUp(_) => true,
        Step::Create(create) => create.attempt == 0,
        _ => false,
    }
}

/// A run tries to create a sandbox only so often.
pub proof fn law_creates_are_bounded(steps: Seq<Step>)
    requires
        is_run(steps),
        is_start(steps.first()),
    ensures
        count(steps, |s: Step| is_create(s)) <= NAME_CONFLICT_RETRIES,
{
    lemma_creates(steps);
}

/// Finding a sandbox again never creates one.
pub proof fn law_refreshing_creates_nothing(steps: Seq<Step>)
    requires
        is_run(steps),
        steps.first() matches Step::LookUp(look) && look.intent is Refresh,
    ensures
        count(steps, |s: Step| is_create(s)) == 0,
{
    lemma_creates(steps);
}

/// The step comes before anything has been created from `body`, and can create
/// from nothing else.
spec fn about_to_create(step: Step, body: CreateSandboxBody) -> bool {
    match step {
        Step::LookUp(look) => look.intent == (Intent::Restore { body }),
        Step::Evict(evict) => evict.body == body,
        Step::Create(create) | Step::Backoff(create) => create.body == body,
        Step::Failed(_) => true,
        _ => false,
    }
}

/// The step creates a sandbox from `body`.
pub open spec fn creates_from(step: Step, body: CreateSandboxBody) -> bool {
    step matches Step::Create(create) && create.body == body
}

/// A restored sandbox is a new one: where a restore ends with a sandbox, that
/// sandbox was created from the body that the restore began with.
pub proof fn law_restore_never_reuses(steps: Seq<Step>, body: CreateSandboxBody)
    requires
        is_run(steps),
        steps.first() matches Step::LookUp(look) && look.intent == (Intent::Restore { body }),
        steps.last() is Done,
    ensures
        exists|i: int| 0 <= i < steps.len() && creates_from(#[trigger] steps[i], body),
{
    lemma_restore(steps, body);
}

proof fn lemma_restore(steps: Seq<Step>, body: CreateSandboxBody)
    requires
        is_run(steps),
        steps.first() matches Step::LookUp(look) && look.intent == (Intent::Restore { body }),
    ensures
        about_to_create(steps.last(), body) || exists|i: int|
            0 <= i < steps.len() && creates_from(#[trigger] steps[i], body),
    decreases steps.len(),
{
    if steps.len() > 1 {
        let init = steps.drop_last();
        lemma_prefix_is_run(steps);
        lemma_restore(init, body);
        if about_to_create(init.last(), body) {
            assert(init.last() == steps[steps.len() - 2]);
            if init.last() is Create {
                assert(creates_from(steps[steps.len() - 2], body));
            }
        } else {
            let i = choose|i: int| 0 <= i < init.len() && creates_from(#[trigger] init[i], body);
            assert(creates_from(steps[i], body));
        }
    }
}

/// A sandbox that runs is used as it is: no request follows the look.
pub proof fn law_a_running_sandbox_needs_nothing(
    backend: TensorlakeBackendHandle,
    look: LookUp,
    reply: Reply<SandboxInfo>,
    now: TimeSpan,
    next: Step,
)
    requires
        !(look.intent is Restore),
        found(look.identifier, reply) matches Ok(Some(info)) && info.status
            == SandboxStatus::Running,
        backend.after_look_up(look, reply, now, next),
    ensures
        next is Done || next is Failed,
        backend.sends(next) is None,
{
}

/// A sandbox is created for a request only where none is there already.
pub proof fn law_acquire_creates_only_what_is_missing(
    backend: TensorlakeBackendHandle,
    look: LookUp,
    reply: Reply<SandboxInfo>,
    now: TimeSpan,
    next: Step,
)
    requires
        look.intent is Acquire,
        next is Create,
        backend.after_look_up(look, reply, now, next),
    ensures
        found(look.identifier, reply) == Ok::<Option<SandboxInfo>, BackendError>(None),
{
}

/// The step neither restores a sandbox nor makes room for a restored one.
pub open spec fn spares_sandboxes(step: Step) -> bool {
    match step {
        Step::LookUp(look) => !(look.intent is Restore),
        Step::Evict(_) => false,
        _ => true,
    }
}

/// Only a restore deletes a sandbox.
pub proof fn law_only_a_restore_deletes(
    backend: TensorlakeBackendHandle,
    steps: Seq<Step>,
    i: int,
)
    requires
        is_run(steps),
        spares_sandboxes(steps.first()),
        0 <= i < steps.len(),
    ensures
        match backend.sends(steps[i]) {
            Some((method, _)) => method != Method::Delete,
            None => true,
        },
{
    lemma_spares_sandboxes(steps, i);
}

proof fn lemma_spares_sandboxes(steps: Seq<Step>, i: int)
    requires
        is_run(steps),
        spares_sandboxes(steps.first()),
        0 <= i < steps.len(),
    ensures
        spares_sandboxes(steps[i]),
    decreases i,
{
    if i > 0 {
        lemma_spares_sandboxes(steps, i - 1);
        assert(follows(steps[i - 1], steps[i - 1 + 1]));
    }
}

/// A restore deletes the sandbox that holds its name before it creates one, and
/// creates one at once where none does.
pub proof fn law_restore_evicts_first(
    backend: TensorlakeBackendHandle,
    look: LookUp,
    body: CreateSandboxBody,
    reply: Reply<SandboxInfo>,
    now: TimeSpan,
    next: Step,
)
    requires
        look.intent == (Intent::Restore { body }),
        found(look.identifier, reply) is Ok,
        backend.after_look_up(look, reply, now, next),
    ensures
        next == (if found(look.identifier, reply)->Ok_0 is Some {
            Step::Evict(Evict { name: look.identifier, body })
        } else {
            Step::Create(Create { attempt: 0, body })
        }),
{
}

/// Waiting does not go on past the deadline: a look that comes back at or after
/// it ends the wait, unless the sandbox has just been found suspended and is
/// still to be resumed.
pub proof fn law_waiting_ends(
    backend: TensorlakeBackendHandle,
    poll: Poll,
    reply: Reply<SandboxInfo>,
    now: TimeSpan,
    next: Step,
)
    requires
        now.total() >= poll.deadline,
        backend.after_poll(poll, reply, now, next),
    ensures
        next is Done || next is Failed || (next is PollResume && !poll.resumed),
{
}

} // verus!
