//! What holds of a sandbox from its creation to its end.
use vstd::prelude::*;

use crate::api::{CreateSandboxBody, ProcessInfo, TensorlakeSnapshotManifest};
use crate::backend::{requested_name, TensorlakeSandboxBackend};
use crate::error::optional;
use crate::handle::{
    judged, Placement, ProxyAttempt, ProxyCallError, Session, TensorlakeSandboxHandle, Verdict,
    PROXY_ATTEMPTS,
};
use crate::http::{ApiRequest, Method, Reply};
use crate::lifecycle::{Intent, LookUp, Step};
use crate::lifecycle_laws::{creates_from, is_run, law_restore_never_reuses};
use crate::process::{starts, StartedProcess};
use crate::run::{ends_run, RunEnd};
use crate::sandbox::{SandboxCommand, SandboxCommandOutput, SandboxRequest};

verus! {

/// One try at a command, and what came of it.
pub struct Try<T> {
    pub attempt: ProxyAttempt,
    pub result: Result<T, ProxyCallError>,
}

impl<T> Try<T> {
    pub open spec fn verdict(self) -> Verdict<T> {
        judged(self.attempt, self.result).0
    }
}

/// The tries at one command: each but the first came because the one before it
/// called for another.
pub open spec fn is_retried<T>(tries: Seq<Try<T>>) -> bool {
    &&& tries.len() > 0
    &&& tries.first().attempt.number == 0
    &&& forall|i: int|
        #![trigger tries[i]]
        0 <= i < tries.len() - 1 ==> tries[i].verdict() == Verdict::<T>::TryAgain(
            tries[i + 1].attempt,
        )
}

proof fn lemma_tries_are_numbered<T>(tries: Seq<Try<T>>, i: int)
    requires
        is_retried(tries),
        0 <= i < tries.len(),
    ensures
        tries[i].attempt.number == i,
        i > 0 ==> i < PROXY_ATTEMPTS,
        tries[i].attempt.cwd == tries[0].attempt.cwd,
    decreases i,
{
    if i > 0 {
        lemma_tries_are_numbered(tries, i - 1);
        assert(tries[i - 1].verdict() == Verdict::<T>::TryAgain(tries[i - 1 + 1].attempt));
    }
}

/// A command is tried no more than twice, every time in the same directory.
pub proof fn law_a_command_is_tried_at_most_twice<T>(tries: Seq<Try<T>>)
    requires
        is_retried(tries),
    ensures
        tries.len() <= PROXY_ATTEMPTS,
        forall|i: int|
            0 <= i < tries.len() ==> (#[trigger] tries[i]).attempt.cwd == tries[0].attempt.cwd,
{
    lemma_tries_are_numbered(tries, tries.len() - 1);
    assert forall|i: int| 0 <= i < tries.len() implies (#[trigger] tries[i]).attempt.cwd
        == tries[0].attempt.cwd by {
        lemma_tries_are_numbered(tries, i);
    }
}

/// A command is tried again only where the sandbox was out of reach.
pub proof fn law_only_an_unreachable_sandbox_is_tried_again<T>(tries: Seq<Try<T>>, i: int)
    requires
        is_retried(tries),
        0 <= i < tries.len() - 1,
    ensures
        tries[i].result matches Err(ProxyCallError::Unavailable(_)),
{
    assert(tries[i].verdict() == Verdict::<T>::TryAgain(tries[i + 1].attempt));
}

/// A command that has begun to run is never sent again, however its events end.
pub proof fn law_a_running_command_is_not_sent_again(
    command: SandboxCommand,
    cwd: String,
    end: RunEnd,
    tries: Seq<Try<SandboxCommandOutput>>,
    i: int,
)
    requires
        is_retried(tries),
        0 <= i < tries.len(),
        ends_run(command, cwd, end, tries[i].result),
    ensures
        i == tries.len() - 1,
        tries[i].verdict() is Return,
{
    if i < tries.len() - 1 {
        law_only_an_unreachable_sandbox_is_tried_again(tries, i);
    }
}

/// A process whose start the sandbox has confirmed is never started again, even
/// where the answer cannot be read.
pub proof fn law_a_started_process_is_not_started_again(
    base_url: Seq<char>,
    reply: Reply<ProcessInfo>,
    tries: Seq<Try<StartedProcess>>,
    i: int,
)
    requires
        is_retried(tries),
        0 <= i < tries.len(),
        starts(base_url, reply, tries[i].result),
        reply matches Reply::Answered { status, .. } && status.succeeded(),
    ensures
        i == tries.len() - 1,
        tries[i].verdict() is Return,
{
    if i < tries.len() - 1 {
        law_only_an_unreachable_sandbox_is_tried_again(tries, i);
    }
}

/// After a try that found the sandbox out of reach, whether or not it was the
/// last, the next command looks for the sandbox first.
pub proof fn law_a_lost_sandbox_is_looked_for<T>(
    handle: TensorlakeSandboxHandle,
    session: Session,
    tried: Try<T>,
    marked: Session,
)
    requires
        judged(tried.attempt, tried.result).1,
        marked == (Session { target: session.target, live: false }),
    ensures
        tried.result matches Err(ProxyCallError::Unavailable(_)),
        handle.placed(marked) == Placement::Unknown(
            Step::LookUp(
                LookUp { identifier: handle.identifier(session.target), intent: Intent::Refresh },
            ),
        ),
{
}

/// A handle belongs to the sandbox that a request asks for.
pub open spec fn is_for(
    handle: TensorlakeSandboxHandle,
    backend: TensorlakeSandboxBackend,
    request: SandboxRequest,
) -> bool {
    &&& optional(handle.name) == requested_name(request)
    &&& handle.backend == backend.handle()
}

/// Stopping a resumable sandbox suspends the very sandbox that the next acquire
/// of the same request looks for.
pub proof fn law_acquire_looks_for_what_stop_suspended(
    backend: TensorlakeSandboxBackend,
    request: SandboxRequest,
    handle: TensorlakeSandboxHandle,
    step: Step,
)
    requires
        is_for(handle, backend, request),
        request.lifecycle.idle_ttl is Some,
        backend.begins(request, step),
    ensures
        handle.name matches Some(name) && {
            &&& step matches Step::LookUp(look) && look.identifier@ == name@
            &&& backend.handle().sends(step) == Some(
                (Method::Get, handle.backend.sandbox_endpoint(name@)),
            )
        },
{
}

/// Terminating a request deletes the very sandbox that an acquire of it looks
/// for.
pub proof fn law_terminate_deletes_what_acquire_looks_for(
    backend: TensorlakeSandboxBackend,
    request: SandboxRequest,
    step: Step,
    sent: ApiRequest,
)
    requires
        backend.begins(request, step),
        requested_name(request) matches Some(name) && sent.is(
            Method::Delete,
            backend.handle().sandbox_endpoint(name),
        ),
    ensures
        backend.handle().sends(step) == Some((Method::Get, sent.url@)),
{
}

/// The body that a step creates a sandbox from, or would.
pub open spec fn body_of(step: Step) -> Option<CreateSandboxBody> {
    match step {
        Step::LookUp(LookUp { intent: Intent::Acquire { body }, .. }) => Some(body),
        Step::LookUp(LookUp { intent: Intent::Restore { body }, .. }) => Some(body),
        Step::Evict(evict) => Some(evict.body),
        Step::Create(create) | Step::Backoff(create) => Some(create.body),
        _ => None,
    }
}

/// What is kept of a snapshot is enough to restore it: the restore asks for
/// that snapshot, and for no image.
pub proof fn law_a_snapshot_can_be_restored(
    backend: TensorlakeSandboxBackend,
    request: SandboxRequest,
    handle: TensorlakeSandboxHandle,
    snapshot_id: String,
    manifest: TensorlakeSnapshotManifest,
    step: Step,
)
    requires
        manifest == (TensorlakeSnapshotManifest { snapshot_id, sandbox_name: handle.name }),
        backend.begins_restore(request, manifest.snapshot_id, step),
    ensures
        body_of(step) matches Some(body) && body.snapshot_id == Some(snapshot_id) && body.image
            is None,
{
}

/// Where a restore ends with a sandbox, that sandbox was created on the way,
/// from the snapshot and under the name of the request. One that held the name
/// before is not used.
pub proof fn law_a_restored_sandbox_boots_from_its_snapshot(
    backend: TensorlakeSandboxBackend,
    request: SandboxRequest,
    snapshot_id: String,
    steps: Seq<Step>,
)
    requires
        is_run(steps),
        backend.begins_restore(request, snapshot_id, steps.first()),
        steps.last() is Done,
    ensures
        exists|i: int|
            0 <= i < steps.len() && #[trigger] boots_from(
                backend,
                request,
                snapshot_id,
                steps[i],
            ),
{
    match steps.first() {
        Step::LookUp(LookUp { intent: Intent::Restore { body }, .. }) => {
            law_restore_never_reuses(steps, body);
            let i = choose|i: int| 0 <= i < steps.len() && creates_from(#[trigger] steps[i], body);
            assert(boots_from(backend, request, snapshot_id, steps[i]));
        },
        _ => {
            assert(boots_from(backend, request, snapshot_id, steps[0]));
        },
    }
}

/// The step creates the sandbox for a request from a snapshot.
pub open spec fn boots_from(
    backend: TensorlakeSandboxBackend,
    request: SandboxRequest,
    snapshot_id: String,
    step: Step,
) -> bool {
    step matches Step::Create(create) && backend.restores(
        request,
        requested_name(request),
        snapshot_id,
        create.body,
    )
}

/// A sandbox without a name is asked for without an idle time, and one with a
/// name with at least a second of it.
pub proof fn law_only_named_sandboxes_have_an_idle_time(
    backend: TensorlakeSandboxBackend,
    request: SandboxRequest,
    step: Step,
)
    requires
        backend.begins(request, step),
    ensures
        body_of(step) matches Some(body) && match body.timeout_secs {
            Some(secs) => body.name is Some && secs >= 1,
            None => body.name is None,
        },
{
}

} // verus!
