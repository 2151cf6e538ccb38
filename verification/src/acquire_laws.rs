//! What each answer of the platform comes to while a sandbox is brought up,
//! said of the functions that decide it.
use vstd::prelude::*;

use crate::api::{
    CreateSandboxResponse, SandboxInfo, SandboxStatus, SnapshotSandboxBody, SnapshotSandboxResponse,
};
use crate::error::{Activity, BackendError, Operation};
use crate::http::{ApiRequest, HttpStatus, Method, Reply, ReplyBody};
use crate::lifecycle::{
    decode_json_response, Create, Evict, Intent, LookUp, Poll, PollResume, Resume, Step,
    TensorlakeBackendHandle, TensorlakeSandboxTarget,
};
use crate::sandbox::TimeSpan;
use crate::text::CharClass;
use crate::text_laws::{lemma_trimmed_end_cuts, runs_out_in};

verus! {

/// The status says that the request was carried out.
pub open spec fn is_two_hundreds(status: HttpStatus) -> bool {
    200 <= status.number() <= 299
}

/// The answer says `value`.
pub open spec fn says<T>(reply: Reply<T>, value: T) -> bool {
    reply matches Reply::Answered { status, body: ReplyBody::Text { parsed: Ok(said), .. } }
        && is_two_hundreds(status) && said == value
}

/// The answer has this status.
pub open spec fn has_status<T>(reply: Reply<T>, code: u16) -> bool {
    reply matches Reply::Answered { status, .. } && status.number() == code
}

/// The answer says that the request was carried out.
pub open spec fn is_carried_out<T>(reply: Reply<T>) -> bool {
    reply matches Reply::Answered { status, .. } && is_two_hundreds(status)
}

/// The answer turns the request down with `status` and `text`.
pub open spec fn turns_down<T>(reply: Reply<T>, status: HttpStatus, text: Seq<char>) -> bool {
    &&& !is_two_hundreds(status)
    &&& match reply {
        Reply::Answered { status: given, body: ReplyBody::Text { text: said, .. } } => given
            == status && said@ == text,
        Reply::Answered { status: given, body: ReplyBody::Unreadable { .. } } => given == status
            && text == Seq::<char>::empty(),
        Reply::Unsent { .. } => false,
    }
}

/// The error says that `operation` was turned down with `status` and `text`.
pub open spec fn tells_refusal(
    error: BackendError,
    operation: Operation,
    status: HttpStatus,
    text: Seq<char>,
) -> bool {
    error matches BackendError::Refused { operation: o, status: s, body } && o == operation && s
        == status && body@ == text
}

/// An answer came, and it does not say what was asked.
pub open spec fn says_nothing<T>(reply: Reply<T>) -> bool {
    &&& reply is Answered
    &&& !(reply matches Reply::Answered { status, body: ReplyBody::Text { parsed: Ok(_), .. } }
        && is_two_hundreds(status))
}

/// The error tells why an answer does not say what was asked: its body broke
/// off, the request was turned down, or the body is something else.
pub open spec fn tells_why<T>(reply: Reply<T>, operation: Operation, error: BackendError) -> bool {
    match reply {
        Reply::Unsent { .. } => false,
        Reply::Answered { body: ReplyBody::Unreadable { cause }, .. } => error
            == (BackendError::UnreadableBody { operation, cause }),
        Reply::Answered { status, body: ReplyBody::Text { text, parsed } } => if !is_two_hundreds(
            status,
        ) {
            error == (BackendError::Refused { operation, status, body: text })
        } else {
            parsed matches Err(cause) && error == (BackendError::Undecodable {
                operation,
                body: text,
                cause,
            })
        },
    }
}

/// The moment three minutes after `now`, in nanoseconds.
pub open spec fn three_minutes_after(now: TimeSpan) -> int {
    now.secs * 1_000_000_000 + now.nanos + 180_000_000_000
}

/// `now` comes before the deadline of a wait.
pub open spec fn is_before(now: TimeSpan, deadline: u128) -> bool {
    now.secs * 1_000_000_000 + now.nanos < deadline
}

/// The sandbox is on its way from one state to another.
pub open spec fn is_in_between(status: SandboxStatus) -> bool {
    status is Pending || status is Snapshotting || status is Suspending
}

/// Exactly the statuses from 200 to 299 are successes, and a status is the code
/// that it was made from.
pub proof fn law_success_is_two_hundreds(
    code: u16,
    status: HttpStatus,
    shown: u16,
    success: bool,
)
    requires
        call_ensures(HttpStatus::new, (code,), Some(status)),
        call_ensures(HttpStatus::as_u16, (status,), shown),
        call_ensures(HttpStatus::is_success, (status,), success),
    ensures
        shown == code,
        100 <= code <= 999,
        success == (200 <= code <= 299),
{
}

/// An answer is read as what it says exactly if it is a success and its body is
/// what was promised. Else the error says which of the three went wrong: the
/// body broke off, the request was turned down, or the body is something else.
pub proof fn law_answers_are_read_as_they_are<T>(
    status: HttpStatus,
    body: ReplyBody<T>,
    operation: Operation,
    res: Result<T, BackendError>,
)
    requires
        call_ensures(decode_json_response::<T>, (status, body, operation), res),
    ensures
        res is Ok <==> is_two_hundreds(status) && (body matches ReplyBody::Text { parsed: Ok(_), .. }),
        res matches Ok(value) ==> says(Reply::Answered { status, body }, value),
        res matches Err(error) ==> tells_why(Reply::Answered { status, body }, operation, error),
{
}

/// The text of a body that broke off is empty, and any other is kept.
pub proof fn law_a_body_shows_its_text<T>(body: ReplyBody<T>, shown: String)
    requires
        call_ensures(ReplyBody::<T>::into_text, (body,), shown),
    ensures
        body is Unreadable ==> shown@.len() == 0,
        body matches ReplyBody::Text { text, .. } ==> shown@ == text@,
{
}

/// `target` is where a running sandbox is reached: where the configuration says,
/// else where the platform says, without the slashes at the end.
pub open spec fn is_target_of(
    backend: TensorlakeBackendHandle,
    info: SandboxInfo,
    target: TensorlakeSandboxTarget,
) -> bool {
    &&& target.sandbox_id == info.id
    &&& match backend.sandbox_base_url {
        Some(url) => target.base_url@ == url@,
        None => info.sandbox_url matches Some(url) && runs_out_in(
            url@,
            target.base_url@,
            |c: char| c == '/',
        ),
    }
}

/// A running sandbox is reached under its own id, where the configuration says,
/// else where the platform says. Without either it cannot be reached.
pub proof fn law_a_sandbox_is_reached_where_it_runs(
    backend: &TensorlakeBackendHandle,
    info: &SandboxInfo,
    res: Result<TensorlakeSandboxTarget, BackendError>,
)
    requires
        call_ensures(TensorlakeBackendHandle::target_for, (backend, info), res),
    ensures
        res is Ok <==> backend.sandbox_base_url is Some || info.sandbox_url is Some,
        res matches Ok(target) ==> is_target_of(*backend, *info, target),
        res matches Err(error) ==> error == (BackendError::NoSandboxUrl { sandbox_id: info.id }),
{
    if let Some(url) = info.sandbox_url {
        lemma_trimmed_end_cuts(url@, CharClass::Slash);
        lemma_slash_class();
    }
}

proof fn lemma_slash_class()
    ensures
        (|c: char| CharClass::Slash.has(c)) =~= (|c: char| c == '/'),
{
}

/// `next` is the end of a run with the running sandbox of `info`.
pub open spec fn ends_with(
    backend: TensorlakeBackendHandle,
    info: SandboxInfo,
    next: Step,
) -> bool {
    match next {
        Step::Done(target) => is_target_of(backend, info, target),
        Step::Failed(error) => {
            &&& error == (BackendError::NoSandboxUrl { sandbox_id: info.id })
            &&& backend.sandbox_base_url is None
            &&& info.sandbox_url is None
        },
        _ => false,
    }
}

/// `next` waits for a sandbox, for three minutes from now on, and knows whether
/// a resume has been sent.
pub open spec fn awaits(id: String, resumed: bool, now: TimeSpan, next: Step) -> bool {
    next matches Step::Poll(poll) && {
        &&& poll.sandbox_id == id
        &&& poll.resumed == resumed
        &&& poll.deadline == three_minutes_after(now)
    }
}

/// `next` is the way to running for a sandbox that is there: none if it runs, a
/// resume if it is suspended, patience while it is in between.
pub open spec fn is_the_way_up(
    backend: TensorlakeBackendHandle,
    info: SandboxInfo,
    now: TimeSpan,
    next: Step,
) -> bool {
    &&& info.status is Running ==> ends_with(backend, info, next)
    &&& info.status is Suspended ==> (next matches Step::Resume(resume) && resume.sandbox_id
        == info.id)
    &&& is_in_between(info.status) ==> awaits(info.id, false, now, next)
    &&& info.status is Terminated ==> next == Step::Failed(
        BackendError::Terminated { sandbox_id: info.id },
    )
}

/// A sandbox that is there is brought up from the state that it is in.
pub proof fn law_a_sandbox_is_brought_up_from_its_state(
    backend: &TensorlakeBackendHandle,
    info: SandboxInfo,
    now: TimeSpan,
    next: Step,
)
    requires
        call_ensures(TensorlakeBackendHandle::drive_to_running, (backend, info, now), next),
    ensures
        is_the_way_up(*backend, info, now, next),
{
    if let Some(url) = info.sandbox_url {
        lemma_trimmed_end_cuts(url@, CharClass::Slash);
        lemma_slash_class();
    }
}

/// Nothing is there: no sandbox of that name, or one that is terminated.
pub open spec fn is_absent(reply: Reply<SandboxInfo>) -> bool {
    ||| has_status(reply, 404)
    ||| reply matches Reply::Answered { status, body: ReplyBody::Text { parsed: Ok(info), .. } }
        && is_two_hundreds(status) && info.status is Terminated
}

/// A look for a sandbox finds it, or finds that it is absent, or fails. Nothing
/// but a missing or a terminated sandbox counts as absent.
pub proof fn law_a_look_finds_what_is_there(
    identifier: String,
    reply: Reply<SandboxInfo>,
    res: Result<Option<SandboxInfo>, BackendError>,
)
    requires
        call_ensures(TensorlakeBackendHandle::sandbox_found, (identifier, reply), res),
    ensures
        res == Ok::<Option<SandboxInfo>, BackendError>(None) <==> is_absent(reply),
        res matches Ok(Some(info)) ==> says(reply, info) && !(info.status is Terminated),
        forall|info: SandboxInfo|
            #![trigger says(reply, info)]
            says(reply, info) && !(info.status is Terminated) ==> res == Ok::<
                Option<SandboxInfo>,
                BackendError,
            >(Some(info)),
        res is Err <==> !is_absent(reply) && !(reply matches Reply::Answered {
            status,
            body: ReplyBody::Text { parsed: Ok(_), .. },
        } && is_two_hundreds(status)),
        reply matches Reply::Unsent { cause } ==> res == Err::<Option<SandboxInfo>, _>(
            BackendError::Transport { activity: Activity::Fetching { identifier }, cause },
        ),
{
}

/// A look that finds a sandbox leads to it, unless it is to be replaced: then it
/// is deleted by the name that it was looked for.
pub proof fn law_a_found_sandbox_is_used_or_replaced(
    backend: &TensorlakeBackendHandle,
    look: LookUp,
    reply: Reply<SandboxInfo>,
    info: SandboxInfo,
    now: TimeSpan,
    next: Step,
)
    requires
        call_ensures(TensorlakeBackendHandle::looked_up, (backend, look, reply, now), next),
        says(reply, info),
        !(info.status is Terminated),
    ensures
        look.intent is Acquire ==> is_the_way_up(*backend, info, now, next),
        look.intent is Refresh ==> is_the_way_up(*backend, info, now, next),
        look.intent matches Intent::Restore { body } ==> (next matches Step::Evict(evict)
            && evict.name == look.identifier && evict.body == body),
{
    if let Some(url) = info.sandbox_url {
        lemma_trimmed_end_cuts(url@, CharClass::Slash);
        lemma_slash_class();
    }
}

/// A look that finds nothing leads to a first attempt to create the sandbox that
/// was asked for, unless it was there before: then it is gone.
pub proof fn law_a_missing_sandbox_is_created_or_gone(
    backend: &TensorlakeBackendHandle,
    look: LookUp,
    reply: Reply<SandboxInfo>,
    now: TimeSpan,
    next: Step,
)
    requires
        call_ensures(TensorlakeBackendHandle::looked_up, (backend, look, reply, now), next),
        is_absent(reply),
    ensures
        look.intent matches Intent::Acquire { body } ==> (next matches Step::Create(create)
            && create.attempt == 0 && create.body == body),
        look.intent matches Intent::Restore { body } ==> (next matches Step::Create(create)
            && create.attempt == 0 && create.body == body),
        look.intent is Refresh ==> next == Step::Failed(
            BackendError::Gone { identifier: look.identifier },
        ),
{
}

/// A look that fails ends the run with what went wrong, whatever it was for.
pub proof fn law_a_failed_look_ends_the_run(
    backend: &TensorlakeBackendHandle,
    look: LookUp,
    reply: Reply<SandboxInfo>,
    now: TimeSpan,
    next: Step,
)
    requires
        call_ensures(TensorlakeBackendHandle::looked_up, (backend, look, reply, now), next),
    ensures
        reply matches Reply::Unsent { cause } ==> next == Step::Failed(
            BackendError::Transport {
                activity: Activity::Fetching { identifier: look.identifier },
                cause,
            },
        ),
        says_nothing(reply) && !has_status(reply, 404) ==> (next matches Step::Failed(error)
            && tells_why(reply, Operation::GetSandbox, error)),
{
}

/// What was in the way is out of it when the delete was carried out and also
/// when there was nothing to delete. Any other answer ends the run.
pub proof fn law_an_evicted_sandbox_makes_room(evict: Evict, reply: Reply<()>, next: Step)
    requires
        call_ensures(TensorlakeBackendHandle::evicted, (evict, reply), next),
    ensures
        is_carried_out(reply) || has_status(reply, 404) ==> (next matches Step::Create(create)
            && create.attempt == 0 && create.body == evict.body),
        reply matches Reply::Unsent { cause } ==> next == Step::Failed(
            BackendError::Transport {
                activity: Activity::Deleting { identifier: evict.name },
                cause,
            },
        ),
        forall|status: HttpStatus, text: Seq<char>|
            #![trigger turns_down(reply, status, text)]
            turns_down(reply, status, text) && status.number() != 404 ==> (next matches Step::Failed(
                error,
            ) && tells_refusal(error, Operation::DeleteSandbox, status, text)),
{
}

/// A name that is taken is tried again a second later, four times over, with the
/// same body. A create that was carried out is awaited, and any other answer
/// ends the run.
pub proof fn law_a_create_is_repeated_only_for_a_taken_name(
    create: Create,
    reply: Reply<CreateSandboxResponse>,
    now: TimeSpan,
    next: Step,
    delay: Option<u64>,
)
    requires
        call_ensures(TensorlakeBackendHandle::created, (create, reply, now), next),
        call_ensures(Step::delay_millis, (&next,), delay),
    ensures
        next is Backoff <==> has_status(reply, 409) && create.attempt <= 3,
        next matches Step::Backoff(again) ==> {
            &&& again.attempt == create.attempt + 1
            &&& again.body == create.body
            &&& delay == Some(1000u64)
        },
        has_status(reply, 409) && create.attempt >= 4 ==> (next matches Step::Failed(
            BackendError::NameConflict { name, last },
        ) && name == create.body.name && match reply {
            Reply::Answered { body: ReplyBody::Text { text, .. }, .. } => last@ == text@,
            _ => last@.len() == 0,
        }),
        forall|response: CreateSandboxResponse|
            #![trigger says(reply, response)]
            says(reply, response) ==> awaits(response.sandbox_id, false, now, next),
        reply matches Reply::Unsent { cause } ==> next == Step::Failed(
            BackendError::Transport { activity: Activity::Creating, cause },
        ),
        says_nothing(reply) && !has_status(reply, 409) ==> (next matches Step::Failed(error)
            && tells_why(reply, Operation::CreateSandbox, error)),
{
}

/// A sandbox whose resume was carried out is awaited, and no other resume is
/// sent for it. Any other answer ends the run.
pub proof fn law_a_resumed_sandbox_is_awaited(
    resume: Resume,
    reply: Reply<()>,
    now: TimeSpan,
    next: Step,
)
    requires
        call_ensures(TensorlakeBackendHandle::resumed, (resume, reply, now), next),
    ensures
        is_carried_out(reply) ==> awaits(resume.sandbox_id, true, now, next),
        reply matches Reply::Unsent { cause } ==> next == Step::Failed(
            BackendError::Transport {
                activity: Activity::Resuming { identifier: resume.sandbox_id },
                cause,
            },
        ),
        forall|status: HttpStatus, text: Seq<char>|
            #![trigger turns_down(reply, status, text)]
            turns_down(reply, status, text) ==> (next matches Step::Failed(error) && tells_refusal(
                error,
                Operation::ResumeSandbox,
                status,
                text,
            )),
{
}

/// While a sandbox is awaited, a resume is sent only in answer to a look that
/// reports exactly `suspended`, and only if none was sent before. It keeps the
/// deadline.
pub proof fn law_only_a_suspended_sandbox_is_resumed(
    backend: &TensorlakeBackendHandle,
    poll: Poll,
    reply: Reply<SandboxInfo>,
    now: TimeSpan,
    next: Step,
)
    requires
        call_ensures(TensorlakeBackendHandle::polled, (backend, poll, reply, now), next),
    ensures
        !(next is Resume),
        next is PollResume <==> !poll.resumed && (reply matches Reply::Answered {
            status,
            body: ReplyBody::Text { parsed: Ok(info), .. },
        } && is_two_hundreds(status) && info.status is Suspended),
        next matches Step::PollResume(resume) ==> resume.sandbox_id == poll.sandbox_id
            && resume.deadline == poll.deadline,
{
}

/// A sandbox that is on its way is looked at again after half a second, with
/// nothing sent in between, until the deadline. The same holds of one that is
/// still suspended after its resume.
pub proof fn law_a_sandbox_on_its_way_is_waited_for(
    backend: &TensorlakeBackendHandle,
    poll: Poll,
    reply: Reply<SandboxInfo>,
    info: SandboxInfo,
    now: TimeSpan,
    next: Step,
    delay: Option<u64>,
    sent: Option<ApiRequest>,
    woken: Step,
)
    requires
        call_ensures(TensorlakeBackendHandle::polled, (backend, poll, reply, now), next),
        call_ensures(Step::delay_millis, (&next,), delay),
        call_ensures(TensorlakeBackendHandle::request, (backend, &next), sent),
        call_ensures(Step::woken, (next,), woken),
        says(reply, info),
        is_in_between(info.status) || (info.status is Suspended && poll.resumed),
    ensures
        is_before(now, poll.deadline) ==> {
            &&& next == Step::Pause(poll)
            &&& delay == Some(500u64)
            &&& sent is None
            &&& woken == Step::Poll(poll)
        },
        !is_before(now, poll.deadline) ==> next == Step::Failed(
            BackendError::NotReady {
                sandbox_id: poll.sandbox_id,
                status: info.status,
                pending_reason: info.pending_reason,
            },
        ),
{
}

/// A look at a sandbox that is awaited ends the wait when it runs and when it is
/// terminated, however late it is, and so does a look that fails.
pub proof fn law_a_wait_ends_with_the_sandbox(
    backend: &TensorlakeBackendHandle,
    poll: Poll,
    reply: Reply<SandboxInfo>,
    now: TimeSpan,
    next: Step,
)
    requires
        call_ensures(TensorlakeBackendHandle::polled, (backend, poll, reply, now), next),
    ensures
        forall|info: SandboxInfo|
            #![trigger says(reply, info)]
            says(reply, info) && info.status is Running ==> ends_with(*backend, info, next),
        forall|info: SandboxInfo|
            #![trigger says(reply, info)]
            says(reply, info) && info.status is Terminated ==> next == Step::Failed(
                BackendError::TerminatedWhileStarting {
                    sandbox_id: poll.sandbox_id,
                    outcome: info.outcome,
                },
            ),
        reply matches Reply::Unsent { cause } ==> next == Step::Failed(
            BackendError::Transport {
                activity: Activity::Polling { sandbox_id: poll.sandbox_id },
                cause,
            },
        ),
        says_nothing(reply) ==> (next matches Step::Failed(error) && tells_why(
            reply,
            Operation::GetSandbox,
            error,
        )),
{
    if let Reply::Answered { body: ReplyBody::Text { parsed: Ok(info), .. }, .. } = reply {
        if let Some(url) = info.sandbox_url {
            lemma_trimmed_end_cuts(url@, CharClass::Slash);
            lemma_slash_class();
        }
    }
}

/// A sandbox that was resumed while it was awaited goes on being awaited until
/// the same deadline, and no other resume is sent for it.
pub proof fn law_a_resume_on_the_way_keeps_the_deadline(
    resume: PollResume,
    reply: Reply<()>,
    now: TimeSpan,
    next: Step,
)
    requires
        call_ensures(TensorlakeBackendHandle::poll_resumed, (resume, reply, now), next),
    ensures
        is_carried_out(reply) && is_before(now, resume.deadline) ==> (next matches Step::Pause(
            poll,
        ) && poll.sandbox_id == resume.sandbox_id && poll.resumed && poll.deadline
            == resume.deadline),
        is_carried_out(reply) && !is_before(now, resume.deadline) ==> next == Step::Failed(
            BackendError::NotReady {
                sandbox_id: resume.sandbox_id,
                status: SandboxStatus::Suspended,
                pending_reason: resume.pending_reason,
            },
        ),
        reply matches Reply::Unsent { cause } ==> next == Step::Failed(
            BackendError::Transport {
                activity: Activity::Resuming { identifier: resume.sandbox_id },
                cause,
            },
        ),
        forall|status: HttpStatus, text: Seq<char>|
            #![trigger turns_down(reply, status, text)]
            turns_down(reply, status, text) ==> (next matches Step::Failed(error) && tells_refusal(
                error,
                Operation::ResumeSandbox,
                status,
                text,
            )),
{
}

/// The reason that the platform gives for a wait is the one that is told when
/// the wait runs out, also across a resume.
pub proof fn law_the_reason_for_a_wait_is_kept(
    backend: &TensorlakeBackendHandle,
    poll: Poll,
    reply: Reply<SandboxInfo>,
    info: SandboxInfo,
    now: TimeSpan,
    resume: PollResume,
)
    requires
        call_ensures(
            TensorlakeBackendHandle::polled,
            (backend, poll, reply, now),
            Step::PollResume(resume),
        ),
        says(reply, info),
    ensures
        resume.pending_reason == info.pending_reason,
{
}

/// Only pauses take time, and a pause leads back to the step before it.
pub proof fn law_pauses_lead_back(step: Step, delay: Option<u64>, woken: Step)
    requires
        call_ensures(Step::delay_millis, (&step,), delay),
        call_ensures(Step::woken, (step,), woken),
    ensures
        delay is Some <==> step is Pause || step is Backoff,
        step is Pause ==> delay == Some(500u64),
        step is Backoff ==> delay == Some(1000u64),
        step matches Step::Pause(poll) ==> woken == Step::Poll(poll),
        step matches Step::Backoff(create) ==> woken == Step::Create(create),
        delay is None ==> woken == step,
{
}

/// The URL stands for a sandbox of the platform, or for an action on it.
pub open spec fn is_url_of(
    backend: TensorlakeBackendHandle,
    identifier: String,
    action: Seq<char>,
    url: String,
) -> bool {
    url@ =~= backend.api_url@ + "/sandboxes/"@ + identifier@ + action
}

/// Every step sends its own request to the sandbox that it is about; pauses and
/// ends send none.
pub proof fn law_every_step_sends_its_own_request(
    backend: &TensorlakeBackendHandle,
    step: &Step,
    sent: Option<ApiRequest>,
)
    requires
        call_ensures(TensorlakeBackendHandle::request, (backend, step), sent),
    ensures
        step matches Step::LookUp(look) ==> (sent matches Some(r) && r.method == Method::Get
            && is_url_of(*backend, look.identifier, Seq::empty(), r.url)),
        step matches Step::Evict(evict) ==> (sent matches Some(r) && r.method == Method::Delete
            && is_url_of(*backend, evict.name, Seq::empty(), r.url)),
        step is Create ==> (sent matches Some(r) && r.method == Method::Post && r.url@
            =~= backend.api_url@ + "/sandboxes"@),
        step matches Step::Resume(resume) ==> (sent matches Some(r) && r.method == Method::Post
            && is_url_of(*backend, resume.sandbox_id, "/resume"@, r.url)),
        step matches Step::Poll(poll) ==> (sent matches Some(r) && r.method == Method::Get
            && is_url_of(*backend, poll.sandbox_id, Seq::empty(), r.url)),
        step matches Step::PollResume(resume) ==> (sent matches Some(r) && r.method == Method::Post
            && is_url_of(*backend, resume.sandbox_id, "/resume"@, r.url)),
        step is Backoff || step is Pause || step is Done || step is Failed ==> sent is None,
{
}

/// `res` is what a request came to of which only the status matters.
pub open spec fn is_outcome(
    reply: Reply<()>,
    activity: Activity,
    operation: Operation,
    res: Result<(), BackendError>,
) -> bool {
    &&& is_carried_out(reply) ==> res is Ok
    &&& reply matches Reply::Unsent { cause } ==> res == Err::<(), _>(
        BackendError::Transport { activity, cause },
    )
    &&& forall|status: HttpStatus, text: Seq<char>|
        #![trigger turns_down(reply, status, text)]
        turns_down(reply, status, text) && !(operation is DeleteSandbox && status.number() == 404)
            ==> (res matches Err(error) && tells_refusal(error, operation, status, text))
}

/// A delete, a suspend and a resume are done exactly if they were carried out;
/// a sandbox that is not there counts as deleted, and as nothing else.
pub proof fn law_only_a_delete_bears_a_missing_sandbox(
    identifier: String,
    reply: Reply<()>,
    deleted: Result<(), BackendError>,
    suspended: Result<(), BackendError>,
    resumed: Result<(), BackendError>,
)
    requires
        call_ensures(TensorlakeBackendHandle::sandbox_deleted, (identifier, reply), deleted),
        call_ensures(TensorlakeBackendHandle::sandbox_suspended, (identifier, reply), suspended),
        call_ensures(TensorlakeBackendHandle::sandbox_resumed, (identifier, reply), resumed),
    ensures
        deleted is Ok <==> is_carried_out(reply) || has_status(reply, 404),
        suspended is Ok <==> is_carried_out(reply),
        resumed is Ok <==> is_carried_out(reply),
        is_outcome(
            reply,
            Activity::Deleting { identifier },
            Operation::DeleteSandbox,
            deleted,
        ),
        is_outcome(
            reply,
            Activity::Suspending { identifier },
            Operation::SuspendSandbox,
            suspended,
        ),
        is_outcome(reply, Activity::Resuming { identifier }, Operation::ResumeSandbox, resumed),
{
}

/// A snapshot has the id that the platform gives it. It captures the file
/// system of the sandbox that was asked for.
pub proof fn law_a_snapshot_is_known_by_its_id(
    backend: &TensorlakeBackendHandle,
    sandbox_id: String,
    asked: &str,
    sent: (ApiRequest, SnapshotSandboxBody),
    reply: Reply<SnapshotSandboxResponse>,
    res: Result<String, BackendError>,
)
    requires
        asked@ == sandbox_id@,
        call_ensures(TensorlakeBackendHandle::snapshot_sandbox, (backend, asked), sent),
        call_ensures(TensorlakeBackendHandle::snapshot_taken, (sandbox_id, reply), res),
    ensures
        sent.0.method == Method::Post,
        is_url_of(*backend, sandbox_id, "/snapshot"@, sent.0.url),
        sent.1.snapshot_type@ == "filesystem"@,
        forall|response: SnapshotSandboxResponse|
            #![trigger says(reply, response)]
            says(reply, response) ==> res == Ok::<String, BackendError>(response.snapshot_id),
        res matches Ok(id) ==> is_carried_out(reply),
        reply matches Reply::Unsent { cause } ==> res == Err::<String, _>(
            BackendError::Transport { activity: Activity::Snapshotting { sandbox_id }, cause },
        ),
        says_nothing(reply) ==> (res matches Err(error) && tells_why(
            reply,
            Operation::SnapshotSandbox,
            error,
        )),
{
}

/// The requests for one sandbox go to its own URL.
pub proof fn law_requests_go_to_the_sandbox(
    backend: &TensorlakeBackendHandle,
    identifier: String,
    asked: &str,
    got: ApiRequest,
    deleted: ApiRequest,
    suspended: ApiRequest,
    resumed: ApiRequest,
)
    requires
        asked@ == identifier@,
        call_ensures(TensorlakeBackendHandle::get_sandbox, (backend, asked), got),
        call_ensures(TensorlakeBackendHandle::delete_sandbox, (backend, asked), deleted),
        call_ensures(TensorlakeBackendHandle::suspend_sandbox, (backend, asked), suspended),
        call_ensures(TensorlakeBackendHandle::resume_sandbox, (backend, asked), resumed),
    ensures
        got.method == Method::Get && is_url_of(*backend, identifier, Seq::empty(), got.url),
        deleted.method == Method::Delete && is_url_of(
            *backend,
            identifier,
            Seq::empty(),
            deleted.url,
        ),
        suspended.method == Method::Post && is_url_of(
            *backend,
            identifier,
            "/suspend"@,
            suspended.url,
        ),
        resumed.method == Method::Post && is_url_of(*backend, identifier, "/resume"@, resumed.url),
{
}

/// Waiting, resuming and creating begin as their names say.
pub proof fn law_beginnings(
    sandbox_id: String,
    resumed: bool,
    now: TimeSpan,
    body: crate::api::CreateSandboxBody,
    waits: Step,
    polls: Step,
    resumes: Step,
    creates: Step,
)
    requires
        call_ensures(TensorlakeBackendHandle::wait_until_running, (sandbox_id, now), waits),
        call_ensures(
            TensorlakeBackendHandle::poll_until_running,
            (sandbox_id, resumed, now),
            polls,
        ),
        call_ensures(TensorlakeBackendHandle::resume_and_wait, (sandbox_id,), resumes),
        call_ensures(TensorlakeBackendHandle::create_and_wait, (body,), creates),
    ensures
        awaits(sandbox_id, false, now, waits),
        awaits(sandbox_id, resumed, now, polls),
        resumes matches Step::Resume(resume) && resume.sandbox_id == sandbox_id,
        creates matches Step::Create(create) && create.attempt == 0 && create.body == body,
{
}

} // verus!
