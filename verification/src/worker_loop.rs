//! The loop that serves requests from a queue with a worker, one after another, until the queue
//! is closed.
//!
//! Queue, card and reply channels are outside. Each action names what to do with them; what came
//! of it comes back as an event.
use vstd::prelude::*;

use crate::daemon::{
    CardCommand, CardEvent, Session, StepView, Worker, WorkerRequest, WorkerStep, WorkerView,
};
use crate::protocol::{EcdhError, EcdhResult, ProbeKeyResult};

verus! {

/// Where the loop stands.
pub enum WorkerLoop {
    /// Waiting for a request, with the session if there is one.
    Receiving(Option<Session>),
    /// Waiting for the card to carry out a command.
    Serving(Worker),
    /// Sending the answer to a request.
    Replying(Option<Session>),
    /// Over.
    Stopped,
}

/// A [`WorkerLoop`] with the worker as its view.
pub enum LoopView {
    Receiving(Option<Session>),
    Serving(WorkerView),
    Replying(Option<Session>),
    Stopped,
}

impl View for WorkerLoop {
    type V = LoopView;

    open spec fn view(&self) -> LoopView {
        match *self {
            WorkerLoop::Receiving(session) => LoopView::Receiving(session),
            WorkerLoop::Serving(worker) => LoopView::Serving(worker@),
            WorkerLoop::Replying(session) => LoopView::Replying(session),
            WorkerLoop::Stopped => LoopView::Stopped,
        }
    }
}

/// What came of an action.
pub enum LoopEvent {
    Received(WorkerRequest),
    /// The queue is closed, and empty.
    Closed,
    Card(CardEvent),
    /// Whether the answer found its receiver.
    Sent(bool),
}

/// The answer to a request.
pub enum Answer {
    ProbeKey(ProbeKeyResult),
    Ecdh(EcdhResult),
}

/// What to do next.
pub enum LoopAction {
    /// Wait for the next request.
    Receive,
    Command(CardCommand),
    /// Send the answer to the request; the card's handle is kept or dropped.
    Reply { answer: Answer, keep_card: bool },
    Stop,
}

/// A [`LoopAction`] as plain sequences. A command or an answer is a step of the worker.
pub enum LoopActionView {
    Receive,
    Command(StepView),
    Reply { answer: StepView, keep_card: bool },
    Stop,
}

impl View for LoopAction {
    type V = LoopActionView;

    open spec fn view(&self) -> LoopActionView {
        match *self {
            LoopAction::Receive => LoopActionView::Receive,
            LoopAction::Command(command) => LoopActionView::Command(
                WorkerStep::Command(command)@,
            ),
            LoopAction::Reply { answer: Answer::ProbeKey(r), keep_card } => LoopActionView::Reply {
                answer: WorkerStep::ProbeKeyReply(r)@,
                keep_card,
            },
            LoopAction::Reply { answer: Answer::Ecdh(r), keep_card } => LoopActionView::Reply {
                answer: WorkerStep::EcdhReply(r)@,
                keep_card,
            },
            LoopAction::Stop => LoopActionView::Stop,
        }
    }
}

/// The loop and what to do next.
pub type LoopMove = (LoopView, LoopActionView);

/// What the loop does about a turn of the worker: an idle worker has answered.
pub open spec fn turned(turn: crate::daemon::Turn) -> LoopMove {
    match turn.0 {
        WorkerView::Idle(session) => (
            LoopView::Replying(session),
            LoopActionView::Reply { answer: turn.1, keep_card: session is Some },
        ),
        worker => (LoopView::Serving(worker), LoopActionView::Command(turn.1)),
    }
}

/// The first thing to do.
pub open spec fn begun() -> LoopMove {
    (LoopView::Receiving(None), LoopActionView::Receive)
}

/// Whether `event` is what the loop waits for.
pub open spec fn loop_awaits(state: LoopView, event: LoopEvent) -> bool {
    match state {
        LoopView::Receiving(_) => event is Received || event is Closed,
        LoopView::Serving(worker) => event matches LoopEvent::Card(e) && crate::daemon::awaits(
            worker,
            e,
        ),
        LoopView::Replying(_) => event is Sent,
        LoopView::Stopped => false,
    }
}

/// What the loop does about an event. An answer that found no receiver does not stop it.
pub open spec fn looped(state: LoopView, event: LoopEvent) -> LoopMove {
    match (state, event) {
        (LoopView::Receiving(session), LoopEvent::Received(request)) => turned(
            crate::daemon::accepted(session, request),
        ),
        (LoopView::Receiving(_), LoopEvent::Closed) => (LoopView::Stopped, LoopActionView::Stop),
        (LoopView::Serving(worker), LoopEvent::Card(e)) => turned(
            crate::daemon::resumed(worker, e),
        ),
        (LoopView::Replying(session), LoopEvent::Sent(_)) => (
            LoopView::Receiving(session),
            LoopActionView::Receive,
        ),
        _ => arbitrary(),
    }
}

fn turn(worker: Worker, step: WorkerStep) -> (t: (WorkerLoop, LoopAction))
    requires
        worker@ is Idle <==> crate::daemon_laws::is_reply(step@),
    ensures
        (t.0@, t.1@) == turned((worker@, step@)),
{
    match (worker, step) {
        (Worker::Idle(session), WorkerStep::ProbeKeyReply(r)) => {
            let keep_card = session.is_some();
            (
                WorkerLoop::Replying(session),
                LoopAction::Reply { answer: Answer::ProbeKey(r), keep_card },
            )
        },
        (Worker::Idle(session), WorkerStep::EcdhReply(r)) => {
            let keep_card = session.is_some();
            (
                WorkerLoop::Replying(session),
                LoopAction::Reply { answer: Answer::Ecdh(r), keep_card },
            )
        },
        (worker, WorkerStep::Command(command)) => {
            (WorkerLoop::Serving(worker), LoopAction::Command(command))
        },
        _ => vstd::pervasive::unreached(),
    }
}

/// Begins the loop: without a session, waiting for a request.
pub fn begin() -> (t: (WorkerLoop, LoopAction))
    ensures
        (t.0@, t.1@) == begun(),
{
    (WorkerLoop::Receiving(None), LoopAction::Receive)
}

impl WorkerLoop {
    /// Whether `event` is what the loop waits for.
    pub fn awaits(&self, event: &LoopEvent) -> (r: bool)
        ensures
            r == loop_awaits(self@, *event),
    {
        match self {
            WorkerLoop::Receiving(_) => matches!(
                event,
                LoopEvent::Received(_) | LoopEvent::Closed
            ),
            WorkerLoop::Serving(worker) => match event {
                LoopEvent::Card(e) => worker.awaits(e),
                _ => false,
            },
            WorkerLoop::Replying(_) => matches!(event, LoopEvent::Sent(_)),
            WorkerLoop::Stopped => false,
        }
    }
}

/// Receives requests and handles interaction with a YubiKey: goes on with the loop after an
/// event.
pub fn yubikey_worker(state: WorkerLoop, event: LoopEvent) -> (t: (WorkerLoop, LoopAction))
    requires
        loop_awaits(state@, event),
    ensures
        (t.0@, t.1@) == looped(state@, event),
{
    match (state, event) {
        (WorkerLoop::Receiving(session), LoopEvent::Received(request)) => {
            proof {
                crate::daemon_laws::law_every_request_is_answered(
                    WorkerView::Idle(session),
                    request,
                    CardEvent::PinVerified(Ok(())),
                );
            }
            let (worker, step) = Worker::Idle(session).accept(request);
            turn(worker, step)
        },
        (WorkerLoop::Receiving(_), LoopEvent::Closed) => (WorkerLoop::Stopped, LoopAction::Stop),
        (WorkerLoop::Serving(worker), LoopEvent::Card(e)) => {
            proof {
                crate::daemon_laws::law_every_request_is_answered(
                    worker@,
                    WorkerRequest::ProbeKey(arbitrary()),
                    e,
                );
            }
            let (worker, step) = worker.resume(e);
            turn(worker, step)
        },
        (WorkerLoop::Replying(session), LoopEvent::Sent(_)) => {
            (WorkerLoop::Receiving(session), LoopAction::Receive)
        },
        _ => vstd::pervasive::unreached(),
    }
}

/// Where the loop stands, and what it does next, after some events.
pub open spec fn after(events: Seq<LoopEvent>) -> LoopMove
    decreases events.len(),
{
    if events.len() == 0 {
        begun()
    } else {
        looped(after(events.drop_last()).0, events.last())
    }
}

/// Whether every event was one waited for.
pub open spec fn orderly(events: Seq<LoopEvent>) -> bool
    decreases events.len(),
{
    events.len() > 0 ==> {
        &&& orderly(events.drop_last())
        &&& loop_awaits(after(events.drop_last()).0, events.last())
    }
}

/// The requests received, in order.
pub open spec fn requests(events: Seq<LoopEvent>) -> Seq<WorkerRequest>
    decreases events.len(),
{
    if events.len() == 0 {
        seq![]
    } else {
        match events.last() {
            LoopEvent::Received(request) => requests(events.drop_last()).push(request),
            _ => requests(events.drop_last()),
        }
    }
}

/// The answers given, in order.
pub open spec fn answers(events: Seq<LoopEvent>) -> Seq<StepView>
    decreases events.len(),
{
    if events.len() == 0 {
        seq![]
    } else {
        match after(events).1 {
            LoopActionView::Reply { answer, .. } => answers(events.drop_last()).push(answer),
            _ => answers(events.drop_last()),
        }
    }
}

/// How many events came from the card.
pub open spec fn card_events(events: Seq<LoopEvent>) -> nat
    decreases events.len(),
{
    if events.len() == 0 {
        0
    } else {
        card_events(events.drop_last()) + if events.last() is Card {
            1nat
        } else {
            0
        }
    }
}

/// Whether an answer is of the kind that a request asks for.
pub open spec fn fits(request: WorkerRequest, answer: StepView) -> bool {
    match request {
        WorkerRequest::ProbeKey(_) => answer is ProbeKeyReply,
        WorkerRequest::Ecdh { .. } => answer is EcdhReply,
    }
}

/// Whether a worker is busy with a request: with its key, and, up to the card's multiplication,
/// with its ephemeral key.
pub open spec fn serves(worker: WorkerView, request: WorkerRequest) -> bool {
    match worker {
        WorkerView::Idle(_) => false,
        WorkerView::Opening(r) => r == request,
        WorkerView::Probing(_, key) => request == WorkerRequest::ProbeKey(key),
        WorkerView::CheckingPin(_, key, pk) | WorkerView::ReadingKey(_, key, pk) => {
            &&& request matches WorkerRequest::Ecdh { key: k, ephemeral_pubkey, .. }
            &&& k == key
            &&& ephemeral_pubkey@ == pk
        },
        WorkerView::Agreeing(_, key, _) => {
            request matches WorkerRequest::Ecdh { key: k, .. } && k == key
        },
    }
}

proof fn lemma_accepted(session: Option<Session>, request: WorkerRequest)
    ensures
        ({
            let (worker, step) = crate::daemon::accepted(session, request);
            &&& worker is Idle <==> crate::daemon_laws::is_reply(step)
            &&& worker is Idle ==> fits(request, step)
            &&& worker !is Idle ==> serves(worker, request)
            &&& crate::daemon_laws::events_ahead(worker) <= 4
            &&& crate::daemon_laws::well_formed(worker)
        }),
{
}

proof fn lemma_resumed(worker: WorkerView, request: WorkerRequest, event: CardEvent)
    requires
        serves(worker, request),
        crate::daemon_laws::well_formed(worker),
        crate::daemon::awaits(worker, event),
    ensures
        ({
            let (next, step) = crate::daemon::resumed(worker, event);
            &&& next is Idle <==> crate::daemon_laws::is_reply(step)
            &&& next is Idle ==> fits(request, step)
            &&& next !is Idle ==> serves(next, request)
            &&& crate::daemon_laws::events_ahead(next) < crate::daemon_laws::events_ahead(worker)
            &&& crate::daemon_laws::well_formed(next)
        }),
{
}

/// Of every run of the loop: each request gets exactly one answer, of its kind, before the next
/// request is received, so the answers come in the order of the requests. At most the last
/// request is still being served, and then the worker is busy with that request and waits for an
/// event. A request costs at most four events from the card.
pub proof fn law_each_request_is_answered_in_order(events: Seq<LoopEvent>)
    requires
        orderly(events),
    ensures
        match after(events).0 {
            LoopView::Serving(worker) => {
                &&& requests(events).len() == answers(events).len() + 1
                &&& serves(worker, requests(events).last())
                &&& crate::daemon_laws::well_formed(worker)
            },
            _ => requests(events).len() == answers(events).len(),
        },
        forall|i: int|
            0 <= i < answers(events).len() ==> fits(
                requests(events)[i],
                #[trigger] answers(events)[i],
            ),
        after(events).0 is Replying <==> after(events).1 is Reply,
        card_events(events) + (match after(events).0 {
            LoopView::Serving(worker) => crate::daemon_laws::events_ahead(worker),
            _ => 0,
        }) <= 4 * requests(events).len(),
    decreases events.len(),
{
    if events.len() > 0 {
        let before = events.drop_last();
        law_each_request_is_answered_in_order(before);
        match (after(before).0, events.last()) {
            (LoopView::Receiving(session), LoopEvent::Received(request)) => {
                lemma_accepted(session, request);
            },
            (LoopView::Serving(worker), LoopEvent::Card(e)) => {
                lemma_resumed(worker, requests(before).last(), e);
            },
            _ => {},
        }
        assert forall|i: int| 0 <= i < answers(events).len() implies fits(
            requests(events)[i],
            #[trigger] answers(events)[i],
        ) by {
            if i < answers(before).len() {
                assert(answers(events)[i] == answers(before)[i]);
            }
        }
    }
}

/// The session of the loop, if it has one.
pub open spec fn session_in(state: LoopView) -> Option<Session> {
    match state {
        LoopView::Receiving(session) | LoopView::Replying(session) => session,
        LoopView::Serving(worker) => crate::daemon_laws::session_of(worker),
        LoopView::Stopped => None,
    }
}

/// Whether an answer says that there is no card: it was lost, or could not be opened.
pub open spec fn says_no_card(answer: StepView) -> bool {
    ||| crate::daemon_laws::is_disconnection(answer)
    ||| answer == StepView::ProbeKeyReply(ProbeKeyResult::ChipUnavailable)
}

/// Whether an action tells a client that there is no card.
pub open spec fn reports_no_card(action: LoopActionView) -> bool {
    action matches LoopActionView::Reply { answer, .. } && says_no_card(answer)
}

/// In every run, the PIN stays verified for the lifetime of the session: once a session is
/// verified, it stays the session, and verified, until a client is told that there is no card
/// or the loop ends; meanwhile the card is asked to check no PIN, and no client for one.
pub proof fn law_pin_stays_verified_in_every_run(
    events: Seq<LoopEvent>,
    start: int,
    session: Session,
)
    requires
        orderly(events),
        0 <= start <= events.len(),
        session_in(after(events.take(start)).0) == Some(session),
        session.pin_verified,
        forall|k: int|
            start < k <= events.len() ==> !reports_no_card((#[trigger] after(events.take(k))).1)
                && after(events.take(k)).0 !is Stopped,
    ensures
        session_in(after(events).0) == Some(session),
        start < events.len() ==> {
            let action = after(events).1;
            &&& !(action matches LoopActionView::Command(step) && step is VerifyPin)
            &&& !(action matches LoopActionView::Reply { answer, .. } && answer
                == StepView::EcdhReply(Err(EcdhError::NeedPin)))
        },
    decreases events.len(),
{
    assert(events.take(events.len() as int) =~= events);
    if start < events.len() {
        let before = events.drop_last();
        assert(before.take(start) =~= events.take(start));
        assert forall|k: int| start < k <= before.len() implies !reports_no_card(
            (#[trigger] after(before.take(k))).1,
        ) && after(before.take(k)).0 !is Stopped by {
            assert(before.take(k) =~= events.take(k));
        }
        law_pin_stays_verified_in_every_run(before, start, session);
        assert(!reports_no_card(after(events.take(events.len() as int)).1));
    }
}

/// In every run, a verified session was verified by the card: the card accepted the PIN, and the
/// session has been the same since.
pub proof fn law_only_the_card_verifies_in_every_run(events: Seq<LoopEvent>, session: Session)
    requires
        orderly(events),
        session_in(after(events).0) == Some(session),
        session.pin_verified,
    ensures
        exists|k: int|
            0 <= k < events.len() && is_pin_accepted(#[trigger] events[k]) && forall|j: int|
                k < j <= events.len() ==> session_in((#[trigger] after(events.take(j))).0) == Some(
                    session,
                ),
    decreases events.len(),
{
    assert(events.take(events.len() as int) =~= events);
    let before = events.drop_last();
    let last = events.len() - 1;
    if session_in(after(before).0) == Some(session) {
        law_only_the_card_verifies_in_every_run(before, session);
        let k = choose|k: int|
            0 <= k < before.len() && is_pin_accepted(#[trigger] before[k]) && forall|j: int|
                k < j <= before.len() ==> session_in((#[trigger] after(before.take(j))).0) == Some(
                    session,
                );
        assert(is_pin_accepted(events[k]));
        assert forall|j: int| k < j <= events.len() implies session_in(
            (#[trigger] after(events.take(j))).0,
        ) == Some(session) by {
            if j < events.len() {
                assert(before.take(j) =~= events.take(j));
                assert(session_in(after(before.take(j)).0) == Some(session));
            }
        }
    } else {
        assert(is_pin_accepted(events[last]));
        assert forall|j: int| last < j <= events.len() implies session_in(
            (#[trigger] after(events.take(j))).0,
        ) == Some(session) by {}
    }
}

/// Whether an event is that the card accepted a PIN.
pub open spec fn is_pin_accepted(event: LoopEvent) -> bool {
    event matches LoopEvent::Card(CardEvent::PinVerified(Ok(_)))
}

/// In every run, the card is opened exactly when a request comes while there is no session; and
/// there is none exactly before the first answer and after one that says that there is no card.
pub proof fn law_card_opened_exactly_when_needed(events: Seq<LoopEvent>)
    requires
        orderly(events),
    ensures
        after(events).1 == LoopActionView::Command(StepView::Open) <==> {
            let answered = answers(events.drop_last());
            &&& events.len() > 0
            &&& events.last() is Received
            &&& answered.len() == 0 || says_no_card(answered.last())
        },
        after(events).0 is Receiving || after(events).0 is Replying ==> (session_in(
            after(events).0,
        ) is None <==> answers(events).len() == 0 || says_no_card(answers(events).last())),
    decreases events.len(),
{
    if events.len() > 0 {
        let before = events.drop_last();
        law_card_opened_exactly_when_needed(before);
        law_each_request_is_answered_in_order(before);
    }
}

/// In every run, the card multiplies only for the request being served, an ECDH request: with its
/// slot and its ephemeral key, on the YubiKey that it names, with the PIN verified, and with the
/// key that its tag names.
pub proof fn law_ecdh_is_authorised_in_every_run(events: Seq<LoopEvent>, slot: u8, point: Seq<u8>)
    requires
        orderly(events),
        after(events).1 == LoopActionView::Command((StepView::Decrypt { slot, point })),
    ensures
        ({
            &&& requests(events).len() > 0
            &&& requests(events).last() matches WorkerRequest::Ecdh { key, ephemeral_pubkey, .. }
            &&& slot == key.slot
            &&& crate::daemon::is_retired_slot(slot)
            &&& point == crate::keys::p256_uncompressed(ephemeral_pubkey@)
            &&& after(events).0 matches LoopView::Serving(
                WorkerView::Agreeing(session, _, recipient_pubkey),
            )
            &&& session.serial == key.serial
            &&& session.pin_verified
            &&& crate::daemon::recipient_tag(recipient_pubkey) == key.tag@
        }),
{
    law_each_request_is_answered_in_order(events);
    if events.len() > 0 {
        law_each_request_is_answered_in_order(events.drop_last());
    }
}

/// The loop ends when the queue is closed, and only then; every request was answered by then.
pub proof fn law_loop_ends_with_the_queue(events: Seq<LoopEvent>)
    requires
        orderly(events),
    ensures
        after(events).0 is Stopped <==> events.len() > 0 && events.last() is Closed,
        after(events).1 is Stop <==> after(events).0 is Stopped,
        after(events).0 is Stopped ==> requests(events).len() == answers(events).len(),
        forall|i: int| 0 <= i < events.len() - 1 ==> (#[trigger] events[i]) !is Closed,
    decreases events.len(),
{
    law_each_request_is_answered_in_order(events);
    if events.len() > 0 {
        let before = events.drop_last();
        law_loop_ends_with_the_queue(before);
        assert forall|i: int| 0 <= i < events.len() - 1 implies (#[trigger] events[i]) !is Closed by {
            assert(before[i] == events[i]);
        }
    }
}

/// An answer whose receiver is gone does not stop the loop, nor change what it does later.
pub proof fn law_lost_answer_changes_nothing(state: LoopView, sent: bool)
    requires
        state is Replying,
    ensures
        looped(state, LoopEvent::Sent(sent)) == (
            LoopView::Receiving(state->Replying_0),
            LoopActionView::Receive,
        ),
{
}

/// The card's handle is dropped exactly when the worker has no session.
pub proof fn law_handle_follows_the_session(events: Seq<LoopEvent>, answer: StepView, keep: bool)
    requires
        orderly(events),
        after(events).1 == (LoopActionView::Reply { answer, keep_card: keep }),
    ensures
        after(events).0 matches LoopView::Replying(session) && (keep <==> session is Some),
{
    law_each_request_is_answered_in_order(events);
}

/// Whether a move of the loop passes a turn of the worker on: the same command to the card, with
/// the worker waiting; or the same answer to the client, with the worker's session kept, and the
/// card's handle with it.
pub open spec fn passes_on(
    worker: Worker,
    step: WorkerStep,
    next: WorkerLoop,
    action: LoopAction,
) -> bool {
    match step {
        WorkerStep::Command(command) => {
            &&& next matches WorkerLoop::Serving(w)
            &&& w@ == worker@
            &&& action matches LoopAction::Command(passed)
            &&& match command {
                CardCommand::Open => passed is Open,
                CardCommand::VerifyPin(pin) => passed matches CardCommand::VerifyPin(p) && p@
                    == pin@,
                CardCommand::ReadCertificate(slot) => passed == CardCommand::ReadCertificate(slot),
                CardCommand::Decrypt { slot, point } => passed matches CardCommand::Decrypt {
                    slot: s,
                    point: p,
                } && s == slot && p@ == point@,
            }
        },
        WorkerStep::ProbeKeyReply(result) => {
            &&& worker matches Worker::Idle(session)
            &&& next == WorkerLoop::Replying(session)
            &&& action == (LoopAction::Reply {
                answer: Answer::ProbeKey(result),
                keep_card: session is Some,
            })
        },
        WorkerStep::EcdhReply(result) => {
            &&& worker matches Worker::Idle(session)
            &&& next == WorkerLoop::Replying(session)
            &&& action matches LoopAction::Reply { answer: Answer::Ecdh(r), keep_card }
            &&& keep_card == (session is Some)
            &&& match result {
                Ok(response) => r matches Ok(passed) && passed.shared_secret@
                    == response.shared_secret@ && passed.recipient_pubkey@
                    == response.recipient_pubkey@,
                Err(e) => r matches Err(passed) && passed == e,
            }
        },
    }
}

/// The loop hands every request to the worker with the session that it has, and every event of the
/// card to the worker that waits for it, and passes on what the worker does.
pub proof fn law_loop_passes_the_workers_turn_on(
    session: Option<Session>,
    request: WorkerRequest,
    waiting: Worker,
    event: CardEvent,
    worker: Worker,
    step: WorkerStep,
    next: WorkerLoop,
    action: LoopAction,
)
    ensures
        (worker@, step@) == crate::daemon::accepted(session, request) && (next@, action@) == looped(
            WorkerLoop::Receiving(session)@,
            LoopEvent::Received(request),
        ) ==> passes_on(worker, step, next, action),
        crate::daemon::awaits(waiting@, event) && (worker@, step@) == crate::daemon::resumed(
            waiting@,
            event,
        ) && (next@, action@) == looped(
            WorkerLoop::Serving(waiting)@,
            LoopEvent::Card(event),
        ) ==> passes_on(worker, step, next, action),
{
    crate::daemon_laws::law_every_request_is_answered(WorkerView::Idle(session), request, event);
    crate::daemon_laws::law_every_request_is_answered(waiting@, request, event);
}

/// After an answer was sent or lost, the loop waits for the next request with the session that it
/// had; it begins without a session, and a closed queue ends it.
pub proof fn law_loop_waits_with_its_session(
    session: Option<Session>,
    sent: bool,
    next: WorkerLoop,
    action: LoopAction,
)
    ensures
        (next@, action@) == looped(WorkerLoop::Replying(session)@, LoopEvent::Sent(sent)) ==> next
            == WorkerLoop::Receiving(session) && action == LoopAction::Receive,
        (next@, action@) == begun() ==> next == WorkerLoop::Receiving(None) && action
            == LoopAction::Receive,
        (next@, action@) == looped(WorkerLoop::Receiving(session)@, LoopEvent::Closed) ==> next
            == WorkerLoop::Stopped && action == LoopAction::Stop,
{
}

/// Whether an event says what came of an action.
pub open spec fn comes_of(action: LoopAction, event: LoopEvent) -> bool {
    match action {
        LoopAction::Receive => event is Received || event is Closed,
        LoopAction::Command(command) => event matches LoopEvent::Card(e)
            && crate::daemon_laws::comes_of(command, e),
        LoopAction::Reply { .. } => event is Sent,
        LoopAction::Stop => false,
    }
}

/// The loop waits for what comes of its last action, whatever that is, and for nothing else.
pub proof fn law_what_comes_of_an_action_is_awaited(
    events: Seq<LoopEvent>,
    state: WorkerLoop,
    action: LoopAction,
    event: LoopEvent,
)
    requires
        orderly(events),
        (state@, action@) == after(events),
    ensures
        loop_awaits(state@, event) <==> comes_of(action, event),
{
    law_each_request_is_answered_in_order(events);
    law_loop_ends_with_the_queue(events);
}

} // verus!
