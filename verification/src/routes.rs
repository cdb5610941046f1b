//! The request handlers, as decision logic.
//!
//! Serving one subscription request is a small state machine: the core
//! decides, the surrounding server performs the one suspending action (the
//! insert) and reports back. The machine issues at most one insert per
//! request, and every step it takes is logged under the request's
//! correlation context.

use vstd::prelude::*;
use vstd::string::StringExecFns;
use crate::correlation::CorrelationContext;
use crate::correlation::LogRecord;
use crate::correlation::tagged_by;
use crate::outside::current_timestamp;
use crate::outside::fresh_id;
use crate::submission::ValidatedSubscriber;
use crate::submission::accepted;
use crate::submission::decide_submission;
use crate::submission::spec_email_chars;
use crate::submission::spec_name_chars;

verus! {

/// An HTTP outcome as the core produces it: a status code and a body.
///
/// Internal error detail never reaches the client: every constructor in this
/// crate keeps the body empty.
pub struct Response {
    pub status: u16,
    pub body: Vec<u8>,
}

/// Liveness probe: always succeeds with an empty body and consults no storage.
pub fn health_check() -> (r: Response)
    ensures
        r.status == 200,
        r.body@.len() == 0,
{
    Response { status: 200, body: Vec::new() }
}

/// Where one subscription request stands.
pub enum Phase {
    /// Nothing decided yet.
    Ready,
    /// The record was handed out for persistence; the reply waits on the
    /// store's answer.
    Storing(ValidatedSubscriber),
    /// The reply is settled.
    Done(u16),
}

/// What the surrounding server reports to the core.
pub enum Event {
    /// The request body arrived.
    Body(Vec<u8>),
    /// The insert succeeded.
    Stored,
    /// The insert failed; the detail is kept for the log only.
    StoreFailed(String),
}

/// What the core asks the surrounding server to do next.
pub enum Action {
    /// Run the single parameterized insert for this record.
    Insert(ValidatedSubscriber),
    /// Send this reply to the client.
    Respond(Response),
    /// Nothing: the event did not fit the phase.
    Idle,
}

/// Whether `v` is exactly the record that validating `body` under the
/// identifier `id` and clock reading `ts` yields.
pub open spec fn decided_record(
    body: Seq<u8>,
    id: Seq<char>,
    ts: Seq<char>,
    v: ValidatedSubscriber,
) -> bool {
    &&& v.id@ == id
    &&& v.subscribed_at@ == ts
    &&& v.name@ == spec_name_chars(body)
    &&& v.email@ == spec_email_chars(body)
}

/// The machine's step relation: what phase and action follow from one event,
/// given the identifier and clock reading the request runs under.
pub open spec fn step_rel(
    pre: Phase,
    ev: Event,
    id: Seq<char>,
    ts: Seq<char>,
    post: Phase,
    act: Action,
) -> bool {
    match (pre, ev) {
        (Phase::Ready, Event::Body(body)) => {
            if accepted(body@) {
                match (post, act) {
                    (Phase::Storing(v), Action::Insert(w)) => decided_record(body@, id, ts, v)
                        && decided_record(body@, id, ts, w),
                    _ => false,
                }
            } else {
                match (post, act) {
                    (Phase::Done(s), Action::Respond(resp)) => s == 400 && resp.status == 400
                        && resp.body@.len() == 0,
                    _ => false,
                }
            }
        },
        (Phase::Ready, _) => post is Ready && act is Idle,
        (Phase::Storing(v), Event::Stored) => {
            match (post, act) {
                (Phase::Done(s), Action::Respond(resp)) => s == 200 && resp.status == 200
                    && resp.body@.len() == 0,
                _ => false,
            }
        },
        (Phase::Storing(v), Event::StoreFailed(detail)) => {
            match (post, act) {
                (Phase::Done(s), Action::Respond(resp)) => s == 500 && resp.status == 500
                    && resp.body@.len() == 0,
                _ => false,
            }
        },
        (Phase::Storing(v), Event::Body(b)) => {
            match (post, act) {
                (Phase::Storing(w), Action::Idle) => w == v,
                _ => false,
            }
        },
        (Phase::Done(s), _) => {
            match (post, act) {
                (Phase::Done(t), Action::Idle) => t == s,
                _ => false,
            }
        },
    }
}

/// One step of serving a subscription request, under a supplied identifier
/// and clock reading. Every record logged is tagged with the request's
/// correlation context, and every step that does something logs exactly one
/// line.
pub fn subscription_step(
    phase: Phase,
    event: Event,
    id: String,
    subscribed_at: String,
    ctx: &CorrelationContext,
) -> (r: (Phase, Action, Vec<LogRecord>))
    ensures
        step_rel(phase, event, id@, subscribed_at@, r.0, r.1),
        forall|i: int| 0 <= i < r.2@.len() ==> #[trigger] tagged_by(r.2@[i], *ctx),
        r.1 is Idle <==> r.2@.len() == 0,
        !(r.1 is Idle) ==> r.2@.len() == 1,
{
    match (phase, event) {
        (Phase::Ready, Event::Body(body)) => {
            match decide_submission(&body, id, subscribed_at) {
                Ok(v) => {
                    let w = v.duplicate();
                    let mut logs: Vec<LogRecord> = Vec::new();
                    logs.push(
                        ctx.emit(
                            String::from_str("Saving new subscriber details in the database"),
                        ),
                    );
                    (Phase::Storing(v), Action::Insert(w), logs)
                },
                Err(_) => {
                    let mut logs: Vec<LogRecord> = Vec::new();
                    logs.push(
                        ctx.emit(String::from_str("Rejecting an ill-formed submission")),
                    );
                    (
                        Phase::Done(400),
                        Action::Respond(Response { status: 400, body: Vec::new() }),
                        logs,
                    )
                },
            }
        },
        (Phase::Ready, _) => (Phase::Ready, Action::Idle, Vec::new()),
        (Phase::Storing(v), Event::Stored) => {
            let mut logs: Vec<LogRecord> = Vec::new();
            logs.push(ctx.emit(String::from_str("New subscriber details have been saved")));
            (Phase::Done(200), Action::Respond(Response { status: 200, body: Vec::new() }), logs)
        },
        (Phase::Storing(v), Event::StoreFailed(detail)) => {
            let mut logs: Vec<LogRecord> = Vec::new();
            let message = String::from_str("Failed to execute query: ").concat(detail.as_str());
            logs.push(ctx.emit(message));
            (Phase::Done(500), Action::Respond(Response { status: 500, body: Vec::new() }), logs)
        },
        (Phase::Storing(v), Event::Body(_)) => (Phase::Storing(v), Action::Idle, Vec::new()),
        (Phase::Done(s), _) => (Phase::Done(s), Action::Idle, Vec::new()),
    }
}

/// One step of serving a live request: the identifier and timestamp are
/// drawn fresh, as a real request draws them.
pub fn subscription_step_now(phase: Phase, event: Event, ctx: &CorrelationContext) -> (r: (
    Phase,
    Action,
    Vec<LogRecord>,
))
    ensures
        exists|id: Seq<char>, ts: Seq<char>|
            step_rel(phase, event, id, ts, r.0, r.1) && id.len() == 36,
        forall|i: int| 0 <= i < r.2@.len() ==> #[trigger] tagged_by(r.2@[i], *ctx),
        r.1 is Idle <==> r.2@.len() == 0,
        !(r.1 is Idle) ==> r.2@.len() == 1,
{
    let id = fresh_id();
    let subscribed_at = current_timestamp();
    let ghost idv = id@;
    let ghost tsv = subscribed_at@;
    let r = subscription_step(phase, event, id, subscribed_at, ctx);
    proof {
        assert(step_rel(phase, event, idv, tsv, r.0, r.1) && idv.len() == 36);
    }
    r
}

/// A step under some identifier and clock reading: the shape of any step
/// the machine can take.
pub open spec fn step_rel_some(pre: Phase, ev: Event, post: Phase, act: Action) -> bool {
    exists|id: Seq<char>, ts: Seq<char>| step_rel(pre, ev, id, ts, post, act)
}

/// Whether these phases, events and actions are one run of the machine.
pub open spec fn valid_trace(phases: Seq<Phase>, events: Seq<Event>, actions: Seq<Action>) -> bool {
    &&& phases.len() == events.len() + 1
    &&& actions.len() == events.len()
    &&& forall|i: int| 0 <= i < events.len() ==> step_rel_some(
        phases[i],
        events[i],
        phases[i + 1],
        #[trigger] actions[i],
    )
}

/// How many insert commands a run of actions carries.
pub open spec fn insert_count(actions: Seq<Action>) -> nat
    decreases actions.len(),
{
    if actions.len() == 0 {
        0
    } else {
        (if actions[0] is Insert {
            1nat
        } else {
            0nat
        }) + insert_count(actions.drop_first())
    }
}

/// Once a request has left `Ready`, no step can issue an insert or lead
/// back to `Ready`.
proof fn lemma_step_from_settled(pre: Phase, ev: Event, post: Phase, act: Action)
    requires
        step_rel_some(pre, ev, post, act),
        !(pre is Ready),
    ensures
        !(post is Ready),
        !(act is Insert),
{
    let (id, ts) = choose|id: Seq<char>, ts: Seq<char>| step_rel(pre, ev, id, ts, post, act);
}

/// In a run that starts anywhere but `Ready`, no insert is ever issued.
proof fn lemma_no_insert_when_settled(phases: Seq<Phase>, events: Seq<Event>, actions: Seq<Action>)
    requires
        valid_trace(phases, events, actions),
        !(phases[0] is Ready),
    ensures
        insert_count(actions) == 0,
    decreases events.len(),
{
    if events.len() > 0 {
        lemma_step_from_settled(phases[0], events[0], phases[1], actions[0]);
        let p2 = phases.drop_first();
        let e2 = events.drop_first();
        let a2 = actions.drop_first();
        assert forall|i: int| 0 <= i < e2.len() implies step_rel_some(
            p2[i],
            e2[i],
            p2[i + 1],
            #[trigger] a2[i],
        ) by {
            assert(step_rel_some(phases[i + 1], events[i + 1], phases[i + 2], actions[i + 1]));
        }
        lemma_no_insert_when_settled(p2, e2, a2);
    }
}

/// Law: persistence is at most once. However the surrounding server drives
/// one request — whatever events it reports, in whatever order — a run that
/// starts at `Ready` carries at most one insert command.
pub proof fn lemma_at_most_one_insert(phases: Seq<Phase>, events: Seq<Event>, actions: Seq<Action>)
    requires
        valid_trace(phases, events, actions),
        phases[0] is Ready,
    ensures
        insert_count(actions) <= 1,
    decreases events.len(),
{
    if events.len() > 0 {
        assert(step_rel_some(phases[0], events[0], phases[1], actions[0]));
        let (id, ts) = choose|id: Seq<char>, ts: Seq<char>|
            step_rel(phases[0], events[0], id, ts, phases[1], actions[0]);
        let p2 = phases.drop_first();
        let e2 = events.drop_first();
        let a2 = actions.drop_first();
        assert forall|i: int| 0 <= i < e2.len() implies step_rel_some(
            p2[i],
            e2[i],
            p2[i + 1],
            #[trigger] a2[i],
        ) by {
            assert(step_rel_some(phases[i + 1], events[i + 1], phases[i + 2], actions[i + 1]));
        }
        if phases[1] is Ready {
            lemma_at_most_one_insert(p2, e2, a2);
        } else {
            lemma_no_insert_when_settled(p2, e2, a2);
        }
    }
}

/// Law: a well-formed submission is handed to the store exactly as
/// validated — the insert carries the decoded name and email, the supplied
/// identifier and the validation-time timestamp.
pub proof fn lemma_accepted_submission(
    body: Vec<u8>,
    id: Seq<char>,
    ts: Seq<char>,
    post: Phase,
    act: Action,
)
    requires
        accepted(body@),
        step_rel(Phase::Ready, Event::Body(body), id, ts, post, act),
    ensures
        post matches Phase::Storing(v) && decided_record(body@, id, ts, v),
        act matches Action::Insert(w) && decided_record(body@, id, ts, w),
{
}

/// Law: a well-formed submission that the store takes is acknowledged with
/// 200 and an empty body, and exactly one insert — carrying the validated
/// record — was issued on the way.
pub proof fn lemma_successful_request(
    body: Vec<u8>,
    id: Seq<char>,
    ts: Seq<char>,
    mid: Phase,
    first: Action,
    id2: Seq<char>,
    ts2: Seq<char>,
    last: Phase,
    second: Action,
)
    requires
        accepted(body@),
        step_rel(Phase::Ready, Event::Body(body), id, ts, mid, first),
        step_rel(mid, Event::Stored, id2, ts2, last, second),
    ensures
        first matches Action::Insert(v) && decided_record(body@, id, ts, v),
        second matches Action::Respond(resp) && resp.status == 200 && resp.body@.len() == 0,
        insert_count(seq![first, second]) == 1,
{
    lemma_accepted_submission(body, id, ts, mid, first);
    let run = seq![first, second];
    assert(run.drop_first() =~= seq![second]);
    assert(seq![second].drop_first() =~= Seq::<Action>::empty());
    assert(insert_count(Seq::<Action>::empty()) == 0);
    assert(seq![second][0] == second);
    assert(insert_count(seq![second]) == 0);
    assert(run[0] == first);
    assert(insert_count(run) == 1);
}

/// Law: a submission with a missing or unusable field is answered with 400,
/// an empty body, and no insert.
pub proof fn lemma_rejected_submission(
    body: Vec<u8>,
    id: Seq<char>,
    ts: Seq<char>,
    post: Phase,
    act: Action,
)
    requires
        !accepted(body@),
        step_rel(Phase::Ready, Event::Body(body), id, ts, post, act),
    ensures
        act matches Action::Respond(resp) && resp.status == 400 && resp.body@.len() == 0,
        post matches Phase::Done(s) && s == 400,
        !(act is Insert),
{
}

/// Law: the store's answer settles the reply — success becomes 200, any
/// failure becomes 500 — and either way the body stays empty, so no error
/// detail leaks to the client.
pub proof fn lemma_store_outcome(
    v: ValidatedSubscriber,
    ev: Event,
    id: Seq<char>,
    ts: Seq<char>,
    post: Phase,
    act: Action,
)
    requires
        step_rel(Phase::Storing(v), ev, id, ts, post, act),
    ensures
        ev is Stored ==> (act matches Action::Respond(resp) && resp.status == 200
            && resp.body@.len() == 0),
        ev is StoreFailed ==> (act matches Action::Respond(resp) && resp.status == 500
            && resp.body@.len() == 0),
        !(act is Insert),
{
}

} // verus!
