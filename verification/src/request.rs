//! Update requests: the command line, the queue, and the life of one request.

use vstd::prelude::*;

use crate::ids::{parse_uuid, uuid_value, ClockError};
use crate::report::{Cause, CauseView, Ending, Report};
use crate::text::{before_suffix, ends_with, same};

verus! {

broadcast use {vstd::string::group_string_axioms, vstd::seq_lib::group_to_multiset_ensures};

/// What the helper was asked to do.
#[derive(Clone, Copy, Debug, PartialEq, Eq, Structural)]
pub enum Cli {
    Validate(u128),
    Execute(u128),
    Dispatch,
    Ready,
    Unready,
}

/// Why the command line was refused.
#[derive(Clone, Copy, Debug, PartialEq, Eq, Structural)]
pub enum CliError {
    Usage,
    RequestId,
}

/// How the helper is called.
pub fn usage() -> (r: &'static str)
    ensures
        r@ == "usage: vexa-update-helper validate|execute <request-uuid> | dispatch | ready | unready"@,
{
    "usage: vexa-update-helper validate|execute <request-uuid> | dispatch | ready | unready"
}

/// What a command line asks for.
pub open spec fn cli_spec(arguments: Seq<String>) -> Result<Cli, CliError> {
    if arguments.len() == 0 {
        Err(CliError::Usage)
    } else {
        let command = arguments[0]@;
        if command == "validate"@ || command == "execute"@ {
            if arguments.len() == 1 {
                Err(CliError::Usage)
            } else {
                match uuid_value(arguments[1]@) {
                    None => Err(CliError::RequestId),
                    Some(id) => if arguments.len() > 2 {
                        Err(CliError::Usage)
                    } else if command == "validate"@ {
                        Ok(Cli::Validate(id))
                    } else {
                        Ok(Cli::Execute(id))
                    },
                }
            }
        } else if arguments.len() > 1 {
            Err(CliError::Usage)
        } else if command == "dispatch"@ {
            Ok(Cli::Dispatch)
        } else if command == "ready"@ {
            Ok(Cli::Ready)
        } else if command == "unready"@ {
            Ok(Cli::Unready)
        } else {
            Err(CliError::Usage)
        }
    }
}

impl Cli {
    /// Reads the arguments behind the program name.
    pub fn parse(arguments: &Vec<String>) -> (r: Result<Cli, CliError>)
        ensures
            r == cli_spec(arguments@),
    {
        if arguments.len() == 0 {
            return Err(CliError::Usage);
        }
        let command = arguments[0].as_str();
        let validate = same(command, "validate");
        if validate || same(command, "execute") {
            if arguments.len() == 1 {
                return Err(CliError::Usage);
            }
            return match parse_uuid(arguments[1].as_str()) {
                None => Err(CliError::RequestId),
                Some(id) => {
                    if arguments.len() > 2 {
                        Err(CliError::Usage)
                    } else if validate {
                        Ok(Cli::Validate(id))
                    } else {
                        Ok(Cli::Execute(id))
                    }
                },
            };
        }
        if arguments.len() > 1 {
            return Err(CliError::Usage);
        }
        if same(command, "dispatch") {
            Ok(Cli::Dispatch)
        } else if same(command, "ready") {
            Ok(Cli::Ready)
        } else if same(command, "unready") {
            Ok(Cli::Unready)
        } else {
            Err(CliError::Usage)
        }
    }
}

/// The request that a file of the queue stands for.
pub open spec fn queued_request(name: Seq<char>) -> Option<u128> {
    if ends_with(name, ".json"@) {
        uuid_value(name.take(name.len() - 5))
    } else {
        None
    }
}

/// The requests that a list of file names stands for, in the order of the list.
pub open spec fn queued_requests(names: Seq<String>) -> Seq<u128>
    decreases names.len(),
{
    if names.len() == 0 {
        Seq::empty()
    } else {
        let front = queued_requests(names.drop_last());
        match queued_request(names.last()@) {
            Some(id) => front.push(id),
            None => front,
        }
    }
}

/// Ascending order.
pub open spec fn ascending(ids: Seq<u128>) -> bool {
    forall|i: int, j: int| 0 <= i < j < ids.len() ==> ids[i] <= ids[j]
}

/// The requests that the dispatcher executes, in ascending order of their identifiers.
pub fn dispatch(names: &Vec<String>) -> (r: Vec<u128>)
    ensures
        ascending(r@),
        r@.to_multiset() == queued_requests(names@).to_multiset(),
{
    let mut r: Vec<u128> = Vec::new();
    let mut i: usize = 0;
    proof {
        assert(names@.take(0) =~= Seq::<String>::empty());
    }
    while i < names.len()
        invariant
            i <= names@.len(),
            ascending(r@),
            r@.to_multiset() == queued_requests(names@.take(i as int)).to_multiset(),
        decreases names@.len() - i,
    {
        proof {
            assert(names@.take(i as int + 1).drop_last() =~= names@.take(i as int));
            reveal_strlit(".json");
        }
        match before_suffix(names[i].as_str(), ".json") {
            None => {},
            Some(stem) => {
                match parse_uuid(stem) {
                    None => {},
                    Some(id) => {
                        let mut at: usize = 0;
                        while at < r.len() && r[at] <= id
                            invariant
                                at <= r@.len(),
                                forall|k: int| 0 <= k < at ==> r@[k] <= id,
                            decreases r@.len() - at,
                        {
                            at = at + 1;
                        }
                        let ghost before = r@;
                        r.insert(at, id);
                        proof {
                            assert forall|a: int, b: int| 0 <= a < b < r@.len() implies r@[a]
                                <= r@[b] by {
                                if a < at && b > at {
                                    assert(before[a] <= before[b - 1]);
                                } else if a == at {
                                    assert(before[at as int] <= before[b - 1]);
                                } else if a > at {
                                    assert(before[a - 1] <= before[b - 1]);
                                } else if b < at {
                                    assert(before[a] <= before[b]);
                                }
                            }
                        }
                    },
                }
            },
        }
        i = i + 1;
    }
    proof {
        assert(names@.take(names@.len() as int) =~= names@);
    }
    r
}

/// Whether a validated plan is that of the request that was consumed.
pub fn check_plan_identity(plan_id: &str, request_id: u128) -> (r: Option<bool>)
    ensures
        r == match uuid_value(plan_id@) {
            None => None::<bool>,
            Some(v) => Some(v == request_id),
        },
{
    match parse_uuid(plan_id) {
        None => None,
        Some(v) => Some(v == request_id),
    }
}

/// How a request is taken from the queue.
#[derive(Clone, Copy, Debug, PartialEq, Eq, Structural)]
pub enum Consumption {
    /// It was processed already.
    AlreadyProcessed,
    /// An execution of it was interrupted: what is left of it is put aside.
    Interrupted,
    /// It is taken.
    Take,
}

/// Decides how a request is taken, by the files that are there.
pub fn consume_request(processed: bool, processing: bool, incoming: bool) -> (r: Consumption)
    ensures
        r == (if processed {
            Consumption::AlreadyProcessed
        } else if processing || incoming {
            Consumption::Interrupted
        } else {
            Consumption::Take
        }),
{
    if processed {
        Consumption::AlreadyProcessed
    } else if processing || incoming {
        Consumption::Interrupted
    } else {
        Consumption::Take
    }
}

/// What is left to reconcile of a request whose status is final.
#[derive(Clone, Copy, Debug, PartialEq, Eq, Structural)]
pub struct Reconciliation {
    /// Archive the consumed request.
    pub archive: bool,
    /// Put the consumed request aside, because it was archived before.
    pub quarantine_processing: bool,
    /// Put a half-consumed request aside.
    pub quarantine_incoming: bool,
    /// Put a replayed request aside.
    pub quarantine_replay: bool,
}

/// Decides what is left to reconcile, by the files that are there.
pub fn reconcile_completed_request(
    processing: bool,
    processed: bool,
    incoming: bool,
    replay: bool,
) -> (r: Reconciliation)
    ensures
        r == (Reconciliation {
            archive: processing && !processed,
            quarantine_processing: processing && processed,
            quarantine_incoming: incoming,
            quarantine_replay: replay,
        }),
{
    Reconciliation {
        archive: processing && !processed,
        quarantine_processing: processing && processed,
        quarantine_incoming: incoming,
        quarantine_replay: replay,
    }
}

/// How an interrupted request was recovered.
#[derive(Clone, Copy, Debug, PartialEq, Eq, Structural)]
pub enum InterruptedRecovery {
    Committed,
    RolledBack,
    NoApplicationMutation,
}

/// What is to be done next for a request.
#[derive(Clone, Copy, Debug, PartialEq, Eq, Structural)]
pub enum RequestAction {
    /// Clean up after a request whose status is final.
    Reconcile,
    /// Write the first status record.
    StartStatus,
    /// Recover from an interrupted execution.
    Recover,
    /// Remove what an interrupted execution left.
    CleanUp,
    /// Put the interrupted request aside.
    Quarantine,
    /// Take the request from the queue.
    Consume,
    /// Carry the request out.
    Execute,
    /// Write the status record.
    Record(Report),
    /// Archive the request.
    Archive,
    /// The request was carried out.
    Succeed,
    /// The request failed, or must not be carried out.
    Fail,
}

/// What came back.
pub enum RequestReply {
    Done,
    Recovered(InterruptedRecovery),
    Failed(String),
}

/// What came back, with the text as a character sequence.
pub enum RequestReplyView {
    Done,
    Recovered(InterruptedRecovery),
    Failed(Seq<char>),
}

impl View for RequestReply {
    type V = RequestReplyView;

    open spec fn view(&self) -> RequestReplyView {
        match *self {
            RequestReply::Done => RequestReplyView::Done,
            RequestReply::Recovered(r) => RequestReplyView::Recovered(r),
            RequestReply::Failed(e) => RequestReplyView::Failed(e@),
        }
    }
}

/// Why a request was not carried out.
pub enum RequestError {
    /// It was consumed before.
    AlreadyConsumed,
    /// Its interrupted execution was reconciled.
    Reconciled,
    /// Something failed.
    Because(Cause),
}

/// Why a request was not carried out, with texts as character sequences.
pub enum RequestErrorView {
    AlreadyConsumed,
    Reconciled,
    Because(CauseView),
}

impl View for RequestError {
    type V = RequestErrorView;

    open spec fn view(&self) -> RequestErrorView {
        match *self {
            RequestError::AlreadyConsumed => RequestErrorView::AlreadyConsumed,
            RequestError::Reconciled => RequestErrorView::Reconciled,
            RequestError::Because(c) => RequestErrorView::Because(c@),
        }
    }
}

/// The life of one request.
pub struct Request {
    pub pending: RequestAction,
    /// Whether an earlier execution was interrupted.
    pub interrupted: bool,
    pub at: i64,
    pub error: Option<RequestError>,
}

/// What a [`Request`] holds.
#[verifier::ext_equal]
pub struct RequestView {
    pub pending: RequestAction,
    pub interrupted: bool,
    pub at: i64,
    pub error: Option<RequestErrorView>,
}

impl View for Request {
    type V = RequestView;

    open spec fn view(&self) -> RequestView {
        RequestView {
            pending: self.pending,
            interrupted: self.interrupted,
            at: self.at,
            error: match self.error {
                Some(e) => Some(e@),
                None => None,
            },
        }
    }
}

/// The request is over.
pub open spec fn request_failed(s: RequestView, error: RequestErrorView) -> RequestView {
    RequestView { pending: RequestAction::Fail, error: Some(error), ..s }
}

/// A report comes next, unless the clock fails the request.
pub open spec fn request_reporting(
    s: RequestView,
    report: Report,
    now: Result<i64, ClockError>,
) -> RequestView {
    match now {
        Ok(t) => RequestView { pending: RequestAction::Record(report), at: t, ..s },
        Err(e) => request_failed(s, RequestErrorView::Because(CauseView::Clock(e))),
    }
}

/// The request failed, and that is recorded first.
pub open spec fn request_ending(
    s: RequestView,
    report: Report,
    e: Seq<char>,
    now: Result<i64, ClockError>,
) -> RequestView {
    request_reporting(
        RequestView { error: Some(RequestErrorView::Because(CauseView::Outside(e))), ..s },
        report,
        now,
    )
}

/// How the life of a request begins: `completed` says that its status is final already.
pub open spec fn request_begun(completed: bool, interrupted: bool) -> RequestView {
    RequestView {
        pending: if completed {
            RequestAction::Reconcile
        } else {
            RequestAction::StartStatus
        },
        interrupted,
        at: 0,
        error: None,
    }
}

/// The pending action records how the recovery of an interrupted execution went.
pub open spec fn records_recovery(pending: RequestAction) -> bool {
    match pending {
        RequestAction::Record(Report::End(Ending::RecoveredCommitted)) => true,
        RequestAction::Record(Report::End(Ending::RecoveredRollback)) => true,
        RequestAction::Record(Report::End(Ending::Interrupted)) => true,
        RequestAction::Record(Report::End(Ending::InterruptedRecoveryFailed)) => true,
        _ => false,
    }
}

/// How a request goes on. `completed` says whether its status record is final.
pub open spec fn request_step(
    s: RequestView,
    reply: RequestReplyView,
    completed: bool,
    now: Result<i64, ClockError>,
) -> RequestView {
    match (s.pending, reply) {
        (RequestAction::Succeed, _) => s,
        (RequestAction::Fail, _) => s,
        // A failed recovery, rejection or execution is recorded first.
        (RequestAction::Recover, RequestReplyView::Failed(e)) => request_ending(
            s,
            Report::End(Ending::InterruptedRecoveryFailed),
            e,
            now,
        ),
        (RequestAction::Consume, RequestReplyView::Failed(e)) => request_ending(
            s,
            Report::End(Ending::RequestRejected),
            e,
            now,
        ),
        (RequestAction::Execute, RequestReplyView::Failed(e)) => if completed {
            RequestView {
                pending: RequestAction::Archive,
                error: Some(RequestErrorView::Because(CauseView::Outside(e))),
                ..s
            }
        } else {
            request_ending(s, Report::End(Ending::Failed), e, now)
        },
        (RequestAction::Archive, RequestReplyView::Failed(e)) => request_ending(
            s,
            Report::ArchivalPending,
            e,
            now,
        ),
        (_, RequestReplyView::Failed(e)) => request_failed(
            s,
            RequestErrorView::Because(CauseView::Outside(e)),
        ),
        // A request whose status is final is never carried out again.
        (RequestAction::Reconcile, _) => request_failed(s, RequestErrorView::AlreadyConsumed),
        (RequestAction::StartStatus, _) => RequestView {
            pending: if s.interrupted {
                RequestAction::Recover
            } else {
                RequestAction::Consume
            },
            ..s
        },
        // The recovery of an interrupted execution.
        (RequestAction::Recover, RequestReplyView::Recovered(r)) => request_reporting(
            s,
            Report::End(
                match r {
                    InterruptedRecovery::Committed => Ending::RecoveredCommitted,
                    InterruptedRecovery::RolledBack => Ending::RecoveredRollback,
                    InterruptedRecovery::NoApplicationMutation => Ending::Interrupted,
                },
            ),
            now,
        ),
        (RequestAction::CleanUp, _) => RequestView { pending: RequestAction::Quarantine, ..s },
        (RequestAction::Quarantine, _) => match s.error {
            Some(_) => RequestView { pending: RequestAction::Fail, ..s },
            None => request_failed(s, RequestErrorView::Reconciled),
        },
        // The ordinary way.
        (RequestAction::Consume, _) => RequestView { pending: RequestAction::Execute, ..s },
        (RequestAction::Execute, _) => RequestView { pending: RequestAction::Archive, ..s },
        (RequestAction::Archive, _) => match s.error {
            Some(_) => RequestView { pending: RequestAction::Fail, ..s },
            None => RequestView { pending: RequestAction::Succeed, ..s },
        },
        (RequestAction::Record(Report::End(Ending::Failed)), _) => RequestView {
            pending: RequestAction::Archive,
            ..s
        },
        (RequestAction::Record(_), _) => if records_recovery(s.pending) {
            RequestView { pending: RequestAction::CleanUp, ..s }
        } else {
            RequestView { pending: RequestAction::Fail, ..s }
        },
        (RequestAction::Recover, RequestReplyView::Done) => request_reporting(
            s,
            Report::End(Ending::Interrupted),
            now,
        ),
    }
}

impl Request {
    /// A request that the dispatcher found.
    pub fn begin(completed: bool, interrupted: bool) -> (r: Request)
        ensures
            r@ == request_begun(completed, interrupted),
    {
        let pending = if completed {
            RequestAction::Reconcile
        } else {
            RequestAction::StartStatus
        };
        Request { pending, interrupted, at: 0, error: None }
    }

    fn set_failed(&mut self, error: RequestError)
        ensures
            final(self)@ == request_failed(old(self)@, error@),
    {
        self.pending = RequestAction::Fail;
        self.error = Some(error);
    }

    fn set_report(&mut self, report: Report, now: Result<i64, ClockError>)
        ensures
            final(self)@ == request_reporting(old(self)@, report, now),
    {
        match now {
            Ok(t) => {
                self.pending = RequestAction::Record(report);
                self.at = t;
            },
            Err(e) => self.set_failed(RequestError::Because(Cause::Clock(e))),
        }
    }

    fn set_ending(&mut self, report: Report, e: String, now: Result<i64, ClockError>)
        ensures
            final(self)@ == request_ending(old(self)@, report, e@, now),
    {
        self.error = Some(RequestError::Because(Cause::Outside(e)));
        self.set_report(report, now);
    }

    fn is_recording_recovery(&self) -> (r: bool)
        ensures
            r == records_recovery(self.pending),
    {
        match self.pending {
            RequestAction::Record(Report::End(Ending::RecoveredCommitted)) => true,
            RequestAction::Record(Report::End(Ending::RecoveredRollback)) => true,
            RequestAction::Record(Report::End(Ending::Interrupted)) => true,
            RequestAction::Record(Report::End(Ending::InterruptedRecoveryFailed)) => true,
            _ => false,
        }
    }

    /// Goes on after the pending action; `completed` says whether the status record is
    /// final, `now` is what the clock says. The result is the next action.
    pub fn execute(
        &mut self,
        reply: RequestReply,
        completed: bool,
        now: Result<i64, ClockError>,
    ) -> (r: RequestAction)
        ensures
            final(self)@ == request_step(old(self)@, reply@, completed, now),
            r == final(self).pending,
    {
        match (self.pending, reply) {
            (RequestAction::Succeed, _) => {},
            (RequestAction::Fail, _) => {},
            (RequestAction::Recover, RequestReply::Failed(e)) => self.set_ending(
                Report::End(Ending::InterruptedRecoveryFailed),
                e,
                now,
            ),
            (RequestAction::Consume, RequestReply::Failed(e)) => self.set_ending(
                Report::End(Ending::RequestRejected),
                e,
                now,
            ),
            (RequestAction::Execute, RequestReply::Failed(e)) => {
                if completed {
                    self.pending = RequestAction::Archive;
                    self.error = Some(RequestError::Because(Cause::Outside(e)));
                } else {
                    self.set_ending(Report::End(Ending::Failed), e, now);
                }
            },
            (RequestAction::Archive, RequestReply::Failed(e)) => self.set_ending(
                Report::ArchivalPending,
                e,
                now,
            ),
            (_, RequestReply::Failed(e)) => self.set_failed(
                RequestError::Because(Cause::Outside(e)),
            ),
            (RequestAction::Reconcile, _) => self.set_failed(RequestError::AlreadyConsumed),
            (RequestAction::StartStatus, _) => {
                if self.interrupted {
                    self.pending = RequestAction::Recover;
                } else {
                    self.pending = RequestAction::Consume;
                }
            },
            (RequestAction::Recover, RequestReply::Recovered(r)) => {
                let end = match r {
                    InterruptedRecovery::Committed => Ending::RecoveredCommitted,
                    InterruptedRecovery::RolledBack => Ending::RecoveredRollback,
                    InterruptedRecovery::NoApplicationMutation => Ending::Interrupted,
                };
                self.set_report(Report::End(end), now);
            },
            (RequestAction::CleanUp, _) => {
                self.pending = RequestAction::Quarantine;
            },
            (RequestAction::Quarantine, _) => {
                if self.error.is_some() {
                    self.pending = RequestAction::Fail;
                } else {
                    self.set_failed(RequestError::Reconciled);
                }
            },
            (RequestAction::Consume, _) => {
                self.pending = RequestAction::Execute;
            },
            (RequestAction::Execute, _) => {
                self.pending = RequestAction::Archive;
            },
            (RequestAction::Archive, _) => {
                if self.error.is_some() {
                    self.pending = RequestAction::Fail;
                } else {
                    self.pending = RequestAction::Succeed;
                }
            },
            (RequestAction::Record(Report::End(Ending::Failed)), _) => {
                self.pending = RequestAction::Archive;
            },
            (RequestAction::Record(_), _) => {
                if self.is_recording_recovery() {
                    self.pending = RequestAction::CleanUp;
                } else {
                    self.pending = RequestAction::Fail;
                }
            },
            (RequestAction::Recover, RequestReply::Done) => self.set_report(
                Report::End(Ending::Interrupted),
                now,
            ),
        }
        self.pending
    }
}

/// A request is carried out only where its status is not final and no earlier execution of
/// it was interrupted: it is never replayed.
pub proof fn a_request_is_never_replayed(
    completed_before: bool,
    interrupted: bool,
    replies: Seq<(RequestReplyView, bool, Result<i64, ClockError>)>,
)
    requires
        completed_before || interrupted,
    ensures
        request_run(request_begun(completed_before, interrupted), replies).pending
            != RequestAction::Execute,
        request_run(request_begun(completed_before, interrupted), replies).pending
            != RequestAction::Consume,
        request_run(request_begun(completed_before, interrupted), replies).pending
            != RequestAction::Succeed,
{
    never_replayed(completed_before, interrupted, replies);
}

/// The state of a request after some replies.
pub open spec fn request_run(
    s: RequestView,
    replies: Seq<(RequestReplyView, bool, Result<i64, ClockError>)>,
) -> RequestView
    decreases replies.len(),
{
    if replies.len() == 0 {
        s
    } else {
        let t = request_run(s, replies.drop_last());
        let (reply, completed, now) = replies.last();
        request_step(t, reply, completed, now)
    }
}

proof fn never_replayed(
    completed_before: bool,
    interrupted: bool,
    replies: Seq<(RequestReplyView, bool, Result<i64, ClockError>)>,
)
    requires
        completed_before || interrupted,
    ensures
        ({
            let t = request_run(request_begun(completed_before, interrupted), replies);
            &&& t.interrupted == interrupted
            &&& t.pending != RequestAction::Execute && t.pending != RequestAction::Consume
                && t.pending != RequestAction::Succeed && t.pending != RequestAction::Archive
                && t.pending != RequestAction::Record(Report::End(Ending::Failed))
            &&& !interrupted ==> t.pending == RequestAction::Reconcile || t.pending
                == RequestAction::Fail
        }),
    decreases replies.len(),
{
    if replies.len() > 0 {
        never_replayed(completed_before, interrupted, replies.drop_last());
    }
}

/// What is left of an interrupted execution is removed only after the outcome of its
/// recovery was recorded.
pub proof fn recovery_is_recorded_before_cleanup(
    s: RequestView,
    reply: RequestReplyView,
    completed: bool,
    now: Result<i64, ClockError>,
)
    requires
        request_step(s, reply, completed, now).pending == RequestAction::CleanUp,
        s.pending != RequestAction::CleanUp,
    ensures
        records_recovery(s.pending),
        !(reply matches RequestReplyView::Failed(_)),
{
}

/// No reply tells of a failure.
pub open spec fn none_failed(
    replies: Seq<(RequestReplyView, bool, Result<i64, ClockError>)>,
    n: int,
) -> bool {
    forall|k: int| 0 <= k < n ==> !((#[trigger] replies[k]).0 is Failed)
}

/// What a request that goes well does in turn.
pub open spec fn ordinary_way() -> Seq<RequestAction> {
    seq![
        RequestAction::StartStatus,
        RequestAction::Consume,
        RequestAction::Execute,
        RequestAction::Archive,
        RequestAction::Succeed,
    ]
}

/// A request that goes well is recorded, taken from the queue, carried out and archived, in
/// this order, and then it has succeeded.
pub proof fn a_smooth_request_succeeds(
    replies: Seq<(RequestReplyView, bool, Result<i64, ClockError>)>,
)
    requires
        replies.len() <= 4,
        none_failed(replies, replies.len() as int),
    ensures
        request_run(request_begun(false, false), replies).pending
            == ordinary_way()[replies.len() as int],
        request_run(request_begun(false, false), replies).error is None,
        request_run(request_begun(false, false), replies).interrupted == false,
    decreases replies.len(),
{
    if replies.len() > 0 {
        let front = replies.drop_last();
        assert forall|k: int| 0 <= k < front.len() implies !((#[trigger] front[k]).0 is Failed) by {
            assert(front[k] == replies[k]);
        }
        a_smooth_request_succeeds(front);
        assert(!(replies[replies.len() - 1].0 is Failed));
    }
}

spec fn on_its_way(
    s: RequestView,
    replies: Seq<(RequestReplyView, bool, Result<i64, ClockError>)>,
) -> bool {
    &&& !s.interrupted
    &&& match s.pending {
        RequestAction::StartStatus => replies.len() == 0 && s.error is None,
        RequestAction::Consume => replies.len() == 1 && none_failed(replies, 1) && s.error is None,
        RequestAction::Execute => replies.len() == 2 && none_failed(replies, 2) && s.error is None,
        RequestAction::Archive => s.error is None ==> replies.len() == 3 && none_failed(replies, 3),
        RequestAction::Succeed => replies.len() >= 4 && none_failed(replies, 4),
        RequestAction::Record(_) => s.error is Some && !records_recovery(s.pending),
        RequestAction::Fail => true,
        _ => false,
    }
}

proof fn requests_stay_on_their_way(
    replies: Seq<(RequestReplyView, bool, Result<i64, ClockError>)>,
)
    ensures
        on_its_way(request_run(request_begun(false, false), replies), replies),
    decreases replies.len(),
{
    if replies.len() > 0 {
        let front = replies.drop_last();
        requests_stay_on_their_way(front);
        assert forall|k: int| 0 <= k < front.len() implies #[trigger] front[k] == replies[k] by {}
        let t = request_run(request_begun(false, false), front);
        if t.pending == RequestAction::Consume {
            assert(front[0] == replies[0]);
        }
        if t.pending == RequestAction::Execute || t.pending == RequestAction::Archive
            || t.pending == RequestAction::Succeed {
            assert forall|k: int| 0 <= k < front.len() && k < 4 && (t.pending
                == RequestAction::Archive ==> t.error is None) implies !((
            #[trigger] replies[k]).0 is Failed) by {
                assert(front[k] == replies[k]);
            }
        }
        assert(replies[replies.len() - 1] == replies.last());
    }
}

/// A request succeeds only where its first status was recorded, and it was taken from the
/// queue, carried out and archived without a failure.
pub proof fn success_has_gone_the_ordinary_way(
    completed_before: bool,
    interrupted: bool,
    replies: Seq<(RequestReplyView, bool, Result<i64, ClockError>)>,
)
    requires
        request_run(request_begun(completed_before, interrupted), replies).pending
            == RequestAction::Succeed,
    ensures
        !completed_before && !interrupted,
        replies.len() >= 4,
        none_failed(replies, 4),
{
    if completed_before || interrupted {
        a_request_is_never_replayed(completed_before, interrupted, replies);
    } else {
        requests_stay_on_their_way(replies);
    }
}

/// What is recorded of a recovery.
pub open spec fn recovery_ending(r: InterruptedRecovery) -> Ending {
    if r == InterruptedRecovery::Committed {
        Ending::RecoveredCommitted
    } else if r == InterruptedRecovery::RolledBack {
        Ending::RecoveredRollback
    } else {
        Ending::Interrupted
    }
}

/// A request whose execution was interrupted is recovered; how that ended is recorded, what
/// was left is removed, the request is put aside, and it fails as one that was reconciled.
pub proof fn an_interrupted_request_is_reconciled(
    r: InterruptedRecovery,
    t: i64,
    replies: Seq<(RequestReplyView, bool, Result<i64, ClockError>)>,
)
    requires
        replies.len() == 5,
        none_failed(replies, 5),
        replies[1].0 == RequestReplyView::Recovered(r),
        replies[1].2 == Ok::<i64, ClockError>(t),
    ensures
        ({
            let begun = request_begun(false, true);
            &&& request_run(begun, replies.take(0)).pending == RequestAction::StartStatus
            &&& request_run(begun, replies.take(1)).pending == RequestAction::Recover
            &&& request_run(begun, replies.take(2)).pending == RequestAction::Record(
                Report::End(recovery_ending(r)),
            )
            &&& request_run(begun, replies.take(2)).at == t
            &&& request_run(begun, replies.take(3)).pending == RequestAction::CleanUp
            &&& request_run(begun, replies.take(4)).pending == RequestAction::Quarantine
            &&& request_run(begun, replies).pending == RequestAction::Fail
            &&& request_run(begun, replies).error == Some(RequestErrorView::Reconciled)
        }),
{
    let begun = request_begun(false, true);
    assert(replies.take(1).drop_last() =~= replies.take(0));
    assert(replies.take(2).drop_last() =~= replies.take(1));
    assert(replies.take(3).drop_last() =~= replies.take(2));
    assert(replies.take(4).drop_last() =~= replies.take(3));
    assert(replies.drop_last() =~= replies.take(4));
    assert(replies.take(1).last() == replies[0]);
    assert(replies.take(2).last() == replies[1]);
    assert(replies.take(3).last() == replies[2]);
    assert(replies.take(4).last() == replies[3]);
    assert(replies.last() == replies[4]);
}

/// A request whose status is final is cleaned up after, and fails as one that was carried out
/// before.
pub proof fn a_final_request_is_only_cleaned_up(
    interrupted: bool,
    reply: (RequestReplyView, bool, Result<i64, ClockError>),
)
    requires
        !(reply.0 is Failed),
    ensures
        request_begun(true, interrupted).pending == RequestAction::Reconcile,
        request_run(request_begun(true, interrupted), seq![reply]).pending == RequestAction::Fail,
        request_run(request_begun(true, interrupted), seq![reply]).error == Some(
            RequestErrorView::AlreadyConsumed,
        ),
{
    let one = seq![reply];
    assert(one.drop_last() =~= Seq::empty());
    assert(one.last() == reply);
    reveal_with_fuel(request_run, 2);
}

/// A failure is recorded for what it was before the request fails: a recovery that failed, a
/// request that could not be taken, one that was not carried out, and one that could not be
/// archived. What failed is kept, and when. Where the execution had recorded its end itself,
/// the request is archived at once.
pub proof fn failures_are_recorded_first(
    s: RequestView,
    e: Seq<char>,
    completed: bool,
    t: i64,
    reply: RequestReplyView,
    now: Result<i64, ClockError>,
)
    requires
        !(reply is Failed),
    ensures
        ({
            let failed = RequestReplyView::Failed(e);
            let after = request_step(s, failed, completed, Ok(t));
            let cause = Some(RequestErrorView::Because(CauseView::Outside(e)));
            &&& s.pending == RequestAction::Recover ==> after == (RequestView {
                pending: RequestAction::Record(Report::End(Ending::InterruptedRecoveryFailed)),
                at: t,
                error: cause,
                ..s
            }) && request_step(after, reply, completed, now).pending == RequestAction::CleanUp
            &&& s.pending == RequestAction::Consume ==> after == (RequestView {
                pending: RequestAction::Record(Report::End(Ending::RequestRejected)),
                at: t,
                error: cause,
                ..s
            }) && request_step(after, reply, completed, now).pending == RequestAction::Fail
            &&& s.pending == RequestAction::Execute && !completed ==> after == (RequestView {
                pending: RequestAction::Record(Report::End(Ending::Failed)),
                at: t,
                error: cause,
                ..s
            }) && request_step(after, reply, completed, now).pending == RequestAction::Archive
            &&& s.pending == RequestAction::Execute && completed ==> after == (RequestView {
                pending: RequestAction::Archive,
                error: cause,
                ..s
            })
            &&& s.pending == RequestAction::Archive ==> after == (RequestView {
                pending: RequestAction::Record(Report::ArchivalPending),
                at: t,
                error: cause,
                ..s
            }) && request_step(after, reply, completed, now).pending == RequestAction::Fail
            &&& s.pending == RequestAction::Archive && s.error is Some ==> request_step(
                s,
                reply,
                completed,
                now,
            ) == (RequestView { pending: RequestAction::Fail, ..s })
        }),
{
}

/// The command line asks for what its first word says: for a request with an identifier to be
/// validated or executed, or for one of three things that go without.
pub proof fn what_the_command_line_asks(arguments: Seq<String>, id: u128)
    ensures
        arguments.len() == 2 && uuid_value(arguments[1]@) == Some(id) ==> {
            &&& arguments[0]@ == "validate"@ ==> cli_spec(arguments) == Ok::<Cli, CliError>(
                Cli::Validate(id),
            )
            &&& arguments[0]@ == "execute"@ ==> cli_spec(arguments) == Ok::<Cli, CliError>(
                Cli::Execute(id),
            )
        },
        arguments.len() == 1 ==> {
            &&& arguments[0]@ == "dispatch"@ ==> cli_spec(arguments) == Ok::<Cli, CliError>(
                Cli::Dispatch,
            )
            &&& arguments[0]@ == "ready"@ ==> cli_spec(arguments) == Ok::<Cli, CliError>(Cli::Ready)
            &&& arguments[0]@ == "unready"@ ==> cli_spec(arguments) == Ok::<Cli, CliError>(
                Cli::Unready,
            )
        },
        cli_spec(arguments) == Ok::<Cli, CliError>(Cli::Validate(id)) ==> arguments.len() == 2
            && arguments[0]@ == "validate"@ && uuid_value(arguments[1]@) == Some(id),
        cli_spec(arguments) == Ok::<Cli, CliError>(Cli::Execute(id)) ==> arguments.len() == 2
            && arguments[0]@ == "execute"@ && uuid_value(arguments[1]@) == Some(id),
        cli_spec(arguments) == Ok::<Cli, CliError>(Cli::Dispatch) ==> arguments.len() == 1
            && arguments[0]@ == "dispatch"@,
        cli_spec(arguments) == Ok::<Cli, CliError>(Cli::Ready) ==> arguments.len() == 1
            && arguments[0]@ == "ready"@,
        cli_spec(arguments) == Ok::<Cli, CliError>(Cli::Unready) ==> arguments.len() == 1
            && arguments[0]@ == "unready"@,
        cli_spec(arguments) == Err::<Cli, CliError>(CliError::RequestId) <==> arguments.len() >= 2
            && (arguments[0]@ == "validate"@ || arguments[0]@ == "execute"@) && uuid_value(
            arguments[1]@,
        ) is None,
{
    reveal_strlit("validate");
    reveal_strlit("execute");
    reveal_strlit("dispatch");
    reveal_strlit("ready");
    reveal_strlit("unready");
    assert("dispatch"@[0] == 'd' && "validate"@[0] == 'v' && "execute"@[0] == 'e' && "ready"@[0]
        == 'r' && "unready"@[0] == 'u');
}

/// The queue holds exactly the requests whose identifier, followed by the suffix of a request
/// file, is the name of a file.
pub proof fn what_is_queued(names: Seq<String>, id: u128)
    ensures
        queued_requests(names).contains(id) <==> exists|k: int|
            0 <= k < names.len() && is_request_file((#[trigger] names[k])@, id),
        queued_requests(names).len() <= names.len(),
    decreases names.len(),
{
    if names.len() > 0 {
        let front = names.drop_last();
        let n = names.len() - 1;
        what_is_queued(front, id);
        let q = queued_requests(front);
        let all = queued_requests(names);
        let last = names.last()@;
        assert(names[n] == names.last());
        reveal_strlit(".json");
        if queued_request(last) is Some {
            let x = queued_request(last)->0;
            assert(all[q.len() as int] == x);
            assert(last =~= last.take(last.len() - 5) + ".json"@);
            assert(all.contains(id) <==> q.contains(id) || x == id) by {
                if all.contains(id) {
                    let j = choose|j: int| 0 <= j < all.len() && all[j] == id;
                    if j < q.len() {
                        assert(q[j] == id);
                    }
                }
                if q.contains(id) {
                    let j = choose|j: int| 0 <= j < q.len() && q[j] == id;
                    assert(all[j] == id);
                }
            }
        }
        assert(is_request_file(last, id) <==> queued_request(last) == Some(id)) by {
            if is_request_file(last, id) {
                let t = choose|t: Seq<char>| last == #[trigger] (t + ".json"@) && uuid_value(t)
                    == Some(id);
                assert(last.take(last.len() - 5) =~= t);
                assert(last.skip(last.len() - 5) =~= ".json"@);
            }
        }
        if exists|k: int| 0 <= k < front.len() && is_request_file((#[trigger] front[k])@, id) {
            let k = choose|k: int|
                0 <= k < front.len() && is_request_file((#[trigger] front[k])@, id);
            assert(names[k] == front[k]);
        }
        if exists|k: int| 0 <= k < names.len() && is_request_file((#[trigger] names[k])@, id) {
            let k = choose|k: int|
                0 <= k < names.len() && is_request_file((#[trigger] names[k])@, id);
            if k < n {
                assert(names[k] == front[k]);
            }
        }
    }
}

/// The name of the file of a request: its identifier and the suffix.
pub open spec fn is_request_file(name: Seq<char>, id: u128) -> bool {
    exists|t: Seq<char>| name == #[trigger] (t + ".json"@) && uuid_value(t) == Some(id)
}

} // verus!
