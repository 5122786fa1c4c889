//! The durable status record of one update request, and the transitions that the
//! update helper makes on it.
//!
//! A transition yields the next record. The record in memory is replaced only once the
//! next one has been written, so memory never runs ahead of the disk.

use vstd::prelude::*;

use crate::text::{
    byte_len, byte_len_concat, byte_length, byte_len_push, char_width, chars_of, control, copy_list, copy_option,
    is_control, option_is, same, view_option, views, width,
};

verus! {

broadcast use vstd::string::group_string_axioms;

/// Largest status record that is written or read back.
pub const MAX_STATUS_BYTES: u64 = 131072;

/// Directory of the status records.
pub const STATUS_ROOT: &'static str = "/var/lib/vexa-vm/updates/status";

/// How an update request stands.
#[derive(Clone, Copy, Debug, PartialEq, Eq, Structural)]
pub enum UpdateOutcome {
    Running,
    Succeeded,
    Failed,
    RolledBack,
    NeedsIntervention,
}

/// One package of the plan, before and after the package manager ran.
#[derive(Debug, PartialEq, Eq)]
pub struct PackageChangeStatus {
    pub component: String,
    pub package: String,
    pub previous_version: Option<String>,
    pub requested_version: String,
    pub applied: bool,
}

/// What a [`PackageChangeStatus`] holds, with texts as character sequences.
#[verifier::ext_equal]
pub struct PackageChangeStatusView {
    pub component: Seq<char>,
    pub package: Seq<char>,
    pub previous_version: Option<Seq<char>>,
    pub requested_version: Seq<char>,
    pub applied: bool,
}

impl View for PackageChangeStatus {
    type V = PackageChangeStatusView;

    open spec fn view(&self) -> PackageChangeStatusView {
        PackageChangeStatusView {
            component: self.component@,
            package: self.package@,
            previous_version: view_option(self.previous_version),
            requested_version: self.requested_version@,
            applied: self.applied,
        }
    }
}

impl Clone for PackageChangeStatus {
    fn clone(&self) -> (r: PackageChangeStatus)
        ensures
            r@ == self@,
    {
        PackageChangeStatus {
            component: self.component.clone(),
            package: self.package.clone(),
            previous_version: copy_option(&self.previous_version),
            requested_version: self.requested_version.clone(),
            applied: self.applied,
        }
    }
}

impl PackageChangeStatus {
    /// What a list of them holds.
    pub open spec fn list_view(list: Seq<PackageChangeStatus>) -> Seq<PackageChangeStatusView> {
        list.map_values(|x: PackageChangeStatus| x@)
    }

    /// A copy of a list of them.
    pub fn copy_of_list(list: &Vec<PackageChangeStatus>) -> (r: Vec<PackageChangeStatus>)
        ensures
            PackageChangeStatus::list_view(r@) == PackageChangeStatus::list_view(list@),
    {
        let mut r: Vec<PackageChangeStatus> = Vec::new();
        let mut i: usize = 0;
        while i < list.len()
            invariant
                i <= list@.len(),
                r@.len() == i,
                forall|j: int| 0 <= j < i ==> (#[trigger] r@[j])@ == list@[j]@,
            decreases list@.len() - i,
        {
            r.push(list[i].clone());
            i = i + 1;
        }
        proof {
            assert(PackageChangeStatus::list_view(r@) =~= PackageChangeStatus::list_view(list@));
        }
        r
    }
}

/// Whether the application can be, was asked to be and has been restored.
#[derive(Debug, PartialEq, Eq)]
pub struct RollbackStatus {
    pub available: bool,
    pub attempted: bool,
    pub succeeded: bool,
    pub previous_release: Option<String>,
    pub snapshot_sha256: Option<String>,
}

/// What a [`RollbackStatus`] holds, with texts as character sequences.
#[verifier::ext_equal]
pub struct RollbackStatusView {
    pub available: bool,
    pub attempted: bool,
    pub succeeded: bool,
    pub previous_release: Option<Seq<char>>,
    pub snapshot_sha256: Option<Seq<char>>,
}

impl View for RollbackStatus {
    type V = RollbackStatusView;

    open spec fn view(&self) -> RollbackStatusView {
        RollbackStatusView {
            available: self.available,
            attempted: self.attempted,
            succeeded: self.succeeded,
            previous_release: view_option(self.previous_release),
            snapshot_sha256: view_option(self.snapshot_sha256),
        }
    }
}

impl Clone for RollbackStatus {
    fn clone(&self) -> (r: RollbackStatus)
        ensures
            r@ == self@,
    {
        RollbackStatus {
            available: self.available,
            attempted: self.attempted,
            succeeded: self.succeeded,
            previous_release: copy_option(&self.previous_release),
            snapshot_sha256: copy_option(&self.snapshot_sha256),
        }
    }
}

/// The offer to return to the release that was active before an activation.
#[derive(Debug, PartialEq, Eq)]
pub struct PublicRollbackPointStatus {
    pub activation_id: String,
    pub release: String,
    pub previous_release: String,
    pub manifest_sha256: String,
    pub snapshot_sha256: String,
    pub snapshot_size_bytes: u64,
    pub components: Vec<String>,
}

/// What a [`PublicRollbackPointStatus`] holds, with texts as character sequences.
#[verifier::ext_equal]
pub struct PublicRollbackPointStatusView {
    pub activation_id: Seq<char>,
    pub release: Seq<char>,
    pub previous_release: Seq<char>,
    pub manifest_sha256: Seq<char>,
    pub snapshot_sha256: Seq<char>,
    pub snapshot_size_bytes: u64,
    pub components: Seq<Seq<char>>,
}

impl View for PublicRollbackPointStatus {
    type V = PublicRollbackPointStatusView;

    open spec fn view(&self) -> PublicRollbackPointStatusView {
        PublicRollbackPointStatusView {
            activation_id: self.activation_id@,
            release: self.release@,
            previous_release: self.previous_release@,
            manifest_sha256: self.manifest_sha256@,
            snapshot_sha256: self.snapshot_sha256@,
            snapshot_size_bytes: self.snapshot_size_bytes,
            components: views(self.components@),
        }
    }
}

impl Clone for PublicRollbackPointStatus {
    fn clone(&self) -> (r: PublicRollbackPointStatus)
        ensures
            r@ == self@,
    {
        PublicRollbackPointStatus {
            activation_id: self.activation_id.clone(),
            release: self.release.clone(),
            previous_release: self.previous_release.clone(),
            manifest_sha256: self.manifest_sha256.clone(),
            snapshot_sha256: self.snapshot_sha256.clone(),
            snapshot_size_bytes: self.snapshot_size_bytes,
            components: copy_list(&self.components),
        }
    }
}

impl PublicRollbackPointStatus {
    /// What an optional one holds.
    pub open spec fn option_view(o: Option<PublicRollbackPointStatus>) -> Option<PublicRollbackPointStatusView> {
        match o {
            Some(x) => Some(x@),
            None => None,
        }
    }

    /// A copy of an optional one.
    pub fn copy_of_option(o: &Option<PublicRollbackPointStatus>) -> (r: Option<PublicRollbackPointStatus>)
        ensures
            PublicRollbackPointStatus::option_view(r) == PublicRollbackPointStatus::option_view(*o),
    {
        match o {
            Some(x) => Some(x.clone()),
            None => None,
        }
    }
}

/// The status record of one update request.
#[derive(Debug, PartialEq, Eq)]
pub struct DurableUpdateStatus {
    pub schema_version: u32,
    pub request_id: String,
    pub operation: Option<String>,
    pub release: Option<String>,
    pub phase: String,
    pub progress_percent: u8,
    pub outcome: UpdateOutcome,
    pub message: String,
    pub started_at: i64,
    pub updated_at: i64,
    pub completed_at: Option<i64>,
    pub package_changes: Vec<PackageChangeStatus>,
    pub rollback: RollbackStatus,
    pub rollback_point: Option<PublicRollbackPointStatus>,
}

/// What a [`DurableUpdateStatus`] holds, with texts as character sequences.
#[verifier::ext_equal]
pub struct DurableUpdateStatusView {
    pub schema_version: u32,
    pub request_id: Seq<char>,
    pub operation: Option<Seq<char>>,
    pub release: Option<Seq<char>>,
    pub phase: Seq<char>,
    pub progress_percent: u8,
    pub outcome: UpdateOutcome,
    pub message: Seq<char>,
    pub started_at: i64,
    pub updated_at: i64,
    pub completed_at: Option<i64>,
    pub package_changes: Seq<PackageChangeStatusView>,
    pub rollback: RollbackStatusView,
    pub rollback_point: Option<PublicRollbackPointStatusView>,
}

impl View for DurableUpdateStatus {
    type V = DurableUpdateStatusView;

    open spec fn view(&self) -> DurableUpdateStatusView {
        DurableUpdateStatusView {
            schema_version: self.schema_version,
            request_id: self.request_id@,
            operation: view_option(self.operation),
            release: view_option(self.release),
            phase: self.phase@,
            progress_percent: self.progress_percent,
            outcome: self.outcome,
            message: self.message@,
            started_at: self.started_at,
            updated_at: self.updated_at,
            completed_at: self.completed_at,
            package_changes: PackageChangeStatus::list_view(self.package_changes@),
            rollback: self.rollback@,
            rollback_point: PublicRollbackPointStatus::option_view(self.rollback_point),
        }
    }
}

impl Clone for DurableUpdateStatus {
    fn clone(&self) -> (r: DurableUpdateStatus)
        ensures
            r@ == self@,
    {
        DurableUpdateStatus {
            schema_version: self.schema_version,
            request_id: self.request_id.clone(),
            operation: copy_option(&self.operation),
            release: copy_option(&self.release),
            phase: self.phase.clone(),
            progress_percent: self.progress_percent,
            outcome: self.outcome,
            message: self.message.clone(),
            started_at: self.started_at,
            updated_at: self.updated_at,
            completed_at: self.completed_at,
            package_changes: PackageChangeStatus::copy_of_list(&self.package_changes),
            rollback: self.rollback.clone(),
            rollback_point: PublicRollbackPointStatus::copy_of_option(&self.rollback_point),
        }
    }
}

/// Why a status transition was refused.
#[derive(Clone, Copy, Debug, PartialEq, Eq, Structural)]
pub enum StatusError {
    InvalidPhase,
    TooManyPackageChanges,
    InvalidRollbackPoint,
    ActivationIdentity,
    RollbackPointIdentity,
    InvalidRecord,
    UnsafeRecord,
    TooLarge,
    NotPersisted,
}

impl StatusError {
    /// The text shown to an operator.
    pub fn message(&self) -> (r: &'static str)
        ensures
            r@ == status_error_text(*self),
    {
        match self {
            StatusError::InvalidPhase => "invalid update status phase",
            StatusError::TooManyPackageChanges => "too many package changes in update status",
            StatusError::InvalidRollbackPoint => "invalid public rollback point",
            StatusError::ActivationIdentity => "activation status identity is invalid",
            StatusError::RollbackPointIdentity => "activation rollback point identity is invalid",
            StatusError::InvalidRecord => "durable update status is invalid",
            StatusError::UnsafeRecord =>
                "durable update status must be root-owned and non-writable by other users",
            StatusError::TooLarge => "durable update status exceeded its size limit",
            StatusError::NotPersisted => "durable update status could not be written",
        }
    }
}

/// The text of each refusal.
pub open spec fn status_error_text(e: StatusError) -> Seq<char> {
    match e {
        StatusError::InvalidPhase => "invalid update status phase"@,
        StatusError::TooManyPackageChanges => "too many package changes in update status"@,
        StatusError::InvalidRollbackPoint => "invalid public rollback point"@,
        StatusError::ActivationIdentity => "activation status identity is invalid"@,
        StatusError::RollbackPointIdentity => "activation rollback point identity is invalid"@,
        StatusError::InvalidRecord => "durable update status is invalid"@,
        StatusError::UnsafeRecord =>
            "durable update status must be root-owned and non-writable by other users"@,
        StatusError::TooLarge => "durable update status exceeded its size limit"@,
        StatusError::NotPersisted => "durable update status could not be written"@,
    }
}

/// `s` with each control character replaced by a space.
pub open spec fn sanitized(s: Seq<char>) -> Seq<char> {
    s.map_values(|c: char| if is_control(c) { ' ' } else { c })
}

/// How many characters at the front of `s` fit into `room` bytes.
pub open spec fn fitting(s: Seq<char>, room: nat) -> nat
    decreases s.len(),
{
    if s.len() == 0 || char_width(s[0]) > room {
        0
    } else {
        1 + fitting(s.drop_first(), (room - char_width(s[0])) as nat)
    }
}

/// The message as the record holds it: without control characters and at most 512 bytes
/// long; a longer one is cut at a character and ends in an ellipsis.
pub open spec fn bounded(s: Seq<char>) -> Seq<char> {
    let clean = sanitized(s);
    if byte_len(clean) <= 512 {
        clean
    } else {
        clean.take(fitting(clean, 509) as int).push('…')
    }
}

/// The prefix that `fitting` counts fits, and one more character would not.
pub proof fn fitting_is_longest(s: Seq<char>, room: nat)
    ensures
        fitting(s, room) <= s.len(),
        byte_len(s.take(fitting(s, room) as int)) <= room,
        fitting(s, room) < s.len() ==> byte_len(s.take(fitting(s, room) as int + 1)) > room,
    decreases s.len(),
{
    if s.len() == 0 {
        assert(s.take(0) =~= Seq::<char>::empty());
    } else if char_width(s[0]) > room {
        assert(s.take(0) =~= Seq::<char>::empty());
        assert(s.take(1) =~= Seq::<char>::empty().push(s[0]));
        byte_len_push(Seq::empty(), s[0]);
    } else {
        let rest = s.drop_first();
        let left = (room - char_width(s[0])) as nat;
        fitting_is_longest(rest, left);
        let k = fitting(rest, left) as int;
        let head = Seq::<char>::empty().push(s[0]);
        byte_len_push(Seq::empty(), s[0]);
        assert(s.take(k + 1) =~= head + rest.take(k));
        byte_len_concat(head, rest.take(k));
        if k < rest.len() {
            assert(s.take(k + 2) =~= head + rest.take(k + 1));
            byte_len_concat(head, rest.take(k + 1));
        }
    }
}

/// A recorded message is at most 512 bytes long and holds no control character.
pub proof fn bounded_is_bounded(s: Seq<char>)
    ensures
        byte_len(bounded(s)) <= 512,
        forall|i: int| 0 <= i < bounded(s).len() ==> !is_control(#[trigger] bounded(s)[i]),
{
    let clean = sanitized(s);
    fitting_is_longest(clean, 509);
    byte_len_push(clean.take(fitting(clean, 509) as int), '…');
}

/// A message that already has the recorded form is recorded unchanged.
pub proof fn bounded_is_stable(s: Seq<char>)
    ensures
        bounded(bounded(s)) == bounded(s),
{
    bounded_is_bounded(s);
    assert(sanitized(bounded(s)) =~= bounded(s));
}

/// The message as the record holds it.
pub fn bounded_message(value: &str) -> (r: String)
    ensures
        r@ == bounded(value@),
        byte_len(r@) <= 512,
        forall|i: int| 0 <= i < r@.len() ==> !is_control(#[trigger] r@[i]),
{
    let v = chars_of(value);
    let ghost clean = sanitized(value@);
    let mut text: String = String::new();
    let mut total: u64 = 0;
    let mut prefix: String = String::new();
    let mut open: bool = true;
    let mut room: usize = 509;
    let mut i: usize = 0;
    proof {
        assert(clean.take(0) =~= Seq::<char>::empty());
        assert(clean.skip(0) =~= clean);
    }
    while i < v.len()
        invariant
            i <= v@.len(),
            v@ == value@,
            clean == sanitized(value@),
            clean.len() == v@.len(),
            text@ == clean.take(i as int),
            total <= 513,
            total <= 512 ==> total == byte_len(text@),
            total == 513 ==> byte_len(text@) > 512,
            room <= 509,
            prefix@.len() <= i,
            prefix@ == clean.take(prefix@.len() as int),
            open ==> prefix@.len() == i && fitting(clean, 509) == i + fitting(
                clean.skip(i as int),
                room as nat,
            ),
            !open ==> fitting(clean, 509) == prefix@.len(),
        decreases v@.len() - i,
    {
        let c: char = if control(v[i]) {
            ' '
        } else {
            v[i]
        };
        let w: usize = width(c);
        proof {
            assert(clean[i as int] == c);
            assert(clean.take(i as int + 1) =~= clean.take(i as int).push(c));
            byte_len_push(clean.take(i as int), c);
            assert(clean.skip(i as int)[0] == c);
            assert(clean.skip(i as int).drop_first() =~= clean.skip(i as int + 1));
        }
        text.push(c);
        if total <= 512 {
            total = total + w as u64;
            if total > 512 {
                total = 513;
            }
        }
        if open && w <= room {
            prefix.push(c);
            room = room - w;
        } else {
            open = false;
        }
        i = i + 1;
    }
    proof {
        bounded_is_bounded(value@);
        assert(clean.take(clean.len() as int) =~= clean);
        assert(clean.skip(clean.len() as int).len() == 0);
    }
    if total <= 512 {
        text
    } else {
        prefix.push('…');
        prefix
    }
}

/// The status record with which an update request begins.
pub open spec fn started(request_id: Seq<char>, now: i64) -> DurableUpdateStatusView {
    DurableUpdateStatusView {
        schema_version: 1,
        request_id,
        operation: None,
        release: None,
        phase: "validating"@,
        progress_percent: 1,
        outcome: UpdateOutcome::Running,
        message: "Validating the signed, approved update request"@,
        started_at: now,
        updated_at: now,
        completed_at: None,
        package_changes: Seq::empty(),
        rollback: RollbackStatusView {
            available: false,
            attempted: false,
            succeeded: false,
            previous_release: None,
            snapshot_sha256: None,
        },
        rollback_point: None,
    }
}

/// A phase that the record accepts.
pub open spec fn phase_accepted(phase: Seq<char>, progress_percent: u8) -> bool {
    progress_percent <= 100 && phase.len() > 0 && byte_len(phase) <= 64
}

/// The record after a phase began.
pub open spec fn with_phase(
    s: DurableUpdateStatusView,
    phase: Seq<char>,
    progress_percent: u8,
    message: Seq<char>,
    now: i64,
) -> DurableUpdateStatusView {
    DurableUpdateStatusView {
        phase,
        progress_percent,
        message: bounded(message),
        updated_at: now,
        ..s
    }
}

/// The record after the operation became known.
pub open spec fn with_operation(
    s: DurableUpdateStatusView,
    operation: Seq<char>,
    release: Seq<char>,
    now: i64,
) -> DurableUpdateStatusView {
    DurableUpdateStatusView {
        operation: Some(operation),
        release: Some(release),
        updated_at: now,
        ..s
    }
}

/// The record with a new rollback section.
pub open spec fn with_rollback(
    s: DurableUpdateStatusView,
    rollback: RollbackStatusView,
    now: i64,
) -> DurableUpdateStatusView {
    DurableUpdateStatusView { rollback, updated_at: now, ..s }
}

/// The record with new package changes.
pub open spec fn with_package_changes(
    s: DurableUpdateStatusView,
    package_changes: Seq<PackageChangeStatusView>,
    now: i64,
) -> DurableUpdateStatusView {
    DurableUpdateStatusView { package_changes, updated_at: now, ..s }
}

/// The record without a rollback point.
pub open spec fn without_rollback_point(
    s: DurableUpdateStatusView,
    now: i64,
) -> DurableUpdateStatusView {
    DurableUpdateStatusView { rollback_point: None, updated_at: now, ..s }
}

/// The terminal record.
pub open spec fn finished(
    s: DurableUpdateStatusView,
    outcome: UpdateOutcome,
    phase: Seq<char>,
    message: Seq<char>,
    now: i64,
) -> DurableUpdateStatusView {
    DurableUpdateStatusView {
        outcome,
        phase,
        progress_percent: 100,
        message: bounded(message),
        updated_at: now,
        completed_at: Some(now),
        ..s
    }
}

/// The record as it goes to disk: a rollback point is published only together with a
/// successful outcome.
pub open spec fn durable_form(s: DurableUpdateStatusView) -> DurableUpdateStatusView {
    DurableUpdateStatusView {
        rollback_point: if s.outcome == UpdateOutcome::Succeeded {
            s.rollback_point
        } else {
            None
        },
        ..s
    }
}

/// A rollback point that may be staged.
pub open spec fn rollback_point_accepted(p: PublicRollbackPointStatusView) -> bool {
    &&& byte_len(p.activation_id) <= 64
    &&& byte_len(p.release) <= 64
    &&& byte_len(p.previous_release) <= 64
    &&& byte_len(p.manifest_sha256) == 64
    &&& byte_len(p.snapshot_sha256) == 64
    &&& p.snapshot_size_bytes != 0
    &&& 1 <= p.components.len() <= 3
}

/// The terminal status of the activation `activation_id`.
pub open spec fn is_completed_activation(
    s: DurableUpdateStatusView,
    activation_id: Seq<char>,
) -> bool {
    &&& s.schema_version == 1
    &&& s.request_id == activation_id
    &&& s.operation == Some("activate"@)
    &&& s.outcome == UpdateOutcome::Succeeded
    &&& s.completed_at is Some
}

/// Keeps the status record of one update request.
pub struct StatusWriter {
    status: DurableUpdateStatus,
}

impl StatusWriter {
    /// What the record in memory holds.
    pub closed spec fn view(&self) -> DurableUpdateStatusView {
        self.status@
    }

    /// The record with which the request begins.
    pub fn start(request_id: &str, now: i64) -> (r: StatusWriter)
        ensures
            r@ == started(request_id@, now),
    {
        let package_changes: Vec<PackageChangeStatus> = Vec::new();
        proof {
            assert(PackageChangeStatus::list_view(package_changes@) =~= Seq::empty());
        }
        StatusWriter {
            status: DurableUpdateStatus {
                schema_version: 1,
                request_id: request_id.to_owned(),
                operation: None,
                release: None,
                phase: "validating".to_owned(),
                progress_percent: 1,
                outcome: UpdateOutcome::Running,
                message: "Validating the signed, approved update request".to_owned(),
                started_at: now,
                updated_at: now,
                completed_at: None,
                package_changes,
                rollback: RollbackStatus {
                    available: false,
                    attempted: false,
                    succeeded: false,
                    previous_release: None,
                    snapshot_sha256: None,
                },
                rollback_point: None,
            },
        }
    }

    /// A writer that goes on from a record read back from disk.
    pub fn resume(status: DurableUpdateStatus) -> (r: StatusWriter)
        ensures
            r@ == status@,
    {
        StatusWriter { status }
    }

    /// The record in memory.
    pub fn snapshot(&self) -> (r: &DurableUpdateStatus)
        ensures
            r@ == self@,
    {
        &self.status
    }

    /// The record with the operation and release filled in.
    pub fn set_operation(&self, operation: &str, release: &str, now: i64) -> (r:
        DurableUpdateStatus)
        ensures
            r@ == with_operation(self@, operation@, release@, now),
    {
        let mut next = self.status.clone();
        next.operation = Some(operation.to_owned());
        next.release = Some(release.to_owned());
        next.updated_at = now;
        next
    }

    /// The record with a new phase, progress and message.
    pub fn phase(&self, phase: &str, progress_percent: u8, message: &str, now: i64) -> (r: Result<
        DurableUpdateStatus,
        StatusError,
    >)
        ensures
            r is Ok <==> phase_accepted(phase@, progress_percent),
            r matches Ok(next) ==> next@ == with_phase(
                self@,
                phase@,
                progress_percent,
                message@,
                now,
            ),
            r matches Err(e) ==> e == StatusError::InvalidPhase,
    {
        if progress_percent > 100 || phase.is_empty() || byte_length(phase) > 64 {
            return Err(StatusError::InvalidPhase);
        }
        let mut next = self.status.clone();
        next.phase = phase.to_owned();
        next.progress_percent = progress_percent;
        next.message = bounded_message(message);
        next.updated_at = now;
        Ok(next)
    }

    /// The record with a new list of package changes, at most sixteen.
    pub fn set_package_changes(&self, changes: Vec<PackageChangeStatus>, now: i64) -> (r: Result<
        DurableUpdateStatus,
        StatusError,
    >)
        ensures
            r is Ok <==> changes@.len() <= 16,
            r matches Ok(next) ==> next@ == with_package_changes(
                self@,
                PackageChangeStatus::list_view(changes@),
                now,
            ),
            r matches Err(e) ==> e == StatusError::TooManyPackageChanges,
    {
        if changes.len() > 16 {
            return Err(StatusError::TooManyPackageChanges);
        }
        let mut next = self.status.clone();
        next.package_changes = changes;
        next.updated_at = now;
        Ok(next)
    }

    /// The record with a new rollback section.
    pub fn set_rollback(
        &self,
        available: bool,
        attempted: bool,
        succeeded: bool,
        previous_release: Option<String>,
        snapshot_sha256: Option<String>,
        now: i64,
    ) -> (r: DurableUpdateStatus)
        ensures
            r@ == with_rollback(
                self@,
                RollbackStatusView {
                    available,
                    attempted,
                    succeeded,
                    previous_release: view_option(previous_release),
                    snapshot_sha256: view_option(snapshot_sha256),
                },
                now,
            ),
    {
        let mut next = self.status.clone();
        next.rollback =
        RollbackStatus { available, attempted, succeeded, previous_release, snapshot_sha256 };
        next.updated_at = now;
        next
    }

    /// Stages a rollback point in memory. It is published together with a successful
    /// outcome; a running status with a rollback offer never goes to disk.
    pub fn stage_rollback_point(&mut self, rollback_point: PublicRollbackPointStatus) -> (r: Result<
        (),
        StatusError,
    >)
        ensures
            r is Ok <==> rollback_point_accepted(rollback_point@),
            r is Ok ==> final(self)@ == (DurableUpdateStatusView {
                rollback_point: Some(rollback_point@),
                ..old(self)@
            }),
            r matches Err(e) ==> e == StatusError::InvalidRollbackPoint && final(self)@ == old(
                self,
            )@,
    {
        if byte_length(rollback_point.activation_id.as_str()) > 64
            || byte_length(rollback_point.release.as_str()) > 64
            || byte_length(rollback_point.previous_release.as_str()) > 64
            || byte_length(rollback_point.manifest_sha256.as_str()) != 64
            || byte_length(rollback_point.snapshot_sha256.as_str()) != 64
            || rollback_point.snapshot_size_bytes == 0
            || rollback_point.components.len() == 0
            || rollback_point.components.len() > 3 {
            return Err(StatusError::InvalidRollbackPoint);
        }
        self.status.rollback_point = Some(rollback_point);
        Ok(())
    }

    /// The record without its rollback point.
    pub fn clear_rollback_point(&self, now: i64) -> (r: DurableUpdateStatus)
        ensures
            r@ == without_rollback_point(self@, now),
    {
        let mut next = self.status.clone();
        next.rollback_point = None;
        next.updated_at = now;
        next
    }

    /// What becomes of the record of a completed activation whose rollback point was
    /// used up: nothing where there is no record or no point, else the record without
    /// the point.
    pub fn clear_rollback_point_for_activation(
        existing: Option<DurableUpdateStatus>,
        activation_id: &str,
        now: i64,
    ) -> (r: Result<Option<DurableUpdateStatus>, StatusError>)
        ensures
            existing is None ==> r matches Ok(None),
            existing matches Some(s) ==> {
                let identified = is_completed_activation(s@, activation_id@);
                let own_point = s@.rollback_point matches Some(p) ==> p.activation_id
                    == activation_id@;
                &&& r is Err <==> !identified || !own_point
                &&& r matches Err(e) ==> e == (if identified {
                    StatusError::RollbackPointIdentity
                } else {
                    StatusError::ActivationIdentity
                })
                &&& (r matches Ok(None)) <==> identified && s@.rollback_point is None
                &&& r matches Ok(Some(next)) ==> next@ == without_rollback_point(s@, now)
            },
    {
        match existing {
            None => Ok(None),
            Some(status) => {
                let outcome_ok = status.outcome == UpdateOutcome::Succeeded;
                if status.schema_version != 1 || !same(status.request_id.as_str(), activation_id)
                    || !option_is(&status.operation, "activate") || !outcome_ok
                    || status.completed_at.is_none() {
                    return Err(StatusError::ActivationIdentity);
                }
                match &status.rollback_point {
                    None => {
                        return Ok(None);
                    },
                    Some(point) => {
                        if !same(point.activation_id.as_str(), activation_id) {
                            return Err(StatusError::RollbackPointIdentity);
                        }
                    },
                }
                let writer = StatusWriter { status };
                Ok(Some(writer.clear_rollback_point(now)))
            },
        }
    }

    /// The terminal record.
    pub fn finish(&self, outcome: UpdateOutcome, phase: &str, message: &str, now: i64) -> (r:
        DurableUpdateStatus)
        ensures
            r@ == finished(self@, outcome, phase@, message@, now),
    {
        let mut next = self.status.clone();
        next.outcome = outcome;
        next.phase = phase.to_owned();
        next.progress_percent = 100;
        next.message = bounded_message(message);
        next.updated_at = now;
        next.completed_at = Some(now);
        next
    }

    /// Takes over `next` where it was written to disk, and keeps the present record
    /// where it was not.
    pub fn commit(&mut self, next: DurableUpdateStatus, persisted: bool) -> (r: Result<
        (),
        StatusError,
    >)
        ensures
            persisted ==> r is Ok && final(self)@ == next@,
            !persisted ==> r == Err::<(), StatusError>(StatusError::NotPersisted) && final(self)@
                == old(self)@,
    {
        if persisted {
            self.status = next;
            Ok(())
        } else {
            Err(StatusError::NotPersisted)
        }
    }

    /// The record as it goes to disk.
    pub fn durable(next: &DurableUpdateStatus) -> (r: DurableUpdateStatus)
        ensures
            r@ == durable_form(next@),
    {
        let mut r = next.clone();
        let succeeded = r.outcome == UpdateOutcome::Succeeded;
        if !succeeded {
            r.rollback_point = None;
        }
        r
    }
}

/// Whether a status file found on disk may be read: a non-empty regular file within the
/// size limit that belongs to root and that nobody else can write.
pub fn check_existing_record(is_file: bool, length: u64, uid: u32, mode: u32) -> (r: Result<
    (),
    StatusError,
>)
    ensures
        r == (if !is_file || length == 0 || length > MAX_STATUS_BYTES {
            Err::<(), StatusError>(StatusError::InvalidRecord)
        } else if uid != 0 || mode & 0o022 != 0 {
            Err::<(), StatusError>(StatusError::UnsafeRecord)
        } else {
            Ok::<(), StatusError>(())
        }),
{
    if !is_file || length == 0 || length > MAX_STATUS_BYTES {
        return Err(StatusError::InvalidRecord);
    }
    if uid != 0 || mode & 0o022 != 0 {
        return Err(StatusError::UnsafeRecord);
    }
    Ok(())
}

/// A message is cleaned character by character: a control character becomes a blank, and any
/// other stays.
pub proof fn messages_are_cleaned(s: Seq<char>, i: int)
    requires
        0 <= i < s.len(),
    ensures
        sanitized(s).len() == s.len(),
        is_control(s[i]) ==> sanitized(s)[i] == ' ',
        !is_control(s[i]) ==> sanitized(s)[i] == s[i],
        !is_control(sanitized(s)[i]),
{
}

/// A short message is kept whole; a long one is cut to the longest beginning that leaves room
/// for an ellipsis, which then ends it.
pub proof fn long_messages_are_cut(s: Seq<char>)
    ensures
        byte_len(sanitized(s)) <= 512 ==> bounded(s) == sanitized(s),
        byte_len(sanitized(s)) > 512 ==> {
            let n = bounded(s).len() - 1;
            &&& bounded(s).last() == '…'
            &&& 0 <= n < s.len()
            &&& bounded(s).take(n) == sanitized(s).take(n)
            &&& byte_len(sanitized(s).take(n)) <= 509
            &&& byte_len(sanitized(s).take(n + 1)) > 509
        },
{
    let c = sanitized(s);
    if byte_len(c) > 512 {
        fitting_is_longest(c, 509);
        let k = fitting(c, 509) as int;
        let b = bounded(s);
        assert(b.take(k) =~= c.take(k));
        if k == c.len() {
            assert(c.take(k) =~= c);
        }
    }
}

/// The first record of a request says that it is being validated, and nothing else yet.
pub proof fn how_a_request_begins(request_id: Seq<char>, now: i64)
    ensures
        ({
            let s = started(request_id, now);
            &&& s.schema_version == 1
            &&& s.request_id == request_id
            &&& s.operation is None && s.release is None
            &&& s.outcome == UpdateOutcome::Running
            &&& s.phase == "validating"@ && s.progress_percent == 1
            &&& s.started_at == now && s.updated_at == now && s.completed_at is None
            &&& s.package_changes.len() == 0
            &&& !s.rollback.available && !s.rollback.attempted && !s.rollback.succeeded
            &&& s.rollback.previous_release is None && s.rollback.snapshot_sha256 is None
            &&& s.rollback_point is None
        }),
{
}

/// What a record says of its request, and when that began.
pub open spec fn is_same_request(s: DurableUpdateStatusView, t: DurableUpdateStatusView) -> bool {
    &&& t.schema_version == s.schema_version
    &&& t.request_id == s.request_id
    &&& t.started_at == s.started_at
}

/// Each change of a record changes what it tells of, and when, and nothing else. Only an end
/// sets the outcome and when the request was completed, and then all of it is done.
pub proof fn records_change_as_they_are_told(
    s: DurableUpdateStatusView,
    phase: Seq<char>,
    progress: u8,
    message: Seq<char>,
    operation: Seq<char>,
    release: Seq<char>,
    rollback: RollbackStatusView,
    changes: Seq<PackageChangeStatusView>,
    outcome: UpdateOutcome,
    now: i64,
)
    ensures
        ({
            let p = with_phase(s, phase, progress, message, now);
            let o = with_operation(s, operation, release, now);
            let r = with_rollback(s, rollback, now);
            let c = with_package_changes(s, changes, now);
            let w = without_rollback_point(s, now);
            let f = finished(s, outcome, phase, message, now);
            &&& is_same_request(s, p) && is_same_request(s, o) && is_same_request(s, r)
                && is_same_request(s, c) && is_same_request(s, w) && is_same_request(s, f)
            &&& p.updated_at == now && o.updated_at == now && r.updated_at == now && c.updated_at
                == now && w.updated_at == now && f.updated_at == now
            &&& p.phase == phase && p.progress_percent == progress && p.message == bounded(message)
            &&& p.outcome == s.outcome && p.completed_at == s.completed_at && p.operation
                == s.operation && p.release == s.release && p.rollback == s.rollback
                && p.package_changes == s.package_changes && p.rollback_point == s.rollback_point
            &&& o.operation == Some(operation) && o.release == Some(release)
            &&& o.phase == s.phase && o.progress_percent == s.progress_percent && o.message
                == s.message && o.outcome == s.outcome && o.completed_at == s.completed_at
                && o.rollback == s.rollback && o.package_changes == s.package_changes
                && o.rollback_point == s.rollback_point
            &&& r.rollback == rollback
            &&& r == (DurableUpdateStatusView { rollback: r.rollback, updated_at: now, ..s })
            &&& c.package_changes == changes
            &&& c == (DurableUpdateStatusView {
                package_changes: c.package_changes,
                updated_at: now,
                ..s
            })
            &&& w.rollback_point is None
            &&& w == (DurableUpdateStatusView {
                rollback_point: w.rollback_point,
                updated_at: now,
                ..s
            })
            &&& f.outcome == outcome && f.phase == phase && f.message == bounded(message)
            &&& f.progress_percent == 100 && f.completed_at == Some(now)
            &&& f.operation == s.operation && f.release == s.release && f.rollback == s.rollback
                && f.package_changes == s.package_changes && f.rollback_point == s.rollback_point
        }),
{
}

/// Only a success keeps its rollback point when it is written down.
pub proof fn only_successes_can_be_rolled_back(s: DurableUpdateStatusView)
    ensures
        s.outcome == UpdateOutcome::Succeeded ==> durable_form(s) == s,
        s.outcome != UpdateOutcome::Succeeded ==> durable_form(s).rollback_point is None,
        durable_form(s) == (DurableUpdateStatusView {
            rollback_point: durable_form(s).rollback_point,
            ..s
        }),
{
}

/// An activation has come to its end in a status that tells of that activation, that it
/// succeeded, and when; a status that lacks any of these tells of no such end.
pub proof fn which_activation_is_at_its_end(
    s: DurableUpdateStatusView,
    id: Seq<char>,
    other: Seq<char>,
    time: i64,
)
    ensures
        is_completed_activation(
            DurableUpdateStatusView {
                schema_version: 1,
                request_id: id,
                operation: Some("activate"@),
                outcome: UpdateOutcome::Succeeded,
                completed_at: Some(time),
                ..s
            },
            id,
        ),
        !is_completed_activation(DurableUpdateStatusView { completed_at: None, ..s }, id),
        !is_completed_activation(DurableUpdateStatusView { operation: None, ..s }, id),
        s.schema_version != 1 ==> !is_completed_activation(s, id),
        s.outcome != UpdateOutcome::Succeeded ==> !is_completed_activation(s, id),
        s.operation == Some(other) && other != "activate"@ ==> !is_completed_activation(s, id),
        s.request_id != id ==> !is_completed_activation(s, id),
{
}

} // verus!
