//! Guest tools: the channel keys of the tools inside the guests, and how a key is replaced
//! when a guest is installed anew.
//!
//! A new key is staged beside the active one. It is armed just before it may reach a
//! guest's disk; from then on it is never thrown away, because nothing can tell which of
//! the two keys the guest has. A handshake with the new key makes it the active one.

use vstd::prelude::*;

use crate::db::rows::{
    GuestToolsPlatform, GuestToolsProvisioner, GuestToolsRow, GuestToolsRowView, GuestToolsStatus,
    Job, JobStatus, JobView, PendingRotation, PendingRotationView, ReusableVmGuestToolsRotation,
    ReusableVmGuestToolsRotationView, Timestamp, VmGuestTools, VmGuestToolsView,
};
use crate::db::store::{
    dangling_reference, earlier, empty_fault, generation_fault, option_result, plain_result,
    reference_error, row_result, settles, text_option_result,
    validate_guest_tools_rotation_generation, validate_guest_tools_version, validate_non_empty,
    version_fault, vm_with_id, Database, DatabaseView,
};
use crate::db::vms::{changed, view_sealed};
use crate::error::{conflict, not_found, validation, AppError, AppErrorView, AppResult};
use crate::json::Extract;
use crate::table::{
    any, append, count, find, first, first_is_first, foremost, look_up, model, occurs, others,
    others_has, pick, remove, revise, revised,
};
use crate::text::{
    byte_len, byte_length, chars_of, copy_option, digit, is_digit, join2, join3, option_is,
    own_option, same, text_of, view_option, view_str,
};

verus! {

broadcast use vstd::string::group_string_axioms;

/// The member of a reinstall's payload that names its rotation.
pub open spec fn generation_field() -> Seq<char> {
    "_guest_tools_rotation_generation"@
}

/// The tools of a machine.
pub open spec fn tools_of(vm_id: Seq<char>) -> spec_fn(GuestToolsRowView) -> bool {
    |m: GuestToolsRowView| m.vm_id == vm_id
}

/// The key that is staged may be on the guest's disk.
pub open spec fn armed(m: GuestToolsRowView) -> bool {
    m.pending is Some && m.pending->0.installed
}

/// The enabled tools of a machine.
pub open spec fn enabled_tools(vm_id: Seq<char>) -> spec_fn(GuestToolsRowView) -> bool {
    |m: GuestToolsRowView| m.vm_id == vm_id && m.enabled
}

/// The tools of a machine without an armed key.
pub open spec fn unarmed_tools(vm_id: Seq<char>) -> spec_fn(GuestToolsRowView) -> bool {
    |m: GuestToolsRowView| m.vm_id == vm_id && !armed(m)
}

/// The enabled tools of a machine without a staged key.
pub open spec fn settled_tools(vm_id: Seq<char>) -> spec_fn(GuestToolsRowView) -> bool {
    |m: GuestToolsRowView| m.vm_id == vm_id && m.enabled && m.pending is None
}

/// The enabled tools of a machine with a staged key of a generation.
pub open spec fn rotating_tools(vm_id: Seq<char>, generation: Seq<char>) -> spec_fn(
    GuestToolsRowView,
) -> bool {
    |m: GuestToolsRowView|
        m.vm_id == vm_id && m.enabled && m.pending is Some && m.pending->0.generation == generation
}

/// The enabled tools of a machine with an armed key of a generation.
pub open spec fn armed_tools(vm_id: Seq<char>, generation: Seq<char>) -> spec_fn(
    GuestToolsRowView,
) -> bool {
    |m: GuestToolsRowView|
        m.vm_id == vm_id && m.enabled && m.pending is Some && m.pending->0.generation == generation
            && m.pending->0.installed
}

/// The enabled tools of a machine with a staged key of a generation that is not armed.
pub open spec fn discardable_tools(vm_id: Seq<char>, generation: Seq<char>) -> spec_fn(
    GuestToolsRowView,
) -> bool {
    |m: GuestToolsRowView|
        m.vm_id == vm_id && m.enabled && m.pending is Some && m.pending->0.generation == generation
            && !m.pending->0.installed
}

/// The enabled tools of a machine with a staged key.
pub open spec fn pending_tools(vm_id: Seq<char>) -> spec_fn(GuestToolsRowView) -> bool {
    |m: GuestToolsRowView| m.vm_id == vm_id && m.enabled && m.pending is Some
}

/// The enabled tools of a machine with an armed key.
pub open spec fn any_armed_tools(vm_id: Seq<char>) -> spec_fn(GuestToolsRowView) -> bool {
    |m: GuestToolsRowView| m.vm_id == vm_id && m.enabled && armed(m)
}

/// What is shown of the tools of a machine; no key is.
pub open spec fn tools_shown(m: GuestToolsRowView) -> VmGuestToolsView {
    VmGuestToolsView {
        vm_id: m.vm_id,
        enabled: m.enabled,
        platform: m.platform,
        provisioner: m.provisioner,
        desired_version: m.desired_version,
        installed_version: m.installed_version,
        status: m.status,
        last_seen_at: m.last_seen_at,
        last_error: m.last_error,
        pending_rotation: m.pending is Some,
        pending_installed: armed(m),
        created_at: m.created_at,
        updated_at: m.updated_at,
    }
}

/// Tools that are configured anew.
pub open spec fn configured(
    platform: GuestToolsPlatform,
    provisioner: GuestToolsProvisioner,
    envelope: Seq<char>,
    desired_version: Seq<char>,
    now: Timestamp,
) -> spec_fn(GuestToolsRowView) -> GuestToolsRowView {
    |m: GuestToolsRowView|
        GuestToolsRowView {
            enabled: true,
            platform,
            provisioner,
            secret_envelope: envelope,
            desired_version,
            installed_version: None,
            status: GuestToolsStatus::Pending,
            last_seen_at: None,
            last_error: None,
            pending: None,
            updated_at: now,
            ..m
        }
}

/// Tools that are configured for the first time.
pub open spec fn new_tools(
    vm_id: Seq<char>,
    platform: GuestToolsPlatform,
    provisioner: GuestToolsProvisioner,
    envelope: Seq<char>,
    desired_version: Seq<char>,
    now: Timestamp,
) -> GuestToolsRowView {
    GuestToolsRowView {
        vm_id,
        enabled: true,
        platform,
        provisioner,
        secret_envelope: envelope,
        desired_version,
        installed_version: None,
        status: GuestToolsStatus::Pending,
        last_seen_at: None,
        last_error: None,
        pending: None,
        created_at: now,
        updated_at: now,
    }
}

/// The tools of a machine are configured, unless a key is armed.
pub open spec fn configure_spec(
    db: DatabaseView,
    vm_id: Seq<char>,
    platform: GuestToolsPlatform,
    provisioner: GuestToolsProvisioner,
    secret: Seq<char>,
    desired_version: Seq<char>,
    sealed: Result<Seq<char>, AppErrorView>,
    now: Timestamp,
) -> Result<(DatabaseView, VmGuestToolsView), AppErrorView> {
    match earlier(
        empty_fault("guest-tools secret"@, secret),
        version_fault("guest-tools version"@, desired_version),
    ) {
        Some(e) => Err(e),
        None => match sealed {
            Err(e) => Err(e),
            Ok(envelope) => match find(db.guest_tools, tools_of(vm_id)) {
                None => if !any(db.vms, vm_with_id(vm_id)) {
                    Err(reference_error())
                } else {
                    let row = new_tools(
                        vm_id,
                        platform,
                        provisioner,
                        envelope,
                        desired_version,
                        now,
                    );
                    Ok(
                        (
                            DatabaseView { guest_tools: db.guest_tools.push(row), ..db },
                            tools_shown(row),
                        ),
                    )
                },
                Some(m) => if armed(m) {
                    Err(
                        AppErrorView::Conflict(
                            "an armed Vexa Guest Tools rotation cannot be replaced"@,
                        ),
                    )
                } else {
                    let change = configured(
                        platform,
                        provisioner,
                        envelope,
                        desired_version,
                        now,
                    );
                    Ok(
                        (
                            DatabaseView {
                                guest_tools: revised(db.guest_tools, unarmed_tools(vm_id), change),
                                ..db
                            },
                            tools_shown(change(m)),
                        ),
                    )
                },
            },
        },
    }
}

/// The tools of a machine are removed, unless a key is armed.
pub open spec fn delete_tools_spec(db: DatabaseView, vm_id: Seq<char>) -> Result<
    (DatabaseView, ()),
    AppErrorView,
> {
    if any(db.guest_tools, unarmed_tools(vm_id)) {
        Ok(
            (
                DatabaseView { guest_tools: others(db.guest_tools, unarmed_tools(vm_id)), ..db },
                (),
            ),
        )
    } else if any(db.guest_tools, tools_of(vm_id)) {
        Err(AppErrorView::Conflict("an armed Vexa Guest Tools configuration cannot be deleted"@))
    } else {
        Err(AppErrorView::NotFound("VM guest-tools configuration"@))
    }
}

/// Tools with a staged key.
pub open spec fn staged(pending: PendingRotationView, now: Timestamp) -> spec_fn(
    GuestToolsRowView,
) -> GuestToolsRowView {
    |m: GuestToolsRowView| GuestToolsRowView { pending: Some(pending), updated_at: now, ..m }
}

/// A key is staged where none is.
pub open spec fn stage_spec(
    db: DatabaseView,
    vm_id: Seq<char>,
    platform: GuestToolsPlatform,
    provisioner: GuestToolsProvisioner,
    secret: Seq<char>,
    desired_version: Seq<char>,
    generation: Seq<char>,
    sealed: Result<Seq<char>, AppErrorView>,
    now: Timestamp,
) -> Result<(DatabaseView, ()), AppErrorView> {
    match earlier(
        empty_fault("guest-tools secret"@, secret),
        version_fault("guest-tools version"@, desired_version),
    ) {
        Some(e) => Err(e),
        None => match sealed {
            Err(e) => Err(e),
            Ok(envelope) => if any(db.guest_tools, settled_tools(vm_id)) {
                let pending = PendingRotationView {
                    secret_envelope: envelope,
                    platform,
                    provisioner,
                    desired_version,
                    generation,
                    installed: false,
                };
                Ok(
                    (
                        DatabaseView {
                            guest_tools: revised(
                                db.guest_tools,
                                settled_tools(vm_id),
                                staged(pending, now),
                            ),
                            ..db
                        },
                        (),
                    ),
                )
            } else {
                match find(db.guest_tools, tools_of(vm_id)) {
                    None => Err(AppErrorView::NotFound("VM guest-tools configuration"@)),
                    Some(m) => if !m.enabled {
                        Err(AppErrorView::Conflict("Vexa Guest Tools is disabled"@))
                    } else {
                        Err(
                            AppErrorView::Conflict(
                                "a Vexa Guest Tools key rotation is already pending"@,
                            ),
                        )
                    },
                }
            },
        },
    }
}

/// What a client authenticates with.
pub struct ClientKeyView {
    pub envelope: Seq<char>,
    pub desired_version: Seq<char>,
    pub pending_generation: Option<Seq<char>>,
}

/// A client uses the armed key where there is one, and the active key before that.
pub open spec fn client_key(m: GuestToolsRowView) -> ClientKeyView {
    if armed(m) {
        ClientKeyView {
            envelope: m.pending->0.secret_envelope,
            desired_version: m.pending->0.desired_version,
            pending_generation: Some(m.pending->0.generation),
        }
    } else {
        ClientKeyView {
            envelope: m.secret_envelope,
            desired_version: m.desired_version,
            pending_generation: None,
        }
    }
}

/// The sealed key that a client authenticates with: sealed for the generation where there
/// is one, else for the machine.
#[derive(Debug)]
pub struct VmGuestToolsClientSecret {
    pub envelope: String,
    pub desired_version: String,
    pub pending_generation: Option<String>,
}

impl View for VmGuestToolsClientSecret {
    type V = ClientKeyView;

    open spec fn view(&self) -> ClientKeyView {
        ClientKeyView {
            envelope: self.envelope@,
            desired_version: self.desired_version@,
            pending_generation: view_option(self.pending_generation),
        }
    }
}

/// A lower-case hexadecimal digit.
pub open spec fn fingerprint_char(c: char) -> bool {
    is_digit(c) || 'a' <= c <= 'f'
}

/// The fingerprint of a request.
pub open spec fn is_fingerprint(s: Seq<char>) -> bool {
    s.len() == 64 && forall|i: int| 0 <= i < s.len() ==> fingerprint_char(#[trigger] s[i])
}

/// A failed reinstall of a machine for a generation and a request.
pub open spec fn origin_job(
    vm_id: Seq<char>,
    generation: Seq<char>,
    fingerprint: Seq<char>,
) -> spec_fn(JobView) -> bool {
    |j: JobView|
        j.vm_id == Some(vm_id) && j.kind == "vm.reinstall"@ && j.status == JobStatus::Failed
            && j.payload.extract(generation_field()) == Extract::Text(generation)
            && j.payload.extract("request_fingerprint"@) == Extract::Text(fingerprint)
}

/// An optional time that is later than another; an absent one is the earliest.
pub open spec fn later(a: Option<i64>, b: Option<i64>) -> bool {
    match (a, b) {
        (Some(x), Some(y)) => x > y,
        (Some(_), None) => true,
        _ => false,
    }
}

/// Finished last, then entered last.
pub open spec fn finished_last() -> spec_fn(JobView, JobView) -> bool {
    |a: JobView, b: JobView|
        later(a.finished_at, b.finished_at) || (a.finished_at == b.finished_at && a.created_at
            >= b.created_at)
}

/// The armed rotation of a machine, where a failed reinstall with the same request armed
/// it.
pub open spec fn reusable_spec(
    db: DatabaseView,
    vm_id: Seq<char>,
    fingerprint: Seq<char>,
) -> Result<Option<ReusableVmGuestToolsRotationView>, AppErrorView> {
    if !is_fingerprint(fingerprint) {
        Err(AppErrorView::Validation("reinstall request fingerprint is invalid"@))
    } else {
        match find(db.guest_tools, any_armed_tools(vm_id)) {
            None => Ok(None),
            Some(m) => {
                let pending = m.pending->0;
                match foremost(
                    db.jobs,
                    origin_job(vm_id, pending.generation, fingerprint),
                    finished_last(),
                ) {
                    None => Ok(None),
                    Some(j) => Ok(
                        Some(
                            ReusableVmGuestToolsRotationView {
                                generation: pending.generation,
                                platform: pending.platform,
                                provisioner: pending.provisioner,
                                desired_version: pending.desired_version,
                                origin_job_id: j.id,
                            },
                        ),
                    ),
                }
            },
        }
    }
}

/// Why a generation of a machine cannot be used.
pub open spec fn generation_conflict(db: DatabaseView, vm_id: Seq<char>) -> AppErrorView {
    match find(db.guest_tools, tools_of(vm_id)) {
        None => AppErrorView::NotFound("VM guest-tools configuration"@),
        Some(m) => if !m.enabled {
            AppErrorView::Conflict("Vexa Guest Tools is disabled"@)
        } else if m.pending is None {
            AppErrorView::Conflict("no Vexa Guest Tools key rotation is pending"@)
        } else if !m.pending->0.installed {
            AppErrorView::Conflict(
                "the Vexa Guest Tools key rotation generation does not match or is not installed"@,
            )
        } else {
            AppErrorView::Conflict("the Vexa Guest Tools key rotation generation does not match"@)
        },
    }
}

/// Tools with their staged key armed.
pub open spec fn arming(now: Timestamp) -> spec_fn(GuestToolsRowView) -> GuestToolsRowView {
    |m: GuestToolsRowView|
        GuestToolsRowView {
            pending: match m.pending {
                Some(p) => Some(PendingRotationView { installed: true, ..p }),
                None => None,
            },
            status: GuestToolsStatus::Pending,
            last_error: None,
            updated_at: now,
            ..m
        }
}

/// The staged key of a generation is armed.
pub open spec fn mark_installed_spec(
    db: DatabaseView,
    vm_id: Seq<char>,
    generation: Seq<char>,
    now: Timestamp,
) -> Result<(DatabaseView, VmGuestToolsView), AppErrorView> {
    match generation_fault(generation) {
        Some(e) => Err(e),
        None => match find(db.guest_tools, rotating_tools(vm_id, generation)) {
            None => Err(generation_conflict(db, vm_id)),
            Some(m) => Ok(
                (
                    DatabaseView {
                        guest_tools: revised(
                            db.guest_tools,
                            rotating_tools(vm_id, generation),
                            arming(now),
                        ),
                        ..db
                    },
                    tools_shown(arming(now)(m)),
                ),
            ),
        },
    }
}

/// Tools whose armed key has become the active one.
pub open spec fn promoted(envelope: Seq<char>, now: Timestamp) -> spec_fn(
    GuestToolsRowView,
) -> GuestToolsRowView {
    |m: GuestToolsRowView|
        GuestToolsRowView {
            platform: m.pending->0.platform,
            provisioner: m.pending->0.provisioner,
            secret_envelope: envelope,
            desired_version: m.pending->0.desired_version,
            installed_version: Some(m.pending->0.desired_version),
            status: GuestToolsStatus::Ready,
            last_seen_at: Some(now),
            last_error: None,
            pending: None,
            updated_at: now,
            ..m
        }
}

/// The armed key of exactly this generation and version becomes the active one, sealed
/// anew for the machine.
pub open spec fn promote_spec(
    db: DatabaseView,
    vm_id: Seq<char>,
    generation: Seq<char>,
    installed_version: Seq<char>,
    resealed: Result<Seq<char>, AppErrorView>,
    now: Timestamp,
) -> Result<(DatabaseView, VmGuestToolsView), AppErrorView> {
    match earlier(
        generation_fault(generation),
        version_fault("installed guest-tools version"@, installed_version),
    ) {
        Some(e) => Err(e),
        None => match find(db.guest_tools, armed_tools(vm_id, generation)) {
            None => Err(generation_conflict(db, vm_id)),
            Some(m) => if installed_version != m.pending->0.desired_version {
                Err(
                    AppErrorView::Conflict(
                        "guest-tools version "@ + installed_version
                            + " does not match required version "@ + m.pending->0.desired_version,
                    ),
                )
            } else {
                match resealed {
                    Err(e) => Err(e),
                    Ok(envelope) => Ok(
                        (
                            DatabaseView {
                                guest_tools: revised(
                                    db.guest_tools,
                                    armed_tools(vm_id, generation),
                                    promoted(envelope, now),
                                ),
                                ..db
                            },
                            tools_shown(promoted(envelope, now)(m)),
                        ),
                    ),
                }
            },
        },
    }
}

/// Tools without a staged key.
pub open spec fn unstaged(now: Timestamp) -> spec_fn(GuestToolsRowView) -> GuestToolsRowView {
    |m: GuestToolsRowView| GuestToolsRowView { pending: None, updated_at: now, ..m }
}

/// The staged key of exactly this generation is thrown away, unless it is armed.
pub open spec fn discard_spec(
    db: DatabaseView,
    vm_id: Seq<char>,
    generation: Seq<char>,
    now: Timestamp,
) -> Result<(DatabaseView, VmGuestToolsView), AppErrorView> {
    match generation_fault(generation) {
        Some(e) => Err(e),
        None => match find(db.guest_tools, discardable_tools(vm_id, generation)) {
            None => if any(db.guest_tools, armed_tools(vm_id, generation)) {
                Err(
                    AppErrorView::Conflict(
                        "an armed Vexa Guest Tools rotation cannot be discarded"@,
                    ),
                )
            } else {
                Err(generation_conflict(db, vm_id))
            },
            Some(m) => Ok(
                (
                    DatabaseView {
                        guest_tools: revised(
                            db.guest_tools,
                            discardable_tools(vm_id, generation),
                            unstaged(now),
                        ),
                        ..db
                    },
                    tools_shown(unstaged(now)(m)),
                ),
            ),
        },
    }
}

/// The first five hundred characters of a text.
pub open spec fn bounded_text(s: Seq<char>) -> Seq<char> {
    if s.len() <= 500 {
        s
    } else {
        s.take(500)
    }
}

/// Tools with a report of how they are; while a key is armed they are not ready, and no
/// version counts as installed.
pub open spec fn with_status(
    status: GuestToolsStatus,
    installed_version: Option<Seq<char>>,
    last_error: Option<Seq<char>>,
    contacted: bool,
    now: Timestamp,
) -> spec_fn(GuestToolsRowView) -> GuestToolsRowView {
    |m: GuestToolsRowView|
        GuestToolsRowView {
            status: if armed(m) && status == GuestToolsStatus::Ready {
                GuestToolsStatus::Pending
            } else {
                status
            },
            installed_version: if armed(m) || installed_version is None {
                m.installed_version
            } else {
                installed_version
            },
            last_seen_at: if contacted {
                Some(now)
            } else {
                m.last_seen_at
            },
            last_error: match last_error {
                Some(s) => Some(bounded_text(s)),
                None => None,
            },
            updated_at: now,
            ..m
        }
}

/// A report of how the tools of a machine are is recorded.
pub open spec fn update_status_spec(
    db: DatabaseView,
    vm_id: Seq<char>,
    status: GuestToolsStatus,
    installed_version: Option<Seq<char>>,
    last_error: Option<Seq<char>>,
    contacted: bool,
    now: Timestamp,
) -> Result<(DatabaseView, VmGuestToolsView), AppErrorView> {
    let fault = match installed_version {
        Some(v) => version_fault("installed guest-tools version"@, v),
        None => None,
    };
    match fault {
        Some(e) => Err(e),
        None => match find(db.guest_tools, enabled_tools(vm_id)) {
            None => Err(AppErrorView::NotFound("VM guest-tools configuration"@)),
            Some(m) => {
                let change = with_status(status, installed_version, last_error, contacted, now);
                Ok(
                    (
                        DatabaseView {
                            guest_tools: revised(db.guest_tools, enabled_tools(vm_id), change),
                            ..db
                        },
                        tools_shown(change(m)),
                    ),
                )
            },
        },
    }
}

/// The tools of a machine with a staged key of a generation that is not armed, enabled or
/// not.
pub open spec fn unarmed_rotation(vm_id: Seq<char>, generation: Seq<char>) -> spec_fn(
    GuestToolsRowView,
) -> bool {
    |m: GuestToolsRowView|
        m.vm_id == vm_id && m.pending is Some && m.pending->0.generation == generation
            && !m.pending->0.installed
}

/// What is left of the tools after a reinstall has ended: only the key that exactly this
/// job staged and that was never armed is taken back, and with it a configuration that was
/// made for the job.
pub open spec fn cleanup_spec(
    tools: Seq<GuestToolsRowView>,
    job: JobView,
    now: Timestamp,
) -> Seq<GuestToolsRowView> {
    let generation = job.payload.text_member(generation_field());
    if job.kind != "vm.reinstall"@ || job.vm_id is None || generation is None {
        tools
    } else if generation->0.len() == 0 || byte_len(generation->0) > 64 {
        tools
    } else if job.payload.truth_member("guest_tools_new_configuration"@) == Some(true) {
        others(tools, unarmed_rotation(job.vm_id->0, generation->0))
    } else {
        revised(tools, unarmed_rotation(job.vm_id->0, generation->0), unstaged(now))
    }
}

/// What is shown of the tools of a machine.
fn show(row: &GuestToolsRow) -> (r: VmGuestTools)
    ensures
        r@ == tools_shown(row@),
{
    VmGuestTools {
        vm_id: row.vm_id.clone(),
        enabled: row.enabled,
        platform: row.platform,
        provisioner: row.provisioner,
        desired_version: row.desired_version.clone(),
        installed_version: copy_option(&row.installed_version),
        status: row.status,
        last_seen_at: row.last_seen_at,
        last_error: copy_option(&row.last_error),
        pending_rotation: row.pending.is_some(),
        pending_installed: is_armed(row),
        created_at: row.created_at,
        updated_at: row.updated_at,
    }
}

pub(crate) fn is_armed(row: &GuestToolsRow) -> (r: bool)
    ensures
        r == armed(row@),
{
    match &row.pending {
        Some(p) => p.installed,
        None => false,
    }
}

/// Whether a staged key is of a generation.
fn has_generation(row: &GuestToolsRow, generation: &str) -> (r: bool)
    ensures
        r == (row@.pending is Some && row@.pending->0.generation == generation@),
{
    match &row.pending {
        Some(p) => same(p.generation.as_str(), generation),
        None => false,
    }
}

/// The first five hundred characters of a text.
fn bound_text(s: &str) -> (r: String)
    ensures
        r@ == bounded_text(s@),
{
    let v = chars_of(s);
    let n: usize = if v.len() <= 500 {
        v.len()
    } else {
        500
    };
    proof {
        assert(v@.subrange(0, n as int) =~= bounded_text(s@));
    }
    text_of(&v, 0, n)
}

/// Whether a text is the fingerprint of a request.
pub fn check_fingerprint(s: &str) -> (r: bool)
    ensures
        r == is_fingerprint(s@),
{
    let v = chars_of(s);
    let mut i: usize = 0;
    if v.len() != 64 {
        return false;
    }
    while i < v.len()
        invariant
            i <= v@.len(),
            v@ == s@,
            forall|j: int| 0 <= j < i ==> fingerprint_char(#[trigger] s@[j]),
        decreases v@.len() - i,
    {
        let c = v[i];
        if !(digit(c) || ('a' <= c && c <= 'f')) {
            proof {
                assert(!fingerprint_char(s@[i as int]));
            }
            return false;
        }
        i = i + 1;
    }
    true
}

/// What arming makes of a row.
fn arm(row: &GuestToolsRow, now: Timestamp) -> (r: GuestToolsRow)
    ensures
        r@ == arming(now)(row@),
{
    let mut y = row.clone();
    y.pending = match &row.pending {
        Some(p) => {
            let mut q = p.clone();
            q.installed = true;
            Some(q)
        },
        None => None,
    };
    y.status = GuestToolsStatus::Pending;
    y.last_error = None;
    y.updated_at = now;
    y
}

/// What a promotion makes of a row with a staged key.
fn promote(row: &GuestToolsRow, envelope: &str, now: Timestamp) -> (r: GuestToolsRow)
    requires
        row@.pending is Some,
    ensures
        r@ == promoted(envelope@, now)(row@),
{
    let mut y = row.clone();
    match &row.pending {
        Some(p) => {
            y.platform = p.platform;
            y.provisioner = p.provisioner;
            y.desired_version = p.desired_version.clone();
            y.installed_version = Some(p.desired_version.clone());
        },
        None => {},
    }
    y.secret_envelope = envelope.to_owned();
    y.status = GuestToolsStatus::Ready;
    y.last_seen_at = Some(now);
    y.last_error = None;
    y.pending = None;
    y.updated_at = now;
    y
}

pub(crate) fn unstage(row: &GuestToolsRow, now: Timestamp) -> (r: GuestToolsRow)
    ensures
        r@ == unstaged(now)(row@),
{
    let mut y = row.clone();
    y.pending = None;
    y.updated_at = now;
    y
}

/// What a report makes of a row.
fn report(
    row: &GuestToolsRow,
    status: GuestToolsStatus,
    installed_version: Option<&str>,
    last_error: Option<&str>,
    contacted: bool,
    now: Timestamp,
) -> (r: GuestToolsRow)
    ensures
        r@ == with_status(
            status,
            view_str(installed_version),
            view_str(last_error),
            contacted,
            now,
        )(row@),
{
    let held = is_armed(row);
    let mut y = row.clone();
    y.status = if held && status == GuestToolsStatus::Ready {
        GuestToolsStatus::Pending
    } else {
        status
    };
    if !held && installed_version.is_some() {
        y.installed_version = own_option(installed_version);
    }
    if contacted {
        y.last_seen_at = Some(now);
    }
    y.last_error = match last_error {
        Some(s) => Some(bound_text(s)),
        None => None,
    };
    y.updated_at = now;
    y
}

impl Database {
    fn find_tools(&self, vm_id: &str) -> (r: Option<GuestToolsRow>)
        ensures
            model(r) == find(self@.guest_tools, tools_of(vm_id@)),
    {
        let test = |x: &GuestToolsRow| -> (b: bool)
            ensures
                b == tools_of(vm_id@)(x@),
            { same(x.vm_id.as_str(), vm_id) };
        look_up(&self.guest_tools, test, Ghost(tools_of(vm_id@)))
    }

    fn find_enabled_tools(&self, vm_id: &str) -> (r: Option<GuestToolsRow>)
        ensures
            model(r) == find(self@.guest_tools, enabled_tools(vm_id@)),
    {
        let test = |x: &GuestToolsRow| -> (b: bool)
            ensures
                b == enabled_tools(vm_id@)(x@),
            { same(x.vm_id.as_str(), vm_id) && x.enabled };
        look_up(&self.guest_tools, test, Ghost(enabled_tools(vm_id@)))
    }

    /// Configures the tools of a machine, whose key was sealed for the machine.
    pub fn configure_vm_guest_tools(
        &mut self,
        vm_id: &str,
        platform: GuestToolsPlatform,
        provisioner: GuestToolsProvisioner,
        secret: &str,
        desired_version: &str,
        sealed: AppResult<String>,
        now: Timestamp,
    ) -> (r: AppResult<VmGuestTools>)
        ensures
            settles(
                configure_spec(
                    old(self)@,
                    vm_id@,
                    platform,
                    provisioner,
                    secret@,
                    desired_version@,
                    view_sealed(sealed),
                    now,
                ),
                old(self)@,
                final(self)@,
                row_result(r),
            ),
    {
        match validate_non_empty("guest-tools secret", secret) {
            Err(e) => {
                return Err(e);
            },
            Ok(v) => v,
        };
        match validate_guest_tools_version("guest-tools version", desired_version) {
            Err(e) => {
                return Err(e);
            },
            Ok(v) => v,
        };
        let envelope = match sealed {
            Err(e) => {
                return Err(e);
            },
            Ok(v) => v,
        };
        match self.find_tools(vm_id) {
            None => {
                if !self.has_vm(vm_id) {
                    return Err(dangling_reference());
                }
                let row = GuestToolsRow {
                    vm_id: vm_id.to_owned(),
                    enabled: true,
                    platform,
                    provisioner,
                    secret_envelope: envelope,
                    desired_version: desired_version.to_owned(),
                    installed_version: None,
                    status: GuestToolsStatus::Pending,
                    last_seen_at: None,
                    last_error: None,
                    pending: None,
                    created_at: now,
                    updated_at: now,
                };
                let shown = show(&row);
                append(&mut self.guest_tools, row);
                Ok(shown)
            },
            Some(row) => {
                if is_armed(&row) {
                    return Err(
                        conflict("an armed Vexa Guest Tools rotation cannot be replaced"),
                    );
                }
                let chosen = |x: &GuestToolsRow| -> (b: bool)
                    ensures
                        b == unarmed_tools(vm_id@)(x@),
                    { same(x.vm_id.as_str(), vm_id) && !is_armed(x) };
                let ghost f = configured(platform, provisioner, envelope@, desired_version@, now);
                let change = |x: &GuestToolsRow| -> (y: GuestToolsRow)
                    ensures
                        y@ == f(x@),
                    { GuestToolsRow {
                    vm_id: x.vm_id.clone(),
                    enabled: true,
                    platform,
                    provisioner,
                    secret_envelope: envelope.clone(),
                    desired_version: desired_version.to_owned(),
                    installed_version: None,
                    status: GuestToolsStatus::Pending,
                    last_seen_at: None,
                    last_error: None,
                    pending: None,
                    created_at: x.created_at,
                    updated_at: now,
                } };
                let changed = change(&row);
                let _ = revise(
                    &mut self.guest_tools,
                    chosen,
                    change,
                    Ghost(unarmed_tools(vm_id@)),
                    Ghost(f),
                );
                Ok(show(&changed))
            },
        }
    }

    /// What is shown of the tools of a machine.
    pub fn vm_guest_tools(&self, vm_id: &str) -> (r: AppResult<Option<VmGuestTools>>)
        ensures
            option_result(r) == Ok::<Option<VmGuestToolsView>, AppErrorView>(
                match find(self@.guest_tools, tools_of(vm_id@)) {
                    Some(m) => Some(tools_shown(m)),
                    None => None,
                },
            ),
    {
        match self.find_tools(vm_id) {
            Some(row) => Ok(Some(show(&row))),
            None => Ok(None),
        }
    }

    /// Removes the tools of a machine, unless a key is armed.
    pub fn delete_vm_guest_tools_configuration(&mut self, vm_id: &str) -> (r: AppResult<()>)
        ensures
            settles(delete_tools_spec(old(self)@, vm_id@), old(self)@, final(self)@, plain_result(r)),
    {
        let chosen = |x: &GuestToolsRow| -> (b: bool)
            ensures
                b == unarmed_tools(vm_id@)(x@),
            { same(x.vm_id.as_str(), vm_id) && !is_armed(x) };
        if occurs(&self.guest_tools, chosen, Ghost(unarmed_tools(vm_id@))) {
            let _ = remove(&mut self.guest_tools, chosen, Ghost(unarmed_tools(vm_id@)));
            return Ok(());
        }
        let test = |x: &GuestToolsRow| -> (b: bool)
            ensures
                b == tools_of(vm_id@)(x@),
            { same(x.vm_id.as_str(), vm_id) };
        if occurs(&self.guest_tools, test, Ghost(tools_of(vm_id@))) {
            Err(conflict("an armed Vexa Guest Tools configuration cannot be deleted"))
        } else {
            Err(not_found("VM guest-tools configuration"))
        }
    }

    /// Removes the tools of a machine whose guest was replaced by one without them, armed
    /// key and all, and says whether there were any.
    pub fn retire_vm_guest_tools_after_reinstall(&mut self, vm_id: &str) -> (r: AppResult<bool>)
        ensures
            settles(
                Ok(
                    (
                        DatabaseView {
                            guest_tools: others(old(self)@.guest_tools, tools_of(vm_id@)),
                            ..old(self)@
                        },
                        count(old(self)@.guest_tools, tools_of(vm_id@)) > 0,
                    ),
                ),
                old(self)@,
                final(self)@,
                plain_result(r),
            ),
    {
        let chosen = |x: &GuestToolsRow| -> (b: bool)
            ensures
                b == tools_of(vm_id@)(x@),
            { same(x.vm_id.as_str(), vm_id) };
        let n: usize = remove(&mut self.guest_tools, chosen, Ghost(tools_of(vm_id@)));
        Ok(n > 0)
    }

    /// The sealed active key of a machine's enabled tools.
    pub fn vm_guest_tools_secret_envelope(&self, vm_id: &str) -> (r: AppResult<Option<String>>)
        ensures
            text_option_result(r) == Ok::<Option<Seq<char>>, AppErrorView>(
                match find(self@.guest_tools, enabled_tools(vm_id@)) {
                    Some(m) => Some(m.secret_envelope),
                    None => None,
                },
            ),
    {
        match self.find_enabled_tools(vm_id) {
            Some(row) => Ok(Some(row.secret_envelope)),
            None => Ok(None),
        }
    }

    /// Stages a key, sealed for its generation, beside the active one.
    pub fn stage_vm_guest_tools_rotation(
        &mut self,
        vm_id: &str,
        platform: GuestToolsPlatform,
        provisioner: GuestToolsProvisioner,
        secret: &str,
        desired_version: &str,
        generation: &str,
        sealed: AppResult<String>,
        now: Timestamp,
    ) -> (r: AppResult<String>)
        ensures
            settles(
                stage_spec(
                    old(self)@,
                    vm_id@,
                    platform,
                    provisioner,
                    secret@,
                    desired_version@,
                    generation@,
                    view_sealed(sealed),
                    now,
                ),
                old(self)@,
                final(self)@,
                match r {
                    Ok(_) => Ok(()),
                    Err(e) => Err(e@),
                },
            ),
            r matches Ok(g) ==> g@ == generation@,
    {
        match validate_non_empty("guest-tools secret", secret) {
            Err(e) => {
                return Err(e);
            },
            Ok(v) => v,
        };
        match validate_guest_tools_version("guest-tools version", desired_version) {
            Err(e) => {
                return Err(e);
            },
            Ok(v) => v,
        };
        let envelope = match sealed {
            Err(e) => {
                return Err(e);
            },
            Ok(v) => v,
        };
        let chosen = |x: &GuestToolsRow| -> (b: bool)
            ensures
                b == settled_tools(vm_id@)(x@),
            { same(x.vm_id.as_str(), vm_id) && x.enabled && x.pending.is_none() };
        if occurs(&self.guest_tools, chosen, Ghost(settled_tools(vm_id@))) {
            let ghost p = PendingRotationView {
                secret_envelope: envelope@,
                platform,
                provisioner,
                desired_version: desired_version@,
                generation: generation@,
                installed: false,
            };
            let ghost f = staged(p, now);
            let change = |x: &GuestToolsRow| -> (y: GuestToolsRow)
                ensures
                    y@ == f(x@),
                { {
                let mut y = x.clone();
                y.pending = Some(
                    PendingRotation {
                        secret_envelope: envelope.clone(),
                        platform,
                        provisioner,
                        desired_version: desired_version.to_owned(),
                        generation: generation.to_owned(),
                        installed: false,
                    },
                );
                y.updated_at = now;
                y
            } };
            let _ = revise(
                &mut self.guest_tools,
                chosen,
                change,
                Ghost(settled_tools(vm_id@)),
                Ghost(f),
            );
            return Ok(generation.to_owned());
        }
        match self.find_tools(vm_id) {
            None => Err(not_found("VM guest-tools configuration")),
            Some(row) => {
                if !row.enabled {
                    Err(conflict("Vexa Guest Tools is disabled"))
                } else {
                    Err(conflict("a Vexa Guest Tools key rotation is already pending"))
                }
            },
        }
    }

    /// The staged key of a machine's enabled tools, sealed for its generation.
    pub fn pending_vm_guest_tools_seed(&self, vm_id: &str) -> (r: AppResult<
        Option<PendingRotation>,
    >)
        ensures
            option_result(r) == Ok::<Option<PendingRotationView>, AppErrorView>(
                match find(self@.guest_tools, pending_tools(vm_id@)) {
                    Some(m) => m.pending,
                    None => None,
                },
            ),
    {
        let test = |x: &GuestToolsRow| -> (b: bool)
            ensures
                b == pending_tools(vm_id@)(x@),
            { same(x.vm_id.as_str(), vm_id) && x.enabled && x.pending.is_some() };
        match look_up(&self.guest_tools, test, Ghost(pending_tools(vm_id@))) {
            Some(row) => Ok(row.pending),
            None => Ok(None),
        }
    }

    /// The sealed key that a client of a machine's tools authenticates with.
    pub fn vm_guest_tools_client_secret(&self, vm_id: &str) -> (r: AppResult<
        Option<VmGuestToolsClientSecret>,
    >)
        ensures
            option_result(r) == Ok::<Option<ClientKeyView>, AppErrorView>(
                match find(self@.guest_tools, enabled_tools(vm_id@)) {
                    Some(m) => Some(client_key(m)),
                    None => None,
                },
            ),
    {
        match self.find_enabled_tools(vm_id) {
            None => Ok(None),
            Some(row) => {
                let held = is_armed(&row);
                match row.pending {
                    Some(p) => {
                        if held {
                            return Ok(
                                Some(
                                    VmGuestToolsClientSecret {
                                        envelope: p.secret_envelope,
                                        desired_version: p.desired_version,
                                        pending_generation: Some(p.generation),
                                    },
                                ),
                            );
                        }
                    },
                    None => {},
                }
                Ok(
                    Some(
                        VmGuestToolsClientSecret {
                            envelope: row.secret_envelope,
                            desired_version: row.desired_version,
                            pending_generation: None,
                        },
                    ),
                )
            },
        }
    }

    /// The generation of the armed key of a machine's enabled tools.
    pub fn installed_vm_guest_tools_rotation_generation(&self, vm_id: &str) -> (r: AppResult<
        Option<String>,
    >)
        ensures
            text_option_result(r) == Ok::<Option<Seq<char>>, AppErrorView>(
                match find(self@.guest_tools, any_armed_tools(vm_id@)) {
                    Some(m) => Some(m.pending->0.generation),
                    None => None,
                },
            ),
    {
        proof {
            first_is_first(self@.guest_tools, any_armed_tools(vm_id@));
        }
        let test = |x: &GuestToolsRow| -> (b: bool)
            ensures
                b == any_armed_tools(vm_id@)(x@),
            { same(x.vm_id.as_str(), vm_id) && x.enabled && is_armed(x) };
        match look_up(&self.guest_tools, test, Ghost(any_armed_tools(vm_id@))) {
            None => Ok(None),
            Some(row) => match row.pending {
                Some(p) => Ok(Some(p.generation)),
                None => Ok(None),
            },
        }
    }

    /// The armed rotation of a machine, where a failed reinstall with the same request
    /// armed it.
    pub fn reusable_vm_guest_tools_rotation(&self, vm_id: &str, request_fingerprint: &str) -> (r:
        AppResult<Option<ReusableVmGuestToolsRotation>>)
        ensures
            option_result(r) == reusable_spec(self@, vm_id@, request_fingerprint@),
    {
        if !check_fingerprint(request_fingerprint) {
            return Err(validation("reinstall request fingerprint is invalid"));
        }
        proof {
            first_is_first(self@.guest_tools, any_armed_tools(vm_id@));
        }
        let test = |x: &GuestToolsRow| -> (b: bool)
            ensures
                b == any_armed_tools(vm_id@)(x@),
            { same(x.vm_id.as_str(), vm_id) && x.enabled && is_armed(x) };
        let row = match look_up(&self.guest_tools, test, Ghost(any_armed_tools(vm_id@))) {
            None => {
                return Ok(None);
            },
            Some(row) => row,
        };
        let pending = match row.pending {
            None => {
                return Ok(None);
            },
            Some(p) => p,
        };
        let generation = pending.generation.as_str();
        let ghost p = origin_job(vm_id@, generation@, request_fingerprint@);
        let origin = |x: &Job| -> (b: bool)
            ensures
                b == p(x@),
            {
                option_is(&x.vm_id, vm_id)
                    && same(x.kind.as_str(), "vm.reinstall")
                    && x.status == JobStatus::Failed
                    && x.payload.extract_is("_guest_tools_rotation_generation", generation)
                    && x.payload.extract_is("request_fingerprint", request_fingerprint)
            };
        let le = |a: &Job, c: &Job| -> (b: bool)
            ensures
                b == finished_last()(a@, c@),
            {
                is_later(a.finished_at, c.finished_at)
                    || (same_time(a.finished_at, c.finished_at) && a.created_at >= c.created_at)
            };
        match pick(&self.jobs, origin, le, Ghost(p), Ghost(finished_last())) {
            None => Ok(None),
            Some(i) => {
                let origin_job_id = self.jobs[i].id.clone();
                Ok(
                    Some(
                        ReusableVmGuestToolsRotation {
                            generation: pending.generation,
                            platform: pending.platform,
                            provisioner: pending.provisioner,
                            desired_version: pending.desired_version,
                            origin_job_id,
                        },
                    ),
                )
            },
        }
    }

    fn rotation_generation_conflict(&self, vm_id: &str) -> (r: AppError)
        ensures
            r@ == generation_conflict(self@, vm_id@),
    {
        match self.find_tools(vm_id) {
            None => not_found("VM guest-tools configuration"),
            Some(row) => {
                if !row.enabled {
                    return conflict("Vexa Guest Tools is disabled");
                }
                match row.pending {
                    None => conflict("no Vexa Guest Tools key rotation is pending"),
                    Some(p) => {
                        if !p.installed {
                            conflict(
                                "the Vexa Guest Tools key rotation generation does not match or is not installed",
                            )
                        } else {
                            conflict(
                                "the Vexa Guest Tools key rotation generation does not match",
                            )
                        }
                    },
                }
            },
        }
    }

    /// Arms the staged key of a generation, just before it may reach the guest's disk.
    pub fn mark_vm_guest_tools_rotation_installed(
        &mut self,
        vm_id: &str,
        generation: &str,
        now: Timestamp,
    ) -> (r: AppResult<VmGuestTools>)
        ensures
            settles(
                mark_installed_spec(old(self)@, vm_id@, generation@, now),
                old(self)@,
                final(self)@,
                row_result(r),
            ),
    {
        match validate_guest_tools_rotation_generation(generation) {
            Err(e) => {
                return Err(e);
            },
            Ok(v) => v,
        };
        let ghost p = rotating_tools(vm_id@, generation@);
        let chosen = |x: &GuestToolsRow| -> (b: bool)
            ensures
                b == p(x@),
            { same(x.vm_id.as_str(), vm_id) && x.enabled && has_generation(x, generation) };
        match look_up(&self.guest_tools, chosen, Ghost(p)) {
            None => Err(self.rotation_generation_conflict(vm_id)),
            Some(row) => {
                let change = |x: &GuestToolsRow| -> (y: GuestToolsRow)
                    ensures
                        y@ == arming(now)(x@),
                    { arm(x, now) };
                let _ = revise(&mut self.guest_tools, chosen, change, Ghost(p), Ghost(arming(now)));
                Ok(show(&arm(&row, now)))
            },
        }
    }

    /// Makes the armed key of a generation the active one, after a handshake with it; the
    /// key was sealed anew for the machine.
    pub fn promote_vm_guest_tools_rotation(
        &mut self,
        vm_id: &str,
        generation: &str,
        installed_version: &str,
        resealed: AppResult<String>,
        now: Timestamp,
    ) -> (r: AppResult<VmGuestTools>)
        ensures
            settles(
                promote_spec(
                    old(self)@,
                    vm_id@,
                    generation@,
                    installed_version@,
                    view_sealed(resealed),
                    now,
                ),
                old(self)@,
                final(self)@,
                row_result(r),
            ),
    {
        match validate_guest_tools_rotation_generation(generation) {
            Err(e) => {
                return Err(e);
            },
            Ok(v) => v,
        };
        match validate_guest_tools_version("installed guest-tools version", installed_version) {
            Err(e) => {
                return Err(e);
            },
            Ok(v) => v,
        };
        let ghost p = armed_tools(vm_id@, generation@);
        proof {
            first_is_first(self@.guest_tools, p);
        }
        let chosen = |x: &GuestToolsRow| -> (b: bool)
            ensures
                b == p(x@),
            {
                same(x.vm_id.as_str(), vm_id)
                    && x.enabled
                    && has_generation(x, generation)
                    && is_armed(x)
            };
        let row = match look_up(&self.guest_tools, chosen, Ghost(p)) {
            None => {
                return Err(self.rotation_generation_conflict(vm_id));
            },
            Some(row) => row,
        };
        match &row.pending {
            None => {},
            Some(q) => {
                if !same(installed_version, q.desired_version.as_str()) {
                    return Err(
                        AppError::Conflict(
                            join2(
                                join3(
                                    "guest-tools version ",
                                    installed_version,
                                    " does not match required version ",
                                ).as_str(),
                                q.desired_version.as_str(),
                            ),
                        ),
                    );
                }
            },
        }
        let envelope = match resealed {
            Err(e) => {
                return Err(e);
            },
            Ok(v) => v,
        };
        let envelope = envelope.as_str();
        let ghost f = promoted(envelope@, now);
        let change = |x: &GuestToolsRow| -> (y: GuestToolsRow)
            requires
                x@.pending is Some,
            ensures
                y@ == f(x@),
            { promote(x, envelope, now) };
        let _ = revise(&mut self.guest_tools, chosen, change, Ghost(p), Ghost(f));
        Ok(show(&promote(&row, envelope, now)))
    }

    /// Throws away the staged key of a generation, unless it is armed.
    pub fn discard_vm_guest_tools_rotation(
        &mut self,
        vm_id: &str,
        generation: &str,
        now: Timestamp,
    ) -> (r: AppResult<VmGuestTools>)
        ensures
            settles(
                discard_spec(old(self)@, vm_id@, generation@, now),
                old(self)@,
                final(self)@,
                row_result(r),
            ),
    {
        match validate_guest_tools_rotation_generation(generation) {
            Err(e) => {
                return Err(e);
            },
            Ok(v) => v,
        };
        let ghost p = discardable_tools(vm_id@, generation@);
        let chosen = |x: &GuestToolsRow| -> (b: bool)
            ensures
                b == p(x@),
            {
                same(x.vm_id.as_str(), vm_id)
                    && x.enabled
                    && has_generation(x, generation)
                    && !is_armed(x)
            };
        match look_up(&self.guest_tools, chosen, Ghost(p)) {
            Some(row) => {
                let change = |x: &GuestToolsRow| -> (y: GuestToolsRow)
                    ensures
                        y@ == unstaged(now)(x@),
                    { unstage(x, now) };
                let _ = revise(&mut self.guest_tools, chosen, change, Ghost(p), Ghost(unstaged(now)));
                Ok(show(&unstage(&row, now)))
            },
            None => {
                let ghost q = armed_tools(vm_id@, generation@);
                let held = |x: &GuestToolsRow| -> (b: bool)
                    ensures
                        b == q(x@),
                    {
                        same(x.vm_id.as_str(), vm_id)
                            && x.enabled
                            && has_generation(x, generation)
                            && is_armed(x)
                    };
                if occurs(&self.guest_tools, held, Ghost(q)) {
                    Err(conflict("an armed Vexa Guest Tools rotation cannot be discarded"))
                } else {
                    Err(self.rotation_generation_conflict(vm_id))
                }
            },
        }
    }

    /// Records a report of how the tools of a machine are.
    pub fn update_vm_guest_tools_status(
        &mut self,
        vm_id: &str,
        status: GuestToolsStatus,
        installed_version: Option<&str>,
        last_error: Option<&str>,
        contacted: bool,
        now: Timestamp,
    ) -> (r: AppResult<VmGuestTools>)
        ensures
            settles(
                update_status_spec(
                    old(self)@,
                    vm_id@,
                    status,
                    view_str(installed_version),
                    view_str(last_error),
                    contacted,
                    now,
                ),
                old(self)@,
                final(self)@,
                row_result(r),
            ),
    {
        match installed_version {
            Some(v) => {
                match validate_guest_tools_version("installed guest-tools version", v) {
                    Err(e) => {
                        return Err(e);
                    },
                    Ok(v) => v,
                };
            },
            None => {},
        }
        match self.find_enabled_tools(vm_id) {
            None => Err(not_found("VM guest-tools configuration")),
            Some(row) => {
                let ghost f = with_status(
                    status,
                    view_str(installed_version),
                    view_str(last_error),
                    contacted,
                    now,
                );
                let chosen = |x: &GuestToolsRow| -> (b: bool)
                    ensures
                        b == enabled_tools(vm_id@)(x@),
                    { same(x.vm_id.as_str(), vm_id) && x.enabled };
                let change = |x: &GuestToolsRow| -> (y: GuestToolsRow)
                    ensures
                        y@ == f(x@),
                    { report(x, status, installed_version, last_error, contacted, now) };
                let _ = revise(
                    &mut self.guest_tools,
                    chosen,
                    change,
                    Ghost(enabled_tools(vm_id@)),
                    Ghost(f),
                );
                Ok(
                    show(
                        &report(&row, status, installed_version, last_error, contacted, now),
                    ),
                )
            },
        }
    }

    /// Takes back the key that an ended reinstall staged and that was never armed.
    pub(crate) fn cleanup_unarmed_reinstall_guest_tools(&mut self, job: &Job, now: Timestamp)
        ensures
            final(self)@ == (DatabaseView {
                guest_tools: cleanup_spec(old(self)@.guest_tools, job@, now),
                ..old(self)@
            }),
    {
        if !same(job.kind.as_str(), "vm.reinstall") {
            return;
        }
        let vm_id = match &job.vm_id {
            None => {
                return;
            },
            Some(id) => id.as_str(),
        };
        let generation = match job.payload.text_member("_guest_tools_rotation_generation") {
            None => {
                return;
            },
            Some(g) => g,
        };
        let generation = generation.as_str();
        if generation.is_empty() || byte_length(generation) > 64 {
            return;
        }
        let ghost p = unarmed_rotation(vm_id@, generation@);
        let chosen = |x: &GuestToolsRow| -> (b: bool)
            ensures
                b == p(x@),
            { same(x.vm_id.as_str(), vm_id) && has_generation(x, generation) && !is_armed(x) };
        let provisional = match job.payload.truth_member("guest_tools_new_configuration") {
            Some(b) => b,
            None => false,
        };
        if provisional {
            let _ = remove(&mut self.guest_tools, chosen, Ghost(p));
        } else {
            let change = |x: &GuestToolsRow| -> (y: GuestToolsRow)
                ensures
                    y@ == unstaged(now)(x@),
                { unstage(x, now) };
            let _ = revise(&mut self.guest_tools, chosen, change, Ghost(p), Ghost(unstaged(now)));
        }
    }
}

/// Whether an optional time is later than another.
pub fn is_later(a: Option<i64>, b: Option<i64>) -> (r: bool)
    ensures
        r == later(a, b),
{
    match (a, b) {
        (Some(x), Some(y)) => x > y,
        (Some(_), None) => true,
        _ => false,
    }
}

/// Whether two optional times are equal.
pub fn same_time(a: Option<i64>, b: Option<i64>) -> (r: bool)
    ensures
        r == (a == b),
{
    match (a, b) {
        (Some(x), Some(y)) => x == y,
        (None, None) => true,
        _ => false,
    }
}

/// The armed keys of some tools are all in others, with the active keys beside them.
#[verifier::opaque]
pub open spec fn keeps_armed_keys(
    before: Seq<GuestToolsRowView>,
    after: Seq<GuestToolsRowView>,
) -> bool {
    forall|i: int|
        0 <= i < before.len() && armed(#[trigger] before[i]) ==> exists|j: int|
            0 <= j < after.len() && (#[trigger] after[j]).vm_id == before[i].vm_id
                && after[j].pending == before[i].pending && after[j].secret_envelope
                == before[i].secret_envelope
}

/// A change that leaves armed keys alone keeps them.
pub proof fn revision_keeps_armed_keys(
    rows: Seq<GuestToolsRowView>,
    p: spec_fn(GuestToolsRowView) -> bool,
    f: spec_fn(GuestToolsRowView) -> GuestToolsRowView,
)
    requires
        forall|m: GuestToolsRowView|
            armed(m) && #[trigger] p(m) ==> f(m).vm_id == m.vm_id && f(m).pending == m.pending
                && f(m).secret_envelope == m.secret_envelope,
    ensures
        keeps_armed_keys(rows, revised(rows, p, f)),
{
    reveal(keeps_armed_keys);
    let after = revised(rows, p, f);
    assert forall|i: int| 0 <= i < rows.len() && armed(#[trigger] rows[i]) implies exists|j: int|
        0 <= j < after.len() && (#[trigger] after[j]).vm_id == rows[i].vm_id && after[j].pending
            == rows[i].pending && after[j].secret_envelope == rows[i].secret_envelope by {
        let m = rows[i];
        assert(p(m) || !p(m));
        assert(after[i].vm_id == m.vm_id && after[i].pending == m.pending);
    }
}

proof fn removal_keeps_armed_keys(
    rows: Seq<GuestToolsRowView>,
    p: spec_fn(GuestToolsRowView) -> bool,
)
    requires
        forall|m: GuestToolsRowView| armed(m) ==> !(#[trigger] p(m)),
    ensures
        keeps_armed_keys(rows, others(rows, p)),
{
    reveal(keeps_armed_keys);
    let after = others(rows, p);
    assert forall|i: int| 0 <= i < rows.len() && armed(#[trigger] rows[i]) implies exists|j: int|
        0 <= j < after.len() && (#[trigger] after[j]).vm_id == rows[i].vm_id && after[j].pending
            == rows[i].pending && after[j].secret_envelope == rows[i].secret_envelope by {
        assert(!p(rows[i]));
        assert(rows.contains(rows[i]));
        others_has(rows, p, rows[i]);
        let j = choose|j: int| 0 <= j < after.len() && after[j] == rows[i];
        assert(after[j].vm_id == rows[i].vm_id);
    }
}

proof fn addition_keeps_armed_keys(rows: Seq<GuestToolsRowView>, row: GuestToolsRowView)
    ensures
        keeps_armed_keys(rows, rows.push(row)),
{
    reveal(keeps_armed_keys);
    let after = rows.push(row);
    assert forall|i: int| 0 <= i < rows.len() && armed(#[trigger] rows[i]) implies exists|j: int|
        0 <= j < after.len() && (#[trigger] after[j]).vm_id == rows[i].vm_id && after[j].pending
            == rows[i].pending && after[j].secret_envelope == rows[i].secret_envelope by {
        assert(after[i] == rows[i]);
    }
}

/// What changes nothing keeps the armed keys.
pub proof fn nothing_done_keeps_armed_keys(rows: Seq<GuestToolsRowView>)
    ensures
        keeps_armed_keys(rows, rows),
{
    reveal(keeps_armed_keys);
}

/// The end of a reinstall keeps the armed keys.
pub proof fn cleanup_keeps_armed_keys(
    rows: Seq<GuestToolsRowView>,
    job: JobView,
    now: Timestamp,
)
    ensures
        keeps_armed_keys(rows, cleanup_spec(rows, job, now)),
{
    let g = job.payload.text_member(generation_field());
    if job.vm_id is Some && g is Some {
        removal_keeps_armed_keys(rows, unarmed_rotation(job.vm_id->0, g->0));
        revision_keeps_armed_keys(rows, unarmed_rotation(job.vm_id->0, g->0), unstaged(now));
    }
    nothing_done_keeps_armed_keys(rows);
}

/// What keeps the armed keys in two steps keeps them.
pub proof fn keeping_armed_keys_carries_over(
    before: Seq<GuestToolsRowView>,
    between: Seq<GuestToolsRowView>,
    after: Seq<GuestToolsRowView>,
)
    requires
        keeps_armed_keys(before, between),
        keeps_armed_keys(between, after),
    ensures
        keeps_armed_keys(before, after),
{
    reveal(keeps_armed_keys);
    assert forall|i: int| 0 <= i < before.len() && armed(#[trigger] before[i]) implies exists|
        j: int,
    |
        0 <= j < after.len() && (#[trigger] after[j]).vm_id == before[i].vm_id && after[j].pending
            == before[i].pending && after[j].secret_envelope == before[i].secret_envelope by {
        let k = choose|k: int|
            0 <= k < between.len() && (#[trigger] between[k]).vm_id == before[i].vm_id
                && between[k].pending == before[i].pending && between[k].secret_envelope
                == before[i].secret_envelope;
        assert(armed(between[k]));
        let j = choose|j: int|
            0 <= j < after.len() && (#[trigger] after[j]).vm_id == between[k].vm_id
                && after[j].pending == between[k].pending && after[j].secret_envelope
                == between[k].secret_envelope;
        assert(after[j].vm_id == before[i].vm_id);
    }
}

/// Once a key is armed, neither a new configuration, a removal, a second staging, a
/// discarding, a report nor the end of a reinstall takes it away or touches the active key
/// beside it.
pub proof fn an_armed_key_is_kept(
    db: DatabaseView,
    vm_id: Seq<char>,
    platform: GuestToolsPlatform,
    provisioner: GuestToolsProvisioner,
    secret: Seq<char>,
    version: Seq<char>,
    generation: Seq<char>,
    sealed: Result<Seq<char>, AppErrorView>,
    status: GuestToolsStatus,
    installed_version: Option<Seq<char>>,
    last_error: Option<Seq<char>>,
    contacted: bool,
    job: JobView,
    now: Timestamp,
)
    ensures
        configure_spec(db, vm_id, platform, provisioner, secret, version, sealed, now) matches Ok(
            done,
        ) ==> keeps_armed_keys(db.guest_tools, done.0.guest_tools),
        delete_tools_spec(db, vm_id) matches Ok(done) ==> keeps_armed_keys(
            db.guest_tools,
            done.0.guest_tools,
        ),
        stage_spec(db, vm_id, platform, provisioner, secret, version, generation, sealed, now)
            matches Ok(done) ==> keeps_armed_keys(db.guest_tools, done.0.guest_tools),
        mark_installed_spec(db, vm_id, generation, now) matches Ok(done) ==> keeps_armed_keys(
            db.guest_tools,
            done.0.guest_tools,
        ),
        discard_spec(db, vm_id, generation, now) matches Ok(done) ==> keeps_armed_keys(
            db.guest_tools,
            done.0.guest_tools,
        ),
        update_status_spec(db, vm_id, status, installed_version, last_error, contacted, now)
            matches Ok(done) ==> keeps_armed_keys(db.guest_tools, done.0.guest_tools),
        keeps_armed_keys(db.guest_tools, cleanup_spec(db.guest_tools, job, now)),
{
    let rows = db.guest_tools;
    if sealed is Ok {
        let envelope = sealed->Ok_0;
        revision_keeps_armed_keys(
            rows,
            unarmed_tools(vm_id),
            configured(platform, provisioner, envelope, version, now),
        );
        addition_keeps_armed_keys(
            rows,
            new_tools(vm_id, platform, provisioner, envelope, version, now),
        );
        let pending = PendingRotationView {
            secret_envelope: envelope,
            platform,
            provisioner,
            desired_version: version,
            generation,
            installed: false,
        };
        revision_keeps_armed_keys(rows, settled_tools(vm_id), staged(pending, now));
    }
    removal_keeps_armed_keys(rows, unarmed_tools(vm_id));
    revision_keeps_armed_keys(rows, rotating_tools(vm_id, generation), arming(now));
    revision_keeps_armed_keys(rows, discardable_tools(vm_id, generation), unstaged(now));
    revision_keeps_armed_keys(
        rows,
        enabled_tools(vm_id),
        with_status(status, installed_version, last_error, contacted, now),
    );
    cleanup_keeps_armed_keys(rows, job, now);
    nothing_done_keeps_armed_keys(rows);
}

/// Staging a key does not change what clients authenticate with; arming it does.
pub proof fn clients_change_keys_when_armed(
    m: GuestToolsRowView,
    pending: PendingRotationView,
    now: Timestamp,
)
    requires
        m.pending is None,
        !pending.installed,
    ensures
        client_key(staged(pending, now)(m)) == client_key(m),
        client_key(arming(now)(staged(pending, now)(m))).envelope == pending.secret_envelope,
        client_key(arming(now)(staged(pending, now)(m))).pending_generation == Some(
            pending.generation,
        ),
        arming(now)(staged(pending, now)(m)).secret_envelope == m.secret_envelope,
{
}

/// Only an armed key is ever promoted, and only one of the named generation whose version
/// the guest reported.
pub proof fn only_the_armed_generation_is_promoted(
    db: DatabaseView,
    vm_id: Seq<char>,
    generation: Seq<char>,
    installed_version: Seq<char>,
    resealed: Result<Seq<char>, AppErrorView>,
    now: Timestamp,
)
    ensures
        promote_spec(db, vm_id, generation, installed_version, resealed, now) is Ok ==> exists|
            i: int,
        |
            0 <= i < db.guest_tools.len() && (#[trigger] db.guest_tools[i]).vm_id == vm_id && armed(
                db.guest_tools[i],
            ) && db.guest_tools[i].pending->0.generation == generation
                && db.guest_tools[i].pending->0.desired_version == installed_version,
{
    let p = armed_tools(vm_id, generation);
    first_is_first(db.guest_tools, p);
    if any(db.guest_tools, p) {
        let i = first(db.guest_tools, p)->0;
        assert(db.guest_tools[i].vm_id == vm_id);
    }
}

} // verus!
