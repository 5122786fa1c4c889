//! The plan of an activation: which archive is installed and which packages are upgraded.

use vstd::prelude::*;

use crate::packages::{
    fit_actions_are_accepted, is_fit_action, package_action_verdict, validate_package_action,
    PackageError, PackageManager, PackageUpgrade, PackageUpgradeView, UpdateComponent,
};
use crate::semver::{is_release_name, normalized_release_name, without_v};
use crate::text::{join3, same};

verus! {

broadcast use vstd::string::group_string_axioms;

/// A staged archive that replaces a component.
#[derive(Debug, PartialEq, Eq)]
pub struct StagedArchive {
    pub component: UpdateComponent,
    pub version: String,
    pub staged_path: String,
    pub sha256: String,
    pub size_bytes: u64,
}

/// What a [`StagedArchive`] holds, with texts as character sequences.
#[verifier::ext_equal]
pub struct StagedArchiveView {
    pub component: UpdateComponent,
    pub version: Seq<char>,
    pub staged_path: Seq<char>,
    pub sha256: Seq<char>,
    pub size_bytes: u64,
}

impl View for StagedArchive {
    type V = StagedArchiveView;

    open spec fn view(&self) -> StagedArchiveView {
        StagedArchiveView {
            component: self.component,
            version: self.version@,
            staged_path: self.staged_path@,
            sha256: self.sha256@,
            size_bytes: self.size_bytes,
        }
    }
}

impl Clone for StagedArchive {
    fn clone(&self) -> (r: StagedArchive)
        ensures
            r@ == self@,
    {
        StagedArchive {
            component: self.component,
            version: self.version.clone(),
            staged_path: self.staged_path.clone(),
            sha256: self.sha256.clone(),
            size_bytes: self.size_bytes,
        }
    }
}

/// The application archive of an activation.
#[derive(Debug, PartialEq, Eq)]
pub struct ApplicationAction {
    pub version: String,
    pub staged_path: String,
    pub sha256: String,
    pub size_bytes: u64,
}

/// What a [`ApplicationAction`] holds, with texts as character sequences.
#[verifier::ext_equal]
pub struct ApplicationActionView {
    pub version: Seq<char>,
    pub staged_path: Seq<char>,
    pub sha256: Seq<char>,
    pub size_bytes: u64,
}

impl View for ApplicationAction {
    type V = ApplicationActionView;

    open spec fn view(&self) -> ApplicationActionView {
        ApplicationActionView {
            version: self.version@,
            staged_path: self.staged_path@,
            sha256: self.sha256@,
            size_bytes: self.size_bytes,
        }
    }
}

impl Clone for ApplicationAction {
    fn clone(&self) -> (r: ApplicationAction)
        ensures
            r@ == self@,
    {
        ApplicationAction {
            version: self.version.clone(),
            staged_path: self.staged_path.clone(),
            sha256: self.sha256.clone(),
            size_bytes: self.size_bytes,
        }
    }
}

impl ApplicationAction {
    /// What an optional one holds.
    pub open spec fn option_view(o: Option<ApplicationAction>) -> Option<ApplicationActionView> {
        match o {
            Some(x) => Some(x@),
            None => None,
        }
    }

    /// A copy of an optional one.
    pub fn copy_of_option(o: &Option<ApplicationAction>) -> (r: Option<ApplicationAction>)
        ensures
            ApplicationAction::option_view(r) == ApplicationAction::option_view(*o),
    {
        match o {
            Some(x) => Some(x.clone()),
            None => None,
        }
    }
}

/// One approved action of an activation.
pub enum ApprovedComponentAction {
    InstallStagedArchive(StagedArchive),
    UpgradeSystemPackages(PackageUpgrade),
}

/// What an [`ApprovedComponentAction`] holds.
pub enum ActionView {
    InstallStagedArchive(StagedArchiveView),
    UpgradeSystemPackages(PackageUpgradeView),
}

impl View for ApprovedComponentAction {
    type V = ActionView;

    open spec fn view(&self) -> ActionView {
        match *self {
            ApprovedComponentAction::InstallStagedArchive(a) => ActionView::InstallStagedArchive(
                a@,
            ),
            ApprovedComponentAction::UpgradeSystemPackages(p) => ActionView::UpgradeSystemPackages(
                p@,
            ),
        }
    }
}

/// What each action of a list holds.
pub open spec fn actions_view(actions: Seq<ApprovedComponentAction>) -> Seq<ActionView> {
    actions.map_values(|a: ApprovedComponentAction| a@)
}

/// The plan of an activation.
#[derive(Debug, PartialEq, Eq)]
pub struct ActivationPlan {
    /// The release without a leading `v`.
    pub release: String,
    pub application: Option<ApplicationAction>,
    pub packages: Vec<PackageUpgrade>,
}

/// What a [`ActivationPlan`] holds, with texts as character sequences.
#[verifier::ext_equal]
pub struct ActivationPlanView {
    pub release: Seq<char>,
    pub application: Option<ApplicationActionView>,
    pub packages: Seq<PackageUpgradeView>,
}

impl View for ActivationPlan {
    type V = ActivationPlanView;

    open spec fn view(&self) -> ActivationPlanView {
        ActivationPlanView {
            release: self.release@,
            application: ApplicationAction::option_view(self.application),
            packages: PackageUpgrade::list_view(self.packages@),
        }
    }
}

impl Clone for ActivationPlan {
    fn clone(&self) -> (r: ActivationPlan)
        ensures
            r@ == self@,
    {
        ActivationPlan {
            release: self.release.clone(),
            application: ApplicationAction::copy_of_option(&self.application),
            packages: PackageUpgrade::copy_of_list(&self.packages),
        }
    }
}

/// Why an activation was refused before anything was changed.
#[derive(Clone, Copy, Debug, PartialEq, Eq, Structural)]
pub enum PlanError {
    ReleaseName,
    UnsupportedArchive,
    ArchiveVersion,
    UnsupportedManager,
    Packages(PackageError),
    AlreadyActive,
    VersionMismatch,
    ArchiveExists,
    ArchiveChangedBefore,
    ArchiveGrew,
    ArchiveChanged,
}

/// The text of each refusal.
pub open spec fn plan_error_text(e: PlanError) -> Seq<char> {
    match e {
        PlanError::ReleaseName => "release version is not a safe semantic version"@,
        PlanError::UnsupportedArchive => "activation contains an unsupported archive action"@,
        PlanError::ArchiveVersion => "application archive version does not match the release"@,
        PlanError::UnsupportedManager => "activation contains an unsupported package manager"@,
        PlanError::Packages(p) => crate::packages::package_error_text(p),
        PlanError::AlreadyActive => "the selected application release is already active"@,
        PlanError::VersionMismatch =>
            "archive VERSION does not match the approved component version"@,
        PlanError::ArchiveExists => "private release archive already exists"@,
        PlanError::ArchiveChangedBefore =>
            "staged release archive changed before it could be frozen"@,
        PlanError::ArchiveGrew => "staged release archive grew while it was being frozen"@,
        PlanError::ArchiveChanged => "staged release archive changed while it was being frozen"@,
    }
}

impl PlanError {
    /// The text shown to an operator.
    pub fn message(&self) -> (r: &'static str)
        ensures
            r@ == plan_error_text(*self),
    {
        match self {
            PlanError::ReleaseName => "release version is not a safe semantic version",
            PlanError::UnsupportedArchive => "activation contains an unsupported archive action",
            PlanError::ArchiveVersion => "application archive version does not match the release",
            PlanError::UnsupportedManager => "activation contains an unsupported package manager",
            PlanError::Packages(p) => p.message(),
            PlanError::AlreadyActive => "the selected application release is already active",
            PlanError::VersionMismatch =>
                "archive VERSION does not match the approved component version",
            PlanError::ArchiveExists => "private release archive already exists",
            PlanError::ArchiveChangedBefore =>
                "staged release archive changed before it could be frozen",
            PlanError::ArchiveGrew => "staged release archive grew while it was being frozen",
            PlanError::ArchiveChanged => "staged release archive changed while it was being frozen",
        }
    }
}

/// The plan with one more action.
pub open spec fn with_action(plan: ActivationPlanView, action: ActionView) -> Result<
    ActivationPlanView,
    PlanError,
> {
    match action {
        ActionView::InstallStagedArchive(a) => if a.component != UpdateComponent::VexaVm
            || plan.application is Some {
            Err(PlanError::UnsupportedArchive)
        } else if !is_release_name(without_v(a.version)) {
            Err(PlanError::ReleaseName)
        } else if without_v(a.version) != plan.release {
            Err(PlanError::ArchiveVersion)
        } else {
            Ok(
                ActivationPlanView {
                    application: Some(
                        ApplicationActionView {
                            version: a.version,
                            staged_path: a.staged_path,
                            sha256: a.sha256,
                            size_bytes: a.size_bytes,
                        },
                    ),
                    ..plan
                },
            )
        },
        ActionView::UpgradeSystemPackages(p) => if p.manager != PackageManager::Apt {
            Err(PlanError::UnsupportedManager)
        } else {
            match package_action_verdict(p.component, p.packages) {
                Err(e) => Err(PlanError::Packages(e)),
                Ok(_) => Ok(ActivationPlanView { packages: plan.packages.push(p), ..plan }),
            }
        },
    }
}

/// The plan that the actions make up.
pub open spec fn with_actions(release: Seq<char>, actions: Seq<ActionView>) -> Result<
    ActivationPlanView,
    PlanError,
>
    decreases actions.len(),
{
    if actions.len() == 0 {
        Ok(ActivationPlanView { release, application: None, packages: Seq::empty() })
    } else {
        match with_actions(release, actions.drop_last()) {
            Err(e) => Err(e),
            Ok(plan) => with_action(plan, actions.last()),
        }
    }
}

/// The plan of an activation, or why it is refused while `active` is the active version.
pub open spec fn activation_plan(
    active: Seq<char>,
    release: Seq<char>,
    actions: Seq<ActionView>,
) -> Result<ActivationPlanView, PlanError> {
    if !is_release_name(without_v(release)) {
        Err(PlanError::ReleaseName)
    } else {
        match with_actions(without_v(release), actions) {
            Err(e) => Err(e),
            Ok(plan) => if plan.application matches Some(a) && active == without_v(a.version) {
                Err(PlanError::AlreadyActive)
            } else {
                Ok(plan)
            },
        }
    }
}

proof fn refused_stays_refused(release: Seq<char>, actions: Seq<ActionView>, n: int)
    requires
        0 <= n <= actions.len(),
        with_actions(release, actions.take(n)) is Err,
    ensures
        with_actions(release, actions) == with_actions(release, actions.take(n)),
    decreases actions.len(),
{
    if n < actions.len() {
        assert(actions.drop_last().take(n) =~= actions.take(n));
        refused_stays_refused(release, actions.drop_last(), n);
    } else {
        assert(actions.take(n) =~= actions);
    }
}

fn add_action(plan: ActivationPlan, action: &ApprovedComponentAction) -> (r: Result<
    ActivationPlan,
    PlanError,
>)
    ensures
        match r {
            Ok(next) => with_action(plan@, action@) == Ok::<ActivationPlanView, PlanError>(next@),
            Err(e) => with_action(plan@, action@) == Err::<ActivationPlanView, PlanError>(e),
        },
{
    let mut plan = plan;
    match action {
        ApprovedComponentAction::InstallStagedArchive(a) => {
            if a.component != UpdateComponent::VexaVm || plan.application.is_some() {
                return Err(PlanError::UnsupportedArchive);
            }
            let version = match normalized_release_name(a.version.as_str()) {
                Ok(version) => version,
                Err(_) => {
                    return Err(PlanError::ReleaseName);
                },
            };
            if !same(version.as_str(), plan.release.as_str()) {
                return Err(PlanError::ArchiveVersion);
            }
            plan.application = Some(
                ApplicationAction {
                    version: a.version.clone(),
                    staged_path: a.staged_path.clone(),
                    sha256: a.sha256.clone(),
                    size_bytes: a.size_bytes,
                },
            );
            Ok(plan)
        },
        ApprovedComponentAction::UpgradeSystemPackages(p) => {
            if p.manager != PackageManager::Apt {
                return Err(PlanError::UnsupportedManager);
            }
            match validate_package_action(p.component, &p.packages) {
                Err(e) => {
                    return Err(PlanError::Packages(e));
                },
                Ok(()) => {},
            }
            let ghost before = plan.packages@;
            plan.packages.push(p.clone());
            proof {
                assert(PackageUpgrade::list_view(plan.packages@) =~= PackageUpgrade::list_view(
                    before,
                ).push(p@));
            }
            Ok(plan)
        },
    }
}

/// The plan of an activation while `active` is the active version.
#[verifier::loop_isolation(false)]
pub fn plan_activation(
    active: &str,
    release: &str,
    actions: &Vec<ApprovedComponentAction>,
) -> (r: Result<ActivationPlan, PlanError>)
    ensures
        match r {
            Ok(plan) => activation_plan(active@, release@, actions_view(actions@)) == Ok::<
                ActivationPlanView,
                PlanError,
            >(plan@),
            Err(e) => activation_plan(active@, release@, actions_view(actions@)) == Err::<
                ActivationPlanView,
                PlanError,
            >(e),
        },
{
    let expected = match normalized_release_name(release) {
        Ok(name) => name,
        Err(_) => {
            return Err(PlanError::ReleaseName);
        },
    };
    let ghost name = expected@;
    let ghost all = actions_view(actions@);
    let mut plan = ActivationPlan { release: expected, application: None, packages: Vec::new() };
    let mut i: usize = 0;
    proof {
        assert(all.take(0) =~= Seq::<ActionView>::empty());
        assert(PackageUpgrade::list_view(plan.packages@) =~= Seq::empty());
    }
    while i < actions.len()
        invariant
            i <= actions@.len(),
            all == actions_view(actions@),
            with_actions(name, all.take(i as int)) == Ok::<ActivationPlanView, PlanError>(plan@),
        decreases actions@.len() - i,
    {
        proof {
            assert(all.take(i as int + 1).drop_last() =~= all.take(i as int));
            assert(all.take(i as int + 1).last() == actions@[i as int]@);
        }
        match add_action(plan, &actions[i]) {
            Ok(next) => {
                plan = next;
            },
            Err(e) => {
                proof {
                    refused_stays_refused(name, all, i as int + 1);
                }
                return Err(e);
            },
        }
        i = i + 1;
    }
    proof {
        assert(all.take(all.len() as int) =~= all);
    }
    let already_active = match &plan.application {
        Some(application) => match normalized_release_name(application.version.as_str()) {
            Ok(version) => same(version.as_str(), active),
            Err(_) => {
                proof {
                    application_is_the_release(name, all);
                }
                false
            },
        },
        None => false,
    };
    proof {
        application_is_the_release(name, all);
    }
    if already_active {
        return Err(PlanError::AlreadyActive);
    }
    Ok(plan)
}

/// The application of a plan has the version that the plan is for.
pub proof fn application_is_the_release(release: Seq<char>, actions: Seq<ActionView>)
    requires
        with_actions(release, actions) is Ok,
    ensures
        with_actions(release, actions)->Ok_0.release == release,
        with_actions(release, actions)->Ok_0.application matches Some(a) ==> without_v(a.version)
            == release && is_release_name(without_v(a.version)),
    decreases actions.len(),
{
    if actions.len() > 0 {
        application_is_the_release(release, actions.drop_last());
    }
}

/// Why the directories of a new release cannot be used.
#[derive(Clone, Debug, PartialEq, Eq)]
pub enum TargetError {
    /// The release of this version is there already.
    ReleaseExists(String),
    /// An extraction directory is there already.
    ExtractionExists,
}

/// Why the directories of a new release cannot be used, with the version as a character
/// sequence.
pub enum TargetErrorView {
    ReleaseExists(Seq<char>),
    ExtractionExists,
}

impl View for TargetError {
    type V = TargetErrorView;

    open spec fn view(&self) -> TargetErrorView {
        match *self {
            TargetError::ReleaseExists(version) => TargetErrorView::ReleaseExists(version@),
            TargetError::ExtractionExists => TargetErrorView::ExtractionExists,
        }
    }
}

/// The text of each of these refusals.
pub open spec fn target_error_text(e: TargetErrorView) -> Seq<char> {
    match e {
        TargetErrorView::ReleaseExists(version) => "application release "@ + version
            + " already exists"@,
        TargetErrorView::ExtractionExists => "application extraction directory already exists"@,
    }
}

impl TargetError {
    /// The text shown to an operator.
    pub fn message(&self) -> (r: String)
        ensures
            r@ == target_error_text(self@),
    {
        match self {
            TargetError::ReleaseExists(version) => join3(
                "application release ",
                version.as_str(),
                " already exists",
            ),
            TargetError::ExtractionExists =>
                "application extraction directory already exists".to_owned(),
        }
    }
}

/// Whether the directory of the release of a version and the extraction directory are free.
pub fn check_release_targets(version: &str, destination_exists: bool, partial_exists: bool) -> (r:
    Result<(), TargetError>)
    ensures
        match r {
            Ok(_) => !destination_exists && !partial_exists,
            Err(e) => if destination_exists {
                e@ == TargetErrorView::ReleaseExists(version@)
            } else {
                partial_exists && e@ == TargetErrorView::ExtractionExists
            },
        },
{
    if destination_exists {
        return Err(TargetError::ReleaseExists(version.to_owned()));
    }
    if partial_exists {
        return Err(TargetError::ExtractionExists);
    }
    Ok(())
}

/// The directory name for an extracted release, whose VERSION must be that of the
/// approved application.
pub fn prepare_application_release(action: &ApplicationAction, extracted_version: &str) -> (r:
    Result<String, PlanError>)
    ensures
        match r {
            Ok(name) => is_release_name(without_v(action@.version)) && is_release_name(
                without_v(extracted_version@),
            ) && without_v(extracted_version@) == without_v(action@.version) && name@ == without_v(
                action@.version,
            ),
            Err(e) => e == (if is_release_name(without_v(action@.version)) && is_release_name(
                without_v(extracted_version@),
            ) {
                PlanError::VersionMismatch
            } else {
                PlanError::ReleaseName
            }) && !(is_release_name(without_v(action@.version)) && is_release_name(
                without_v(extracted_version@),
            ) && without_v(extracted_version@) == without_v(action@.version)),
        },
{
    let version = match normalized_release_name(action.version.as_str()) {
        Ok(version) => version,
        Err(_) => {
            return Err(PlanError::ReleaseName);
        },
    };
    let extracted = match normalized_release_name(extracted_version) {
        Ok(version) => version,
        Err(_) => {
            return Err(PlanError::ReleaseName);
        },
    };
    if !same(extracted.as_str(), version.as_str()) {
        return Err(PlanError::VersionMismatch);
    }
    Ok(version)
}

/// Begins to freeze the staged archive in a private file.
pub fn begin_freeze(destination_exists: bool, length: u64, action: &ApplicationAction) -> (r:
    Result<crate::digest::StreamDigest, PlanError>)
    ensures
        r is Ok <==> !destination_exists && length == action@.size_bytes,
        r matches Ok(s) ==> s.bytes() == Seq::<u8>::empty() && s.limit() == action@.size_bytes,
        r matches Err(e) ==> e == (if destination_exists {
            PlanError::ArchiveExists
        } else {
            PlanError::ArchiveChangedBefore
        }),
{
    if destination_exists {
        return Err(PlanError::ArchiveExists);
    }
    if length != action.size_bytes {
        return Err(PlanError::ArchiveChangedBefore);
    }
    Ok(crate::digest::StreamDigest::new(action.size_bytes))
}

/// Ends the freezing of the staged archive: its bytes have the approved size and digest.
pub fn copy_archive_to_private_inode(
    stream: crate::digest::StreamDigest,
    action: &ApplicationAction,
) -> (r: Result<(), PlanError>)
    ensures
        r == (if stream.bytes().len() == action@.size_bytes && crate::digest::hex(
            crate::digest::sha256(stream.bytes()),
        ) == action@.sha256 {
            Ok::<(), PlanError>(())
        } else {
            Err::<(), PlanError>(PlanError::ArchiveChanged)
        }),
{
    let size: u64 = stream.size();
    let digest = stream.finish();
    if size != action.size_bytes || !same(digest.as_str(), action.sha256.as_str()) {
        return Err(PlanError::ArchiveChanged);
    }
    Ok(())
}

/// An action that an activation of a release can have: the archive of the application in that
/// release, or packages that can be asked for together.
pub open spec fn is_fit(release: Seq<char>, a: ActionView) -> bool {
    match a {
        ActionView::InstallStagedArchive(x) => x.component == UpdateComponent::VexaVm && without_v(
            x.version,
        ) == release,
        ActionView::UpgradeSystemPackages(p) => p.manager == PackageManager::Apt && is_fit_action(
            p.component,
            p.packages,
        ),
    }
}

/// All actions are fit, and at most one is an archive.
pub open spec fn are_fit(release: Seq<char>, actions: Seq<ActionView>) -> bool {
    &&& forall|k: int| 0 <= k < actions.len() ==> is_fit(release, #[trigger] actions[k])
    &&& forall|j: int, k: int|
        0 <= j < k < actions.len() ==> !((#[trigger] actions[j]) is InstallStagedArchive && (
        #[trigger] actions[k]) is InstallStagedArchive)
}

/// A plan installs an archive: the archive of some action.
pub open spec fn installs(plan: ActivationPlanView, a: ActionView) -> bool {
    &&& a is InstallStagedArchive
    &&& plan.application is Some
    &&& plan.application->0.version == a->InstallStagedArchive_0.version
    &&& plan.application->0.staged_path == a->InstallStagedArchive_0.staged_path
    &&& plan.application->0.sha256 == a->InstallStagedArchive_0.sha256
    &&& plan.application->0.size_bytes == a->InstallStagedArchive_0.size_bytes
}

/// A plan is made exactly of fit actions: it installs the archive, if there is one, and
/// upgrades the packages of every other action.
pub proof fn a_plan_is_made_of_its_actions(release: Seq<char>, actions: Seq<ActionView>)
    requires
        is_release_name(release),
    ensures
        with_actions(release, actions) is Ok <==> are_fit(release, actions),
        with_actions(release, actions) matches Ok(plan) ==> {
            &&& plan.release == release
            &&& plan.application is Some <==> exists|k: int|
                0 <= k < actions.len() && (#[trigger] actions[k]) is InstallStagedArchive
            &&& forall|k: int|
                0 <= k < actions.len() && (#[trigger] actions[k]) is InstallStagedArchive
                    ==> installs(plan, actions[k])
            &&& forall|k: int|
                0 <= k < actions.len() && (#[trigger] actions[k]) is UpgradeSystemPackages
                    ==> plan.packages.contains(actions[k]->UpgradeSystemPackages_0)
            &&& forall|i: int|
                0 <= i < plan.packages.len() ==> actions.contains(
                    ActionView::UpgradeSystemPackages(#[trigger] plan.packages[i]),
                )
            &&& plan.packages.len() <= actions.len()
        },
    decreases actions.len(),
{
    if actions.len() > 0 {
        let front = actions.drop_last();
        let n = actions.len() - 1;
        let last = actions.last();
        a_plan_is_made_of_its_actions(release, front);
        assert(actions[n] == last);
        assert forall|k: int| 0 <= k < front.len() implies #[trigger] front[k] == actions[k] by {}
        assert forall|k: int| 0 <= k < n implies #[trigger] actions[k] == front[k] by {}
        if last is UpgradeSystemPackages {
            let p = last->UpgradeSystemPackages_0;
            fit_actions_are_accepted(p.component, p.packages);
        }
        if are_fit(release, actions) {
            assert(are_fit(release, front));
            assert(is_fit(release, actions[n]));
            if last is InstallStagedArchive && with_actions(release, front)->Ok_0.application
                is Some {
                let k = choose|k: int|
                    0 <= k < front.len() && (#[trigger] front[k]) is InstallStagedArchive;
                assert(actions[k] is InstallStagedArchive && actions[n] is InstallStagedArchive);
            }
        }
        if with_actions(release, actions) is Ok {
            let before = with_actions(release, front)->Ok_0;
            let plan = with_actions(release, actions)->Ok_0;
            assert forall|k: int| 0 <= k < actions.len() implies is_fit(
                release,
                #[trigger] actions[k],
            ) by {
                if k < n {
                    assert(is_fit(release, front[k]));
                }
            }
            assert forall|j: int, k: int| 0 <= j < k < actions.len() implies !((
            #[trigger] actions[j]) is InstallStagedArchive && (
            #[trigger] actions[k]) is InstallStagedArchive) by {
                assert(actions[j] == front[j]);
                if k < n {
                    assert(actions[k] == front[k]);
                }
            }
            if before.application is Some {
                let k = choose|k: int|
                    0 <= k < front.len() && (#[trigger] front[k]) is InstallStagedArchive;
                assert(actions[k] is InstallStagedArchive);
            }
            assert forall|k: int|
                0 <= k < actions.len() && (
                #[trigger] actions[k]) is UpgradeSystemPackages implies plan.packages.contains(
                actions[k]->UpgradeSystemPackages_0,
            ) by {
                if k < n {
                    let p = front[k]->UpgradeSystemPackages_0;
                    assert(before.packages.contains(p));
                    let i = choose|i: int| 0 <= i < before.packages.len() && before.packages[i] == p;
                    assert(plan.packages[i] == p);
                } else {
                    assert(plan.packages[before.packages.len() as int]
                        == last->UpgradeSystemPackages_0);
                }
            }
            assert forall|i: int| 0 <= i < plan.packages.len() implies actions.contains(
                ActionView::UpgradeSystemPackages(#[trigger] plan.packages[i]),
            ) by {
                if i < before.packages.len() {
                    assert(plan.packages[i] == before.packages[i]);
                    let x = ActionView::UpgradeSystemPackages(before.packages[i]);
                    let k = choose|k: int| 0 <= k < front.len() && front[k] == x;
                    assert(actions[k] == x);
                } else {
                    assert(actions[n] == ActionView::UpgradeSystemPackages(plan.packages[i]));
                }
            }
        }
    }
}

/// An activation is planned exactly where the release has a name, the actions are fit, and
/// the application is not active in that release already.
pub proof fn what_can_be_activated(active: Seq<char>, release: Seq<char>, actions: Seq<ActionView>)
    ensures
        ({
            let name = without_v(release);
            let archive = exists|k: int|
                0 <= k < actions.len() && (#[trigger] actions[k]) is InstallStagedArchive;
            &&& activation_plan(active, release, actions) is Ok <==> is_release_name(name)
                && are_fit(name, actions) && !(archive && active == name)
            &&& activation_plan(active, release, actions) is Ok ==> activation_plan(
                active,
                release,
                actions,
            ) == with_actions(name, actions)
        }),
{
    let name = without_v(release);
    if is_release_name(name) {
        a_plan_is_made_of_its_actions(name, actions);
        if with_actions(name, actions) is Ok {
            application_is_the_release(name, actions);
        }
    }
}

} // verus!
