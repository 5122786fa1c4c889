//! One run of the package manager: what is asked next, and when the run has succeeded.

use vstd::prelude::*;
use vstd::utf8::{decode_utf8, valid_utf8};

use crate::packages::{
    component_text, distinct_names, extended_plan, gathered_plan, package_plan, plan_names,
    plan_verdict, simulation_error_text, simulation_result, simulation_verdict,
    validate_apt_simulation_output, ExpectedPackage, ExpectedPackageView, PackageError,
    PackageUpgrade, PackageUpgradeView, PlannedPackage, PlannedPackageView, SimulationError,
    SimulationErrorView, SystemPackageView, UpdateComponent,
};
use crate::status::{PackageChangeStatus, PackageChangeStatusView};
use crate::table::{first, first_is_first};
use crate::text::{copy_option, join2, option_is, view_option};

verus! {

broadcast use vstd::string::group_string_axioms;

/// Largest output of a simulation that is read.
pub const MAX_SIMULATION_BYTES: usize = 2097152;

/// Where a run stands.
#[derive(Clone, Copy, Debug, PartialEq, Eq, Structural)]
pub enum PackageStep {
    QueryBefore(usize),
    RecordBefore,
    Update,
    Simulate,
    Install,
    QueryAfter(usize),
    RecordAfter,
    Ended,
}

/// What is to be done next.
#[derive(Clone, Copy, Debug, PartialEq, Eq, Structural)]
pub enum PackageAction {
    /// Ask the package database for the installed version of a package of the plan.
    Query(usize),
    /// Write the package changes into the status record.
    Record,
    /// Refresh the package lists.
    Update,
    /// Simulate the installation.
    Simulate,
    /// Install the plan.
    Install,
    /// The run ended and every package has its approved version.
    Succeed,
    /// The run ended without success.
    Fail,
}

/// What came back.
pub enum PackageAnswer {
    Done,
    Version(Option<String>),
    Output(bool, Vec<u8>),
    Failed(String),
}

/// What came back, with texts as character sequences.
pub enum PackageAnswerView {
    Done,
    Version(Option<Seq<char>>),
    Output(bool, Seq<u8>),
    Failed(Seq<char>),
}

impl View for PackageAnswer {
    type V = PackageAnswerView;

    open spec fn view(&self) -> PackageAnswerView {
        match *self {
            PackageAnswer::Done => PackageAnswerView::Done,
            PackageAnswer::Version(v) => PackageAnswerView::Version(view_option(v)),
            PackageAnswer::Output(success, stdout) => PackageAnswerView::Output(success, stdout@),
            PackageAnswer::Failed(e) => PackageAnswerView::Failed(e@),
        }
    }
}

/// Why a run failed.
pub enum PackageFailure {
    /// Something outside failed, with this text.
    Outside(String),
    /// The simulation was refused.
    Refused(SimulationError),
    /// This package does not have its approved version.
    NotInstalled(String),
    /// An answer does not belong to the question.
    Unexpected,
}

/// Why a run failed, with texts as character sequences.
pub enum PackageFailureView {
    Outside(Seq<char>),
    Refused(SimulationErrorView),
    NotInstalled(Seq<char>),
    Unexpected,
}

impl View for PackageFailure {
    type V = PackageFailureView;

    open spec fn view(&self) -> PackageFailureView {
        match *self {
            PackageFailure::Outside(e) => PackageFailureView::Outside(e@),
            PackageFailure::Refused(e) => PackageFailureView::Refused(e@),
            PackageFailure::NotInstalled(name) => PackageFailureView::NotInstalled(name@),
            PackageFailure::Unexpected => PackageFailureView::Unexpected,
        }
    }
}

/// The text of each failure.
pub open spec fn package_failure_text(f: PackageFailureView) -> Seq<char> {
    match f {
        PackageFailureView::Outside(e) => e,
        PackageFailureView::Refused(e) => simulation_error_text(e),
        PackageFailureView::NotInstalled(name) =>
            "APT did not install the exact approved version of "@ + name,
        PackageFailureView::Unexpected => "the package run was answered out of order"@,
    }
}

impl PackageFailure {
    /// The text shown to an operator.
    pub fn message(&self) -> (r: String)
        ensures
            r@ == package_failure_text(self@),
    {
        match self {
            PackageFailure::Outside(e) => e.clone(),
            PackageFailure::Refused(e) => e.message(),
            PackageFailure::NotInstalled(name) => join2(
                "APT did not install the exact approved version of ",
                name.as_str(),
            ),
            PackageFailure::Unexpected => "the package run was answered out of order".to_owned(),
        }
    }
}

/// A run of the package manager.
pub struct PackageRun {
    pub plan: Vec<PlannedPackage>,
    pub changes: Vec<PackageChangeStatus>,
    pub step: PackageStep,
    pub install_error: Option<String>,
    pub failure: Option<PackageFailure>,
}

/// What a [`PackageRun`] holds.
#[verifier::ext_equal]
pub struct PackageRunView {
    pub plan: Seq<PlannedPackageView>,
    pub changes: Seq<PackageChangeStatusView>,
    pub step: PackageStep,
    pub install_error: Option<Seq<char>>,
    pub failure: Option<PackageFailureView>,
}

impl View for PackageRun {
    type V = PackageRunView;

    open spec fn view(&self) -> PackageRunView {
        PackageRunView {
            plan: PlannedPackage::list_view(self.plan@),
            changes: PackageChangeStatus::list_view(self.changes@),
            step: self.step,
            install_error: view_option(self.install_error),
            failure: match self.failure {
                Some(f) => Some(f@),
                None => None,
            },
        }
    }
}

/// No package stands twice in the plan.
pub open spec fn distinct_plan(plan: Seq<PlannedPackageView>) -> bool {
    forall|i: int, j: int|
        0 <= i < j < plan.len() ==> (#[trigger] plan[i]).name != (#[trigger] plan[j]).name
}

impl PackageRunView {
    /// The plan is not empty and names no package twice; there is one change for each
    /// package that was asked for.
    pub open spec fn wf(self) -> bool {
        &&& 1 <= self.plan.len() <= 16
        &&& distinct_plan(self.plan)
        &&& match self.step {
            PackageStep::QueryBefore(i) => i < self.plan.len() && self.changes.len() == i,
            PackageStep::QueryAfter(i) => i < self.plan.len() && self.changes.len()
                == self.plan.len(),
            PackageStep::Ended => true,
            _ => self.changes.len() == self.plan.len(),
        }
    }
}

/// The change that is recorded for a package before anything is installed.
pub open spec fn first_change(
    p: PlannedPackageView,
    installed: Option<Seq<char>>,
) -> PackageChangeStatusView {
    PackageChangeStatusView {
        component: component_text(p.component),
        package: p.name,
        previous_version: installed,
        requested_version: p.candidate_version,
        applied: false,
    }
}

/// The packages that the installation is going to change.
pub open spec fn expected_upgrades(
    plan: Seq<PlannedPackageView>,
    changes: Seq<PackageChangeStatusView>,
) -> Seq<ExpectedPackageView>
    decreases plan.len(),
{
    if plan.len() == 0 {
        Seq::empty()
    } else {
        let front = expected_upgrades(plan.drop_last(), changes);
        if changes[plan.len() - 1].previous_version == Some(plan.last().candidate_version) {
            front
        } else {
            front.push(
                ExpectedPackageView {
                    name: plan.last().name,
                    version: plan.last().candidate_version,
                },
            )
        }
    }
}

/// The verdict on the simulation of the installation.
pub open spec fn simulation_answer(
    plan: Seq<PlannedPackageView>,
    changes: Seq<PackageChangeStatusView>,
    success: bool,
    stdout: Seq<u8>,
) -> Result<(), SimulationErrorView> {
    if !success {
        Err(SimulationErrorView::Refused(PackageError::SimulationRejected))
    } else if stdout.len() > MAX_SIMULATION_BYTES {
        Err(SimulationErrorView::Refused(PackageError::SimulationOversized))
    } else if !valid_utf8(stdout) {
        Err(SimulationErrorView::Refused(PackageError::SimulationNotUtf8))
    } else {
        simulation_verdict(decode_utf8(stdout), expected_upgrades(plan, changes))
    }
}

/// A package that does not have its approved version.
pub open spec fn not_applied() -> spec_fn(PackageChangeStatusView) -> bool {
    |m: PackageChangeStatusView| !m.applied
}

/// Every package has its approved version.
pub open spec fn all_applied(changes: Seq<PackageChangeStatusView>) -> bool {
    forall|i: int| 0 <= i < changes.len() ==> (#[trigger] changes[i]).applied
}

/// A run that failed.
pub open spec fn failed_run(s: PackageRunView, f: PackageFailureView) -> (
    PackageRunView,
    PackageAction,
) {
    (
        PackageRunView { step: PackageStep::Ended, failure: Some(f), ..s },
        PackageAction::Fail,
    )
}

/// How a run goes on after an answer.
pub open spec fn run_step(s: PackageRunView, a: PackageAnswerView) -> (
    PackageRunView,
    PackageAction,
) {
    match (s.step, a) {
        (PackageStep::Ended, _) => (s, PackageAction::Fail),
        (PackageStep::Install, PackageAnswerView::Done) => (
            PackageRunView { step: PackageStep::QueryAfter(0), install_error: None, ..s },
            PackageAction::Query(0),
        ),
        (PackageStep::Install, PackageAnswerView::Failed(e)) => (
            PackageRunView { step: PackageStep::QueryAfter(0), install_error: Some(e), ..s },
            PackageAction::Query(0),
        ),
        (_, PackageAnswerView::Failed(e)) => failed_run(s, PackageFailureView::Outside(e)),
        (PackageStep::QueryBefore(i), PackageAnswerView::Version(v)) => {
            let changes = s.changes.push(first_change(s.plan[i as int], v));
            if i + 1 < s.plan.len() {
                (
                    PackageRunView {
                        changes,
                        step: PackageStep::QueryBefore((i + 1) as usize),
                        ..s
                    },
                    PackageAction::Query((i + 1) as usize),
                )
            } else {
                (
                    PackageRunView { changes, step: PackageStep::RecordBefore, ..s },
                    PackageAction::Record,
                )
            }
        },
        (PackageStep::RecordBefore, PackageAnswerView::Done) => (
            PackageRunView { step: PackageStep::Update, ..s },
            PackageAction::Update,
        ),
        (PackageStep::Update, PackageAnswerView::Done) => (
            PackageRunView { step: PackageStep::Simulate, ..s },
            PackageAction::Simulate,
        ),
        (PackageStep::Simulate, PackageAnswerView::Output(success, stdout)) => {
            match simulation_answer(s.plan, s.changes, success, stdout) {
                Err(e) => failed_run(s, PackageFailureView::Refused(e)),
                Ok(_) => (
                    PackageRunView { step: PackageStep::Install, ..s },
                    PackageAction::Install,
                ),
            }
        },
        (PackageStep::QueryAfter(i), PackageAnswerView::Version(v)) => {
            let changes = s.changes.update(
                i as int,
                PackageChangeStatusView {
                    applied: v == Some(s.plan[i as int].candidate_version),
                    ..s.changes[i as int]
                },
            );
            if i + 1 < s.plan.len() {
                (
                    PackageRunView {
                        changes,
                        step: PackageStep::QueryAfter((i + 1) as usize),
                        ..s
                    },
                    PackageAction::Query((i + 1) as usize),
                )
            } else {
                (
                    PackageRunView { changes, step: PackageStep::RecordAfter, ..s },
                    PackageAction::Record,
                )
            }
        },
        (PackageStep::RecordAfter, PackageAnswerView::Done) => match s.install_error {
            Some(e) => failed_run(s, PackageFailureView::Outside(e)),
            None => match first(s.changes, not_applied()) {
                None => (PackageRunView { step: PackageStep::Ended, ..s }, PackageAction::Succeed),
                Some(i) => failed_run(s, PackageFailureView::NotInstalled(s.plan[i].name)),
            },
        },
        _ => failed_run(s, PackageFailureView::Unexpected),
    }
}

proof fn extended_plan_is_distinct(
    plan: Seq<PlannedPackageView>,
    component: UpdateComponent,
    packages: Seq<SystemPackageView>,
)
    requires
        distinct_plan(plan),
        extended_plan(plan, component, packages) is Some,
    ensures
        distinct_plan(extended_plan(plan, component, packages)->0),
    decreases packages.len(),
{
    if packages.len() > 0 {
        extended_plan_is_distinct(plan, component, packages.drop_last());
        let front = extended_plan(plan, component, packages.drop_last())->0;
        let whole = extended_plan(plan, component, packages)->0;
        assert forall|i: int, j: int| 0 <= i < j < whole.len() implies (#[trigger] whole[i]).name
            != (#[trigger] whole[j]).name by {
            assert(whole[i] == front[i]);
            if j < front.len() {
                assert(whole[j] == front[j]);
            }
        }
    }
}

/// A plan that was put together names no package twice.
pub proof fn gathered_plan_is_distinct(actions: Seq<PackageUpgradeView>)
    requires
        gathered_plan(actions) is Ok,
    ensures
        distinct_plan(gathered_plan(actions)->Ok_0),
    decreases actions.len(),
{
    if actions.len() > 0 {
        gathered_plan_is_distinct(actions.drop_last());
        extended_plan_is_distinct(
            gathered_plan(actions.drop_last())->Ok_0,
            actions.last().component,
            actions.last().packages,
        );
    }
}

proof fn expected_come_from_plan(
    plan: Seq<PlannedPackageView>,
    changes: Seq<PackageChangeStatusView>,
)
    requires
        distinct_plan(plan),
    ensures
        distinct_names(expected_upgrades(plan, changes)),
        forall|i: int|
            0 <= i < expected_upgrades(plan, changes).len() ==> plan_names(
                plan,
                (#[trigger] expected_upgrades(plan, changes)[i]).name,
            ),
    decreases plan.len(),
{
    if plan.len() > 0 {
        let front = plan.drop_last();
        expected_come_from_plan(front, changes);
        let f = expected_upgrades(front, changes);
        let e = expected_upgrades(plan, changes);
        assert forall|i: int| 0 <= i < e.len() implies plan_names(
            plan,
            (#[trigger] e[i]).name,
        ) by {
            if i < f.len() {
                assert(e[i] == f[i]);
                let k = choose|k: int| 0 <= k < front.len() && (#[trigger] front[k]).name
                    == f[i].name;
                assert(plan[k].name == e[i].name);
            } else {
                assert(plan[plan.len() - 1].name == e[i].name);
            }
        }
        assert forall|i: int, j: int| 0 <= i < j < e.len() implies (#[trigger] e[i]).name != (
        #[trigger] e[j]).name by {
            assert(e[i] == f[i]);
            if j < f.len() {
                assert(e[j] == f[j]);
            } else {
                let k = choose|k: int| 0 <= k < front.len() && (#[trigger] front[k]).name
                    == f[i].name;
                assert(plan[k].name != plan[plan.len() - 1].name);
            }
        }
    }
}

fn upgrades(plan: &Vec<PlannedPackage>, changes: &Vec<PackageChangeStatus>) -> (r: Vec<
    ExpectedPackage,
>)
    requires
        plan@.len() == changes@.len(),
    ensures
        ExpectedPackage::list_view(r@) == expected_upgrades(
            PlannedPackage::list_view(plan@),
            PackageChangeStatus::list_view(changes@),
        ),
{
    let ghost p = PlannedPackage::list_view(plan@);
    let ghost c = PackageChangeStatus::list_view(changes@);
    let mut r: Vec<ExpectedPackage> = Vec::new();
    let mut i: usize = 0;
    proof {
        assert(p.take(0) =~= Seq::<PlannedPackageView>::empty());
        assert(ExpectedPackage::list_view(r@) =~= Seq::empty());
    }
    while i < plan.len()
        invariant
            i <= plan@.len(),
            plan@.len() == changes@.len(),
            p == PlannedPackage::list_view(plan@),
            c == PackageChangeStatus::list_view(changes@),
            ExpectedPackage::list_view(r@) == expected_upgrades(p.take(i as int), c),
        decreases plan@.len() - i,
    {
        proof {
            assert(p.take(i as int + 1).drop_last() =~= p.take(i as int));
            assert(p.take(i as int + 1).last() == plan@[i as int]@);
            assert(c[i as int] == changes@[i as int]@);
        }
        if !option_is(&changes[i].previous_version, plan[i].candidate_version.as_str()) {
            let ghost before = r@;
            r.push(
                ExpectedPackage {
                    name: plan[i].name.clone(),
                    version: plan[i].candidate_version.clone(),
                },
            );
            proof {
                assert(ExpectedPackage::list_view(r@) =~= ExpectedPackage::list_view(before).push(
                    r@.last()@,
                ));
            }
        }
        i = i + 1;
    }
    proof {
        assert(p.take(p.len() as int) =~= p);
    }
    r
}

/// Judges the simulation of the installation.
pub fn validate_apt_simulation(
    plan: &Vec<PlannedPackage>,
    changes: &Vec<PackageChangeStatus>,
    success: bool,
    stdout: &Vec<u8>,
) -> (r: Result<(), SimulationError>)
    requires
        plan@.len() == changes@.len(),
        distinct_plan(PlannedPackage::list_view(plan@)),
    ensures
        simulation_result(r) == simulation_answer(
            PlannedPackage::list_view(plan@),
            PackageChangeStatus::list_view(changes@),
            success,
            stdout@,
        ),
{
    if !success {
        return Err(SimulationError::Refused(PackageError::SimulationRejected));
    }
    if stdout.len() > MAX_SIMULATION_BYTES {
        return Err(SimulationError::Refused(PackageError::SimulationOversized));
    }
    match core::str::from_utf8(stdout.as_slice()) {
        Err(_) => Err(SimulationError::Refused(PackageError::SimulationNotUtf8)),
        Ok(text) => {
            let expected = upgrades(plan, changes);
            proof {
                expected_come_from_plan(
                    PlannedPackage::list_view(plan@),
                    PackageChangeStatus::list_view(changes@),
                );
            }
            validate_apt_simulation_output(text, &expected)
        },
    }
}

fn first_not_applied(changes: &Vec<PackageChangeStatus>) -> (r: Option<usize>)
    ensures
        first(PackageChangeStatus::list_view(changes@), not_applied()) == (match r {
            Some(i) => Some(i as int),
            None => None,
        }),
        r matches Some(i) ==> i < changes@.len(),
{
    let ghost c = PackageChangeStatus::list_view(changes@);
    let mut i: usize = 0;
    proof {
        first_is_first(c, not_applied());
    }
    while i < changes.len()
        invariant
            i <= changes@.len(),
            c == PackageChangeStatus::list_view(changes@),
            forall|j: int| 0 <= j < i ==> !not_applied()(#[trigger] c[j]),
            match first(c, not_applied()) {
                Some(k) => 0 <= k < c.len() && not_applied()(c[k]) && forall|j: int|
                    0 <= j < k ==> !not_applied()(#[trigger] c[j]),
                None => forall|j: int| 0 <= j < c.len() ==> !not_applied()(#[trigger] c[j]),
            },
        decreases changes@.len() - i,
    {
        proof {
            assert(c[i as int] == changes@[i as int]@);
        }
        if !changes[i].applied {
            proof {
                assert(not_applied()(c[i as int]));
            }
            return Some(i);
        }
        i = i + 1;
    }
    None
}

impl PackageRun {
    /// A run for the approved actions; the installed versions are asked for first.
    pub fn begin(actions: &Vec<PackageUpgrade>) -> (r: Result<PackageRun, PackageError>)
        ensures
            match r {
                Ok(run) => plan_verdict(PackageUpgrade::list_view(actions@)) == Ok::<
                    Seq<PlannedPackageView>,
                    PackageError,
                >(run@.plan) && run@ == (PackageRunView {
                    plan: run@.plan,
                    changes: Seq::empty(),
                    step: PackageStep::QueryBefore(0),
                    install_error: None,
                    failure: None,
                }) && run@.wf(),
                Err(e) => plan_verdict(PackageUpgrade::list_view(actions@)) == Err::<
                    Seq<PlannedPackageView>,
                    PackageError,
                >(e),
            },
    {
        match package_plan(actions) {
            Err(e) => Err(e),
            Ok(plan) => {
                let changes: Vec<PackageChangeStatus> = Vec::new();
                proof {
                    gathered_plan_is_distinct(PackageUpgrade::list_view(actions@));
                    assert(PackageChangeStatus::list_view(changes@) =~= Seq::empty());
                }
                Ok(
                    PackageRun {
                        plan,
                        changes,
                        step: PackageStep::QueryBefore(0),
                        install_error: None,
                        failure: None,
                    },
                )
            },
        }
    }

    fn fail(&mut self, failure: PackageFailure) -> (r: PackageAction)
        ensures
            (final(self)@, r) == failed_run(old(self)@, failure@),
    {
        self.step = PackageStep::Ended;
        self.failure = Some(failure);
        PackageAction::Fail
    }

    /// Goes on after an answer.
    pub fn apply_package_actions(&mut self, answer: PackageAnswer) -> (r: PackageAction)
        requires
            old(self)@.wf(),
        ensures
            final(self)@.wf(),
            (final(self)@, r) == run_step(old(self)@, answer@),
    {
        let step = self.step;
        match (step, answer) {
            (PackageStep::Ended, _) => PackageAction::Fail,
            (PackageStep::Install, PackageAnswer::Done) => {
                self.step = PackageStep::QueryAfter(0);
                self.install_error = None;
                PackageAction::Query(0)
            },
            (PackageStep::Install, PackageAnswer::Failed(e)) => {
                self.step = PackageStep::QueryAfter(0);
                self.install_error = Some(e);
                PackageAction::Query(0)
            },
            (_, PackageAnswer::Failed(e)) => self.fail(PackageFailure::Outside(e)),
            (PackageStep::QueryBefore(i), PackageAnswer::Version(v)) => {
                let ghost before = self.changes@;
                let package = &self.plan[i];
                let change = PackageChangeStatus {
                    component: package.component.as_str().to_owned(),
                    package: package.name.clone(),
                    previous_version: v,
                    requested_version: package.candidate_version.clone(),
                    applied: false,
                };
                let ghost c = change@;
                self.changes.push(change);
                proof {
                    assert(PackageChangeStatus::list_view(self.changes@)
                        =~= PackageChangeStatus::list_view(before).push(c));
                }
                if i + 1 < self.plan.len() {
                    self.step = PackageStep::QueryBefore(i + 1);
                    PackageAction::Query(i + 1)
                } else {
                    self.step = PackageStep::RecordBefore;
                    PackageAction::Record
                }
            },
            (PackageStep::RecordBefore, PackageAnswer::Done) => {
                self.step = PackageStep::Update;
                PackageAction::Update
            },
            (PackageStep::Update, PackageAnswer::Done) => {
                self.step = PackageStep::Simulate;
                PackageAction::Simulate
            },
            (PackageStep::Simulate, PackageAnswer::Output(success, stdout)) => {
                match validate_apt_simulation(&self.plan, &self.changes, success, &stdout) {
                    Err(e) => self.fail(PackageFailure::Refused(e)),
                    Ok(()) => {
                        self.step = PackageStep::Install;
                        PackageAction::Install
                    },
                }
            },
            (PackageStep::QueryAfter(i), PackageAnswer::Version(v)) => {
                let applied = option_is(&v, self.plan[i].candidate_version.as_str());
                let ghost before = self.changes@;
                let old_change = &self.changes[i];
                let change = PackageChangeStatus {
                    component: old_change.component.clone(),
                    package: old_change.package.clone(),
                    previous_version: copy_option(&old_change.previous_version),
                    requested_version: old_change.requested_version.clone(),
                    applied,
                };
                let ghost c = change@;
                self.changes.set(i, change);
                proof {
                    assert(PackageChangeStatus::list_view(self.changes@)
                        =~= PackageChangeStatus::list_view(before).update(i as int, c));
                }
                if i + 1 < self.plan.len() {
                    self.step = PackageStep::QueryAfter(i + 1);
                    PackageAction::Query(i + 1)
                } else {
                    self.step = PackageStep::RecordAfter;
                    PackageAction::Record
                }
            },
            (PackageStep::RecordAfter, PackageAnswer::Done) => {
                let install_error = copy_option(&self.install_error);
                match install_error {
                    Some(e) => self.fail(PackageFailure::Outside(e)),
                    None => {
                        match first_not_applied(&self.changes) {
                            None => {
                                self.step = PackageStep::Ended;
                                PackageAction::Succeed
                            },
                            Some(i) => {
                                let name = self.plan[i].name.clone();
                                self.fail(PackageFailure::NotInstalled(name))
                            },
                        }
                    },
                }
            },
            _ => self.fail(PackageFailure::Unexpected),
        }
    }
}

/// A run succeeds only after the installation succeeded, every package was found in its
/// approved version and that was recorded.
pub proof fn success_means_applied(s: PackageRunView, a: PackageAnswerView)
    requires
        run_step(s, a).1 == PackageAction::Succeed,
    ensures
        s.step == PackageStep::RecordAfter,
        a == PackageAnswerView::Done,
        s.install_error is None,
        all_applied(run_step(s, a).0.changes),
{
    first_is_first(s.changes, not_applied());
    assert forall|i: int| 0 <= i < s.changes.len() implies (#[trigger] s.changes[i]).applied by {
        assert(!not_applied()(s.changes[i]));
    }
}

/// Nothing is installed before the simulation was accepted.
pub proof fn installation_follows_simulation(s: PackageRunView, a: PackageAnswerView)
    requires
        run_step(s, a).1 == PackageAction::Install,
    ensures
        s.step == PackageStep::Simulate,
        a matches PackageAnswerView::Output(success, stdout) && simulation_answer(
            s.plan,
            s.changes,
            success,
            stdout,
        ) is Ok,
{
}

/// How many answers a run can still take.
pub open spec fn remaining_steps(s: PackageRunView) -> int {
    let n = s.plan.len() as int;
    match s.step {
        PackageStep::QueryBefore(i) => 2 * n + 6 - i,
        PackageStep::RecordBefore => n + 5,
        PackageStep::Update => n + 4,
        PackageStep::Simulate => n + 3,
        PackageStep::Install => n + 2,
        PackageStep::QueryAfter(i) => n + 1 - i,
        PackageStep::RecordAfter => 1,
        PackageStep::Ended => 0,
    }
}

/// Every answer brings a run nearer to its end.
pub proof fn runs_end(s: PackageRunView, a: PackageAnswerView)
    requires
        s.wf(),
        s.step != PackageStep::Ended,
    ensures
        0 <= remaining_steps(run_step(s, a).0) < remaining_steps(s),
{
}

/// Exactly the packages that do not have their approved version yet are expected to change,
/// each to its approved version.
pub proof fn what_is_expected_to_change(
    plan: Seq<PlannedPackageView>,
    changes: Seq<PackageChangeStatusView>,
)
    requires
        plan.len() <= changes.len(),
    ensures
        forall|i: int|
            0 <= i < plan.len() && (#[trigger] changes[i]).previous_version != Some(
                plan[i].candidate_version,
            ) ==> expected_upgrades(plan, changes).contains(
                ExpectedPackageView { name: plan[i].name, version: plan[i].candidate_version },
            ),
        forall|k: int|
            0 <= k < expected_upgrades(plan, changes).len() ==> exists|i: int|
                0 <= i < plan.len() && (#[trigger] expected_upgrades(plan, changes)[k]).name
                    == plan[i].name && expected_upgrades(plan, changes)[k].version
                    == plan[i].candidate_version && (#[trigger] changes[i]).previous_version
                    != Some(plan[i].candidate_version),
    decreases plan.len(),
{
    if plan.len() > 0 {
        let front = plan.drop_last();
        let n = plan.len() - 1;
        what_is_expected_to_change(front, changes);
        let f = expected_upgrades(front, changes);
        let e = expected_upgrades(plan, changes);
        assert forall|i: int|
            0 <= i < plan.len() && (#[trigger] changes[i]).previous_version != Some(
                plan[i].candidate_version,
            ) implies e.contains(
            ExpectedPackageView { name: plan[i].name, version: plan[i].candidate_version },
        ) by {
            if i < n {
                assert(front[i] == plan[i]);
                let x = ExpectedPackageView {
                    name: plan[i].name,
                    version: plan[i].candidate_version,
                };
                let k = choose|k: int| 0 <= k < f.len() && f[k] == x;
                assert(e[k] == x);
            } else {
                assert(e[f.len() as int].name == plan[i].name);
            }
        }
        assert forall|k: int| 0 <= k < e.len() implies exists|i: int|
            0 <= i < plan.len() && (#[trigger] e[k]).name == plan[i].name && e[k].version
                == plan[i].candidate_version && (#[trigger] changes[i]).previous_version != Some(
                plan[i].candidate_version,
            ) by {
            if k < f.len() {
                assert(e[k] == f[k]);
                let i = choose|i: int|
                    0 <= i < front.len() && f[k].name == front[i].name && f[k].version
                        == front[i].candidate_version && (#[trigger] changes[i]).previous_version
                        != Some(front[i].candidate_version);
                assert(front[i] == plan[i]);
                assert(changes[i].previous_version != Some(plan[i].candidate_version));
            } else {
                assert(changes[n].previous_version != Some(plan[n].candidate_version));
            }
        }
    }
}

/// A run of a plan after some answers, and what is to be done next.
pub open spec fn run_of(plan: Seq<PlannedPackageView>, answers: Seq<PackageAnswerView>) -> (
    PackageRunView,
    PackageAction,
)
    decreases answers.len(),
{
    if answers.len() == 0 {
        (
            PackageRunView {
                plan,
                changes: Seq::empty(),
                step: PackageStep::QueryBefore(0),
                install_error: None,
                failure: None,
            },
            PackageAction::Query(0),
        )
    } else {
        run_step(run_of(plan, answers.drop_last()).0, answers.last())
    }
}

/// What a run of some packages does in turn: it asks for the installed version of each,
/// records them, refreshes the lists, simulates, installs, asks for each version again,
/// records, and succeeds.
pub open spec fn turn(n: int, k: int) -> PackageAction {
    if k < n {
        PackageAction::Query(k as usize)
    } else if k == n {
        PackageAction::Record
    } else if k == n + 1 {
        PackageAction::Update
    } else if k == n + 2 {
        PackageAction::Simulate
    } else if k == n + 3 {
        PackageAction::Install
    } else if k < 2 * n + 4 {
        PackageAction::Query((k - n - 4) as usize)
    } else if k == 2 * n + 4 {
        PackageAction::Record
    } else {
        PackageAction::Succeed
    }
}

/// An answer that a run goes on with: a version where one was asked for, an accepted
/// simulation, and else that it was done. What was installed is the approved version.
pub open spec fn is_smooth(
    plan: Seq<PlannedPackageView>,
    answers: Seq<PackageAnswerView>,
    k: int,
) -> bool {
    let n = plan.len() as int;
    if k < n {
        answers[k] is Version
    } else if k == n + 2 {
        answers[k] matches PackageAnswerView::Output(success, stdout) && simulation_answer(
            plan,
            found_before(plan, answers),
            success,
            stdout,
        ) is Ok
    } else if n + 4 <= k < 2 * n + 4 {
        answers[k] == PackageAnswerView::Version(Some(plan[k - n - 4].candidate_version))
    } else {
        answers[k] is Done
    }
}

/// The changes with the versions that were found before anything was installed.
pub open spec fn found_before(
    plan: Seq<PlannedPackageView>,
    answers: Seq<PackageAnswerView>,
) -> Seq<PackageChangeStatusView> {
    Seq::new(
        plan.len(),
        |i: int|
            PackageChangeStatusView {
                component: component_text(plan[i].component),
                package: plan[i].name,
                previous_version: answers[i]->Version_0,
                requested_version: plan[i].candidate_version,
                applied: false,
            },
    )
}

/// The change of a package once it was asked for again.
pub open spec fn is_change_of(
    c: PackageChangeStatusView,
    p: PlannedPackageView,
    before: PackageAnswerView,
    applied: bool,
) -> bool {
    &&& c.component == component_text(p.component)
    &&& c.package == p.name
    &&& before == PackageAnswerView::Version(c.previous_version)
    &&& c.requested_version == p.candidate_version
    &&& c.applied == applied
}

spec fn step_at(n: int, k: int) -> PackageStep {
    if k < n {
        PackageStep::QueryBefore(k as usize)
    } else if k == n {
        PackageStep::RecordBefore
    } else if k == n + 1 {
        PackageStep::Update
    } else if k == n + 2 {
        PackageStep::Simulate
    } else if k == n + 3 {
        PackageStep::Install
    } else if k < 2 * n + 4 {
        PackageStep::QueryAfter((k - n - 4) as usize)
    } else if k == 2 * n + 4 {
        PackageStep::RecordAfter
    } else {
        PackageStep::Ended
    }
}

spec fn change_at(
    plan: Seq<PlannedPackageView>,
    answers: Seq<PackageAnswerView>,
    c: PackageChangeStatusView,
    i: int,
) -> bool {
    let k = answers.len();
    let n = plan.len() as int;
    is_change_of(
        c,
        plan[i],
        answers[i],
        k > n + 4 + i && answers[n + 4 + i] == PackageAnswerView::Version(
            Some(plan[i].candidate_version),
        ),
    )
}

/// Where a run that has not ended stands.
spec fn goes_by_turns(
    plan: Seq<PlannedPackageView>,
    answers: Seq<PackageAnswerView>,
    s: PackageRunView,
    a: PackageAction,
) -> bool {
    let n = plan.len() as int;
    let k = answers.len() as int;
    &&& k <= 2 * n + 4
    &&& s.plan == plan
    &&& s.step == step_at(n, k)
    &&& a == turn(n, k)
    &&& s.failure is None
    &&& s.changes.len() == (if k < n {
        k
    } else {
        n
    })
    &&& forall|i: int| 0 <= i < s.changes.len() ==> change_at(plan, answers, #[trigger] s.changes[i], i)
    &&& k > n + 2 ==> is_smooth(plan, answers, n + 2)
    &&& k > n + 3 ==> (s.install_error is None <==> answers[n + 3] is Done)
}

proof fn turns_go_on(plan: Seq<PlannedPackageView>, answers: Seq<PackageAnswerView>)
    requires
        1 <= plan.len() <= 16,
        answers.len() > 0,
        ({
            let before = run_of(plan, answers.drop_last());
            goes_by_turns(plan, answers.drop_last(), before.0, before.1)
        }),
    ensures
        ({
            let (s, a) = run_of(plan, answers);
            let (t, b) = run_of(plan, answers.drop_last());
            ||| goes_by_turns(plan, answers, s, a)
            ||| s.step == PackageStep::Ended && (a == PackageAction::Fail || (a
                == PackageAction::Succeed && answers.len() == 2 * plan.len() + 5 && answers.last()
                is Done && t.install_error is None && s.changes == t.changes))
        }),
        is_smooth(plan, answers, answers.len() - 1) && answers.len() < 2 * plan.len() + 5
            ==> run_of(plan, answers).0.step != PackageStep::Ended,
{
    let earlier = answers.drop_last();
    let (t, b) = run_of(plan, earlier);
    let (s, a) = run_of(plan, answers);
    let n = plan.len() as int;
    let k = earlier.len() as int;
    assert(answers.last() == answers[k]);
    assert forall|i: int| 0 <= i < earlier.len() implies #[trigger] answers[i] == earlier[i] by {}
    if k == n + 2 {
        let c = found_before(plan, answers);
        assert forall|i: int| 0 <= i < n implies #[trigger] t.changes[i] == c[i] by {
            assert(change_at(plan, earlier, t.changes[i], i));
            assert(answers[i] == earlier[i]);
        }
        assert(t.changes =~= c);
    }
    if s.step != PackageStep::Ended {
        assert forall|i: int| 0 <= i < s.changes.len() implies change_at(
            plan,
            answers,
            #[trigger] s.changes[i],
            i,
        ) by {
            if i < t.changes.len() {
                assert(change_at(plan, earlier, t.changes[i], i));
                assert(answers[i] == earlier[i]);
            }
        }
        if k > n + 2 {
            assert(is_smooth(plan, earlier, n + 2));
            assert(found_before(plan, answers) =~= found_before(plan, earlier));
        }
    }
}

proof fn runs_go_by_turns(plan: Seq<PlannedPackageView>, answers: Seq<PackageAnswerView>)
    requires
        1 <= plan.len() <= 16,
        run_of(plan, answers).0.step != PackageStep::Ended,
    ensures
        goes_by_turns(plan, answers, run_of(plan, answers).0, run_of(plan, answers).1),
    decreases answers.len(),
{
    if answers.len() > 0 {
        runs_go_by_turns(plan, answers.drop_last());
        turns_go_on(plan, answers);
    }
}

/// A run does one thing after the other, in one order, until it ends: what it does after some
/// answers depends on how many there were, whatever they were.
pub proof fn a_run_takes_its_turns(
    plan: Seq<PlannedPackageView>,
    answers: Seq<PackageAnswerView>,
)
    requires
        1 <= plan.len() <= 16,
    ensures
        run_of(plan, answers).0.step != PackageStep::Ended ==> run_of(plan, answers).1 == turn(
            plan.len() as int,
            answers.len() as int,
        ),
        run_of(plan, answers).1 == PackageAction::Install ==> answers.len() == plan.len() + 3
            && is_smooth(plan, answers, plan.len() as int + 2),
{
    if run_of(plan, answers).0.step != PackageStep::Ended {
        runs_go_by_turns(plan, answers);
    }
}

/// A run that succeeds has taken every turn: the simulation was accepted, the installation was
/// done, and each package was then found in its approved version, which is what was recorded.
pub proof fn success_has_taken_every_turn(
    plan: Seq<PlannedPackageView>,
    answers: Seq<PackageAnswerView>,
)
    requires
        1 <= plan.len() <= 16,
        run_of(plan, answers).1 == PackageAction::Succeed,
    ensures
        answers.len() == 2 * plan.len() + 5,
        is_smooth(plan, answers, plan.len() as int + 2),
        answers[plan.len() as int + 3] is Done,
        answers[2 * plan.len() as int + 4] is Done,
        forall|i: int|
            0 <= i < plan.len() ==> (#[trigger] answers[plan.len() as int + 4 + i])
                == PackageAnswerView::Version(Some(plan[i].candidate_version)),
        run_of(plan, answers).0.changes.len() == plan.len(),
        forall|i: int|
            0 <= i < plan.len() ==> is_change_of(
                #[trigger] run_of(plan, answers).0.changes[i],
                plan[i],
                answers[i],
                true,
            ),
{
    let earlier = answers.drop_last();
    let (t, b) = run_of(plan, earlier);
    let n = plan.len() as int;
    assert(answers.len() > 0);
    assert(t.step != PackageStep::Ended);
    runs_go_by_turns(plan, earlier);
    turns_go_on(plan, answers);
    assert forall|i: int| 0 <= i < earlier.len() implies #[trigger] answers[i] == earlier[i] by {}
    assert(found_before(plan, answers) =~= found_before(plan, earlier));
    first_is_first(t.changes, not_applied());
    assert forall|i: int| 0 <= i < n implies (#[trigger] answers[n + 4 + i])
        == PackageAnswerView::Version(Some(plan[i].candidate_version)) && is_change_of(
        run_of(plan, answers).0.changes[i],
        plan[i],
        answers[i],
        true,
    ) by {
        assert(!not_applied()(t.changes[i]));
        assert(change_at(plan, earlier, t.changes[i], i));
        assert(answers[n + 4 + i] == earlier[n + 4 + i]);
        assert(answers[i] == earlier[i]);
    }
    assert forall|i: int| 0 <= i < n implies is_change_of(
        #[trigger] run_of(plan, answers).0.changes[i],
        plan[i],
        answers[i],
        true,
    ) by {
        assert(answers[n + 4 + i] == earlier[n + 4 + i]);
    }
    assert(answers[n + 3] == earlier[n + 3]);
    assert(answers[n + 2] == earlier[n + 2]);
}

/// A run in which every turn goes well takes them all, and succeeds.
pub proof fn a_smooth_run_succeeds(
    plan: Seq<PlannedPackageView>,
    answers: Seq<PackageAnswerView>,
)
    requires
        1 <= plan.len() <= 16,
        answers.len() <= 2 * plan.len() + 5,
        forall|k: int| 0 <= k < answers.len() ==> #[trigger] is_smooth(plan, answers, k),
    ensures
        run_of(plan, answers).1 == turn(plan.len() as int, answers.len() as int),
        answers.len() < 2 * plan.len() + 5 ==> run_of(plan, answers).0.step != PackageStep::Ended,
    decreases answers.len(),
{
    let n = plan.len() as int;
    if answers.len() > 0 {
        let earlier = answers.drop_last();
        assert forall|k: int| 0 <= k < earlier.len() implies #[trigger] is_smooth(
            plan,
            earlier,
            k,
        ) by {
            assert(is_smooth(plan, answers, k));
            if k == n + 2 {
                assert(found_before(plan, answers) =~= found_before(plan, earlier));
            }
        }
        a_smooth_run_succeeds(plan, earlier);
        runs_go_by_turns(plan, earlier);
        turns_go_on(plan, answers);
        assert(is_smooth(plan, answers, answers.len() - 1));
        let (t, b) = run_of(plan, earlier);
        if answers.len() == 2 * n + 5 {
            assert(is_smooth(plan, answers, n + 3));
            assert(answers[n + 3] == earlier[n + 3]);
            first_is_first(t.changes, not_applied());
            if first(t.changes, not_applied()) is Some {
                let i = first(t.changes, not_applied())->0;
                assert(change_at(plan, earlier, t.changes[i], i));
                assert(is_smooth(plan, answers, n + 4 + i));
                assert(answers[n + 4 + i] == earlier[n + 4 + i]);
            }
        } else {
            runs_go_by_turns(plan, answers);
        }
    }
}

} // verus!
