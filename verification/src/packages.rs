//! Operating-system packages: which may be upgraded, how the package manager is called
//! and what its answers mean.

use vstd::prelude::*;
use vstd::utf8::{decode_utf8, valid_utf8};

use crate::text::{
    alphanumeric, byte_len, byte_length, chars_of, digit, first_index, first_index_is_least,
    first_word, first_word_spec, has_prefix, is_alphanumeric, is_digit, is_whitespace, join2,
    join3, lines, lines_spec, same, split_once, split_once_spec, starts_with, text_of, view_option,
    views,
};
use crate::wording::{beginnings_and_ends, the_first_separator, the_first_word};

verus! {

broadcast use vstd::string::group_string_axioms;

/// What an update can change.
#[derive(Clone, Copy, Debug, PartialEq, Eq, Structural)]
pub enum UpdateComponent {
    VexaVm,
    Qemu,
    Libvirt,
}

/// The name of a component in records.
pub open spec fn component_text(c: UpdateComponent) -> Seq<char> {
    match c {
        UpdateComponent::VexaVm => "vexa_vm"@,
        UpdateComponent::Qemu => "qemu"@,
        UpdateComponent::Libvirt => "libvirt"@,
    }
}

impl UpdateComponent {
    /// The name of the component in records.
    pub fn as_str(&self) -> (r: &'static str)
        ensures
            r@ == component_text(*self),
    {
        match self {
            UpdateComponent::VexaVm => "vexa_vm",
            UpdateComponent::Qemu => "qemu",
            UpdateComponent::Libvirt => "libvirt",
        }
    }
}

/// A package manager that a plan can name.
#[derive(Clone, Copy, Debug, PartialEq, Eq, Structural)]
pub enum PackageManager {
    Apt,
    Other,
}

/// A package and the version that it is to have.
#[derive(Debug, PartialEq, Eq)]
pub struct SystemPackage {
    pub name: String,
    pub candidate_version: String,
}

/// What a [`SystemPackage`] holds, with texts as character sequences.
#[verifier::ext_equal]
pub struct SystemPackageView {
    pub name: Seq<char>,
    pub candidate_version: Seq<char>,
}

impl View for SystemPackage {
    type V = SystemPackageView;

    open spec fn view(&self) -> SystemPackageView {
        SystemPackageView {
            name: self.name@,
            candidate_version: self.candidate_version@,
        }
    }
}

impl Clone for SystemPackage {
    fn clone(&self) -> (r: SystemPackage)
        ensures
            r@ == self@,
    {
        SystemPackage {
            name: self.name.clone(),
            candidate_version: self.candidate_version.clone(),
        }
    }
}

impl SystemPackage {
    /// What a list of them holds.
    pub open spec fn list_view(list: Seq<SystemPackage>) -> Seq<SystemPackageView> {
        list.map_values(|x: SystemPackage| x@)
    }

    /// A copy of a list of them.
    pub fn copy_of_list(list: &Vec<SystemPackage>) -> (r: Vec<SystemPackage>)
        ensures
            SystemPackage::list_view(r@) == SystemPackage::list_view(list@),
    {
        let mut r: Vec<SystemPackage> = Vec::new();
        let mut i: usize = 0;
        while i < list.len()
            invariant
                i <= list@.len(),
                r@.len() == i,
                forall|j: int| 0 <= j < i ==> (#[trigger] r@[j])@ == list@[j]@,
            decreases list@.len() - i,
        {
            r.push(list[i].clone());
            i = i + 1;
        }
        proof {
            assert(SystemPackage::list_view(r@) =~= SystemPackage::list_view(list@));
        }
        r
    }
}

/// The packages of one component that are to be upgraded.
#[derive(Debug, PartialEq, Eq)]
pub struct PackageUpgrade {
    pub component: UpdateComponent,
    pub version: String,
    pub manager: PackageManager,
    pub packages: Vec<SystemPackage>,
}

/// What a [`PackageUpgrade`] holds, with texts as character sequences.
#[verifier::ext_equal]
pub struct PackageUpgradeView {
    pub component: UpdateComponent,
    pub version: Seq<char>,
    pub manager: PackageManager,
    pub packages: Seq<SystemPackageView>,
}

impl View for PackageUpgrade {
    type V = PackageUpgradeView;

    open spec fn view(&self) -> PackageUpgradeView {
        PackageUpgradeView {
            component: self.component,
            version: self.version@,
            manager: self.manager,
            packages: SystemPackage::list_view(self.packages@),
        }
    }
}

impl Clone for PackageUpgrade {
    fn clone(&self) -> (r: PackageUpgrade)
        ensures
            r@ == self@,
    {
        PackageUpgrade {
            component: self.component,
            version: self.version.clone(),
            manager: self.manager,
            packages: SystemPackage::copy_of_list(&self.packages),
        }
    }
}

impl PackageUpgrade {
    /// What a list of them holds.
    pub open spec fn list_view(list: Seq<PackageUpgrade>) -> Seq<PackageUpgradeView> {
        list.map_values(|x: PackageUpgrade| x@)
    }

    /// A copy of a list of them.
    pub fn copy_of_list(list: &Vec<PackageUpgrade>) -> (r: Vec<PackageUpgrade>)
        ensures
            PackageUpgrade::list_view(r@) == PackageUpgrade::list_view(list@),
    {
        let mut r: Vec<PackageUpgrade> = Vec::new();
        let mut i: usize = 0;
        while i < list.len()
            invariant
                i <= list@.len(),
                r@.len() == i,
                forall|j: int| 0 <= j < i ==> (#[trigger] r@[j])@ == list@[j]@,
            decreases list@.len() - i,
        {
            r.push(list[i].clone());
            i = i + 1;
        }
        proof {
            assert(PackageUpgrade::list_view(r@) =~= PackageUpgrade::list_view(list@));
        }
        r
    }
}

/// One package of the whole plan.
#[derive(Debug, PartialEq, Eq)]
pub struct PlannedPackage {
    pub component: UpdateComponent,
    pub name: String,
    pub candidate_version: String,
}

/// What a [`PlannedPackage`] holds, with texts as character sequences.
#[verifier::ext_equal]
pub struct PlannedPackageView {
    pub component: UpdateComponent,
    pub name: Seq<char>,
    pub candidate_version: Seq<char>,
}

impl View for PlannedPackage {
    type V = PlannedPackageView;

    open spec fn view(&self) -> PlannedPackageView {
        PlannedPackageView {
            component: self.component,
            name: self.name@,
            candidate_version: self.candidate_version@,
        }
    }
}

impl Clone for PlannedPackage {
    fn clone(&self) -> (r: PlannedPackage)
        ensures
            r@ == self@,
    {
        PlannedPackage {
            component: self.component,
            name: self.name.clone(),
            candidate_version: self.candidate_version.clone(),
        }
    }
}

impl PlannedPackage {
    /// What a list of them holds.
    pub open spec fn list_view(list: Seq<PlannedPackage>) -> Seq<PlannedPackageView> {
        list.map_values(|x: PlannedPackage| x@)
    }

    /// A copy of a list of them.
    pub fn copy_of_list(list: &Vec<PlannedPackage>) -> (r: Vec<PlannedPackage>)
        ensures
            PlannedPackage::list_view(r@) == PlannedPackage::list_view(list@),
    {
        let mut r: Vec<PlannedPackage> = Vec::new();
        let mut i: usize = 0;
        while i < list.len()
            invariant
                i <= list@.len(),
                r@.len() == i,
                forall|j: int| 0 <= j < i ==> (#[trigger] r@[j])@ == list@[j]@,
            decreases list@.len() - i,
        {
            r.push(list[i].clone());
            i = i + 1;
        }
        proof {
            assert(PlannedPackage::list_view(r@) =~= PlannedPackage::list_view(list@));
        }
        r
    }
}

/// Why a package plan or an answer of the package manager was refused.
#[derive(Clone, Copy, Debug, PartialEq, Eq, Structural)]
pub enum PackageError {
    NotThroughApt,
    ActionSize,
    NotAllowed,
    InvalidVersion,
    Duplicate,
    PlanSize,
    InvalidName,
    OversizedQuery,
    QueryNotUtf8,
    UnexpectedQuery,
    SimulationRejected,
    SimulationOversized,
    SimulationNotUtf8,
    SimulationRemoves,
    SimulationInvalid,
    SimulationNoVersion,
    SimulationChanged,
    SimulationIncomplete,
}

/// The text of each refusal.
pub open spec fn package_error_text(e: PackageError) -> Seq<char> {
    match e {
        PackageError::NotThroughApt => "Vexa-VM cannot be updated through APT"@,
        PackageError::ActionSize => "package action is outside its fixed size limit"@,
        PackageError::NotAllowed =>
            "package action contains an unallowlisted or duplicate package"@,
        PackageError::InvalidVersion => "package action contains an invalid candidate version"@,
        PackageError::Duplicate => "the package plan contains a duplicate package"@,
        PackageError::PlanSize => "the package plan is outside its fixed size limit"@,
        PackageError::InvalidName => "invalid package name at the privileged boundary"@,
        PackageError::OversizedQuery => "dpkg-query returned an oversized response"@,
        PackageError::QueryNotUtf8 => "dpkg-query output is not UTF-8"@,
        PackageError::UnexpectedQuery => "dpkg-query returned an unexpected response"@,
        PackageError::SimulationRejected =>
            "APT rejected the exact approved package plan during simulation"@,
        PackageError::SimulationOversized => "APT simulation returned an oversized response"@,
        PackageError::SimulationNotUtf8 => "APT simulation output is not UTF-8"@,
        PackageError::SimulationRemoves => "APT simulation proposed removing a package"@,
        PackageError::SimulationInvalid => "APT simulation returned an invalid install action"@,
        PackageError::SimulationNoVersion => "APT simulation omitted a candidate version"@,
        PackageError::SimulationChanged =>
            "APT simulation changed the approved package/version plan"@,
        PackageError::SimulationIncomplete =>
            "APT simulation did not preserve the exact approved package/version plan"@,
    }
}

impl PackageError {
    /// The text shown to an operator.
    pub fn message(&self) -> (r: &'static str)
        ensures
            r@ == package_error_text(*self),
    {
        match self {
            PackageError::NotThroughApt => "Vexa-VM cannot be updated through APT",
            PackageError::ActionSize => "package action is outside its fixed size limit",
            PackageError::NotAllowed =>
                "package action contains an unallowlisted or duplicate package",
            PackageError::InvalidVersion => "package action contains an invalid candidate version",
            PackageError::Duplicate => "the package plan contains a duplicate package",
            PackageError::PlanSize => "the package plan is outside its fixed size limit",
            PackageError::InvalidName => "invalid package name at the privileged boundary",
            PackageError::OversizedQuery => "dpkg-query returned an oversized response",
            PackageError::QueryNotUtf8 => "dpkg-query output is not UTF-8",
            PackageError::UnexpectedQuery => "dpkg-query returned an unexpected response",
            PackageError::SimulationRejected =>
                "APT rejected the exact approved package plan during simulation",
            PackageError::SimulationOversized => "APT simulation returned an oversized response",
            PackageError::SimulationNotUtf8 => "APT simulation output is not UTF-8",
            PackageError::SimulationRemoves => "APT simulation proposed removing a package",
            PackageError::SimulationInvalid => "APT simulation returned an invalid install action",
            PackageError::SimulationNoVersion => "APT simulation omitted a candidate version",
            PackageError::SimulationChanged =>
                "APT simulation changed the approved package/version plan",
            PackageError::SimulationIncomplete =>
                "APT simulation did not preserve the exact approved package/version plan",
        }
    }
}

/// The packages that an update of a component may touch.
pub open spec fn allowed_package(component: UpdateComponent, name: Seq<char>) -> bool {
    match component {
        UpdateComponent::Qemu => name == "qemu-kvm"@ || name == "qemu-system-x86"@ || name
            == "qemu-utils"@,
        UpdateComponent::Libvirt => name == "libvirt-clients"@ || name
            == "libvirt-daemon-driver-qemu"@ || name == "libvirt-daemon-system"@,
        UpdateComponent::VexaVm => false,
    }
}

fn is_allowed_package(component: UpdateComponent, name: &str) -> (r: bool)
    ensures
        r == allowed_package(component, name@),
{
    match component {
        UpdateComponent::Qemu => same(name, "qemu-kvm") || same(name, "qemu-system-x86") || same(
            name,
            "qemu-utils",
        ),
        UpdateComponent::Libvirt => same(name, "libvirt-clients") || same(
            name,
            "libvirt-daemon-driver-qemu",
        ) || same(name, "libvirt-daemon-system"),
        UpdateComponent::VexaVm => false,
    }
}

/// A character of a Debian version.
pub open spec fn version_char(c: char) -> bool {
    is_alphanumeric(c) || c == '.' || c == '+' || c == ':' || c == '~' || c == '_' || c == '-'
}

/// A version text that may be handed to the package manager.
pub open spec fn candidate_version_ok(s: Seq<char>) -> bool {
    1 <= s.len() <= 128 && forall|i: int| 0 <= i < s.len() ==> version_char(#[trigger] s[i])
}

fn valid_candidate_version(s: &str) -> (r: bool)
    ensures
        r == candidate_version_ok(s@),
{
    let v = chars_of(s);
    if v.len() == 0 || v.len() > 128 {
        return false;
    }
    let mut i: usize = 0;
    while i < v.len()
        invariant
            i <= v@.len(),
            v@ == s@,
            forall|j: int| 0 <= j < i ==> version_char(#[trigger] v@[j]),
        decreases v@.len() - i,
    {
        let c = v[i];
        if !(alphanumeric(c) || c == '.' || c == '+' || c == ':' || c == '~' || c == '_' || c
            == '-') {
            proof {
                assert(!version_char(v@[i as int]));
            }
            return false;
        }
        i = i + 1;
    }
    true
}

/// Some package of a list has this name.
pub open spec fn names(packages: Seq<SystemPackageView>, name: Seq<char>) -> bool {
    exists|i: int| 0 <= i < packages.len() && (#[trigger] packages[i]).name == name
}

/// What is wrong with the first faulty package of an action.
pub open spec fn package_fault(
    component: UpdateComponent,
    packages: Seq<SystemPackageView>,
) -> Option<PackageError>
    decreases packages.len(),
{
    if packages.len() == 0 {
        None
    } else {
        let front = packages.drop_last();
        let last = packages.last();
        match package_fault(component, front) {
            Some(e) => Some(e),
            None => if !allowed_package(component, last.name) || names(front, last.name) {
                Some(PackageError::NotAllowed)
            } else if !candidate_version_ok(last.candidate_version) {
                Some(PackageError::InvalidVersion)
            } else {
                None
            },
        }
    }
}

/// The verdict on the packages of one component.
pub open spec fn package_action_verdict(
    component: UpdateComponent,
    packages: Seq<SystemPackageView>,
) -> Result<(), PackageError> {
    if component == UpdateComponent::VexaVm {
        Err(PackageError::NotThroughApt)
    } else if packages.len() == 0 || packages.len() > 8 {
        Err(PackageError::ActionSize)
    } else {
        match package_fault(component, packages) {
            Some(e) => Err(e),
            None => Ok(()),
        }
    }
}

proof fn package_fault_stays(
    component: UpdateComponent,
    packages: Seq<SystemPackageView>,
    n: int,
)
    requires
        0 <= n <= packages.len(),
        package_fault(component, packages.take(n)) is Some,
    ensures
        package_fault(component, packages) == package_fault(component, packages.take(n)),
    decreases packages.len(),
{
    if n < packages.len() {
        assert(packages.drop_last().take(n) =~= packages.take(n));
        package_fault_stays(component, packages.drop_last(), n);
    } else {
        assert(packages.take(n) =~= packages);
    }
}

/// In an accepted action every package is allowed for the component and named once.
pub proof fn accepted_packages_are_allowed(
    component: UpdateComponent,
    packages: Seq<SystemPackageView>,
)
    requires
        package_fault(component, packages) is None,
    ensures
        forall|i: int|
            0 <= i < packages.len() ==> allowed_package(component, (#[trigger] packages[i]).name)
                && candidate_version_ok(packages[i].candidate_version),
        forall|i: int, j: int|
            0 <= i < j < packages.len() ==> (#[trigger] packages[i]).name != (
            #[trigger] packages[j]).name,
    decreases packages.len(),
{
    if packages.len() > 0 {
        let front = packages.drop_last();
        accepted_packages_are_allowed(component, front);
        assert forall|i: int| 0 <= i < packages.len() implies allowed_package(
            component,
            (#[trigger] packages[i]).name,
        ) && candidate_version_ok(packages[i].candidate_version) by {
            if i < front.len() {
                assert(front[i] == packages[i]);
            }
        }
        assert forall|i: int, j: int| 0 <= i < j < packages.len() implies (
        #[trigger] packages[i]).name != (#[trigger] packages[j]).name by {
            assert(front[i] == packages[i]);
            if j < front.len() {
                assert(front[j] == packages[j]);
            }
        }
    }
}

/// Whether some of the first `n` packages has this name.
fn named_before(packages: &Vec<SystemPackage>, n: usize, name: &str) -> (r: bool)
    requires
        n <= packages@.len(),
    ensures
        r == names(SystemPackage::list_view(packages@).take(n as int), name@),
{
    let mut i: usize = 0;
    let ghost front = SystemPackage::list_view(packages@).take(n as int);
    while i < n
        invariant
            i <= n <= packages@.len(),
            front == SystemPackage::list_view(packages@).take(n as int),
            forall|j: int| 0 <= j < i ==> (#[trigger] front[j]).name != name@,
        decreases n - i,
    {
        proof {
            assert(front[i as int] == packages@[i as int]@);
        }
        if same(packages[i].name.as_str(), name) {
            proof {
                assert(front[i as int].name == name@);
            }
            return true;
        }
        i = i + 1;
    }
    false
}

/// Checks the packages of one component.
#[verifier::loop_isolation(false)]
pub fn validate_package_action(component: UpdateComponent, packages: &Vec<SystemPackage>) -> (r:
    Result<(), PackageError>)
    ensures
        r == package_action_verdict(component, SystemPackage::list_view(packages@)),
{
    if component == UpdateComponent::VexaVm {
        return Err(PackageError::NotThroughApt);
    }
    if packages.len() == 0 || packages.len() > 8 {
        return Err(PackageError::ActionSize);
    }
    let ghost all = SystemPackage::list_view(packages@);
    let mut i: usize = 0;
    proof {
        assert(all.take(0) =~= Seq::<SystemPackageView>::empty());
    }
    while i < packages.len()
        invariant
            i <= packages@.len(),
            all == SystemPackage::list_view(packages@),
            package_fault(component, all.take(i as int)) is None,
        decreases packages@.len() - i,
    {
        let package = &packages[i];
        proof {
            assert(all.take(i as int + 1).drop_last() =~= all.take(i as int));
            assert(all.take(i as int + 1).last() == package@);
        }
        if !is_allowed_package(component, package.name.as_str()) || named_before(
            packages,
            i,
            package.name.as_str(),
        ) {
            proof {
                package_fault_stays(component, all, i as int + 1);
            }
            return Err(PackageError::NotAllowed);
        }
        if !valid_candidate_version(package.candidate_version.as_str()) {
            proof {
                package_fault_stays(component, all, i as int + 1);
            }
            return Err(PackageError::InvalidVersion);
        }
        i = i + 1;
    }
    proof {
        assert(all.take(all.len() as int) =~= all);
    }
    Ok(())
}

/// Some package of a plan has this name.
pub open spec fn plan_names(plan: Seq<PlannedPackageView>, name: Seq<char>) -> bool {
    exists|i: int| 0 <= i < plan.len() && (#[trigger] plan[i]).name == name
}

/// A plan with the packages of one action behind it, unless one of them is there already.
pub open spec fn extended_plan(
    plan: Seq<PlannedPackageView>,
    component: UpdateComponent,
    packages: Seq<SystemPackageView>,
) -> Option<Seq<PlannedPackageView>>
    decreases packages.len(),
{
    if packages.len() == 0 {
        Some(plan)
    } else {
        match extended_plan(plan, component, packages.drop_last()) {
            None => None,
            Some(front) => if plan_names(front, packages.last().name) {
                None
            } else {
                Some(
                    front.push(
                        PlannedPackageView {
                            component,
                            name: packages.last().name,
                            candidate_version: packages.last().candidate_version,
                        },
                    ),
                )
            },
        }
    }
}

/// The packages of all actions in order, before the size of the plan is checked.
pub open spec fn gathered_plan(actions: Seq<PackageUpgradeView>) -> Result<
    Seq<PlannedPackageView>,
    PackageError,
>
    decreases actions.len(),
{
    if actions.len() == 0 {
        Ok(Seq::empty())
    } else {
        match gathered_plan(actions.drop_last()) {
            Err(e) => Err(e),
            Ok(front) => match package_action_verdict(
                actions.last().component,
                actions.last().packages,
            ) {
                Err(e) => Err(e),
                Ok(_) => match extended_plan(
                    front,
                    actions.last().component,
                    actions.last().packages,
                ) {
                    None => Err(PackageError::Duplicate),
                    Some(plan) => Ok(plan),
                },
            },
        }
    }
}

/// The packages of all actions in order.
pub open spec fn plan_verdict(actions: Seq<PackageUpgradeView>) -> Result<
    Seq<PlannedPackageView>,
    PackageError,
> {
    match gathered_plan(actions) {
        Err(e) => Err(e),
        Ok(plan) => if plan.len() == 0 || plan.len() > 16 {
            Err(PackageError::PlanSize)
        } else {
            Ok(plan)
        },
    }
}

fn planned_already(plan: &Vec<PlannedPackage>, name: &str) -> (r: bool)
    ensures
        r == plan_names(PlannedPackage::list_view(plan@), name@),
{
    let ghost all = PlannedPackage::list_view(plan@);
    let mut i: usize = 0;
    while i < plan.len()
        invariant
            i <= plan@.len(),
            all == PlannedPackage::list_view(plan@),
            forall|j: int| 0 <= j < i ==> (#[trigger] all[j]).name != name@,
        decreases plan@.len() - i,
    {
        proof {
            assert(all[i as int] == plan@[i as int]@);
        }
        if same(plan[i].name.as_str(), name) {
            proof {
                assert(all[i as int].name == name@);
            }
            return true;
        }
        i = i + 1;
    }
    false
}

proof fn extended_plan_stays_refused(
    plan: Seq<PlannedPackageView>,
    component: UpdateComponent,
    packages: Seq<SystemPackageView>,
    n: int,
)
    requires
        0 <= n <= packages.len(),
        extended_plan(plan, component, packages.take(n)) is None,
    ensures
        extended_plan(plan, component, packages) is None,
    decreases packages.len(),
{
    if n < packages.len() {
        assert(packages.drop_last().take(n) =~= packages.take(n));
        extended_plan_stays_refused(plan, component, packages.drop_last(), n);
    } else {
        assert(packages.take(n) =~= packages);
    }
}

#[verifier::loop_isolation(false)]
fn extend_plan(
    plan: Vec<PlannedPackage>,
    component: UpdateComponent,
    packages: &Vec<SystemPackage>,
) -> (r: Option<Vec<PlannedPackage>>)
    ensures
        match r {
            Some(p) => extended_plan(
                PlannedPackage::list_view(plan@),
                component,
                SystemPackage::list_view(packages@),
            ) == Some(PlannedPackage::list_view(p@)),
            None => extended_plan(
                PlannedPackage::list_view(plan@),
                component,
                SystemPackage::list_view(packages@),
            ) is None,
        },
{
    let ghost start = PlannedPackage::list_view(plan@);
    let ghost all = SystemPackage::list_view(packages@);
    let mut p = plan;
    let mut i: usize = 0;
    proof {
        assert(all.take(0) =~= Seq::<SystemPackageView>::empty());
    }
    while i < packages.len()
        invariant
            i <= packages@.len(),
            all == SystemPackage::list_view(packages@),
            extended_plan(start, component, all.take(i as int)) == Some(
                PlannedPackage::list_view(p@),
            ),
        decreases packages@.len() - i,
    {
        let package = &packages[i];
        proof {
            assert(all.take(i as int + 1).drop_last() =~= all.take(i as int));
            assert(all.take(i as int + 1).last() == package@);
        }
        if planned_already(&p, package.name.as_str()) {
            proof {
                extended_plan_stays_refused(start, component, all, i as int + 1);
            }
            return None;
        }
        let ghost before = p@;
        p.push(
            PlannedPackage {
                component,
                name: package.name.clone(),
                candidate_version: package.candidate_version.clone(),
            },
        );
        proof {
            assert(PlannedPackage::list_view(p@) =~= PlannedPackage::list_view(before).push(
                p@.last()@,
            ));
        }
        i = i + 1;
    }
    proof {
        assert(all.take(all.len() as int) =~= all);
    }
    Some(p)
}

proof fn gathered_plan_stays_refused(actions: Seq<PackageUpgradeView>, n: int)
    requires
        0 <= n <= actions.len(),
        gathered_plan(actions.take(n)) is Err,
    ensures
        gathered_plan(actions) == gathered_plan(actions.take(n)),
    decreases actions.len(),
{
    if n < actions.len() {
        assert(actions.drop_last().take(n) =~= actions.take(n));
        gathered_plan_stays_refused(actions.drop_last(), n);
    } else {
        assert(actions.take(n) =~= actions);
    }
}

/// The packages of all actions, each checked and each named once.
pub fn package_plan(actions: &Vec<PackageUpgrade>) -> (r: Result<Vec<PlannedPackage>, PackageError>)
    ensures
        match r {
            Ok(plan) => plan_verdict(PackageUpgrade::list_view(actions@)) == Ok::<
                Seq<PlannedPackageView>,
                PackageError,
            >(PlannedPackage::list_view(plan@)) && 1 <= plan@.len() <= 16,
            Err(e) => plan_verdict(PackageUpgrade::list_view(actions@)) == Err::<
                Seq<PlannedPackageView>,
                PackageError,
            >(e),
        },
{
    let ghost all = PackageUpgrade::list_view(actions@);
    let mut plan: Vec<PlannedPackage> = Vec::new();
    let mut i: usize = 0;
    proof {
        assert(all.take(0) =~= Seq::<PackageUpgradeView>::empty());
        assert(PlannedPackage::list_view(plan@) =~= Seq::empty());
    }
    while i < actions.len()
        invariant
            i <= actions@.len(),
            all == PackageUpgrade::list_view(actions@),
            gathered_plan(all.take(i as int)) == Ok::<Seq<PlannedPackageView>, PackageError>(
                PlannedPackage::list_view(plan@),
            ),
        decreases actions@.len() - i,
    {
        let action = &actions[i];
        proof {
            assert(all.take(i as int + 1).drop_last() =~= all.take(i as int));
            assert(all.take(i as int + 1).last() == action@);
        }
        match validate_package_action(action.component, &action.packages) {
            Err(e) => {
                proof {
                    gathered_plan_stays_refused(all, i as int + 1);
                }
                return Err(e);
            },
            Ok(()) => {},
        }
        match extend_plan(plan, action.component, &action.packages) {
            None => {
                proof {
                    gathered_plan_stays_refused(all, i as int + 1);
                }
                return Err(PackageError::Duplicate);
            },
            Some(p) => {
                plan = p;
            },
        }
        i = i + 1;
    }
    proof {
        assert(all.take(all.len() as int) =~= all);
    }
    if plan.len() == 0 || plan.len() > 16 {
        return Err(PackageError::PlanSize);
    }
    Ok(plan)
}

/// A name that may be handed to the package database.
pub open spec fn package_name_ok(s: Seq<char>) -> bool {
    &&& 1 <= s.len() <= 64
    &&& forall|i: int|
        0 <= i < s.len() ==> 'a' <= #[trigger] s[i] <= 'z' || is_digit(s[i]) || s[i] == '+' || s[i]
            == '.' || s[i] == '-'
}

/// Checks a package name before it is handed to the package database.
pub fn validate_package_name(package: &str) -> (r: Result<(), PackageError>)
    ensures
        r == (if package_name_ok(package@) {
            Ok::<(), PackageError>(())
        } else {
            Err::<(), PackageError>(PackageError::InvalidName)
        }),
{
    let v = chars_of(package);
    if v.len() == 0 || v.len() > 64 {
        return Err(PackageError::InvalidName);
    }
    let mut i: usize = 0;
    while i < v.len()
        invariant
            i <= v@.len(),
            v@ == package@,
            forall|j: int|
                0 <= j < i ==> 'a' <= #[trigger] v@[j] <= 'z' || is_digit(v@[j]) || v@[j] == '+'
                    || v@[j] == '.' || v@[j] == '-',
        decreases v@.len() - i,
    {
        let c = v[i];
        if !(('a' <= c && c <= 'z') || digit(c) || c == '+' || c == '.' || c == '-') {
            proof {
                assert(!('a' <= v@[i as int] <= 'z'));
            }
            return Err(PackageError::InvalidName);
        }
        i = i + 1;
    }
    Ok(())
}

/// `s` without the line feeds at its back.
pub open spec fn without_line_feeds(s: Seq<char>) -> Seq<char>
    decreases s.len(),
{
    if s.len() > 0 && s.last() == '\n' {
        without_line_feeds(s.drop_last())
    } else {
        s
    }
}

fn trim_line_feeds(s: &str) -> (r: String)
    ensures
        r@ == without_line_feeds(s@),
{
    let v = chars_of(s);
    let mut end: usize = v.len();
    proof {
        assert(v@.take(v@.len() as int) =~= v@);
    }
    while end > 0 && v[end - 1] == '\n'
        invariant
            end <= v@.len(),
            without_line_feeds(v@.take(end as int)) == without_line_feeds(v@),
        decreases end,
    {
        proof {
            assert(v@.take(end as int).drop_last() =~= v@.take(end as int - 1));
        }
        end = end - 1;
    }
    proof {
        assert(v@.subrange(0, end as int) =~= v@.take(end as int));
    }
    text_of(&v, 0, end)
}

/// What the package database says of a package: the version that is installed.
pub open spec fn installed_version(success: bool, stdout: Seq<u8>) -> Result<
    Option<Seq<char>>,
    PackageError,
> {
    if !success {
        Ok(None)
    } else if stdout.len() > 4096 {
        Err(PackageError::OversizedQuery)
    } else if !valid_utf8(stdout) {
        Err(PackageError::QueryNotUtf8)
    } else {
        match split_once_spec(without_line_feeds(decode_utf8(stdout)), '\t') {
            None => Err(PackageError::UnexpectedQuery),
            Some((status, version)) => if starts_with(status, "ii"@) && version.len() > 0
                && byte_len(version) <= 128 {
                Ok(Some(version))
            } else {
                Ok(None)
            },
        }
    }
}

/// The version that the package database reports as installed.
pub fn query_installed_version(success: bool, stdout: &[u8]) -> (r: Result<
    Option<String>,
    PackageError,
>)
    ensures
        match r {
            Ok(v) => installed_version(success, stdout@) == Ok::<Option<Seq<char>>, PackageError>(
                view_option(v),
            ),
            Err(e) => installed_version(success, stdout@) == Err::<
                Option<Seq<char>>,
                PackageError,
            >(e),
        },
{
    if !success {
        return Ok(None);
    }
    if stdout.len() > 4096 {
        return Err(PackageError::OversizedQuery);
    }
    let text = match core::str::from_utf8(stdout) {
        Ok(text) => text,
        Err(_) => {
            return Err(PackageError::QueryNotUtf8);
        },
    };
    let line = trim_line_feeds(text);
    match split_once(line.as_str(), '\t') {
        None => Err(PackageError::UnexpectedQuery),
        Some((status, version)) => {
            if !has_prefix(status.as_str(), "ii") || version.as_str().is_empty() || byte_length(
                version.as_str(),
            ) > 128 {
                return Ok(None);
            }
            Ok(Some(version))
        },
    }
}

/// The arguments before the packages.
pub open spec fn install_options() -> Seq<Seq<char>> {
    seq![
        "-y"@,
        "--no-install-recommends"@,
        "--only-upgrade"@,
        "-o"@,
        "Dpkg::Options::=--force-confold"@,
        "install"@,
    ]
}

/// The arguments with which the plan is installed.
pub open spec fn install_arguments_spec(plan: Seq<PlannedPackageView>) -> Seq<Seq<char>> {
    install_options() + plan.map_values(
        |p: PlannedPackageView| p.name + "="@ + p.candidate_version,
    )
}

/// The arguments with which the plan is installed: exactly the approved versions.
pub fn install_arguments(plan: &Vec<PlannedPackage>) -> (r: Vec<String>)
    ensures
        views(r@) == install_arguments_spec(PlannedPackage::list_view(plan@)),
{
    let ghost all = PlannedPackage::list_view(plan@);
    let mut r: Vec<String> = Vec::new();
    r.push("-y".to_owned());
    r.push("--no-install-recommends".to_owned());
    r.push("--only-upgrade".to_owned());
    r.push("-o".to_owned());
    r.push("Dpkg::Options::=--force-confold".to_owned());
    r.push("install".to_owned());
    proof {
        assert(views(r@) =~= install_options());
        assert(install_arguments_spec(all.take(0)) =~= install_options());
    }
    let mut i: usize = 0;
    while i < plan.len()
        invariant
            i <= plan@.len(),
            all == PlannedPackage::list_view(plan@),
            views(r@) == install_arguments_spec(all.take(i as int)),
        decreases plan@.len() - i,
    {
        let argument = join3(plan[i].name.as_str(), "=", plan[i].candidate_version.as_str());
        let ghost before = r@;
        let ghost chars = argument@;
        r.push(argument);
        proof {
            assert(all[i as int] == plan@[i as int]@);
            assert(views(r@) =~= views(before).push(chars));
            assert(install_arguments_spec(all.take(i as int + 1)) =~= install_arguments_spec(
                all.take(i as int),
            ).push(chars));
        }
        i = i + 1;
    }
    proof {
        assert(all.take(all.len() as int) =~= all);
    }
    r
}

/// The arguments with which the plan is simulated.
pub fn simulation_arguments(plan: &Vec<PlannedPackage>) -> (r: Vec<String>)
    ensures
        views(r@) == seq!["--simulate"@, "-o"@, "Debug::NoLocking=true"@]
            + install_arguments_spec(PlannedPackage::list_view(plan@)),
{
    let mut r: Vec<String> = Vec::new();
    r.push("--simulate".to_owned());
    r.push("-o".to_owned());
    r.push("Debug::NoLocking=true".to_owned());
    let mut install = install_arguments(plan);
    let ghost head = views(r@);
    let ghost tail = views(install@);
    let ghost rs = r@;
    let ghost is = install@;
    r.append(&mut install);
    proof {
        assert(head =~= seq!["--simulate"@, "-o"@, "Debug::NoLocking=true"@]);
        assert(r@ == rs + is);
        assert(views(r@) =~= head + tail);
    }
    r
}

/// A package that the simulation must upgrade, and the version.
#[derive(Debug, PartialEq, Eq)]
pub struct ExpectedPackage {
    pub name: String,
    pub version: String,
}

/// What a [`ExpectedPackage`] holds, with texts as character sequences.
#[verifier::ext_equal]
pub struct ExpectedPackageView {
    pub name: Seq<char>,
    pub version: Seq<char>,
}

impl View for ExpectedPackage {
    type V = ExpectedPackageView;

    open spec fn view(&self) -> ExpectedPackageView {
        ExpectedPackageView {
            name: self.name@,
            version: self.version@,
        }
    }
}

impl Clone for ExpectedPackage {
    fn clone(&self) -> (r: ExpectedPackage)
        ensures
            r@ == self@,
    {
        ExpectedPackage {
            name: self.name.clone(),
            version: self.version.clone(),
        }
    }
}

impl ExpectedPackage {
    /// What a list of them holds.
    pub open spec fn list_view(list: Seq<ExpectedPackage>) -> Seq<ExpectedPackageView> {
        list.map_values(|x: ExpectedPackage| x@)
    }

    /// A copy of a list of them.
    pub fn copy_of_list(list: &Vec<ExpectedPackage>) -> (r: Vec<ExpectedPackage>)
        ensures
            ExpectedPackage::list_view(r@) == ExpectedPackage::list_view(list@),
    {
        let mut r: Vec<ExpectedPackage> = Vec::new();
        let mut i: usize = 0;
        while i < list.len()
            invariant
                i <= list@.len(),
                r@.len() == i,
                forall|j: int| 0 <= j < i ==> (#[trigger] r@[j])@ == list@[j]@,
            decreases list@.len() - i,
        {
            r.push(list[i].clone());
            i = i + 1;
        }
        proof {
            assert(ExpectedPackage::list_view(r@) =~= ExpectedPackage::list_view(list@));
        }
        r
    }
}

/// No name stands twice.
pub open spec fn distinct_names(expected: Seq<ExpectedPackageView>) -> bool {
    forall|i: int, j: int|
        0 <= i < j < expected.len() ==> (#[trigger] expected[i]).name != (
        #[trigger] expected[j]).name
}

/// What one line of the simulation means.
pub enum SimulatedLine {
    Ignored,
    Installs { name: Seq<char>, version: Seq<char> },
    Refused(PackageError),
}

/// The name of a package without its architecture.
pub open spec fn bare_name(raw: Seq<char>) -> Seq<char> {
    match split_once_spec(raw, ':') {
        Some((name, _)) => name,
        None => raw,
    }
}

/// What one line of the simulation means.
pub open spec fn simulated_line(line: Seq<char>) -> SimulatedLine {
    if starts_with(line, "Remv "@) {
        SimulatedLine::Refused(PackageError::SimulationRemoves)
    } else if !starts_with(line, "Inst "@) {
        SimulatedLine::Ignored
    } else {
        let change = line.skip(5);
        match first_word_spec(change) {
            None => SimulatedLine::Refused(PackageError::SimulationInvalid),
            Some(raw) => match split_once_spec(change, '(') {
                None => SimulatedLine::Refused(PackageError::SimulationNoVersion),
                Some((_, rest)) => match first_word_spec(rest) {
                    None => SimulatedLine::Refused(PackageError::SimulationNoVersion),
                    Some(version) => SimulatedLine::Installs { name: bare_name(raw), version },
                },
            },
        }
    }
}

/// The version that is expected of a package.
pub open spec fn expected_version(
    expected: Seq<ExpectedPackageView>,
    name: Seq<char>,
) -> Option<Seq<char>>
    decreases expected.len(),
{
    if expected.len() == 0 {
        None
    } else if expected.last().name == name {
        Some(expected.last().version)
    } else {
        expected_version(expected.drop_last(), name)
    }
}

/// Why a simulation was refused; a package that was not approved is named.
#[derive(Clone, Debug, PartialEq, Eq)]
pub enum SimulationError {
    Refused(PackageError),
    NotAllowlisted(String),
}

/// Why a simulation was refused, with the name as a character sequence.
pub enum SimulationErrorView {
    Refused(PackageError),
    NotAllowlisted(Seq<char>),
}

impl View for SimulationError {
    type V = SimulationErrorView;

    open spec fn view(&self) -> SimulationErrorView {
        match *self {
            SimulationError::Refused(e) => SimulationErrorView::Refused(e),
            SimulationError::NotAllowlisted(name) => SimulationErrorView::NotAllowlisted(name@),
        }
    }
}

/// The text of each refusal of a simulation.
pub open spec fn simulation_error_text(e: SimulationErrorView) -> Seq<char> {
    match e {
        SimulationErrorView::Refused(e) => package_error_text(e),
        SimulationErrorView::NotAllowlisted(name) =>
            "APT simulation proposed changing non-allowlisted package "@ + name,
    }
}

impl SimulationError {
    /// The text shown to an operator.
    pub fn message(&self) -> (r: String)
        ensures
            r@ == simulation_error_text(self@),
    {
        match self {
            SimulationError::Refused(e) => e.message().to_owned(),
            SimulationError::NotAllowlisted(name) => join2(
                "APT simulation proposed changing non-allowlisted package ",
                name.as_str(),
            ),
        }
    }
}

/// The verdict on a simulation, with the name as a character sequence.
pub open spec fn simulation_result(r: Result<(), SimulationError>) -> Result<
    (),
    SimulationErrorView,
> {
    match r {
        Ok(_) => Ok(()),
        Err(e) => Err(e@),
    }
}

/// The packages that the lines install, where each is expected and none comes twice.
pub open spec fn observed_names(
    lines: Seq<Seq<char>>,
    expected: Seq<ExpectedPackageView>,
) -> Result<Seq<Seq<char>>, SimulationErrorView>
    decreases lines.len(),
{
    if lines.len() == 0 {
        Ok(Seq::empty())
    } else {
        match observed_names(lines.drop_last(), expected) {
            Err(e) => Err(e),
            Ok(front) => match simulated_line(lines.last()) {
                SimulatedLine::Ignored => Ok(front),
                SimulatedLine::Refused(e) => Err(SimulationErrorView::Refused(e)),
                SimulatedLine::Installs { name, version } => match expected_version(
                    expected,
                    name,
                ) {
                    None => Err(SimulationErrorView::NotAllowlisted(name)),
                    Some(v) => if v != version || front.contains(name) {
                        Err(SimulationErrorView::Refused(PackageError::SimulationChanged))
                    } else {
                        Ok(front.push(name))
                    },
                },
            },
        }
    }
}

/// The verdict on the output of a simulation.
pub open spec fn simulation_verdict(
    output: Seq<char>,
    expected: Seq<ExpectedPackageView>,
) -> Result<(), SimulationErrorView> {
    match observed_names(lines_spec(output), expected) {
        Err(e) => Err(e),
        Ok(observed) => if observed.len() != expected.len() {
            Err(SimulationErrorView::Refused(PackageError::SimulationIncomplete))
        } else {
            Ok(())
        },
    }
}

fn lookup_expected(expected: &Vec<ExpectedPackage>, name: &str) -> (r: Option<usize>)
    ensures
        match r {
            Some(i) => i < expected@.len() && expected_version(
                ExpectedPackage::list_view(expected@),
                name@,
            ) == Some(expected@[i as int].version@),
            None => expected_version(ExpectedPackage::list_view(expected@), name@) is None,
        },
{
    let ghost all = ExpectedPackage::list_view(expected@);
    let mut n: usize = expected.len();
    proof {
        assert(all.take(all.len() as int) =~= all);
    }
    while n > 0
        invariant
            n <= expected@.len(),
            all == ExpectedPackage::list_view(expected@),
            expected_version(all, name@) == expected_version(all.take(n as int), name@),
        decreases n,
    {
        proof {
            assert(all.take(n as int).drop_last() =~= all.take(n as int - 1));
            assert(all.take(n as int).last() == expected@[n as int - 1]@);
        }
        n = n - 1;
        if same(expected[n].name.as_str(), name) {
            return Some(n);
        }
    }
    None
}

proof fn observed_stays_refused(
    lines: Seq<Seq<char>>,
    expected: Seq<ExpectedPackageView>,
    n: int,
)
    requires
        0 <= n <= lines.len(),
        observed_names(lines.take(n), expected) is Err,
    ensures
        observed_names(lines, expected) == observed_names(lines.take(n), expected),
    decreases lines.len(),
{
    if n < lines.len() {
        assert(lines.drop_last().take(n) =~= lines.take(n));
        observed_stays_refused(lines.drop_last(), expected, n);
    } else {
        assert(lines.take(n) =~= lines);
    }
}

/// What one line of the simulation means, as an executable value.
enum LineMeaning {
    Ignored,
    Installs(String, String),
    Refused(PackageError),
}

fn read_line(line: &str) -> (r: LineMeaning)
    ensures
        match r {
            LineMeaning::Ignored => simulated_line(line@) == SimulatedLine::Ignored,
            LineMeaning::Refused(e) => simulated_line(line@) == SimulatedLine::Refused(e),
            LineMeaning::Installs(name, version) => simulated_line(line@)
                == (SimulatedLine::Installs { name: name@, version: version@ }),
        },
{
    if has_prefix(line, "Remv ") {
        return LineMeaning::Refused(PackageError::SimulationRemoves);
    }
    let change = match crate::text::after_prefix(line, "Inst ") {
        None => {
            return LineMeaning::Ignored;
        },
        Some(change) => change,
    };
    proof {
        reveal_strlit("Inst ");
    }
    let raw = match first_word(change) {
        None => {
            return LineMeaning::Refused(PackageError::SimulationInvalid);
        },
        Some(raw) => raw,
    };
    let name = match split_once(raw.as_str(), ':') {
        Some((name, _)) => name,
        None => raw,
    };
    let rest = match split_once(change, '(') {
        None => {
            return LineMeaning::Refused(PackageError::SimulationNoVersion);
        },
        Some((_, rest)) => rest,
    };
    match first_word(rest.as_str()) {
        None => LineMeaning::Refused(PackageError::SimulationNoVersion),
        Some(version) => LineMeaning::Installs(name, version),
    }
}

/// Checks that a simulation installs exactly the expected versions and removes nothing.
#[verifier::loop_isolation(false)]
pub fn validate_apt_simulation_output(output: &str, expected: &Vec<ExpectedPackage>) -> (r: Result<
    (),
    SimulationError,
>)
    requires
        distinct_names(ExpectedPackage::list_view(expected@)),
    ensures
        simulation_result(r) == simulation_verdict(output@, ExpectedPackage::list_view(expected@)),
{
    let all = lines(output);
    let ghost ls = views(all@);
    let ghost exp = ExpectedPackage::list_view(expected@);
    let mut observed: Vec<String> = Vec::new();
    let mut i: usize = 0;
    proof {
        assert(ls.take(0) =~= Seq::<Seq<char>>::empty());
        assert(views(observed@) =~= Seq::<Seq<char>>::empty());
    }
    while i < all.len()
        invariant
            i <= all@.len(),
            ls == views(all@),
            exp == ExpectedPackage::list_view(expected@),
            observed_names(ls.take(i as int), exp) == Ok::<Seq<Seq<char>>, SimulationErrorView>(
                views(observed@),
            ),
        decreases all@.len() - i,
    {
        proof {
            assert(ls.take(i as int + 1).drop_last() =~= ls.take(i as int));
            assert(ls.take(i as int + 1).last() == all@[i as int]@);
        }
        match read_line(all[i].as_str()) {
            LineMeaning::Ignored => {},
            LineMeaning::Refused(e) => {
                proof {
                    observed_stays_refused(ls, exp, i as int + 1);
                }
                return Err(SimulationError::Refused(e));
            },
            LineMeaning::Installs(name, version) => {
                match lookup_expected(expected, name.as_str()) {
                    None => {
                        proof {
                            observed_stays_refused(ls, exp, i as int + 1);
                        }
                        return Err(SimulationError::NotAllowlisted(name));
                    },
                    Some(k) => {
                        proof {
                            crate::extraction::lists_is_contains(observed@, name@);
                        }
                        if !same(version.as_str(), expected[k].version.as_str())
                            || crate::text::list_contains(&observed, name.as_str()) {
                            proof {
                                observed_stays_refused(ls, exp, i as int + 1);
                            }
                            return Err(SimulationError::Refused(PackageError::SimulationChanged));
                        }
                        let ghost before = observed@;
                        let ghost chars = name@;
                        observed.push(name);
                        proof {
                            assert(views(observed@) =~= views(before).push(chars));
                        }
                    },
                }
            },
        }
        i = i + 1;
    }
    proof {
        assert(ls.take(ls.len() as int) =~= ls);
        assert(views(observed@).len() == observed@.len());
        assert(exp.len() == expected@.len());
    }
    if observed.len() != expected.len() {
        return Err(SimulationError::Refused(PackageError::SimulationIncomplete));
    }
    Ok(())
}

proof fn observed_are_expected(lines: Seq<Seq<char>>, expected: Seq<ExpectedPackageView>)
    requires
        observed_names(lines, expected) is Ok,
    ensures
        observed_names(lines, expected)->Ok_0.no_duplicates(),
        forall|i: int|
            0 <= i < observed_names(lines, expected)->Ok_0.len() ==> expected_version(
                expected,
                #[trigger] observed_names(lines, expected)->Ok_0[i],
            ) is Some,
        forall|i: int|
            0 <= i < lines.len() ==> match #[trigger] simulated_line(lines[i]) {
                SimulatedLine::Ignored => true,
                SimulatedLine::Refused(_) => false,
                SimulatedLine::Installs { name, version } => expected_version(expected, name)
                    == Some(version),
            },
    decreases lines.len(),
{
    if lines.len() > 0 {
        let front = lines.drop_last();
        observed_are_expected(front, expected);
        let f = observed_names(front, expected)->Ok_0;
        let o = observed_names(lines, expected)->Ok_0;
        assert forall|i: int| 0 <= i < o.len() implies expected_version(expected, #[trigger] o[i])
            is Some by {
            if i < f.len() {
                assert(o[i] == f[i]);
            }
        }
        assert forall|i: int| 0 <= i < lines.len() implies match #[trigger] simulated_line(
            lines[i],
        ) {
            SimulatedLine::Ignored => true,
            SimulatedLine::Refused(_) => false,
            SimulatedLine::Installs { name, version } => expected_version(expected, name) == Some(
                version,
            ),
        } by {
            if i < front.len() {
                assert(front[i] == lines[i]);
            }
        }
    }
}

proof fn expected_version_names(expected: Seq<ExpectedPackageView>, name: Seq<char>)
    ensures
        expected_version(expected, name) is Some ==> expected.map_values(
            |p: ExpectedPackageView| p.name,
        ).contains(name),
    decreases expected.len(),
{
    let ns = expected.map_values(|p: ExpectedPackageView| p.name);
    if expected.len() > 0 {
        if expected.last().name == name {
            assert(ns[expected.len() - 1] == name);
        } else if expected_version(expected, name) is Some {
            expected_version_names(expected.drop_last(), name);
            let front = expected.drop_last().map_values(|p: ExpectedPackageView| p.name);
            let k = choose|k: int| 0 <= k < front.len() && front[k] == name;
            assert(ns[k] == name);
        }
    }
}

/// An accepted simulation changes the packages of the plan and no others: nothing is
/// removed, whatever is installed is expected in that version, and every expected package
/// is installed.
pub proof fn accepted_simulation_is_the_plan(
    output: Seq<char>,
    expected: Seq<ExpectedPackageView>,
)
    requires
        distinct_names(expected),
        simulation_verdict(output, expected) is Ok,
    ensures
        forall|i: int|
            0 <= i < lines_spec(output).len() ==> match #[trigger] simulated_line(
                lines_spec(output)[i],
            ) {
                SimulatedLine::Ignored => true,
                SimulatedLine::Refused(_) => false,
                SimulatedLine::Installs { name, version } => expected_version(expected, name)
                    == Some(version),
            },
        forall|j: int|
            0 <= j < expected.len() ==> observed_names(lines_spec(output), expected)->Ok_0.contains(
                (#[trigger] expected[j]).name,
            ),
{
    let ls = lines_spec(output);
    observed_are_expected(ls, expected);
    let o = observed_names(ls, expected)->Ok_0;
    let ns = expected.map_values(|p: ExpectedPackageView| p.name);
    assert forall|i: int| 0 <= i < o.len() implies ns.contains(#[trigger] o[i]) by {
        expected_version_names(expected, o[i]);
    }
    assert(ns.no_duplicates()) by {
        assert forall|i: int, j: int| 0 <= i < ns.len() && 0 <= j < ns.len() && i != j implies ns[i]
            != ns[j] by {
            if i < j {
                assert(expected[i].name != expected[j].name);
            } else {
                assert(expected[j].name != expected[i].name);
            }
        }
    }
    assert(o.to_set().subset_of(ns.to_set())) by {
        assert forall|x: Seq<char>| o.to_set().contains(x) implies ns.to_set().contains(x) by {
            let i = choose|i: int| 0 <= i < o.len() && o[i] == x;
            assert(ns.contains(o[i]));
        }
    }
    o.unique_seq_to_set();
    ns.unique_seq_to_set();
    vstd::set_lib::lemma_subset_equality(o.to_set(), ns.to_set());
    assert forall|j: int| 0 <= j < expected.len() implies o.contains(
        (#[trigger] expected[j]).name,
    ) by {
        assert(ns[j] == expected[j].name);
        assert(ns.to_set().contains(ns[j]));
        assert(o.to_set().contains(ns[j]));
    }
}

/// A package that may be updated as part of a component.
pub open spec fn is_listed(component: UpdateComponent, name: Seq<char>) -> bool {
    ||| component == UpdateComponent::Qemu && seq![
        "qemu-kvm"@,
        "qemu-system-x86"@,
        "qemu-utils"@,
    ].contains(name)
    ||| component == UpdateComponent::Libvirt && seq![
        "libvirt-clients"@,
        "libvirt-daemon-driver-qemu"@,
        "libvirt-daemon-system"@,
    ].contains(name)
}

/// Packages can be asked for together: a few, each listed for the component, none twice, and
/// each in a version that can be named.
pub open spec fn is_fit_action(component: UpdateComponent, packages: Seq<SystemPackageView>) -> bool {
    &&& 1 <= packages.len() <= 8
    &&& forall|i: int| 0 <= i < packages.len() ==> is_listed(component, (#[trigger] packages[i]).name)
    &&& forall|i: int, j: int|
        0 <= i < j < packages.len() ==> (#[trigger] packages[i]).name != (
        #[trigger] packages[j]).name
    &&& forall|i: int|
        0 <= i < packages.len() ==> 1 <= (#[trigger] packages[i]).candidate_version.len() <= 128
            && names_a_version(packages[i].candidate_version)
}

/// Only letters, digits and the signs of a version.
pub open spec fn names_a_version(s: Seq<char>) -> bool {
    forall|k: int|
        0 <= k < s.len() ==> {
            let c = #[trigger] s[k];
            'a' <= c <= 'z' || 'A' <= c <= 'Z' || '0' <= c <= '9' || c == '.' || c == '+' || c
                == ':' || c == '~' || c == '_' || c == '-'
        }
}

proof fn listed_is_allowed(component: UpdateComponent, name: Seq<char>)
    ensures
        allowed_package(component, name) <==> is_listed(component, name),
{
    let q = seq!["qemu-kvm"@, "qemu-system-x86"@, "qemu-utils"@];
    let l = seq!["libvirt-clients"@, "libvirt-daemon-driver-qemu"@, "libvirt-daemon-system"@];
    assert(q[0] == "qemu-kvm"@ && q[1] == "qemu-system-x86"@ && q[2] == "qemu-utils"@);
    assert(l[0] == "libvirt-clients"@ && l[1] == "libvirt-daemon-driver-qemu"@ && l[2]
        == "libvirt-daemon-system"@);
}

proof fn fit_packages_have_no_fault(component: UpdateComponent, packages: Seq<SystemPackageView>)
    requires
        forall|i: int|
            0 <= i < packages.len() ==> allowed_package(component, (#[trigger] packages[i]).name)
                && candidate_version_ok(packages[i].candidate_version),
        forall|i: int, j: int|
            0 <= i < j < packages.len() ==> (#[trigger] packages[i]).name != (
            #[trigger] packages[j]).name,
    ensures
        package_fault(component, packages) is None,
    decreases packages.len(),
{
    if packages.len() > 0 {
        let front = packages.drop_last();
        let n = packages.len() - 1;
        assert forall|i: int| 0 <= i < front.len() implies allowed_package(
            component,
            (#[trigger] front[i]).name,
        ) && candidate_version_ok(front[i].candidate_version) by {
            assert(front[i] == packages[i]);
        }
        assert forall|i: int, j: int| 0 <= i < j < front.len() implies (#[trigger] front[i]).name
            != (#[trigger] front[j]).name by {
            assert(front[i] == packages[i] && front[j] == packages[j]);
        }
        fit_packages_have_no_fault(component, front);
        assert(packages[n] == packages.last());
        if names(front, packages.last().name) {
            let i = choose|i: int|
                0 <= i < front.len() && (#[trigger] front[i]).name == packages.last().name;
            assert(packages[i].name != packages[n].name);
        }
    }
}

/// An action is accepted exactly where its packages can be asked for together.
pub proof fn fit_actions_are_accepted(
    component: UpdateComponent,
    packages: Seq<SystemPackageView>,
)
    ensures
        package_action_verdict(component, packages) is Ok <==> is_fit_action(component, packages),
{
    assert forall|name: Seq<char>| #[trigger]
        allowed_package(component, name) <==> is_listed(component, name) by {
        listed_is_allowed(component, name);
    }
    if package_action_verdict(component, packages) is Ok {
        accepted_packages_are_allowed(component, packages);
        assert forall|i: int| 0 <= i < packages.len() implies is_listed(
            component,
            (#[trigger] packages[i]).name,
        ) by {
            assert(allowed_package(component, packages[i].name));
        }
        assert forall|i: int| 0 <= i < packages.len() implies 1 <= (
        #[trigger] packages[i]).candidate_version.len() <= 128 && names_a_version(
            packages[i].candidate_version,
        ) by {
            let v = packages[i].candidate_version;
            assert(candidate_version_ok(v));
            assert forall|k: int| 0 <= k < v.len() implies ({
                let c = #[trigger] v[k];
                'a' <= c <= 'z' || 'A' <= c <= 'Z' || '0' <= c <= '9' || c == '.' || c == '+' || c
                    == ':' || c == '~' || c == '_' || c == '-'
            }) by {
                assert(version_char(v[k]));
            }
        }
    }
    if is_fit_action(component, packages) {
        assert forall|i: int| 0 <= i < packages.len() implies allowed_package(
            component,
            (#[trigger] packages[i]).name,
        ) && candidate_version_ok(packages[i].candidate_version) by {
            assert(is_listed(component, packages[i].name));
            let v = packages[i].candidate_version;
            assert(names_a_version(v));
            assert forall|k: int| 0 <= k < v.len() implies version_char(#[trigger] v[k]) by {}
        }
        fit_packages_have_no_fault(component, packages);
        assert(is_listed(component, packages[0].name));
    }
}

/// The packages of an action, as a plan names them.
pub open spec fn planned(component: UpdateComponent, packages: Seq<SystemPackageView>) -> Seq<
    PlannedPackageView,
> {
    packages.map_values(
        |p: SystemPackageView|
            PlannedPackageView {
                component,
                name: p.name,
                candidate_version: p.candidate_version,
            },
    )
}

proof fn a_plan_grows_by_its_action(
    plan: Seq<PlannedPackageView>,
    component: UpdateComponent,
    packages: Seq<SystemPackageView>,
)
    ensures
        extended_plan(plan, component, packages) is Some ==> extended_plan(
            plan,
            component,
            packages,
        )->0 == plan + planned(component, packages),
    decreases packages.len(),
{
    if packages.len() == 0 {
        assert(plan + planned(component, packages) =~= plan);
    } else {
        let front = packages.drop_last();
        a_plan_grows_by_its_action(plan, component, front);
        let last = PlannedPackageView {
            component,
            name: packages.last().name,
            candidate_version: packages.last().candidate_version,
        };
        assert(planned(component, packages) =~= planned(component, front).push(last));
        assert((plan + planned(component, front)).push(last) =~= plan + planned(component, packages));
    }
}

/// A plan of no action is empty and too small; a plan of some actions is the plan of the
/// first ones followed by the packages of the last, in their order. Each action must be fit.
pub proof fn a_plan_lists_its_actions_in_order(actions: Seq<PackageUpgradeView>)
    ensures
        actions.len() == 0 ==> plan_verdict(actions) is Err,
        plan_verdict(actions) is Ok ==> {
            &&& actions.len() > 0
            &&& gathered_plan(actions.drop_last()) is Ok
            &&& plan_verdict(actions)->Ok_0 == gathered_plan(actions.drop_last())->Ok_0 + planned(
                actions.last().component,
                actions.last().packages,
            )
            &&& is_fit_action(actions.last().component, actions.last().packages)
            &&& 1 <= plan_verdict(actions)->Ok_0.len() <= 16
        },
{
    if actions.len() > 0 {
        fit_actions_are_accepted(actions.last().component, actions.last().packages);
        if gathered_plan(actions.drop_last()) is Ok {
            a_plan_grows_by_its_action(
                gathered_plan(actions.drop_last())->Ok_0,
                actions.last().component,
                actions.last().packages,
            );
        }
    }
}

/// The packages are installed with their approved versions, upgrading only, without asking,
/// without recommended packages, and keeping the configuration as it is.
pub proof fn installation_asks_for_the_plan(plan: Seq<PlannedPackageView>)
    ensures
        install_arguments_spec(plan).len() == plan.len() + 6,
        install_arguments_spec(plan).take(6) == seq![
            "-y"@,
            "--no-install-recommends"@,
            "--only-upgrade"@,
            "-o"@,
            "Dpkg::Options::=--force-confold"@,
            "install"@,
        ],
        forall|i: int|
            0 <= i < plan.len() ==> (#[trigger] install_arguments_spec(plan)[6 + i])
                == plan[i].name + "="@ + plan[i].candidate_version,
{
    assert(install_arguments_spec(plan).take(6) =~= seq![
        "-y"@,
        "--no-install-recommends"@,
        "--only-upgrade"@,
        "-o"@,
        "Dpkg::Options::=--force-confold"@,
        "install"@,
    ]);
}

proof fn line_feeds_are_dropped(s: Seq<char>, k: nat)
    requires
        s.len() > 0 ==> s.last() != '\n',
    ensures
        without_line_feeds(s + Seq::new(k, |i: int| '\n')) == s,
    decreases k,
{
    let t = s + Seq::new(k, |i: int| '\n');
    if k == 0 {
        assert(t =~= s);
    } else {
        assert(t.last() == '\n');
        assert(t.drop_last() =~= s + Seq::new((k - 1) as nat, |i: int| '\n'));
        line_feeds_are_dropped(s, (k - 1) as nat);
    }
}

/// A package is installed in the version that the answer names after a tab, where its status
/// begins with two small letters i; line feeds at the end do not count. In any other status,
/// and where the question failed, it is not installed.
pub proof fn what_is_installed(
    stdout: Seq<u8>,
    status: Seq<char>,
    version: Seq<char>,
    line_feeds: nat,
)
    requires
        stdout.len() <= 4096,
        valid_utf8(stdout),
        decode_utf8(stdout) == status.push('\t') + version + Seq::new(line_feeds, |i: int| '\n'),
        !status.contains('\t'),
        version.len() > 0 ==> version.last() != '\n',
    ensures
        installed_version(false, stdout) == Ok::<Option<Seq<char>>, PackageError>(None),
        installed_version(true, stdout) == Ok::<Option<Seq<char>>, PackageError>(
            if status.len() >= 2 && status[0] == 'i' && status[1] == 'i' && 1 <= version.len()
                && byte_len(version) <= 128 {
                Some(version)
            } else {
                None
            },
        ),
{
    let s = status.push('\t') + version;
    line_feeds_are_dropped(s, line_feeds);
    first_index_is_least(s, '\t');
    let n = status.len() as int;
    assert(s[n] == '\t');
    let i = first_index(s, '\t');
    assert(i <= n);
    if i < n {
        assert(status[i] == s[i]);
        assert(status.contains('\t'));
    }
    assert(s.take(n) =~= status);
    assert(s.skip(n + 1) =~= version);
    reveal_strlit("ii");
    if status.len() >= 2 && status[0] == 'i' && status[1] == 'i' {
        assert(status.take(2) =~= "ii"@);
    } else if starts_with(status, "ii"@) {
        assert(status.take(2)[0] == "ii"@[0] && status.take(2)[1] == "ii"@[1]);
    }
}

/// A line of a simulation that removes a package is refused, and one that neither removes nor
/// installs says nothing. A line that installs names the package first, and the version after
/// the first bracket; what follows a colon in the name is the architecture.
pub proof fn what_a_simulated_line_says(
    line: Seq<char>,
    rest: Seq<char>,
    name: Seq<char>,
    architecture: Seq<char>,
    between: Seq<char>,
    version: Seq<char>,
    tail: Seq<char>,
)
    requires
        name.len() > 0,
        version.len() > 0,
        !name.contains(':') && !name.contains('('),
        !architecture.contains('('),
        !between.contains('('),
        forall|i: int| 0 <= i < name.len() ==> !is_whitespace(#[trigger] name[i]),
        forall|i: int| 0 <= i < architecture.len() ==> !is_whitespace(#[trigger] architecture[i]),
        forall|i: int| 0 <= i < version.len() ==> !is_whitespace(#[trigger] version[i]),
    ensures
        simulated_line("Remv "@ + rest) == SimulatedLine::Refused(PackageError::SimulationRemoves),
        !starts_with(line, "Remv "@) && !starts_with(line, "Inst "@) ==> simulated_line(line)
            == SimulatedLine::Ignored,
        simulated_line(
            "Inst "@ + (name.push(':') + architecture.push(' ') + between.push('(') + version.push(
                ' ',
            ) + tail),
        ) == (SimulatedLine::Installs { name, version }),
{
    beginnings_and_ends("Remv "@, rest, rest);
    let word = name.push(':') + architecture;
    let after = version.push(' ') + tail;
    let change = word + (seq![' '] + between + seq!['('] + after);
    assert(change =~= name.push(':') + architecture.push(' ') + between.push('(') + version.push(
        ' ',
    ) + tail);
    let l = "Inst "@ + change;
    beginnings_and_ends("Inst "@, change, l);
    reveal_strlit("Inst ");
    reveal_strlit("Remv ");
    assert(!starts_with(l, "Remv "@)) by {
        if starts_with(l, "Remv "@) {
            assert(l.take(5)[0] == "Remv "@[0]);
            assert(l[0] == "Inst "@[0]);
        }
    }
    assert(l.skip(5) =~= change);
    assert(change[0] == name[0]);
    assert forall|i: int| 0 <= i < word.len() implies !is_whitespace(#[trigger] word[i]) by {
        if i < name.len() {
            assert(word[i] == name[i]);
        } else if i > name.len() {
            assert(word[i] == architecture[i - name.len() - 1]);
        }
    }
    the_word_in_front(word, seq![' '] + between + seq!['('] + after);
    let head = word + seq![' '] + between;
    assert(change =~= head.push('(') + after);
    assert(!head.contains('(')) by {
        if head.contains('(') {
            let k = choose|k: int| 0 <= k < head.len() && head[k] == '(';
            if k < name.len() {
                assert(name[k] == '(');
            } else if k > name.len() && k < word.len() {
                assert(architecture[k - name.len() - 1] == '(');
            } else if k > word.len() {
                assert(between[k - word.len() - 1] == '(');
            }
        }
    }
    the_first_separator(head, '(', after);
    the_word_in_front(version, seq![' '] + tail);
    assert(after =~= version + (seq![' '] + tail));
    assert(word =~= name.push(':') + architecture);
    the_first_separator(name, ':', architecture);
}

proof fn the_word_in_front(w: Seq<char>, rest: Seq<char>)
    requires
        w.len() > 0,
        forall|i: int| 0 <= i < w.len() ==> !is_whitespace(#[trigger] w[i]),
        rest.len() > 0 && is_whitespace(rest[0]),
    ensures
        first_word_spec(w + rest) == Some(w),
{
    let s = w + rest;
    the_first_word(s);
    assert(s[0] == w[0]);
    let x = first_word_spec(s)->0;
    let (a, b) = choose|a: int, b: int|
        0 <= a < b <= s.len() && x == #[trigger] s.subrange(a, b) && (forall|i: int|
            0 <= i < a ==> is_whitespace(#[trigger] s[i])) && (forall|i: int|
            a <= i < b ==> !is_whitespace(#[trigger] s[i])) && (b < s.len() ==> is_whitespace(s[b]));
    assert(a == 0) by {
        if a > 0 {
            assert(is_whitespace(s[0]));
        }
    }
    let n = w.len() as int;
    assert(s[n] == rest[0]);
    assert(b <= n);
    if b < n {
        assert(s[b] == w[b]);
    }
    assert(s.subrange(0, n) =~= w);
}

/// The version that is expected of a package is that of the package with its name, and none
/// where no package has it.
pub proof fn the_version_of_a_name(expected: Seq<ExpectedPackageView>, name: Seq<char>)
    requires
        distinct_names(expected),
    ensures
        expected_version(expected, name) is None <==> forall|i: int|
            0 <= i < expected.len() ==> (#[trigger] expected[i]).name != name,
        forall|i: int|
            0 <= i < expected.len() && (#[trigger] expected[i]).name == name ==> expected_version(
                expected,
                name,
            ) == Some(expected[i].version),
    decreases expected.len(),
{
    if expected.len() > 0 {
        let front = expected.drop_last();
        let n = expected.len() - 1;
        assert forall|i: int, j: int| 0 <= i < j < front.len() implies (#[trigger] front[i]).name
            != (#[trigger] front[j]).name by {
            assert(front[i] == expected[i] && front[j] == expected[j]);
        }
        the_version_of_a_name(front, name);
        assert(expected[n] == expected.last());
        assert forall|i: int| 0 <= i < front.len() implies #[trigger] front[i] == expected[i] by {}
        if expected_version(expected, name) is None {
            assert forall|i: int| 0 <= i < expected.len() implies (#[trigger] expected[i]).name
                != name by {
                if i < n {
                    assert(front[i] == expected[i]);
                }
            }
        }
        assert forall|i: int|
            0 <= i < expected.len() && (#[trigger] expected[i]).name == name implies
            expected_version(expected, name) == Some(expected[i].version) by {
            if i < n {
                assert(front[i] == expected[i]);
                assert(expected[i].name != expected[n].name);
            }
        }
    }
}

} // verus!
