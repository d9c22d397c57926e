//! The hand-over to the host framework: what is registered with it for each
//! declared test.

use vstd::prelude::*;
use vstd::string::*;
use crate::descriptor::TestDescriptor;
use crate::name::is_disabled_name;
use crate::registry::Registry;

verus! {

/// What the host framework is to do with a registered test.
#[derive(Clone, Copy, Debug, PartialEq, Eq, Structural)]
pub enum Disposition {
    /// Run it through the adapter.
    Execute,
    /// Show it as present, and never run it.
    Skip,
}

/// One registration with the host framework.
#[derive(Debug, PartialEq, Eq)]
pub struct HostRegistration {
    /// The displayed suite name.
    pub suite_name: String,
    /// The displayed test name, a reserved prefix included.
    pub test_name: String,
    /// The place of the descriptor in the registry.
    pub index: usize,
    pub disposition: Disposition,
}

/// The mathematical value of a `HostRegistration`.
pub struct HostRegistrationModel {
    pub suite_name: Seq<char>,
    pub test_name: Seq<char>,
    pub index: int,
    pub disposition: Disposition,
}

impl View for HostRegistration {
    type V = HostRegistrationModel;

    open spec fn view(&self) -> HostRegistrationModel {
        HostRegistrationModel {
            suite_name: self.suite_name@,
            test_name: self.test_name@,
            index: self.index as int,
            disposition: self.disposition,
        }
    }
}

/// A test is skipped exactly when its name marks it as disabled.
pub open spec fn disposition_of(test_name: Seq<char>) -> Disposition {
    if is_disabled_name(test_name) {
        Disposition::Skip
    } else {
        Disposition::Execute
    }
}

/// The registration of the descriptor shown as `suite_name`.`test_name` that
/// stands at `index`.
pub open spec fn registration_of(
    suite_name: Seq<char>,
    test_name: Seq<char>,
    index: int,
) -> HostRegistrationModel {
    HostRegistrationModel { suite_name, test_name, index, disposition: disposition_of(test_name) }
}

/// The registration of one descriptor.
pub fn registration<B>(descriptor: &TestDescriptor<B>, index: usize) -> (r: HostRegistration)
    ensures
        r@ == registration_of(descriptor@.suite, descriptor@.test, index as int),
{
    let disposition = if descriptor.is_disabled() {
        Disposition::Skip
    } else {
        Disposition::Execute
    };
    HostRegistration {
        suite_name: String::from_str(descriptor.suite_name()),
        test_name: String::from_str(descriptor.test_name()),
        index,
        disposition,
    }
}

/// Freezes the registry and lists what the host framework is to register:
/// one registration for each descriptor, in the order of the registry, under
/// the declared names, to be run unless the test is disabled.
pub fn hand_over<B>(registry: &mut Registry<B>) -> (plan: Vec<HostRegistration>)
    ensures
        final(registry)@ == old(registry)@.freeze(),
        plan.len() == old(registry)@.entries.len(),
        forall|i: int|
            0 <= i < plan.len() ==> (#[trigger] plan[i])@ == registration_of(
                old(registry)@.entries[i]@.suite,
                old(registry)@.entries[i]@.test,
                i,
            ),
{
    registry.freeze();
    let entries = registry.enumerate();
    let mut plan: Vec<HostRegistration> = Vec::new();
    let mut i: usize = 0;
    while i < entries.len()
        invariant
            i <= entries.len(),
            plan.len() == i,
            forall|j: int|
                0 <= j < i ==> (#[trigger] plan[j])@ == registration_of(
                    entries[j]@.suite,
                    entries[j]@.test,
                    j,
                ),
        decreases entries.len() - i,
    {
        plan.push(registration(&entries[i], i));
        i += 1;
    }
    plan
}

} // verus!
