//! The registry of declared tests: it only grows until it is frozen, and is
//! read-only from then on.

use vstd::prelude::*;
use crate::descriptor::TestDescriptor;

verus! {

/// The mathematical value of a registry: the descriptors in the order in
/// which they were registered, and whether the registry is frozen.
pub struct RegistryState<B> {
    pub entries: Seq<TestDescriptor<B>>,
    pub frozen: bool,
}

impl<B> RegistryState<B> {
    /// The registry at process start.
    pub open spec fn empty() -> Self {
        RegistryState { entries: Seq::empty(), frozen: false }
    }

    /// The registry after one more registration.
    pub open spec fn register(self, descriptor: TestDescriptor<B>) -> Self {
        RegistryState { entries: self.entries.push(descriptor), frozen: self.frozen }
    }

    /// The registry after registering `descriptors` one by one, first to last.
    pub open spec fn register_all(self, descriptors: Seq<TestDescriptor<B>>) -> Self
        decreases descriptors.len(),
    {
        if descriptors.len() == 0 {
            self
        } else {
            self.register_all(descriptors.drop_last()).register(descriptors.last())
        }
    }

    /// The registry, frozen.
    pub open spec fn freeze(self) -> Self {
        RegistryState { entries: self.entries, frozen: true }
    }

    /// Whether the registry accepts `operation`: registering is accepted only
    /// before the freeze, freezing always.
    pub open spec fn permits(self, operation: Operation<B>) -> bool {
        match operation {
            Operation::Register(_) => !self.frozen,
            Operation::Freeze => true,
        }
    }

    /// The registry after `operation`.
    pub open spec fn apply(self, operation: Operation<B>) -> Self {
        match operation {
            Operation::Register(descriptor) => self.register(descriptor),
            Operation::Freeze => self.freeze(),
        }
    }

    /// Whether the registry accepts each of `operations` in its turn.
    pub open spec fn permits_all(self, operations: Seq<Operation<B>>) -> bool
        decreases operations.len(),
    {
        operations.len() > 0 ==> {
            &&& self.permits_all(operations.drop_last())
            &&& self.apply_all(operations.drop_last()).permits(operations.last())
        }
    }

    /// The registry after `operations`, first to last.
    pub open spec fn apply_all(self, operations: Seq<Operation<B>>) -> Self
        decreases operations.len(),
    {
        if operations.len() == 0 {
            self
        } else {
            self.apply_all(operations.drop_last()).apply(operations.last())
        }
    }
}

/// The two things that can be done to a registry.
pub enum Operation<B> {
    Register(TestDescriptor<B>),
    Freeze,
}

/// The collection of the declared tests of one process.
pub struct Registry<B> {
    entries: Vec<TestDescriptor<B>>,
    frozen: bool,
}

impl<B> View for Registry<B> {
    type V = RegistryState<B>;

    closed spec fn view(&self) -> RegistryState<B> {
        RegistryState { entries: self.entries@, frozen: self.frozen }
    }
}

impl<B> Registry<B> {
    /// An empty registry that accepts registrations.
    pub fn new() -> (r: Self)
        ensures
            r@ == RegistryState::<B>::empty(),
    {
        Registry { entries: Vec::new(), frozen: false }
    }

    /// Appends `descriptor`. Nothing else changes: no entry is replaced or
    /// merged, whatever names the descriptors share. The registry must not be
    /// frozen.
    pub fn register(&mut self, descriptor: TestDescriptor<B>)
        requires
            !old(self)@.frozen,
        ensures
            final(self)@ == old(self)@.register(descriptor),
    {
        self.entries.push(descriptor);
    }

    /// Makes the registry read-only. On a frozen registry this changes
    /// nothing.
    pub fn freeze(&mut self)
        ensures
            final(self)@ == old(self)@.freeze(),
    {
        self.frozen = true;
    }

    /// Whether the registry is frozen.
    pub fn is_frozen(&self) -> (r: bool)
        ensures
            r == self@.frozen,
    {
        self.frozen
    }

    /// The number of registered descriptors.
    pub fn len(&self) -> (r: usize)
        ensures
            r == self@.entries.len(),
    {
        self.entries.len()
    }

    /// All registered descriptors, in the order of their registration.
    pub fn enumerate(&self) -> (r: &Vec<TestDescriptor<B>>)
        ensures
            r@ == self@.entries,
    {
        &self.entries
    }

    /// The descriptor registered as the `index`-th, counting from zero.
    pub fn get(&self, index: usize) -> (r: Option<&TestDescriptor<B>>)
        ensures
            r.is_some() <==> index < self@.entries.len(),
            r.is_some() ==> *r.unwrap() == self@.entries[index as int],
    {
        if index < self.entries.len() {
            Some(&self.entries[index])
        } else {
            None
        }
    }
}

/// Registrations are never merged: after registering any descriptors the
/// registry holds what it held before, followed by each of them.
pub proof fn lemma_registrations_accumulate<B>(
    state: RegistryState<B>,
    descriptors: Seq<TestDescriptor<B>>,
)
    ensures
        state.register_all(descriptors).entries == state.entries + descriptors,
        state.register_all(descriptors).entries.len() == state.entries.len() + descriptors.len(),
        state.register_all(descriptors).frozen == state.frozen,
    decreases descriptors.len(),
{
    if descriptors.len() == 0 {
        assert(state.entries + descriptors =~= state.entries);
    } else {
        lemma_registrations_accumulate(state, descriptors.drop_last());
        assert(state.entries + descriptors =~= (state.entries + descriptors.drop_last()).push(
            descriptors.last(),
        ));
    }
}

/// A registry that starts empty holds, after any registrations, exactly the
/// registered descriptors: as many entries as there were declarations.
pub proof fn lemma_every_declaration_is_kept<B>(descriptors: Seq<TestDescriptor<B>>)
    ensures
        RegistryState::<B>::empty().register_all(descriptors).entries == descriptors,
        RegistryState::<B>::empty().register_all(descriptors).entries.len() == descriptors.len(),
{
    lemma_registrations_accumulate(RegistryState::<B>::empty(), descriptors);
    assert(Seq::<TestDescriptor<B>>::empty() + descriptors =~= descriptors);
}

/// A registry only grows, and stays frozen once it is: whatever is done to it,
/// what it held stays where it was.
pub proof fn lemma_entries_only_grow<B>(state: RegistryState<B>, operations: Seq<Operation<B>>)
    requires
        state.permits_all(operations),
    ensures
        state.entries.is_prefix_of(state.apply_all(operations).entries),
        state.frozen ==> state.apply_all(operations).frozen,
    decreases operations.len(),
{
    if operations.len() > 0 {
        lemma_entries_only_grow(state, operations.drop_last());
    }
}

/// A frozen registry is read-only: nothing that it still accepts changes it,
/// so every later enumeration yields the same descriptors in the same order.
pub proof fn lemma_frozen_registry_is_fixed<B>(
    state: RegistryState<B>,
    operations: Seq<Operation<B>>,
)
    requires
        state.frozen,
        state.permits_all(operations),
    ensures
        state.apply_all(operations) == state,
    decreases operations.len(),
{
    if operations.len() > 0 {
        lemma_frozen_registry_is_fixed(state, operations.drop_last());
    }
}

/// Freezing twice is freezing once, and freezing never touches the entries.
pub proof fn lemma_freeze_idempotent<B>(state: RegistryState<B>)
    ensures
        state.freeze().freeze() == state.freeze(),
        state.freeze().entries == state.entries,
        state.frozen ==> state.freeze() == state,
{
}

} // verus!
