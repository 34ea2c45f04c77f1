//! The world an environment simulates in, and the table that names it.

use vstd::prelude::*;
use std::sync::Arc;
use crate::error::ConstructionFailure;

verus! {

/// A world: the terrain snapshot it was built from.
///
/// The snapshot type `T` is the caller's. An instance never changes its
/// snapshot, and gives it out for reading only.
pub struct Instance<T> {
    chunks: T,
}

impl<T> View for Instance<T> {
    type V = T;

    closed spec fn view(&self) -> T {
        self.chunks
    }
}

impl<T> Instance<T> {
    /// Wraps `chunks`.
    pub fn new(chunks: T) -> (instance: Instance<T>)
        ensures
            instance@ == chunks,
    {
        Instance { chunks }
    }

    /// The terrain snapshot.
    pub fn chunks(&self) -> (chunks: &T)
        ensures
            *chunks == self@,
    {
        &self.chunks
    }
}

/// An instance is nothing but its snapshot: two instances of the same
/// snapshot are the same world.
pub proof fn lemma_instance_is_its_snapshot<T>(a: Instance<T>, b: Instance<T>)
    requires
        a@ == b@,
    ensures
        a == b,
{
}

/// The part of a world that one client has loaded.
///
/// A simulated agent carries one because every agent does. It has nothing
/// loaded, and nothing in this crate reads it.
#[derive(Clone, Copy, Debug, PartialEq, Eq, Structural)]
pub struct PartialInstance {
    /// How many chunks around its owner it would keep loaded.
    pub chunk_radius: u32,
}

/// The chunk radius of a partial instance that nobody configured.
pub const DEFAULT_CHUNK_RADIUS: u32 = 8;

impl Default for PartialInstance {
    fn default() -> (p: PartialInstance)
        ensures
            p == (PartialInstance { chunk_radius: DEFAULT_CHUNK_RADIUS }),
    {
        PartialInstance { chunk_radius: DEFAULT_CHUNK_RADIUS }
    }
}

/// The handles that bind an agent to its world.
///
/// The holder shares the ownership of the world with the environment. It
/// gives the world out for reading and never gives a handle away, so the
/// world lives exactly as long as the environment around its agent.
pub struct InstanceHolder<T> {
    partial_instance: Arc<PartialInstance>,
    instance: Arc<Instance<T>>,
}

impl<T> InstanceHolder<T> {
    /// The world that the holder points to.
    pub closed spec fn world(&self) -> Instance<T> {
        *self.instance
    }

    /// The partial instance that the holder points to.
    pub closed spec fn partial(&self) -> PartialInstance {
        *self.partial_instance
    }

    /// A holder of `instance` and of a partial instance that nobody
    /// configured.
    pub fn new(instance: Arc<Instance<T>>) -> (holder: InstanceHolder<T>)
        ensures
            holder.world() == *instance,
            holder.partial() == (PartialInstance { chunk_radius: DEFAULT_CHUNK_RADIUS }),
    {
        InstanceHolder { partial_instance: Arc::new(PartialInstance::default()), instance }
    }

    /// The world, for reading.
    pub fn instance(&self) -> (world: &Instance<T>)
        ensures
            *world == self.world(),
    {
        &*self.instance
    }

    /// The partial instance, for reading.
    pub fn partial_instance(&self) -> (partial: &PartialInstance)
        ensures
            *partial == self.partial(),
    {
        &*self.partial_instance
    }
}

/// Another handle to the world behind `instance`.
///
/// Calls `Arc::clone`, which makes a second pointer to the same allocation:
/// the contract says that what the new handle points to is what the old one
/// points to.
#[verifier::external_body]
pub(crate) fn share<T>(instance: &Arc<Instance<T>>) -> (shared: Arc<Instance<T>>)
    ensures
        shared == *instance,
{
    Arc::clone(instance)
}

/// The place of a name in an [`InstanceContainer`]: a reference to a world
/// that does not own it.
#[derive(Clone, Copy, Debug, PartialEq, Eq, Structural, Hash)]
pub struct InstanceKey(pub usize);

/// The name under which every simulation registers its world. No live
/// session uses it.
pub open spec fn simulation_name() -> Seq<char> {
    "azalea:simulation"@
}

/// [`simulation_name`] as a string.
pub fn simulation_name_string() -> (name: String)
    ensures
        name@ == simulation_name(),
{
    "azalea:simulation".to_owned()
}

/// The names of the worlds that an environment knows, in the order in which
/// they were registered. A name is registered at most once, and its key is
/// its place in that order.
pub struct InstanceContainer {
    names: Vec<String>,
}

impl View for InstanceContainer {
    type V = Seq<Seq<char>>;

    closed spec fn view(&self) -> Seq<Seq<char>> {
        Seq::new(self.names@.len(), |i: int| self.names@[i]@)
    }
}

impl InstanceContainer {
    /// Whether no name occurs twice. Every constructor establishes this and
    /// every method keeps it.
    pub open spec fn wf(&self) -> bool {
        self@.no_duplicates()
    }

    /// A container without names.
    pub fn new() -> (container: InstanceContainer)
        ensures
            container@ == Seq::<Seq<char>>::empty(),
            container.wf(),
    {
        let container = InstanceContainer { names: Vec::new() };
        assert(container@ =~= Seq::<Seq<char>>::empty());
        container
    }

    /// Number of registered names.
    pub fn len(&self) -> (n: usize)
        ensures
            n == self@.len(),
    {
        self.names.len()
    }

    /// The key of `name`, if it is registered.
    pub fn get(&self, name: &str) -> (key: Option<InstanceKey>)
        ensures
            match key {
                Some(k) => k.0 < self@.len() && self@[k.0 as int] == name@,
                None => !self@.contains(name@),
            },
    {
        let wanted = name.to_owned();
        let mut i: usize = 0;
        while i < self.names.len()
            invariant
                i <= self.names.len(),
                wanted@ == name@,
                forall|j: int| 0 <= j < i ==> self@[j] != name@,
            decreases self.names.len() - i,
        {
            if self.names[i] == wanted {
                return Some(InstanceKey(i));
            }
            i += 1;
        }
        None
    }

    /// Registers `name` and returns its key.
    ///
    /// Fails, and changes nothing, exactly when the name is already
    /// registered.
    pub fn insert(&mut self, name: &str) -> (r: Result<InstanceKey, ConstructionFailure>)
        requires
            old(self).wf(),
        ensures
            final(self).wf(),
            match r {
                Ok(k) => !old(self)@.contains(name@) && k.0 == old(self)@.len() && final(self)@
                    == old(self)@.push(name@),
                Err(e) => old(self)@.contains(name@) && final(self)@ == old(self)@ && e
                    == ConstructionFailure::NameTaken,
            },
    {
        if self.get(name).is_some() {
            return Err(ConstructionFailure::NameTaken);
        }
        let key = InstanceKey(self.names.len());
        self.names.push(name.to_owned());
        assert(self@ =~= old(self)@.push(name@));
        Ok(key)
    }
}

} // verus!
