//! A registry of externally visible entities: an arena keyed by generated
//! identifiers, with explicit create/destroy pairs. Destroying an absent
//! handle is a safe no-op.

use vstd::prelude::*;

verus! {

/// An arena of slots; a handle is an index into it. A destroyed or never
/// issued handle is absent.
pub struct Registry<T> {
    slots: Vec<Option<T>>,
}

impl<T> Registry<T> {
    pub closed spec fn view(self) -> Seq<Option<T>> {
        self.slots@
    }

    /// A handle is present when its slot holds a live entity.
    pub open spec fn present(self, id: usize) -> bool {
        id < self.view().len() && self.view()[id as int] is Some
    }

    /// A fresh registry holds nothing.
    pub fn new() -> (r: Registry<T>)
        ensures
            r.view() == Seq::<Option<T>>::empty(),
    {
        Registry { slots: Vec::new() }
    }

    /// Store an entity and hand out its handle.
    pub fn register(&mut self, t: T) -> (id: usize)
        ensures
            final(self).view() == old(self).view().push(Some(t)),
            id == old(self).view().len(),
            final(self).present(id),
    {
        let id = self.slots.len();
        self.slots.push(Some(t));
        id
    }

    /// Borrow the entity behind a handle, if it is present.
    pub fn get(&self, id: usize) -> (r: Option<&T>)
        ensures
            r is Some <==> self.present(id),
            r matches Some(t) ==> self.view()[id as int] == Some(*t),
    {
        if id < self.slots.len() {
            match &self.slots[id] {
                Some(t) => Some(t),
                None => None,
            }
        } else {
            None
        }
    }

    /// Destroy the entity behind a handle. Destroying an absent handle —
    /// never issued, or already destroyed — fails nothing and changes
    /// nothing.
    pub fn destroy(&mut self, id: usize)
        ensures
            final(self).view().len() == old(self).view().len(),
            old(self).present(id) ==> final(self).view() == old(self).view().update(
                id as int,
                None,
            ),
            !old(self).present(id) ==> final(self).view() == old(self).view(),
            !final(self).present(id),
    {
        if id < self.slots.len() {
            let ghost before = self.slots@;
            let slot = &mut self.slots[id];
            *slot = None;
            proof {
                if before[id as int] is None {
                    assert(self.slots@ =~= before);
                }
            }
        }
    }
}

} // verus!
