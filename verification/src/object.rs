use crate::class::{inherits_in, table_wf, ClassInfo, ClassTable};
use std::collections::HashMap;
use vstd::prelude::*;

verus! {

broadcast use vstd::std_specs::hash::group_hash_axioms;

/// What the engine keeps about one live object.
pub struct ObjectRecord<P> {
    /// The object's actual class.
    pub class: usize,
    /// Reference count; 0 for a manually managed object.
    pub refs: u64,
    /// Number of shared guards on the payload that are outstanding.
    pub shared: u64,
    /// Whether an exclusive guard on the payload is outstanding.
    pub exclusive: bool,
    /// The data that the extension's author put into the object.
    pub payload: P,
}

/// A misuse of a handle. The operation that reports one has changed nothing.
#[derive(Clone, Copy, Debug, PartialEq, Eq, Structural)]
pub enum UsageError {
    /// The object is gone.
    Dead,
    /// A guard on the payload stands in the way.
    Borrowed,
    /// The object is reference-counted and cannot be freed by hand.
    ReferenceCounted,
    /// The object's class does not derive from the class asked for.
    ClassMismatch,
    /// A counter has reached the largest value it can hold.
    Exhausted,
}

/// The engine's table of live objects, keyed by instance id.
pub struct Engine<P> {
    classes: ClassTable,
    objects: HashMap<u64, ObjectRecord<P>>,
    next_id: u64,
}

/// Whether any guard on the record's payload is outstanding.
pub open spec fn is_borrowed<P>(r: ObjectRecord<P>) -> bool {
    r.exclusive || r.shared > 0
}

/// The record with another reference count.
pub open spec fn with_refs<P>(r: ObjectRecord<P>, refs: int) -> ObjectRecord<P> {
    ObjectRecord { refs: refs as u64, ..r }
}

/// The record with other guards outstanding.
pub open spec fn with_guards<P>(r: ObjectRecord<P>, shared: int, exclusive: bool) -> ObjectRecord<
    P,
> {
    ObjectRecord { shared: shared as u64, exclusive, ..r }
}

/// The record with another payload.
pub open spec fn with_payload<P>(r: ObjectRecord<P>, payload: P) -> ObjectRecord<P> {
    ObjectRecord { payload, ..r }
}

/// The record of an object that was just made: one reference if its class
/// counts them, and no guard outstanding.
pub open spec fn fresh_record<P>(classes: Seq<ClassInfo>, class: usize, payload: P) -> ObjectRecord<
    P,
> {
    ObjectRecord {
        class,
        refs: if classes[class as int].counted {
            1u64
        } else {
            0u64
        },
        shared: 0,
        exclusive: false,
        payload,
    }
}

/// What must hold of the record of the live object `id`.
pub open spec fn record_wf<P>(
    classes: Seq<ClassInfo>,
    next_id: u64,
    id: u64,
    r: ObjectRecord<P>,
) -> bool {
    &&& 0 < id < next_id
    &&& r.class < classes.len()
    &&& classes[r.class as int].counted <==> r.refs >= 1
    &&& !(r.exclusive && r.shared > 0)
}

impl<P> Engine<P> {
    /// The live objects by instance id.
    pub closed spec fn view(&self) -> Map<u64, ObjectRecord<P>> {
        self.objects@
    }

    /// The registered classes.
    pub closed spec fn classes(&self) -> Seq<ClassInfo> {
        self.classes@
    }

    /// The id that the next new object gets. Every id ever given out is
    /// smaller.
    pub closed spec fn next_id(&self) -> u64 {
        self.next_id
    }

    /// The engine's invariant.
    pub open spec fn wf(&self) -> bool {
        &&& table_wf(self.classes())
        &&& self.next_id() >= 1
        &&& forall|id: u64| #[trigger]
            self@.contains_key(id) ==> record_wf(self.classes(), self.next_id(), id, self@[id])
    }

    /// The object `id` lives and is reference-counted.
    pub open spec fn counted(&self, id: u64) -> bool {
        self@.contains_key(id) && self@[id].refs >= 1
    }

    /// The object `id` lives and its class is `class` or derives from it.
    pub open spec fn is_instance_of(&self, id: u64, class: usize) -> bool {
        self@.contains_key(id) && inherits_in(self.classes(), self@[id].class as int, class as int)
    }

    /// `next` is the same engine with the table of objects `objects`: same
    /// classes, no id given out.
    pub open spec fn becomes(&self, next: &Self, objects: Map<u64, ObjectRecord<P>>) -> bool {
        &&& next@ == objects
        &&& next.classes() == self.classes()
        &&& next.next_id() == self.next_id()
    }

    /// An engine with the given classes and no objects.
    pub fn new(classes: ClassTable) -> (engine: Self)
        requires
            classes.wf(),
        ensures
            engine.wf(),
            engine@ == Map::<u64, ObjectRecord<P>>::empty(),
            engine.classes() == classes@,
            engine.next_id() == 1,
    {
        Engine { classes, objects: HashMap::new(), next_id: 1 }
    }

    /// The class table that the engine was made with.
    pub fn class_table(&self) -> (table: &ClassTable)
        ensures
            table@ == self.classes(),
    {
        &self.classes
    }

    /// Whether an object with this instance id lives.
    pub fn is_live(&self, id: u64) -> (live: bool)
        ensures
            live == self@.contains_key(id),
    {
        self.objects.contains_key(&id)
    }

    /// Actual class of a live object. The caller vouches that it lives.
    pub fn class_of(&self, id: u64) -> (class: usize)
        requires
            self@.contains_key(id),
        ensures
            class == self@[id].class,
    {
        match self.objects.get(&id) {
            Some(r) => r.class,
            None => 0,
        }
    }

    /// Reference count of a live object; 0 if it is manually managed. The
    /// caller vouches that it lives.
    pub fn ref_count(&self, id: u64) -> (refs: u64)
        requires
            self@.contains_key(id),
        ensures
            refs == self@[id].refs,
    {
        match self.objects.get(&id) {
            Some(r) => r.refs,
            None => 0,
        }
    }

    /// Adds one reference to a live object, if its class counts references;
    /// otherwise does nothing. The caller vouches that it lives.
    pub fn retain(&mut self, id: u64)
        requires
            old(self).wf(),
            old(self)@.contains_key(id),
            old(self)@[id].refs < u64::MAX,
        ensures
            final(self).wf(),
            old(self).becomes(
                final(self),
                if old(self).counted(id) {
                    old(self)@.insert(id, with_refs(old(self)@[id], old(self)@[id].refs + 1))
                } else {
                    old(self)@
                },
            ),
    {
        let refs = self.ref_count(id);
        if refs >= 1 {
            match self.objects.remove(&id) {
                Some(r) => {
                    let updated = ObjectRecord { refs: refs + 1, ..r };
                    self.objects.insert(id, updated);
                    assert(self.objects@ =~= old(self)@.insert(
                        id,
                        with_refs(old(self)@[id], old(self)@[id].refs + 1),
                    ));
                },
                None => {},
            }
        }
    }

    /// Takes one reference from a live reference-counted object and
    /// destroys it when none is left; does nothing to a manually managed
    /// one. Says whether the object was destroyed. The caller vouches that
    /// it lives.
    pub fn release(&mut self, id: u64) -> (destroyed: bool)
        requires
            old(self).wf(),
            old(self)@.contains_key(id),
        ensures
            final(self).wf(),
            destroyed == (old(self)@[id].refs == 1),
            old(self).becomes(
                final(self),
                if old(self)@[id].refs == 0 {
                    old(self)@
                } else if old(self)@[id].refs == 1 {
                    old(self)@.remove(id)
                } else {
                    old(self)@.insert(id, with_refs(old(self)@[id], old(self)@[id].refs - 1))
                },
            ),
    {
        let refs = self.ref_count(id);
        if refs == 0 {
            false
        } else if refs == 1 {
            self.objects.remove(&id);
            true
        } else {
            match self.objects.remove(&id) {
                Some(r) => {
                    let updated = ObjectRecord { refs: refs - 1, ..r };
                    self.objects.insert(id, updated);
                    assert(self.objects@ =~= old(self)@.insert(
                        id,
                        with_refs(old(self)@[id], old(self)@[id].refs - 1),
                    ));
                },
                None => {},
            }
            false
        }
    }

    /// Whether the next object can still be given an id.
    pub fn has_free_id(&self) -> (yes: bool)
        ensures
            yes == (self.next_id() < u64::MAX),
    {
        self.next_id < u64::MAX
    }

    /// Makes a new object of a registered class around `payload` and
    /// returns its instance id, which no object had before. A
    /// reference-counted object starts with one reference.
    pub fn create(&mut self, class: usize, payload: P) -> (id: u64)
        requires
            old(self).wf(),
            class < old(self).classes().len(),
            old(self).next_id() < u64::MAX,
        ensures
            final(self).wf(),
            id == old(self).next_id(),
            !old(self)@.contains_key(id),
            final(self).next_id() == id + 1,
            final(self).classes() == old(self).classes(),
            final(self)@ == old(self)@.insert(id, fresh_record(old(self).classes(), class, payload)),
    {
        let id = self.next_id;
        let refs: u64 = if self.classes.is_counted(class) {
            1
        } else {
            0
        };
        self.objects.insert(id, ObjectRecord { class, refs, shared: 0, exclusive: false, payload });
        self.next_id = id + 1;
        proof {
            assert forall|k: u64| #[trigger] self@.contains_key(k) implies record_wf(
                self.classes(),
                self.next_id(),
                k,
                self@[k],
            ) by {
                if k != id {
                    assert(old(self)@.contains_key(k));
                }
            }
        }
        id
    }

    /// Number of shared guards outstanding on a live object's payload.
    pub fn shared_guards(&self, id: u64) -> (n: u64)
        requires
            self@.contains_key(id),
        ensures
            n == self@[id].shared,
    {
        match self.objects.get(&id) {
            Some(r) => r.shared,
            None => 0,
        }
    }

    /// Whether an exclusive guard is outstanding on a live object's payload.
    pub fn has_exclusive_guard(&self, id: u64) -> (yes: bool)
        requires
            self@.contains_key(id),
        ensures
            yes == self@[id].exclusive,
    {
        match self.objects.get(&id) {
            Some(r) => r.exclusive,
            None => false,
        }
    }

    /// Records which guards are outstanding on a live object's payload.
    /// Shared and exclusive guards never stand together.
    pub fn set_guards(&mut self, id: u64, shared: u64, exclusive: bool)
        requires
            old(self).wf(),
            old(self)@.contains_key(id),
            !(exclusive && shared > 0),
        ensures
            final(self).wf(),
            old(self).becomes(
                final(self),
                old(self)@.insert(id, with_guards(old(self)@[id], shared as int, exclusive)),
            ),
    {
        match self.objects.remove(&id) {
            Some(r) => {
                let updated = ObjectRecord { shared, exclusive, ..r };
                self.objects.insert(id, updated);
                assert(self.objects@ =~= old(self)@.insert(
                    id,
                    with_guards(old(self)@[id], shared as int, exclusive),
                ));
            },
            None => {},
        }
    }

    /// The payload of a live object.
    pub fn payload(&self, id: u64) -> (payload: Option<&P>)
        ensures
            match payload {
                Some(p) => self@.contains_key(id) && *p == self@[id].payload,
                None => !self@.contains_key(id),
            },
    {
        match self.objects.get(&id) {
            Some(r) => Some(&r.payload),
            None => None,
        }
    }

    /// Puts another payload into a live object and returns the one it had.
    pub fn replace_payload(&mut self, id: u64, payload: P) -> (previous: P)
        requires
            old(self).wf(),
            old(self)@.contains_key(id),
        ensures
            final(self).wf(),
            previous == old(self)@[id].payload,
            old(self).becomes(
                final(self),
                old(self)@.insert(id, with_payload(old(self)@[id], payload)),
            ),
    {
        match self.objects.remove(&id) {
            Some(r) => {
                let ObjectRecord { class, refs, shared, exclusive, payload: previous } = r;
                let updated = ObjectRecord { class, refs, shared, exclusive, payload };
                self.objects.insert(id, updated);
                assert(self.objects@ =~= old(self)@.insert(
                    id,
                    with_payload(old(self)@[id], payload),
                ));
                previous
            },
            None => payload,
        }
    }

    /// Destroys a live object. The caller vouches that it lives.
    pub fn destroy(&mut self, id: u64)
        requires
            old(self).wf(),
            old(self)@.contains_key(id),
        ensures
            final(self).wf(),
            old(self).becomes(final(self), old(self)@.remove(id)),
    {
        self.objects.remove(&id);
    }
}

} // verus!
