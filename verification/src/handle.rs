use crate::class::{inherits_in, lemma_inherits_transitive};
use crate::object::{
    fresh_record, is_borrowed, with_guards, with_payload, with_refs, Engine, ObjectRecord,
    UsageError,
};
use std::marker::PhantomData;
use std::rc::Rc;
use vstd::prelude::*;

verus! {

/// A typed handle: the instance id of an object, and the class as which the
/// holder sees it. A handle is not the object; it may outlive it. It stays
/// on the thread that it was made on.
#[derive(Debug)]
pub struct Gd {
    id: u64,
    class: usize,
    marker: PhantomData<Rc<()>>,
}

/// Access to an object's payload, shared or exclusive, until it is handed
/// back to the engine. It stays on the thread that it was made on.
#[derive(Debug)]
pub struct Guard {
    id: u64,
    exclusive: bool,
    marker: PhantomData<Rc<()>>,
}

/// An untyped reference to an engine object, or to none: what crosses the
/// boundary to the engine. It owns no reference, and nothing about it says
/// whether its object lives.
#[derive(Clone, Copy, Debug, PartialEq, Eq, Structural)]
pub struct RawGd {
    /// The instance id referred to; 0 refers to no object.
    pub id: u64,
}

impl RawGd {
    /// The reference to no object.
    pub fn null() -> (raw: RawGd)
        ensures
            raw.id == 0,
    {
        RawGd { id: 0 }
    }

    /// The reference that the engine passed as `address`.
    pub fn from_raw_pointer(address: u64) -> (raw: RawGd)
        ensures
            raw.id == address,
    {
        RawGd { id: address }
    }

    /// What is passed to the engine for this reference.
    pub fn as_raw_pointer(&self) -> (address: u64)
        ensures
            address == self.id,
    {
        self.id
    }

    /// Whether this refers to no object.
    pub fn is_null(&self) -> (null: bool)
        ensures
            null == (self.id == 0),
    {
        self.id == 0
    }
}

impl Gd {
    /// Instance id that the handle refers to.
    pub closed spec fn id(&self) -> u64 {
        self.id
    }

    /// Class as which the handle's holder sees the object.
    pub closed spec fn class(&self) -> usize {
        self.class
    }

    /// The instance id held, whether or not the object still lives.
    pub fn raw_id(&self) -> (id: u64)
        ensures
            id == self.id(),
    {
        self.id
    }

    /// Gives the handle up for the bare reference in it. Whatever
    /// reference to the object the handle held now belongs to the holder of
    /// the bare reference.
    pub fn into_raw(self) -> (raw: RawGd)
        ensures
            raw.id == self.id(),
    {
        RawGd { id: self.id }
    }

    /// The class as which the holder sees the object.
    pub fn static_class(&self) -> (class: usize)
        ensures
            class == self.class(),
    {
        self.class
    }
}

impl Guard {
    /// Instance id of the guarded object.
    pub closed spec fn id(&self) -> u64 {
        self.id
    }

    /// Whether the guard grants exclusive access.
    pub closed spec fn exclusive(&self) -> bool {
        self.exclusive
    }

    /// Whether the guard grants exclusive access.
    pub fn is_exclusive(&self) -> (yes: bool)
        ensures
            yes == self.exclusive(),
    {
        self.exclusive
    }
}

impl<P> Engine<P> {
    /// What `free` answers on the object `id`: it must live, be manually
    /// managed, and have no guard outstanding, and is asked in that order.
    pub open spec fn free_outcome(&self, id: u64) -> Result<(), UsageError> {
        if !self@.contains_key(id) {
            Err(UsageError::Dead)
        } else if self@[id].refs >= 1 {
            Err(UsageError::ReferenceCounted)
        } else if is_borrowed(self@[id]) {
            Err(UsageError::Borrowed)
        } else {
            Ok(())
        }
    }

    /// What taking one more reference to the object `id` answers.
    pub open spec fn retain_outcome(&self, id: u64) -> Result<(), UsageError> {
        if !self@.contains_key(id) {
            Err(UsageError::Dead)
        } else if self@[id].refs == u64::MAX {
            Err(UsageError::Exhausted)
        } else {
            Ok(())
        }
    }

    /// What giving up one reference to the object `id` answers: the last
    /// reference cannot go while a guard on the payload is outstanding.
    pub open spec fn release_outcome(&self, id: u64) -> Result<(), UsageError> {
        if self.counted(id) && self@[id].refs == 1 && is_borrowed(self@[id]) {
            Err(UsageError::Borrowed)
        } else {
            Ok(())
        }
    }

    /// The table of objects after one more reference to `id` was taken.
    pub open spec fn retained(&self, id: u64) -> Map<u64, ObjectRecord<P>> {
        if self.counted(id) {
            self@.insert(id, with_refs(self@[id], self@[id].refs + 1))
        } else {
            self@
        }
    }

    /// The table of objects after one reference to `id` was given up.
    pub open spec fn released(&self, id: u64) -> Map<u64, ObjectRecord<P>> {
        if !self.counted(id) {
            self@
        } else if self@[id].refs == 1 {
            self@.remove(id)
        } else {
            self@.insert(id, with_refs(self@[id], self@[id].refs - 1))
        }
    }

    /// Wraps `payload` in a new object of the registered class `class` and
    /// returns the first handle to it. Fails only when the engine has no
    /// instance id left to give.
    pub fn from_object(&mut self, class: usize, payload: P) -> (handle: Option<Gd>)
        requires
            old(self).wf(),
            class < old(self).classes().len(),
        ensures
            final(self).wf(),
            final(self).classes() == old(self).classes(),
            match handle {
                Some(h) => {
                    &&& old(self).next_id() < u64::MAX
                    &&& h.id() == old(self).next_id()
                    &&& h.class() == class
                    &&& !old(self)@.contains_key(h.id())
                    &&& final(self).next_id() == h.id() + 1
                    &&& final(self)@ == old(self)@.insert(
                        h.id(),
                        fresh_record(old(self).classes(), class, payload),
                    )
                    &&& final(self).is_instance_of(h.id(), class)
                },
                None => {
                    &&& old(self).next_id() == u64::MAX
                    &&& old(self).becomes(final(self), old(self)@)
                },
            },
    {
        if !self.has_free_id() {
            return None;
        }
        let id = self.create(class, payload);
        Some(Gd { id, class, marker: PhantomData })
    }

    /// Whether the object behind the handle still lives. Asked of the
    /// engine each time: a handle remembers nothing about it.
    pub fn is_instance_valid(&self, handle: &Gd) -> (live: bool)
        ensures
            live == self@.contains_key(handle.id()),
    {
        self.is_live(handle.id)
    }

    /// The instance id of the object behind the handle. The object must
    /// live: `is_instance_valid` tells.
    pub fn instance_id(&self, handle: &Gd) -> (id: u64)
        requires
            self@.contains_key(handle.id()),
        ensures
            id == handle.id(),
            self@.contains_key(id),
    {
        handle.id
    }

    /// Tells whether one more reference to the object `id` can be taken,
    /// and why not.
    pub fn retain_check(&self, id: u64) -> (outcome: Result<(), UsageError>)
        ensures
            outcome == self.retain_outcome(id),
    {
        if !self.is_live(id) {
            Err(UsageError::Dead)
        } else if self.ref_count(id) == u64::MAX {
            Err(UsageError::Exhausted)
        } else {
            Ok(())
        }
    }

    /// A second handle to the same object. For a reference-counted object
    /// this takes a reference; the object itself is never copied. The
    /// object must live: `retain_check` tells.
    pub fn clone_handle(&mut self, handle: &Gd) -> (copy: Gd)
        requires
            old(self).wf(),
            old(self).retain_outcome(handle.id()) is Ok,
        ensures
            final(self).wf(),
            copy.id() == handle.id(),
            copy.class() == handle.class(),
            old(self).becomes(final(self), old(self).retained(handle.id())),
    {
        self.retain(handle.id);
        Gd { id: handle.id, class: handle.class, marker: PhantomData }
    }


    /// Tells whether the reference that a holder has to the object `id`
    /// can be given up, and why not.
    pub fn release_check(&self, id: u64) -> (outcome: Result<(), UsageError>)
        ensures
            outcome == self.release_outcome(id),
    {
        if self.is_live(id) && self.ref_count(id) == 1 && (self.has_exclusive_guard(id)
            || self.shared_guards(id) > 0) {
            Err(UsageError::Borrowed)
        } else {
            Ok(())
        }
    }

    /// Gives up the reference that a holder had to the object `id`. Nothing
    /// happens if the object is gone or is manually managed. The last
    /// reference must not be given up while a guard is outstanding:
    /// `release_check` tells.
    pub fn give_up_reference(&mut self, id: u64)
        requires
            old(self).wf(),
            old(self).release_outcome(id) is Ok,
        ensures
            final(self).wf(),
            old(self).becomes(final(self), old(self).released(id)),
    {
        if self.is_live(id) {
            self.release(id);
        }
    }

    /// Lets a handle go. A reference-counted object loses one reference and
    /// is destroyed with the last; a manually managed object is left alone,
    /// and so is one that is gone already. The last handle must not go
    /// while a guard is outstanding: `release_check` tells.
    pub fn drop_handle(&mut self, handle: Gd)
        requires
            old(self).wf(),
            old(self).release_outcome(handle.id()) is Ok,
        ensures
            final(self).wf(),
            old(self).becomes(final(self), old(self).released(handle.id())),
    {
        self.give_up_reference(handle.id)
    }

    /// Tells whether the object behind the handle can be freed, and why
    /// not: it must live, be manually managed, and have no guard
    /// outstanding, and is asked in that order.
    pub fn free_check(&self, handle: &Gd) -> (outcome: Result<(), UsageError>)
        ensures
            outcome == self.free_outcome(handle.id()),
    {
        let id = handle.id;
        if !self.is_live(id) {
            Err(UsageError::Dead)
        } else if self.ref_count(id) >= 1 {
            Err(UsageError::ReferenceCounted)
        } else if self.has_exclusive_guard(id) || self.shared_guards(id) > 0 {
            Err(UsageError::Borrowed)
        } else {
            Ok(())
        }
    }

    /// Destroys a manually managed object through one of its handles.
    ///
    /// The object must live, must not be reference-counted, and no guard on
    /// its payload may be outstanding: `free_check` tells. From then on no
    /// handle to the object is good for anything.
    pub fn free(&mut self, handle: Gd)
        requires
            old(self).wf(),
            old(self).free_outcome(handle.id()) is Ok,
        ensures
            final(self).wf(),
            old(self).becomes(final(self), old(self)@.remove(handle.id())),
            !final(self)@.contains_key(handle.id()),
    {
        self.destroy(handle.id);
    }

    /// What looking up the object `id` as an instance of `class` answers.
    pub open spec fn lookup_outcome(&self, id: u64, class: usize) -> Result<(), UsageError> {
        if !self@.contains_key(id) {
            Err(UsageError::Dead)
        } else if !self.is_instance_of(id, class) {
            Err(UsageError::ClassMismatch)
        } else if self@[id].refs == u64::MAX {
            Err(UsageError::Exhausted)
        } else {
            Ok(())
        }
    }

    /// Asks whether a handle of class `class` can be had to the object with
    /// instance id `id`, without making one.
    pub fn lookup(&self, id: u64, class: usize) -> (outcome: Result<(), UsageError>)
        requires
            self.wf(),
        ensures
            outcome == self.lookup_outcome(id, class),
    {
        if !self.is_live(id) {
            return Err(UsageError::Dead);
        }
        let actual = self.class_of(id);
        if !self.class_table().inherits(actual, class) {
            return Err(UsageError::ClassMismatch);
        }
        if self.ref_count(id) == u64::MAX {
            return Err(UsageError::Exhausted);
        }
        Ok(())
    }

    /// A new handle of class `class` to the live object with instance id
    /// `id`, if there is one and its class is `class` or derives from it.
    pub fn try_from_instance_id(&mut self, id: u64, class: usize) -> (handle: Result<
        Gd,
        UsageError,
    >)
        requires
            old(self).wf(),
        ensures
            final(self).wf(),
            match handle {
                Ok(h) => {
                    &&& old(self).lookup_outcome(id, class) is Ok
                    &&& h.id() == id
                    &&& h.class() == class
                    &&& old(self).becomes(final(self), old(self).retained(id))
                },
                Err(e) => {
                    &&& old(self).lookup_outcome(id, class) == Err::<(), UsageError>(e)
                    &&& old(self).becomes(final(self), old(self)@)
                },
            },
    {
        match self.lookup(id, class) {
            Ok(()) => Ok(self.from_instance_id(id, class)),
            Err(e) => Err(e),
        }
    }

    /// A new handle of class `class` to the live object with instance id
    /// `id`, where the caller knows that there is one and that its class is
    /// `class` or derives from it.
    pub fn from_instance_id(&mut self, id: u64, class: usize) -> (handle: Gd)
        requires
            old(self).wf(),
            old(self).lookup_outcome(id, class) is Ok,
        ensures
            final(self).wf(),
            handle.id() == id,
            handle.class() == class,
            old(self).becomes(final(self), old(self).retained(id)),
    {
        self.retain(id);
        Gd { id, class, marker: PhantomData }
    }

    /// Makes a typed handle of a bare reference, taking over whatever
    /// reference to the object came with it. Nothing is checked: the caller
    /// vouches that the object lives and that its class is `class` or
    /// derives from it.
    pub fn from_raw(&self, raw: RawGd, class: usize) -> (handle: Gd)
        requires
            self.is_instance_of(raw.id, class),
        ensures
            handle.id() == raw.id,
            handle.class() == class,
    {
        Gd { id: raw.id, class, marker: PhantomData }
    }

    /// The same handle seen as the more general class `target`. Nothing is
    /// asked of the engine: that the handle's class derives from `target`
    /// is known beforehand.
    pub fn upcast(&self, handle: Gd, target: usize) -> (up: Gd)
        requires
            inherits_in(self.classes(), handle.class() as int, target as int),
        ensures
            up.id() == handle.id(),
            up.class() == target,
            self.is_instance_of(handle.id(), handle.class()) ==> self.is_instance_of(
                up.id(),
                target,
            ),
    {
        proof {
            if self.is_instance_of(handle.id(), handle.class()) {
                lemma_inherits_transitive(
                    self.classes(),
                    self@[handle.id()].class as int,
                    handle.class() as int,
                    target as int,
                );
            }
        }
        Gd { id: handle.id, class: target, marker: PhantomData }
    }

    /// The same handle seen as the class `target`, where the relation
    /// between the two classes is known beforehand, as for `upcast`.
    pub fn cast(&self, handle: Gd, target: usize) -> (seen: Gd)
        requires
            inherits_in(self.classes(), handle.class() as int, target as int),
        ensures
            seen.id() == handle.id(),
            seen.class() == target,
            self.is_instance_of(handle.id(), handle.class()) ==> self.is_instance_of(
                seen.id(),
                target,
            ),
    {
        self.upcast(handle, target)
    }

    /// The same handle seen as the class `target`, if the object lives and
    /// its actual class is `target` or derives from it. Otherwise the
    /// handle comes back as it was. The engine is not changed either way.
    pub fn try_cast(&self, handle: Gd, target: usize) -> (seen: Result<Gd, Gd>)
        requires
            self.wf(),
        ensures
            match seen {
                Ok(h) => {
                    &&& self.is_instance_of(handle.id(), target)
                    &&& h.id() == handle.id()
                    &&& h.class() == target
                },
                Err(h) => {
                    &&& !self.is_instance_of(handle.id(), target)
                    &&& h == handle
                },
            },
    {
        if !self.is_live(handle.id) {
            return Err(handle);
        }
        let actual = self.class_of(handle.id);
        if self.class_table().inherits(actual, target) {
            Ok(Gd { id: handle.id, class: target, marker: PhantomData })
        } else {
            Err(handle)
        }
    }

    /// Whether two handles refer to the same object. Of a dead object no
    /// identity can be told, so both must live: `is_instance_valid` tells.
    pub fn same_object(&self, a: &Gd, b: &Gd) -> (same: bool)
        requires
            self@.contains_key(a.id()),
            self@.contains_key(b.id()),
        ensures
            same == (a.id() == b.id()),
    {
        a.id == b.id
    }

    /// What asking for a guard on the object `id` answers.
    pub open spec fn bind_outcome(&self, id: u64, exclusive: bool) -> Result<(), UsageError> {
        if !self@.contains_key(id) {
            Err(UsageError::Dead)
        } else if self@[id].exclusive || (exclusive && self@[id].shared > 0) {
            Err(UsageError::Borrowed)
        } else if self@[id].shared == u64::MAX {
            Err(UsageError::Exhausted)
        } else {
            Ok(())
        }
    }

    /// The table of objects after a guard on `id` was granted.
    pub open spec fn bound(&self, id: u64, exclusive: bool) -> Map<u64, ObjectRecord<P>> {
        if exclusive {
            self@.insert(id, with_guards(self@[id], 0, true))
        } else {
            self@.insert(id, with_guards(self@[id], self@[id].shared + 1, false))
        }
    }

    /// Whether `guard` stands for a guard that is outstanding.
    pub open spec fn holds(&self, guard: &Guard) -> bool {
        &&& self@.contains_key(guard.id())
        &&& if guard.exclusive() {
            self@[guard.id()].exclusive
        } else {
            self@[guard.id()].shared > 0
        }
    }

    /// The table of objects after `guard` was handed back.
    pub open spec fn unbound(&self, guard: &Guard) -> Map<u64, ObjectRecord<P>> {
        if !self.holds(guard) {
            self@
        } else if guard.exclusive() {
            self@.insert(guard.id(), with_guards(self@[guard.id()], 0, false))
        } else {
            self@.insert(
                guard.id(),
                with_guards(self@[guard.id()], self@[guard.id()].shared - 1, false),
            )
        }
    }

    /// Tells whether a guard on the payload of the object behind the
    /// handle can be had, shared or exclusive, and why not.
    pub fn bind_check(&self, handle: &Gd, exclusive: bool) -> (outcome: Result<(), UsageError>)
        ensures
            outcome == self.bind_outcome(handle.id(), exclusive),
    {
        let id = handle.id;
        if !self.is_live(id) {
            Err(UsageError::Dead)
        } else if self.has_exclusive_guard(id) || (exclusive && self.shared_guards(id) > 0) {
            Err(UsageError::Borrowed)
        } else if self.shared_guards(id) == u64::MAX {
            Err(UsageError::Exhausted)
        } else {
            Ok(())
        }
    }

    /// Grants shared access to the payload. The object must live and no
    /// exclusive guard may be outstanding: `bind_check` tells.
    pub fn bind(&mut self, handle: &Gd) -> (guard: Guard)
        requires
            old(self).wf(),
            old(self).bind_outcome(handle.id(), false) is Ok,
        ensures
            final(self).wf(),
            guard.id() == handle.id(),
            !guard.exclusive(),
            old(self).becomes(final(self), old(self).bound(handle.id(), false)),
            final(self).holds(&guard),
    {
        let id = handle.id;
        let shared = self.shared_guards(id);
        self.set_guards(id, shared + 1, false);
        Guard { id, exclusive: false, marker: PhantomData }
    }

    /// Grants exclusive access to the payload. The object must live and no
    /// guard at all may be outstanding: `bind_check` tells.
    pub fn bind_mut(&mut self, handle: &Gd) -> (guard: Guard)
        requires
            old(self).wf(),
            old(self).bind_outcome(handle.id(), true) is Ok,
        ensures
            final(self).wf(),
            guard.id() == handle.id(),
            guard.exclusive(),
            old(self).becomes(final(self), old(self).bound(handle.id(), true)),
            final(self).holds(&guard),
    {
        let id = handle.id;
        self.set_guards(id, 0, true);
        Guard { id, exclusive: true, marker: PhantomData }
    }

    /// Hands a guard back. A guard that stands for nothing outstanding
    /// changes nothing.
    pub fn unbind(&mut self, guard: Guard)
        requires
            old(self).wf(),
        ensures
            final(self).wf(),
            old(self).becomes(final(self), old(self).unbound(&guard)),
    {
        let id = guard.id;
        if !self.is_live(id) {
            return ;
        }
        if guard.exclusive {
            if self.has_exclusive_guard(id) {
                self.set_guards(id, 0, false);
            }
        } else {
            let shared = self.shared_guards(id);
            if shared > 0 {
                self.set_guards(id, shared - 1, false);
            }
        }
    }

    /// Reads the payload under a guard that is outstanding.
    pub fn read(&self, guard: &Guard) -> (payload: Option<&P>)
        ensures
            match payload {
                Some(p) => self.holds(guard) && *p == self@[guard.id()].payload,
                None => !self.holds(guard),
            },
    {
        let id = guard.id;
        if !self.is_live(id) {
            return None;
        }
        let held = if guard.exclusive {
            self.has_exclusive_guard(id)
        } else {
            self.shared_guards(id) > 0
        };
        if held {
            self.payload(id)
        } else {
            None
        }
    }

    /// Replaces the payload under an exclusive guard that is outstanding
    /// and returns the payload that was there. Under any other guard the
    /// new payload comes back and nothing changes.
    pub fn write(&mut self, guard: &Guard, payload: P) -> (previous: Result<P, P>)
        requires
            old(self).wf(),
        ensures
            final(self).wf(),
            match previous {
                Ok(p) => {
                    &&& old(self).holds(guard) && guard.exclusive()
                    &&& p == old(self)@[guard.id()].payload
                    &&& old(self).becomes(
                        final(self),
                        old(self)@.insert(
                            guard.id(),
                            with_payload(old(self)@[guard.id()], payload),
                        ),
                    )
                },
                Err(p) => {
                    &&& !(old(self).holds(guard) && guard.exclusive())
                    &&& p == payload
                    &&& old(self).becomes(final(self), old(self)@)
                },
            },
    {
        let id = guard.id;
        if !guard.exclusive || !self.is_live(id) {
            return Err(payload);
        }
        if !self.has_exclusive_guard(id) {
            return Err(payload);
        }
        Ok(self.replace_payload(id, payload))
    }
}

/// A handle and its clone refer to one object: once the clone is made both
/// can be compared, and they compare equal.
pub proof fn lemma_aliases_are_equal<P>(before: Engine<P>, after: Engine<P>, a: Gd, b: Gd)
    requires
        before.retain_outcome(a.id()) is Ok,
        before.becomes(&after, before.retained(a.id())),
        b.id() == a.id(),
    ensures
        after@.contains_key(a.id()),
        after@.contains_key(b.id()),
        a.id() == b.id(),
{
}

/// Once an object was freed through one handle, it lives for no handle:
/// none can be asked for its instance id, compared, cloned or bound, and a
/// second `free` is ruled out as well, whichever handle it is tried on.
pub proof fn lemma_freed_object_is_dead<P>(before: Engine<P>, after: Engine<P>, a: Gd, b: Gd)
    requires
        a.id() == b.id(),
        before.free_outcome(a.id()) is Ok,
        before.becomes(&after, before@.remove(a.id())),
    ensures
        !after@.contains_key(b.id()),
        !after@.contains_key(a.id()),
        after.free_outcome(b.id()) == Err::<(), UsageError>(UsageError::Dead),
        after.free_outcome(a.id()) == Err::<(), UsageError>(UsageError::Dead),
        after.retain_outcome(b.id()) == Err::<(), UsageError>(UsageError::Dead),
        after.bind_outcome(b.id(), true) == Err::<(), UsageError>(UsageError::Dead),
        after.bind_outcome(b.id(), false) == Err::<(), UsageError>(UsageError::Dead),
{
}

/// While a guard on an object's payload is outstanding, `free` is ruled
/// out through every handle to the object: `free_check` answers with an
/// error, and for a manually managed object the error is `Borrowed`.
pub proof fn lemma_free_refused_under_guard<P>(engine: Engine<P>, guard: Guard, handle: Gd)
    requires
        engine.wf(),
        engine.holds(&guard),
        handle.id() == guard.id(),
    ensures
        engine.free_outcome(handle.id()) is Err,
        engine@[handle.id()].refs == 0 ==> engine.free_outcome(handle.id()) == Err::<
            (),
            UsageError,
        >(UsageError::Borrowed),
{
}

/// A live reference-counted object cannot be freed by hand, through
/// whatever class its handle sees it, with or without a guard.
pub proof fn lemma_counted_object_is_not_freed<P>(engine: Engine<P>, handle: Gd)
    requires
        engine.wf(),
        engine@.contains_key(handle.id()),
        engine.classes()[engine@[handle.id()].class as int].counted,
    ensures
        engine.free_outcome(handle.id()) == Err::<(), UsageError>(UsageError::ReferenceCounted),
{
}

/// Once the exclusive guard on a manually managed object was handed back,
/// `free` succeeds through every handle to the object.
pub proof fn lemma_free_succeeds_after_unbind<P>(
    before: Engine<P>,
    after: Engine<P>,
    guard: Guard,
    handle: Gd,
)
    requires
        before.wf(),
        before.holds(&guard),
        guard.exclusive(),
        before@[guard.id()].refs == 0,
        before.becomes(&after, before.unbound(&guard)),
        handle.id() == guard.id(),
    ensures
        after.free_outcome(handle.id()) is Ok,
{
}

/// While an exclusive guard is outstanding no other guard is granted, and
/// while a shared guard is outstanding no exclusive one is.
pub proof fn lemma_guards_exclude<P>(engine: Engine<P>, guard: Guard)
    requires
        engine.wf(),
        engine.holds(&guard),
    ensures
        engine.bind_outcome(guard.id(), true) == Err::<(), UsageError>(UsageError::Borrowed),
        guard.exclusive() ==> engine.bind_outcome(guard.id(), false) == Err::<(), UsageError>(
            UsageError::Borrowed,
        ),
{
}

/// A handle is cast down to a class exactly when the object lives and its
/// actual class derives from that class; so an object whose class is
/// unrelated to the class asked for is never seen as that class.
pub proof fn lemma_unrelated_class_is_refused<P>(engine: Engine<P>, id: u64, target: usize)
    requires
        engine@.contains_key(id),
        !inherits_in(engine.classes(), engine@[id].class as int, target as int),
    ensures
        !engine.is_instance_of(id, target),
        engine.lookup_outcome(id, target) == Err::<(), UsageError>(UsageError::ClassMismatch),
{
}


/// An instance id whose object is gone is not given to the next object
/// that is made.
pub proof fn lemma_ids_are_not_reused<P>(
    before: Engine<P>,
    after: Engine<P>,
    id: u64,
    record: ObjectRecord<P>,
)
    requires
        before.wf(),
        0 < id < before.next_id(),
        !before@.contains_key(id),
        after@ == before@.insert(before.next_id(), record),
    ensures
        !after@.contains_key(id),
{
}

/// No step that a handle, a guard or a dynamic value can take on a live
/// object brings another object back that is gone.
pub proof fn lemma_dead_stays_dead<P>(before: Engine<P>, guard: Guard, on: u64, id: u64)
    requires
        before@.contains_key(on),
        !before@.contains_key(id),
    ensures
        !before.retained(on).contains_key(id),
        !before.released(on).contains_key(id),
        !before.bound(on, true).contains_key(id),
        !before.bound(on, false).contains_key(id),
        !before.unbound(&guard).contains_key(id),
        !before@.remove(on).contains_key(id),
{
}

/// No step that a handle, a guard or a dynamic value can take changes the
/// class of an object that lives on: a typed handle never comes to refer
/// to an object of another class.
pub proof fn lemma_class_is_kept<P>(before: Engine<P>, guard: Guard, on: u64, id: u64, class: usize)
    requires
        before@.contains_key(on),
        before.is_instance_of(id, class),
    ensures
        before.retained(on).contains_key(id) && before.retained(on)[id].class == before@[id].class,
        before.released(on).contains_key(id) ==> before.released(on)[id].class
            == before@[id].class,
        before.bound(on, true)[id].class == before@[id].class,
        before.bound(on, false)[id].class == before@[id].class,
        before.unbound(&guard).contains_key(id) && before.unbound(&guard)[id].class
            == before@[id].class,
{
}

} // verus!
