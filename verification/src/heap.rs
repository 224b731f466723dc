use vstd::prelude::*;

verus! {

/// A run-time value: void, a 32-bit integer, a 32-bit float carried as raw
/// IEEE-754 bits, or an object handle into the heap. Values are copied, never
/// moved out of a frame.
#[derive(Clone, Copy, Debug, PartialEq, Eq, Structural)]
pub enum Value {
    Void,
    Int(i32),
    Float(u32),
    ObjectRef(usize),
}

/// One heap object: a field-carrying instance, a homogeneous array, or an
/// interned string.
#[derive(Debug)]
pub enum Object {
    Instance { class: usize, fields: Vec<Value> },
    Array { elements: Vec<Value> },
    StringObj { value: String },
}

/// The shared store of objects and static values: two growable tables
/// addressed by handles. Handles are indices; a slot, once allocated, is
/// never reclaimed or reused, so the tables only grow. Handle `0` is the
/// reserved null reference, occupied by a placeholder from the start.
#[derive(Debug)]
pub struct ObjectHeap {
    objects: Vec<Object>,
    statics: Vec<Value>,
}

/// A call into the heap issued a fresh object handle: the handle addresses
/// the first slot past the old table, and the table grew by one.
pub open spec fn issues_object_handle(pre: ObjectHeap, post: ObjectHeap, h: usize) -> bool {
    &&& h == pre.spec_objects().len()
    &&& post.spec_objects().len() == pre.spec_objects().len() + 1
}

/// A call into the heap issued a fresh static slot.
pub open spec fn issues_static_slot(pre: ObjectHeap, post: ObjectHeap, s: usize) -> bool {
    &&& s == pre.spec_statics().len()
    &&& post.spec_statics().len() == pre.spec_statics().len() + 1
}

/// Heap monotonicity law: two object handles issued one after the other, with
/// the table only growing in between, are strictly increasing — no handle is
/// ever reused within a process lifetime.
pub proof fn lemma_object_handles_increase(
    pre1: ObjectHeap,
    post1: ObjectHeap,
    h1: usize,
    pre2: ObjectHeap,
    post2: ObjectHeap,
    h2: usize,
)
    requires
        issues_object_handle(pre1, post1, h1),
        issues_object_handle(pre2, post2, h2),
        post1.spec_objects().len() <= pre2.spec_objects().len(),
    ensures
        h2 > h1,
{
}

/// Static-slot monotonicity law: static slots issued one after the other,
/// with the table only growing in between, are strictly increasing.
pub proof fn lemma_static_slots_increase(
    pre1: ObjectHeap,
    post1: ObjectHeap,
    s1: usize,
    pre2: ObjectHeap,
    post2: ObjectHeap,
    s2: usize,
)
    requires
        issues_static_slot(pre1, post1, s1),
        issues_static_slot(pre2, post2, s2),
        post1.spec_statics().len() <= pre2.spec_statics().len(),
    ensures
        s2 > s1,
{
}

impl ObjectHeap {
    pub closed spec fn spec_objects(&self) -> Seq<Object> {
        self.objects@
    }

    pub closed spec fn spec_statics(&self) -> Seq<Value> {
        self.statics@
    }

    /// A fresh heap: one placeholder object occupies handle `0`, the reserved
    /// null reference; no static slot is allocated yet.
    pub fn new() -> (r: ObjectHeap)
        ensures
            r.spec_objects().len() == 1,
            r.spec_statics().len() == 0,
    {
        let mut objects: Vec<Object> = Vec::new();
        objects.push(Object::Instance { class: 0, fields: Vec::new() });
        ObjectHeap { objects, statics: Vec::new() }
    }

    /// The number of objects held; every handle below it is valid.
    pub fn object_count(&self) -> (r: usize)
        ensures
            r == self.spec_objects().len(),
    {
        self.objects.len()
    }

    /// The number of static slots allocated.
    pub fn static_count(&self) -> (r: usize)
        ensures
            r == self.spec_statics().len(),
    {
        self.statics.len()
    }

    /// Allocates a fresh instance of `class` with `field_count` void-filled
    /// field slots and returns its handle.
    pub fn new_obj(&mut self, class: usize, field_count: usize) -> (h: usize)
        ensures
            issues_object_handle(*old(self), *final(self), h),
            final(self).spec_statics() == old(self).spec_statics(),
            (forall|i: int|
                0 <= i < old(self).spec_objects().len() ==> final(self).spec_objects()[i] == old(self).spec_objects()[i]),
            match final(self).spec_objects().last() {
                Object::Instance { class: c, fields } => c == class && fields@.len() == field_count
                    && (forall|i: int| 0 <= i < fields@.len() ==> fields@[i] == Value::Void),
                _ => false,
            },
    {
        let mut fields: Vec<Value> = Vec::new();
        while fields.len() < field_count
            invariant
                fields@.len() <= field_count,
                forall|i: int| 0 <= i < fields@.len() ==> fields@[i] == Value::Void,
            decreases field_count - fields@.len(),
        {
            fields.push(Value::Void);
        }
        let h = self.objects.len();
        self.objects.push(Object::Instance { class, fields });
        h
    }

    /// Allocates a fresh array pre-filled with `length` copies of `default`
    /// and returns its handle.
    pub fn new_array(&mut self, default: Value, length: usize) -> (h: usize)
        ensures
            issues_object_handle(*old(self), *final(self), h),
            final(self).spec_statics() == old(self).spec_statics(),
            (forall|i: int|
                0 <= i < old(self).spec_objects().len() ==> final(self).spec_objects()[i] == old(self).spec_objects()[i]),
            match final(self).spec_objects().last() {
                Object::Array { elements } => elements@.len() == length && (forall|i: int|
                    0 <= i < elements@.len() ==> elements@[i] == default),
                _ => false,
            },
    {
        let mut elements: Vec<Value> = Vec::new();
        while elements.len() < length
            invariant
                elements@.len() <= length,
                forall|i: int| 0 <= i < elements@.len() ==> elements@[i] == default,
            decreases length - elements@.len(),
        {
            elements.push(default);
        }
        let h = self.objects.len();
        self.objects.push(Object::Array { elements });
        h
    }

    /// Interns a string as a fresh heap object and returns its handle.
    pub fn new_string(&mut self, value: String) -> (h: usize)
        ensures
            issues_object_handle(*old(self), *final(self), h),
            final(self).spec_statics() == old(self).spec_statics(),
            (forall|i: int|
                0 <= i < old(self).spec_objects().len() ==> final(self).spec_objects()[i] == old(self).spec_objects()[i]),
            match final(self).spec_objects().last() {
                Object::StringObj { value: v } => v@ == value@,
                _ => false,
            },
    {
        let h = self.objects.len();
        self.objects.push(Object::StringObj { value });
        h
    }

    /// The class handle of the instance at `handle`; absent when the object
    /// is not a field-carrying instance. The null handle is left out: callers
    /// check for null before dereferencing.
    pub fn get_class_of(&self, handle: usize) -> (r: Option<usize>)
        requires
            0 < handle < self.spec_objects().len(),
        ensures
            match self.spec_objects()[handle as int] {
                Object::Instance { class, fields } => r == Some(class),
                _ => r is None,
            },
    {
        match &self.objects[handle] {
            Object::Instance { class, fields: _ } => Some(*class),
            _ => None,
        }
    }

    /// Reads field `index` of the instance at `handle`; absent when the
    /// object is no instance or the index is out of its layout.
    pub fn get_field(&self, handle: usize, index: usize) -> (r: Option<Value>)
        requires
            0 < handle < self.spec_objects().len(),
        ensures
            match self.spec_objects()[handle as int] {
                Object::Instance { class, fields } => r == (if index < fields@.len() {
                    Some(fields@[index as int])
                } else {
                    None::<Value>
                }),
                _ => r is None,
            },
    {
        match &self.objects[handle] {
            Object::Instance { class: _, fields } => {
                if index < fields.len() {
                    Some(fields[index])
                } else {
                    None
                }
            },
            _ => None,
        }
    }

    /// Writes field `index` of the instance at `handle`; reports whether the
    /// write landed. The tables never shrink and no other slot changes.
    pub fn set_field(&mut self, handle: usize, index: usize, value: Value) -> (ok: bool)
        requires
            0 < handle < old(self).spec_objects().len(),
        ensures
            final(self).spec_objects().len() == old(self).spec_objects().len(),
            final(self).spec_statics() == old(self).spec_statics(),
            (forall|i: int|
                0 <= i < old(self).spec_objects().len() && i != handle ==> final(self).spec_objects()[i] == old(self).spec_objects()[i]),
            ok == match old(self).spec_objects()[handle as int] {
                Object::Instance { class, fields } => index < fields@.len(),
                _ => false,
            },
            ok ==> match (
                old(self).spec_objects()[handle as int],
                final(self).spec_objects()[handle as int],
            ) {
                (
                    Object::Instance { class: c0, fields: f0 },
                    Object::Instance { class: c1, fields: f1 },
                ) => c1 == c0 && f1@ == f0@.update(index as int, value),
                _ => false,
            },
            !ok ==> final(self).spec_objects()[handle as int] == old(self).spec_objects()[
                handle as int],
    {
        let slot = &mut self.objects[handle];
        match slot {
            Object::Instance { class: _, fields } => {
                if index < fields.len() {
                    fields[index] = value;
                    true
                } else {
                    false
                }
            },
            _ => false,
        }
    }

    /// Reads element `index` of the array at `handle`.
    pub fn get_element(&self, handle: usize, index: usize) -> (r: Option<Value>)
        requires
            0 < handle < self.spec_objects().len(),
        ensures
            match self.spec_objects()[handle as int] {
                Object::Array { elements } => r == (if index < elements@.len() {
                    Some(elements@[index as int])
                } else {
                    None::<Value>
                }),
                _ => r is None,
            },
    {
        match &self.objects[handle] {
            Object::Array { elements } => {
                if index < elements.len() {
                    Some(elements[index])
                } else {
                    None
                }
            },
            _ => None,
        }
    }

    /// Writes element `index` of the array at `handle`; reports whether the
    /// write landed.
    pub fn set_element(&mut self, handle: usize, index: usize, value: Value) -> (ok: bool)
        requires
            0 < handle < old(self).spec_objects().len(),
        ensures
            final(self).spec_objects().len() == old(self).spec_objects().len(),
            final(self).spec_statics() == old(self).spec_statics(),
            (forall|i: int|
                0 <= i < old(self).spec_objects().len() && i != handle ==> final(self).spec_objects()[i] == old(self).spec_objects()[i]),
            ok == match old(self).spec_objects()[handle as int] {
                Object::Array { elements } => index < elements@.len(),
                _ => false,
            },
            ok ==> match (
                old(self).spec_objects()[handle as int],
                final(self).spec_objects()[handle as int],
            ) {
                (Object::Array { elements: e0 }, Object::Array { elements: e1 }) => e1@ == e0@
                    .update(index as int, value),
                _ => false,
            },
            !ok ==> final(self).spec_objects()[handle as int] == old(self).spec_objects()[
                handle as int],
    {
        let slot = &mut self.objects[handle];
        match slot {
            Object::Array { elements } => {
                if index < elements.len() {
                    elements[index] = value;
                    true
                } else {
                    false
                }
            },
            _ => false,
        }
    }

    /// The element count of the array at `handle`.
    pub fn array_length(&self, handle: usize) -> (r: Option<usize>)
        requires
            0 < handle < self.spec_objects().len(),
        ensures
            match self.spec_objects()[handle as int] {
                Object::Array { elements } => r == Some(elements@.len() as usize),
                _ => r is None,
            },
    {
        match &self.objects[handle] {
            Object::Array { elements } => Some(elements.len()),
            _ => None,
        }
    }

    /// The interned string at `handle`, if that is what the object is.
    pub fn get_string(&self, handle: usize) -> (r: Option<&String>)
        requires
            0 < handle < self.spec_objects().len(),
        ensures
            match self.spec_objects()[handle as int] {
                Object::StringObj { value } => r matches Some(s) && s@ == value@,
                _ => r is None,
            },
    {
        match &self.objects[handle] {
            Object::StringObj { value } => Some(value),
            _ => None,
        }
    }

    /// Reads the static value at `slot`.
    pub fn get_static(&self, slot: usize) -> (r: Option<Value>)
        ensures
            r == (if slot < self.spec_statics().len() {
                Some(self.spec_statics()[slot as int])
            } else {
                None::<Value>
            }),
    {
        if slot < self.statics.len() {
            Some(self.statics[slot])
        } else {
            None
        }
    }

    /// Overwrites the static value at `slot`; reports whether the slot
    /// exists. Slots are never removed.
    pub fn set_static(&mut self, slot: usize, value: Value) -> (ok: bool)
        ensures
            final(self).spec_objects() == old(self).spec_objects(),
            final(self).spec_statics().len() == old(self).spec_statics().len(),
            ok == (slot < old(self).spec_statics().len()),
            ok ==> final(self).spec_statics() == old(self).spec_statics().update(
                slot as int,
                value,
            ),
            !ok ==> final(self).spec_statics() == old(self).spec_statics(),
    {
        if slot < self.statics.len() {
            self.statics[slot] = value;
            true
        } else {
            false
        }
    }

    /// Allocates a fresh static slot holding `value` and returns its index:
    /// statics are append-only, a slot's identity never changes.
    pub fn insert_static(&mut self, value: Value) -> (slot: usize)
        ensures
            issues_static_slot(*old(self), *final(self), slot),
            final(self).spec_objects() == old(self).spec_objects(),
            final(self).spec_statics() == old(self).spec_statics().push(value),
    {
        let slot = self.statics.len();
        self.statics.push(value);
        slot
    }
}

} // verus!
