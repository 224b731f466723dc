use vstd::prelude::*;
use crate::fatops::FatOp;
use crate::strutil::{str_eq, chars_of, string_from_chars};

verus! {

/// The first position at or after `i` where `key` stands in a table of
/// names.
pub open spec fn find_name_from(names: Seq<Seq<char>>, i: int, key: Seq<char>) -> Option<int>
    decreases names.len() - i,
{
    if i < 0 || i >= names.len() {
        None
    } else if names[i] == key {
        Some(i)
    } else {
        find_name_from(names, i + 1, key)
    }
}

/// The first position of `key` in a table of names.
pub open spec fn find_name(names: Seq<Seq<char>>, key: Seq<char>) -> Option<int> {
    find_name_from(names, 0, key)
}

/// A found name lies in range and matches the key; a missed key stands
/// nowhere in the scanned range.
pub proof fn lemma_find_name_found(names: Seq<Seq<char>>, i: int, key: Seq<char>)
    requires
        0 <= i,
    ensures
        find_name_from(names, i, key) matches Some(t) ==> i <= t < names.len() && names[t] == key,
        find_name_from(names, i, key) is None ==> forall|k: int|
            i <= k < names.len() ==> names[k] != key,
    decreases names.len() - i,
{
    if i < 0 || i >= names.len() {
    } else if names[i] == key {
    } else {
        lemma_find_name_found(names, i + 1, key);
    }
}

/// Appending a fresh name leaves every existing association in place and
/// makes the new name findable at the old length.
pub proof fn lemma_find_name_push(names: Seq<Seq<char>>, i: int, key: Seq<char>, fresh: Seq<char>)
    requires
        0 <= i <= names.len(),
    ensures
        match find_name_from(names, i, key) {
            Option::Some(t) => find_name_from(names.push(fresh), i, key) == Some(t),
            Option::None => find_name_from(names.push(fresh), i, key) == (if key == fresh {
                Some(names.len() as int)
            } else {
                None::<int>
            }),
        },
    decreases names.len() - i,
{
    if i == names.len() {
        assert(names.push(fresh)[i] == fresh);
    } else {
        assert(names.push(fresh)[i] == names[i]);
        lemma_find_name_push(names, i + 1, key, fresh);
    }
}

/// The first value at or after `i` associated with `key` in an ordered
/// association table.
pub open spec fn assoc_find_from(pairs: Seq<(Seq<char>, usize)>, i: int, key: Seq<char>) -> Option<
    usize,
>
    decreases pairs.len() - i,
{
    if i < 0 || i >= pairs.len() {
        None
    } else if pairs[i].0 == key {
        Some(pairs[i].1)
    } else {
        assoc_find_from(pairs, i + 1, key)
    }
}

/// The first value associated with `key` in an ordered association table.
pub open spec fn assoc_find(pairs: Seq<(Seq<char>, usize)>, key: Seq<char>) -> Option<usize> {
    assoc_find_from(pairs, 0, key)
}

/// The executable form of a method held under a handle.
#[derive(Debug)]
pub enum MethodImpl {
    /// The handle is allocated but nothing is bound to it yet.
    Missing,
    /// An interpretable body: a resolved-op sequence and its declared
    /// local-slot count.
    Interpreted { ops: Vec<FatOp>, max_locals: u16 },
    /// The handle is bound to the externally registered callable of the same
    /// handle.
    Native,
}

/// The contents of a loaded class: its flattened identifier, the virtual-call
/// table from partial mangled names to global method handles, and the maps
/// from field names to static slots and to instance layout offsets.
#[derive(Debug)]
pub struct Class {
    pub name: String,
    pub virtuals: Vec<(String, usize)>,
    pub statics: Vec<(String, usize)>,
    pub fields: Vec<(String, usize)>,
}

impl Class {
    pub open spec fn spec_virtuals(&self) -> Seq<(Seq<char>, usize)> {
        self.virtuals@.map_values(|p: (String, usize)| (p.0@, p.1))
    }

    pub open spec fn spec_statics(&self) -> Seq<(Seq<char>, usize)> {
        self.statics@.map_values(|p: (String, usize)| (p.0@, p.1))
    }

    pub open spec fn spec_fields(&self) -> Seq<(Seq<char>, usize)> {
        self.fields@.map_values(|p: (String, usize)| (p.0@, p.1))
    }

    /// A class with no members, under `name`: the shape a class slot holds
    /// from allocation until its load completes.
    pub fn empty(name: String) -> (r: Class)
        ensures
            r.name@ == name@,
            r.spec_virtuals().len() == 0,
            r.spec_statics().len() == 0,
            r.spec_fields().len() == 0,
    {
        let r = Class { name, virtuals: Vec::new(), statics: Vec::new(), fields: Vec::new() };
        proof {
            assert(r.spec_virtuals() =~= Seq::<(Seq<char>, usize)>::empty());
            assert(r.spec_statics() =~= Seq::<(Seq<char>, usize)>::empty());
            assert(r.spec_fields() =~= Seq::<(Seq<char>, usize)>::empty());
        }
        r
    }

    /// The method handle bound to a virtual-call slot, looked up by partial
    /// mangled name.
    pub fn virtual_of(&self, partial: &str) -> (r: Option<usize>)
        ensures
            r == assoc_find(self.spec_virtuals(), partial@),
    {
        assoc_lookup(&self.virtuals, partial)
    }

    /// The static slot of a declared static field, by name.
    pub fn static_slot(&self, name: &str) -> (r: Option<usize>)
        ensures
            r == assoc_find(self.spec_statics(), name@),
    {
        assoc_lookup(&self.statics, name)
    }

    /// The layout offset of a declared instance field, by name.
    pub fn field_offset(&self, name: &str) -> (r: Option<usize>)
        ensures
            r == assoc_find(self.spec_fields(), name@),
    {
        assoc_lookup(&self.fields, name)
    }
}

/// Scans an ordered association table for the first entry under `key`.
fn assoc_lookup(pairs: &Vec<(String, usize)>, key: &str) -> (r: Option<usize>)
    ensures
        r == assoc_find(pairs@.map_values(|p: (String, usize)| (p.0@, p.1)), key@),
{
    let ghost view = pairs@.map_values(|p: (String, usize)| (p.0@, p.1));
    let mut i: usize = 0;
    while i < pairs.len()
        invariant
            i <= pairs@.len(),
            view == pairs@.map_values(|p: (String, usize)| (p.0@, p.1)),
            assoc_find(view, key@) == assoc_find_from(view, i as int, key@),
        decreases pairs@.len() - i,
    {
        if str_eq(pairs[i].0.as_str(), key) {
            return Some(pairs[i].1);
        }
        i = i + 1;
    }
    None
}

/// The process-wide registry: class names and mangled method names are mapped
/// to stable integer handles, and each handle to the current contents of its
/// slot. Re-registration overwrites the slot, never the mapping, so a handle
/// survives a re-load of its name.
#[derive(Debug)]
pub struct CodeContainer {
    class_names: Vec<String>,
    classes: Vec<Class>,
    method_names: Vec<String>,
    methods: Vec<MethodImpl>,
}

impl CodeContainer {
    pub closed spec fn spec_class_names(&self) -> Seq<Seq<char>> {
        self.class_names@.map_values(|s: String| s@)
    }

    pub closed spec fn spec_classes(&self) -> Seq<Class> {
        self.classes@
    }

    pub closed spec fn spec_method_names(&self) -> Seq<Seq<char>> {
        self.method_names@.map_values(|s: String| s@)
    }

    pub closed spec fn spec_methods(&self) -> Seq<MethodImpl> {
        self.methods@
    }

    /// Each handle table is as long as its name table.
    pub open spec fn wf(&self) -> bool {
        &&& self.spec_classes().len() == self.spec_class_names().len()
        &&& self.spec_methods().len() == self.spec_method_names().len()
    }

    /// An empty registry.
    pub fn new() -> (r: CodeContainer)
        ensures
            r.wf(),
            r.spec_class_names().len() == 0,
            r.spec_method_names().len() == 0,
    {
        let r = CodeContainer {
            class_names: Vec::new(),
            classes: Vec::new(),
            method_names: Vec::new(),
            methods: Vec::new(),
        };
        proof {
            assert(r.spec_class_names() =~= Seq::<Seq<char>>::empty());
            assert(r.spec_method_names() =~= Seq::<Seq<char>>::empty());
        }
        r
    }

    pub fn class_count(&self) -> (r: usize)
        ensures
            r == self.spec_classes().len(),
    {
        self.classes.len()
    }

    pub fn method_count(&self) -> (r: usize)
        ensures
            r == self.spec_methods().len(),
    {
        self.methods.len()
    }

    /// The handle registered for a class name, if any.
    pub fn lookup_class(&self, name: &str) -> (r: Option<usize>)
        ensures
            match r {
                Option::Some(h) => find_name(self.spec_class_names(), name@) == Some(h as int),
                Option::None => find_name(self.spec_class_names(), name@) is None,
            },
    {
        name_lookup(&self.class_names, name)
    }

    /// The handle registered for a mangled method name, if any.
    pub fn lookup_method(&self, name: &str) -> (r: Option<usize>)
        ensures
            match r {
                Option::Some(h) => find_name(self.spec_method_names(), name@) == Some(h as int),
                Option::None => find_name(self.spec_method_names(), name@) is None,
            },
    {
        name_lookup(&self.method_names, name)
    }

    /// Returns the existing handle for a class name, or allocates a fresh
    /// empty class slot for it. Loading the same name again therefore always
    /// lands on the same handle.
    pub fn lookup_or_insert_class(&mut self, name: &str) -> (h: usize)
        requires
            old(self).wf(),
        ensures
            final(self).wf(),
            final(self).spec_method_names() == old(self).spec_method_names(),
            final(self).spec_methods() == old(self).spec_methods(),
            match find_name(old(self).spec_class_names(), name@) {
                Option::Some(i) => {
                    &&& h == i
                    &&& final(self).spec_class_names() == old(self).spec_class_names()
                    &&& final(self).spec_classes() == old(self).spec_classes()
                },
                Option::None => {
                    &&& h == old(self).spec_class_names().len()
                    &&& final(self).spec_class_names() == old(self).spec_class_names().push(name@)
                    &&& final(self).spec_classes().len() == old(self).spec_classes().len() + 1
                    &&& (forall|i: int|
                        0 <= i < old(self).spec_classes().len() ==> final(self).spec_classes()[i]
                            == old(self).spec_classes()[i])
                    &&& final(self).spec_classes()[h as int].name@ == name@
                    &&& final(self).spec_classes()[h as int].spec_virtuals().len() == 0
                    &&& final(self).spec_classes()[h as int].spec_statics().len() == 0
                    &&& final(self).spec_classes()[h as int].spec_fields().len() == 0
                },
            },
            find_name(final(self).spec_class_names(), name@) == Some(h as int),
            h < final(self).spec_classes().len(),
    {
        proof {
            lemma_find_name_push(self.spec_class_names(), 0, name@, name@);
            lemma_find_name_found(self.spec_class_names(), 0, name@);
        }
        match name_lookup(&self.class_names, name) {
            Some(h) => h,
            None => {
                let h = self.classes.len();
                let owned = name.to_owned();
                let cls = Class::empty(owned);
                self.class_names.push(name.to_owned());
                self.classes.push(cls);
                proof {
                    assert(self.spec_class_names() =~= old(self).spec_class_names().push(name@));
                }
                h
            },
        }
    }

    /// Replaces the contents of the class slot at `handle` wholesale: every
    /// holder of the handle observes the new definition under the old
    /// identity.
    pub fn set_class(&mut self, handle: usize, class: Class)
        requires
            old(self).wf(),
            handle < old(self).spec_classes().len(),
        ensures
            final(self).wf(),
            final(self).spec_class_names() == old(self).spec_class_names(),
            final(self).spec_method_names() == old(self).spec_method_names(),
            final(self).spec_methods() == old(self).spec_methods(),
            final(self).spec_classes() == old(self).spec_classes().update(handle as int, class),
    {
        self.classes[handle] = class;
    }

    /// The contents of the class slot at `handle`.
    pub fn class_at(&self, handle: usize) -> (r: &Class)
        requires
            handle < self.spec_classes().len(),
        ensures
            *r == self.spec_classes()[handle as int],
    {
        &self.classes[handle]
    }

    /// Returns the existing handle for a mangled method name, or allocates a
    /// fresh unbound slot for it.
    pub fn lookup_or_insert_method(&mut self, name: &str) -> (h: usize)
        requires
            old(self).wf(),
        ensures
            final(self).wf(),
            final(self).spec_class_names() == old(self).spec_class_names(),
            final(self).spec_classes() == old(self).spec_classes(),
            match find_name(old(self).spec_method_names(), name@) {
                Option::Some(i) => {
                    &&& h == i
                    &&& final(self).spec_method_names() == old(self).spec_method_names()
                    &&& final(self).spec_methods() == old(self).spec_methods()
                },
                Option::None => {
                    &&& h == old(self).spec_method_names().len()
                    &&& final(self).spec_method_names() == old(self).spec_method_names().push(
                        name@,
                    )
                    &&& final(self).spec_methods() == old(self).spec_methods().push(
                        MethodImpl::Missing,
                    )
                },
            },
            find_name(final(self).spec_method_names(), name@) == Some(h as int),
            h < final(self).spec_methods().len(),
    {
        proof {
            lemma_find_name_push(self.spec_method_names(), 0, name@, name@);
            lemma_find_name_found(self.spec_method_names(), 0, name@);
        }
        match name_lookup(&self.method_names, name) {
            Some(h) => h,
            None => {
                let h = self.methods.len();
                self.method_names.push(name.to_owned());
                self.methods.push(MethodImpl::Missing);
                proof {
                    assert(self.spec_method_names() =~= old(self).spec_method_names().push(name@));
                }
                h
            },
        }
    }

    /// Binds or replaces the executable form held under a method handle:
    /// interpreted bodies and externally registered natives may be swapped at
    /// any time, and every later call through the handle sees the new form.
    pub fn set_method(&mut self, handle: usize, m: MethodImpl)
        requires
            old(self).wf(),
            handle < old(self).spec_methods().len(),
        ensures
            final(self).wf(),
            final(self).spec_class_names() == old(self).spec_class_names(),
            final(self).spec_classes() == old(self).spec_classes(),
            final(self).spec_method_names() == old(self).spec_method_names(),
            final(self).spec_methods() == old(self).spec_methods().update(handle as int, m),
    {
        self.methods[handle] = m;
    }

    /// The executable form held under `handle`, if the handle is allocated.
    pub fn method_at(&self, handle: usize) -> (r: Option<&MethodImpl>)
        ensures
            match r {
                Option::Some(m) => handle < self.spec_methods().len() && *m == self.spec_methods()[
                    handle as int],
                Option::None => handle >= self.spec_methods().len(),
            },
    {
        if handle < self.methods.len() {
            Some(&self.methods[handle])
        } else {
            None
        }
    }
}

/// Scans a name table for `key`.
fn name_lookup(names: &Vec<String>, key: &str) -> (r: Option<usize>)
    ensures
        match r {
            Option::Some(h) => find_name(names@.map_values(|s: String| s@), key@) == Some(h as int),
            Option::None => find_name(names@.map_values(|s: String| s@), key@) is None,
        },
{
    let ghost view = names@.map_values(|s: String| s@);
    let mut i: usize = 0;
    while i < names.len()
        invariant
            i <= names@.len(),
            view == names@.map_values(|s: String| s@),
            find_name(view, key@) == find_name_from(view, i as int, key@),
        decreases names@.len() - i,
    {
        if str_eq(names[i].as_str(), key) {
            return Some(i);
        }
        i = i + 1;
    }
    None
}

/// The full mangled identity of a method: the flattened owning-class
/// identifier, a `::` separator, then the class-local mangled name.
pub open spec fn full_mangled_of(class_id: Seq<char>, partial: Seq<char>) -> Seq<char> {
    class_id + seq![':', ':'] + partial
}

/// Joins a flattened class identifier and a class-local mangled name into the
/// method's process-wide identity.
pub fn full_mangled(class_id: &str, partial: &str) -> (r: String)
    ensures
        r@ == full_mangled_of(class_id@, partial@),
{
    let mut cs = chars_of(class_id);
    cs.push(':');
    cs.push(':');
    let ps = chars_of(partial);
    let ghost prefix = cs@;
    let mut i: usize = 0;
    while i < ps.len()
        invariant
            i <= ps@.len(),
            ps@ == partial@,
            cs@ == prefix + partial@.take(i as int),
        decreases ps@.len() - i,
    {
        cs.push(ps[i]);
        assert(cs@ =~= prefix + partial@.take(i + 1 as int));
        i = i + 1;
    }
    proof {
        assert(prefix =~= class_id@ + seq![':', ':']);
        assert(cs@ =~= full_mangled_of(class_id@, partial@));
    }
    string_from_chars(&cs)
}

/// Re-load identity law: when a class name is already registered, looking it
/// up again yields the same handle, and replacing the class contents at that
/// handle swaps what the handle maps to while every name keeps its handle.
pub proof fn lemma_reload_identity(
    pre: CodeContainer,
    post: CodeContainer,
    name: Seq<char>,
    h: usize,
    cls: Class,
)
    requires
        pre.wf(),
        find_name(pre.spec_class_names(), name) == Some(h as int),
        post.spec_class_names() == pre.spec_class_names(),
        post.spec_classes() == pre.spec_classes().update(h as int, cls),
    ensures
        find_name(post.spec_class_names(), name) == Some(h as int),
        h < post.spec_classes().len() && post.spec_classes()[h as int] == cls,
        forall|other: Seq<char>|
            find_name(post.spec_class_names(), other) == find_name(pre.spec_class_names(), other),
{
    lemma_find_name_found(pre.spec_class_names(), 0, name);
}

} // verus!
