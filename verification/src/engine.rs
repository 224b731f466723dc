use vstd::prelude::*;
use crate::class::{flat_of, java_class_to_cpp_class};
use crate::descriptor::{mangle_method_name, mangled_of};
use crate::fatops::{FatOp, ResolveError, expand_ops, resolvable};
use crate::heap::{Value, ObjectHeap};
use crate::import::JavaClassFile;
use crate::interp::{CallError, NativeMethods, call_method};
use crate::opcodes::OpCode;
use crate::registry::{Class, CodeContainer, MethodImpl, find_name, full_mangled, full_mangled_of};

verus! {

/// One declared field of a class to be loaded.
#[derive(Debug)]
pub struct FieldDecl {
    pub name: String,
    pub is_static: bool,
}

/// One declared method of a class to be loaded: its raw bytecode stream with
/// byte offsets and its declared local-slot count, or nothing for a method
/// without a body (abstract, or to be bound natively).
#[derive(Debug)]
pub struct MethodDecl {
    pub name: String,
    pub descriptor: String,
    pub is_static: bool,
    pub code: Option<(Vec<(OpCode, u16)>, u16)>,
}

/// One class to be loaded: its slash-separated binary name and its field and
/// method tables. The declaration lists everything the class is to hold:
/// members inherited from a superclass are merged into it by whoever builds
/// the declaration — the partial-name keying of virtual slots makes the
/// merged entries agree across a subclass/superclass pair.
#[derive(Debug)]
pub struct ClassDecl {
    pub name: String,
    pub fields: Vec<FieldDecl>,
    pub methods: Vec<MethodDecl>,
}

/// The process-wide mangled identity a declared method gets when loaded
/// under a class name.
pub open spec fn decl_method_full_name(class_name: Seq<char>, m: MethodDecl) -> Seq<char> {
    full_mangled_of(flat_of(class_name), mangled_of(m.name@, m.descriptor@))
}

/// Every raw instruction of a declared method's stream resolves against the
/// class file; a method without a body has nothing to resolve.
pub open spec fn decl_method_resolvable(m: MethodDecl, cf: JavaClassFile) -> bool {
    match m.code {
        Option::Some(c) => forall|k: int|
            0 <= k < c.0@.len() ==> #[trigger] resolvable(
                c.0@[k].0,
                c.0@[k].1,
                c.0@,
                cf.spec_pool(),
                cf.spec_bootstrap(),
            ),
        Option::None => true,
    }
}

/// The first `n` declared methods all resolve against the class file.
pub open spec fn decl_methods_resolvable(
    methods: Seq<MethodDecl>,
    cf: JavaClassFile,
    n: int,
) -> bool {
    forall|j: int| 0 <= j < n ==> decl_method_resolvable(#[trigger] methods[j], cf)
}

/// Every one of the first `n` declared methods that carries code stands in
/// the registry under its full mangled name, bound to an interpreted form.
pub open spec fn coded_methods_bound(
    reg: CodeContainer,
    class_name: Seq<char>,
    methods: Seq<MethodDecl>,
    n: int,
) -> bool {
    forall|j: int|
        0 <= j < n && (#[trigger] methods[j]).code is Some ==> match find_name(
            reg.spec_method_names(),
            decl_method_full_name(class_name, methods[j]),
        ) {
            Option::Some(mh) => 0 <= mh < reg.spec_methods().len() && reg.spec_methods()[mh]
                is Interpreted,
            Option::None => false,
        }
}

/// Every one of the first `n` declared non-static methods has a vtable entry
/// under its partial mangled name.
pub open spec fn vtable_covers(cls: Class, methods: Seq<MethodDecl>, n: int) -> bool {
    forall|j: int|
        0 <= j < n && !(#[trigger] methods[j]).is_static ==> exists|k: int|
            {
                &&& 0 <= k < cls.spec_virtuals().len()
                &&& (#[trigger] cls.spec_virtuals()[k]).0 == mangled_of(
                    methods[j].name@,
                    methods[j].descriptor@,
                )
            }
}

/// The execution engine: the class/method registry, the shared object heap,
/// and the externally supplied native-method registry, used from one place.
/// Loading is meant to complete before execution begins; a call never mutates
/// the registry.
pub struct Engine<N> {
    classes: CodeContainer,
    heap: ObjectHeap,
    natives: N,
}

impl<N: NativeMethods> Engine<N> {
    pub closed spec fn spec_registry(&self) -> CodeContainer {
        self.classes
    }

    pub closed spec fn spec_heap(&self) -> ObjectHeap {
        self.heap
    }

    /// The engine's well-formedness: its registry tables line up.
    pub open spec fn wf(&self) -> bool {
        self.spec_registry().wf()
    }

    /// A fresh engine around a native registry: an empty class/method
    /// registry and a heap holding only the reserved null object.
    pub fn new(natives: N) -> (r: Engine<N>)
        ensures
            r.wf(),
            r.spec_registry().spec_class_names().len() == 0,
            r.spec_registry().spec_method_names().len() == 0,
            r.spec_heap().spec_objects().len() == 1,
            r.spec_heap().spec_statics().len() == 0,
    {
        Engine { classes: CodeContainer::new(), heap: ObjectHeap::new(), natives }
    }

    /// Registers a class's metadata and compiles and binds all its methods.
    /// A name that is already registered keeps its handle: the class contents
    /// are replaced in place and every holder of the handle observes the new
    /// definition. A failing resolution aborts the load. The vtable and the
    /// field layout hold exactly the declared members: a declaration stands
    /// for the whole class, superclass members included.
    #[verifier::rlimit(100)]
    #[verifier::spinoff_prover]
    pub fn load_class_decl(&mut self, decl: &ClassDecl, class_file: &JavaClassFile) -> (r: Result<
        usize,
        ResolveError,
    >)
        requires
            old(self).wf(),
        ensures
            final(self).wf(),
            final(self).spec_heap().spec_objects().len() >= old(self).spec_heap().spec_objects().len(),
            final(self).spec_heap().spec_statics().len() >= old(self).spec_heap().spec_statics().len(),
            r matches Ok(h) ==> find_name(
                final(self).spec_registry().spec_class_names(),
                flat_of(decl.name@),
            ) == Some(h as int) && h < final(self).spec_registry().spec_classes().len() && final(self).spec_registry().spec_classes()[h as int].name@ == flat_of(decl.name@),
            match find_name(old(self).spec_registry().spec_class_names(), flat_of(decl.name@)) {
                Option::Some(i) => r matches Ok(h) ==> h == i,
                Option::None => true,
            },
            r is Ok <==> decl_methods_resolvable(
                decl.methods@,
                *class_file,
                decl.methods@.len() as int,
            ),
            r is Ok ==> coded_methods_bound(
                final(self).spec_registry(),
                decl.name@,
                decl.methods@,
                decl.methods@.len() as int,
            ),
            r matches Ok(h) ==> vtable_covers(
                final(self).spec_registry().spec_classes()[h as int],
                decl.methods@,
                decl.methods@.len() as int,
            ),
    {
        let cpp = java_class_to_cpp_class(decl.name.as_str());
        let h = self.classes.lookup_or_insert_class(cpp.as_str());
        let mut cls = Class::empty(cpp.clone());
        let mut offset: usize = 0;
        let mut i: usize = 0;
        while i < decl.fields.len()
            invariant
                self.wf(),
                self.spec_heap().spec_objects().len() >= old(self).spec_heap().spec_objects().len(),
                self.spec_heap().spec_statics().len() >= old(self).spec_heap().spec_statics().len(),
                find_name(self.spec_registry().spec_class_names(), flat_of(decl.name@)) == Some(
                    h as int,
                ),
                h < self.spec_registry().spec_classes().len(),
                cls.name@ == flat_of(decl.name@),
            decreases decl.fields@.len() - i,
        {
            let f = &decl.fields[i];
            if f.is_static {
                let slot = self.heap.insert_static(Value::Void);
                cls.statics.push((f.name.clone(), slot));
            } else {
                cls.fields.push((f.name.clone(), offset));
                if offset < usize::MAX {
                    offset = offset + 1;
                }
            }
            i = i + 1;
        }
        let mut j: usize = 0;
        while j < decl.methods.len()
            invariant
                self.wf(),
                self.spec_heap().spec_objects().len() >= old(self).spec_heap().spec_objects().len(),
                self.spec_heap().spec_statics().len() >= old(self).spec_heap().spec_statics().len(),
                find_name(self.spec_registry().spec_class_names(), flat_of(decl.name@)) == Some(
                    h as int,
                ),
                h < self.spec_registry().spec_classes().len(),
                cls.name@ == flat_of(decl.name@),
                cpp@ == flat_of(decl.name@),
                decl_methods_resolvable(decl.methods@, *class_file, j as int),
                coded_methods_bound(self.spec_registry(), decl.name@, decl.methods@, j as int),
                vtable_covers(cls, decl.methods@, j as int),
            decreases decl.methods@.len() - j,
        {
            let m = &decl.methods[j];
            let partial = mangle_method_name(m.name.as_str(), m.descriptor.as_str());
            let full = full_mangled(cpp.as_str(), partial.as_str());
            let ghost pre_names = self.spec_registry().spec_method_names();
            let mh = self.classes.lookup_or_insert_method(full.as_str());
            proof {
                assert(full@ == decl_method_full_name(decl.name@, decl.methods@[j as int]));
                assert forall|key: Seq<char>|
                    #[trigger] find_name(pre_names, key) is Some implies find_name(
                    self.spec_registry().spec_method_names(),
                    key,
                ) == find_name(pre_names, key) by {
                    if self.spec_registry().spec_method_names() != pre_names {
                        crate::registry::lemma_find_name_push(pre_names, 0, key, full@);
                    }
                }
            }
            match &m.code {
                Some((raw_ops, max_locals)) => {
                    let fat = match expand_ops(raw_ops, class_file) {
                        Ok(v) => v,
                        Err(e) => {
                            proof {
                                assert(!decl_method_resolvable(
                                    decl.methods@[j as int],
                                    *class_file,
                                ));
                            }
                            return Err(e);
                        },
                    };
                    self.classes.set_method(
                        mh,
                        MethodImpl::Interpreted { ops: fat, max_locals: *max_locals },
                    );
                },
                None => {},
            }
            let ghost pre_virtuals = cls.spec_virtuals();
            if !m.is_static {
                cls.virtuals.push((partial, mh));
                proof {
                    assert(cls.spec_virtuals() =~= pre_virtuals.push((partial@, mh)));
                    assert(cls.spec_virtuals()[pre_virtuals.len() as int].0 == mangled_of(
                        decl.methods@[j as int].name@,
                        decl.methods@[j as int].descriptor@,
                    ));
                }
            }
            proof {
                assert forall|j2: int|
                    0 <= j2 < j + 1 && !(#[trigger] decl.methods@[j2]).is_static
                        implies exists|k: int|
                    {
                        &&& 0 <= k < cls.spec_virtuals().len()
                        &&& (#[trigger] cls.spec_virtuals()[k]).0 == mangled_of(
                            decl.methods@[j2].name@,
                            decl.methods@[j2].descriptor@,
                        )
                    } by {
                    if j2 < j {
                        let k0 = choose|k0: int|
                            {
                                &&& 0 <= k0 < pre_virtuals.len()
                                &&& (#[trigger] pre_virtuals[k0]).0 == mangled_of(
                                    decl.methods@[j2].name@,
                                    decl.methods@[j2].descriptor@,
                                )
                            };
                        assert(cls.spec_virtuals()[k0].0 == pre_virtuals[k0].0);
                    } else {
                        assert(cls.spec_virtuals()[pre_virtuals.len() as int].0 == mangled_of(
                            decl.methods@[j2].name@,
                            decl.methods@[j2].descriptor@,
                        ));
                    }
                }
                assert(vtable_covers(cls, decl.methods@, j + 1));
            }
            j = j + 1;
        }
        let ghost cls_snapshot = cls;
        self.classes.set_class(h, cls);
        proof {
            assert(self.spec_registry().spec_classes()[h as int] == cls_snapshot);
            assert(vtable_covers(cls_snapshot, decl.methods@, decl.methods@.len() as int));
        }
        Ok(h)
    }

    /// The handle registered under a fully mangled method name.
    pub fn method_handle(&self, full_name: &str) -> (r: Option<usize>)
        ensures
            match r {
                Option::Some(h) => find_name(
                    self.spec_registry().spec_method_names(),
                    full_name@,
                ) == Some(h as int),
                Option::None => find_name(self.spec_registry().spec_method_names(), full_name@)
                    is None,
            },
    {
        self.classes.lookup_method(full_name)
    }

    /// The handle registered under a flattened class identifier.
    pub fn class_handle(&self, class_id: &str) -> (r: Option<usize>)
        ensures
            match r {
                Option::Some(h) => find_name(self.spec_registry().spec_class_names(), class_id@)
                    == Some(h as int),
                Option::None => find_name(self.spec_registry().spec_class_names(), class_id@)
                    is None,
            },
    {
        self.classes.lookup_class(class_id)
    }

    /// Binds the method handle of `full_name` to the externally registered
    /// native of the same handle, allocating the handle if the name is new.
    /// The substitution takes effect for every future call through the
    /// handle: nothing caches the dispatch target across calls.
    pub fn register_native(&mut self, full_name: &str) -> (h: usize)
        requires
            old(self).wf(),
        ensures
            final(self).wf(),
            final(self).spec_heap() == old(self).spec_heap(),
            find_name(final(self).spec_registry().spec_method_names(), full_name@) == Some(
                h as int,
            ),
            h < final(self).spec_registry().spec_methods().len(),
            final(self).spec_registry().spec_methods()[h as int] is Native,
            find_name(old(self).spec_registry().spec_method_names(), full_name@) matches Some(i)
                ==> h == i,
    {
        let h = self.classes.lookup_or_insert_method(full_name);
        self.classes.set_method(h, MethodImpl::Native);
        h
    }

    /// Binds the method handle of `full_name` to an interpreted body,
    /// allocating the handle if the name is new. A later binding through the
    /// same name replaces the body under the same handle.
    pub fn bind_method(&mut self, full_name: &str, ops: Vec<FatOp>, max_locals: u16) -> (h: usize)
        requires
            old(self).wf(),
        ensures
            final(self).wf(),
            final(self).spec_heap() == old(self).spec_heap(),
            find_name(final(self).spec_registry().spec_method_names(), full_name@) == Some(
                h as int,
            ),
            h < final(self).spec_registry().spec_methods().len(),
            final(self).spec_registry().spec_methods()[h as int] is Interpreted,
            find_name(old(self).spec_registry().spec_method_names(), full_name@) matches Some(i)
                ==> h == i,
    {
        let h = self.classes.lookup_or_insert_method(full_name);
        self.classes.set_method(h, MethodImpl::Interpreted { ops, max_locals });
        h
    }

    /// Invokes the method under `method` with an ordered argument list. The
    /// registry is untouched; the heap tables only grow. `depth` bounds call
    /// nesting and `fuel` bounds the instructions of each frame; a run that
    /// exhausts either budget fails with the matching error instead of
    /// running on.
    pub fn call(&mut self, method: usize, args: Vec<Value>, depth: u32, fuel: u64) -> (r: Result<
        Value,
        CallError,
    >)
        requires
            old(self).wf(),
        ensures
            final(self).wf(),
            final(self).spec_registry() == old(self).spec_registry(),
            final(self).spec_heap().spec_objects().len() >= old(self).spec_heap().spec_objects().len(),
            final(self).spec_heap().spec_statics().len() >= old(self).spec_heap().spec_statics().len(),
            method >= old(self).spec_registry().spec_methods().len() ==> r == Err::<
                Value,
                CallError,
            >(CallError::MethodNotFound),
            method < old(self).spec_registry().spec_methods().len() && old(self).spec_registry().spec_methods()[method as int] is Missing ==> r == Err::<
                Value,
                CallError,
            >(CallError::MethodNotFound),
            method < old(self).spec_registry().spec_methods().len() ==> match old(
                self,
            ).spec_registry().spec_methods()[method as int] {
                MethodImpl::Interpreted { ops: o, max_locals: ml } => {
                    &&& (fuel == 0 ==> r == Err::<Value, CallError>(CallError::OutOfFuel))
                    &&& (fuel > 0 && o@.len() == 0 ==> r == Err::<Value, CallError>(
                        CallError::EndOfCode,
                    ))
                    &&& (crate::interp::frame_run(
                        o@,
                        Seq::<Value>::empty(),
                        crate::interp::pad_locals(args@, ml as int),
                        0,
                        fuel as int,
                    ) matches crate::interp::FrameOutcome::Returned(v) ==> r == Ok::<
                        Value,
                        CallError,
                    >(v))
                    &&& (crate::interp::frame_run(
                        o@,
                        Seq::<Value>::empty(),
                        crate::interp::pad_locals(args@, ml as int),
                        0,
                        fuel as int,
                    ) matches crate::interp::FrameOutcome::Failed(e) ==> r == Err::<
                        Value,
                        CallError,
                    >(e))
                },
                _ => true,
            },
    {
        call_method(&self.classes, &mut self.heap, &mut self.natives, method, args, depth, fuel)
    }

    /// Allocates a fresh string object in the heap and hands out its handle:
    /// the bootstrap path for interned constants and test fixtures.
    pub fn intern_string(&mut self, value: String) -> (h: usize)
        requires
            old(self).wf(),
        ensures
            final(self).wf(),
            final(self).spec_registry() == old(self).spec_registry(),
            crate::heap::issues_object_handle(
                old(self).spec_heap(),
                final(self).spec_heap(),
                h,
            ),
            final(self).spec_heap().spec_statics() == old(self).spec_heap().spec_statics(),
    {
        self.heap.new_string(value)
    }

    /// The number of objects the heap holds.
    pub fn object_count(&self) -> (r: usize)
        ensures
            r == self.spec_heap().spec_objects().len(),
    {
        self.heap.object_count()
    }

    /// The number of static slots the heap holds.
    pub fn static_count(&self) -> (r: usize)
        ensures
            r == self.spec_heap().spec_statics().len(),
    {
        self.heap.static_count()
    }
}

} // verus!
