use vstd::prelude::*;
use crate::class::{flat_of, path_of, java_class_to_cpp_class, cpp_class_to_path};
use crate::descriptor::{
    VariableType, vt_parses, ftype_end, find_from, desc_parses, args_scan_count, argc_of,
    mangled_of, has_ctor_marker, method_desc_ok, field_descriptor_to_ftype, method_desc_to_args,
    method_desc_to_argc, mangle_method_name, contains_ctor_marker,
};
use crate::import::{
    JavaClassFile, ConstantItem, BootstrapMethod, pool_at, utf8_at, class_name_at, nametype_at,
    fieldref_at, methodref_at, invoke_dynamic_at, method_handle_at,
};
use crate::opcodes::{OpCode, LookupSwitch};
use crate::svec::{JumpTargets, sv_elems};

verus! {

/// A resolved reference to a class: the flattened, separator-free identifier
/// derived from a slash-separated binary class name.
#[derive(Debug)]
pub struct ClassInfo {
    cpp_class: String,
}

impl View for ClassInfo {
    type V = Seq<char>;

    closed spec fn view(&self) -> Seq<char> {
        self.cpp_class@
    }
}

impl Clone for ClassInfo {
    fn clone(&self) -> (r: Self)
        ensures
            r@ == self@,
    {
        ClassInfo { cpp_class: self.cpp_class.clone() }
    }
}

impl ClassInfo {
    /// Flattens a binary class name such as `a/b/C` into a collision-free
    /// identifier holding no separator.
    pub fn from_java_path(java_path: &str) -> (r: Self)
        ensures
            r@ == flat_of(java_path@),
    {
        let cpp_class = java_class_to_cpp_class(java_path);
        ClassInfo { cpp_class }
    }

    /// The flattened identifier itself.
    pub fn cpp_class(&self) -> (r: &str)
        ensures
            r@ == self@,
    {
        self.cpp_class.as_str()
    }

    /// The original slash-separated class path, recovered from the flattened
    /// identifier.
    pub fn class_path(&self) -> (r: String)
        ensures
            r@ == path_of(self@),
    {
        cpp_class_to_path(self.cpp_class.as_str())
    }
}

/// Why the resolution of a raw opcode stream failed: every case aborts the
/// class load.
#[derive(Debug, Clone, Copy, PartialEq, Eq, Structural)]
pub enum ResolveError {
    /// A constant-pool lookup failed or addressed an entry of the wrong kind.
    BadConstantIndex,
    /// A load-constant opcode addressed a pool entry of an unsupported kind.
    UnsupportedConstant,
    /// A field or method descriptor does not parse.
    BadDescriptor,
    /// A field access with an inferred void field type.
    VoidField,
    /// A branch whose absolute byte offset aligns with no instruction start.
    BadBranchTarget,
    /// A primitive new-array opcode with an invalid type id.
    BadNewArrayType,
    /// An argument count that does not fit the 8-bit slot of the call form.
    TooManyArgs,
}

/// A fully resolved instruction: no symbolic constant-pool references and no
/// relative branch offsets are left. Branch targets are absolute indices into
/// the resolved sequence. Floating-point immediates are raw IEEE-754 bits.
#[derive(Debug)]
pub enum FatOp {
    AConstNull,
    IConst(i32),
    BConst(i8),
    SConst(i16),
    LConst(i64),
    StringConst(String),
    ClassConst(ClassInfo),
    FConst(u32),
    DConst(u64),
    ALoad(u8),
    DLoad(u8),
    FLoad(u8),
    ILoad(u8),
    LLoad(u8),
    AStore(u8),
    DStore(u8),
    FStore(u8),
    IStore(u8),
    LStore(u8),
    DAdd,
    FAdd,
    IAdd,
    LAdd,
    DMul,
    FMul,
    IMul,
    LMul,
    ISub,
    DSub,
    FSub,
    LSub,
    DRem,
    FRem,
    IRem,
    LRem,
    IShr,
    IShl,
    LShl,
    DDiv,
    FDiv,
    IDiv,
    LDiv,
    IAnd,
    LAnd,
    IOr,
    LOr,
    IXOr,
    LXOr,
    INeg,
    LNeg,
    DNeg,
    FNeg,
    LUShr,
    IUShr,
    InvokeSpecial(ClassInfo, String, u8),
    InvokeStatic(ClassInfo, String, Vec<VariableType>, VariableType),
    InvokeInterface(String, u8),
    InvokeDynamic,
    InvokeVirtual(ClassInfo, String, Vec<VariableType>, VariableType),
    ZGetStatic(ClassInfo, String),
    BGetStatic(ClassInfo, String),
    SGetStatic(ClassInfo, String),
    IGetStatic(ClassInfo, String),
    LGetStatic(ClassInfo, String),
    FGetStatic(ClassInfo, String),
    DGetStatic(ClassInfo, String),
    AGetStatic { class_info: ClassInfo, static_name: String, type_info: ClassInfo },
    AAGetStatic { class_info: ClassInfo, static_name: String, atype: VariableType },
    CGetStatic(ClassInfo, String),
    ZPutStatic(ClassInfo, String),
    BPutStatic(ClassInfo, String),
    SPutStatic(ClassInfo, String),
    IPutStatic(ClassInfo, String),
    LPutStatic(ClassInfo, String),
    FPutStatic(ClassInfo, String),
    DPutStatic(ClassInfo, String),
    APutStatic { class_info: ClassInfo, field_name: String, type_info: ClassInfo },
    AAPutStatic { class_info: ClassInfo, field_name: String, atype: VariableType },
    CPutStatic(ClassInfo, String),
    ZGetField(ClassInfo, String),
    BGetField(ClassInfo, String),
    SGetField(ClassInfo, String),
    IGetField(ClassInfo, String),
    LGetField(ClassInfo, String),
    FGetField(ClassInfo, String),
    DGetField(ClassInfo, String),
    AGetField { class_info: ClassInfo, field_name: String, type_info: ClassInfo },
    CGetField(ClassInfo, String),
    AAGetField { class_info: ClassInfo, field_name: String, atype: VariableType },
    ZPutField(ClassInfo, String),
    BPutField(ClassInfo, String),
    SPutField(ClassInfo, String),
    IPutField(ClassInfo, String),
    LPutField(ClassInfo, String),
    FPutField(ClassInfo, String),
    DPutField(ClassInfo, String),
    APutField { class_info: ClassInfo, field_name: String, type_info: ClassInfo },
    AAPutField { class_info: ClassInfo, field_name: String, atype: VariableType },
    CPutField(ClassInfo, String),
    Dup,
    Dup2,
    DupX1,
    Dup2X1,
    DupX2,
    Dup2X2,
    Swap,
    Pop,
    Pop2,
    Return,
    AReturn,
    FReturn,
    IReturn,
    DReturn,
    LReturn,
    F2D,
    D2F,
    I2L,
    L2I,
    F2L,
    L2F,
    I2F,
    F2I,
    I2C,
    I2S,
    I2B,
    I2D,
    D2I,
    D2L,
    L2D,
    New(ClassInfo),
    ANewArray(ClassInfo),
    MultiANewArray(ClassInfo, u8),
    BNewArray,
    CNewArray,
    DNewArray,
    FNewArray,
    INewArray,
    LNewArray,
    SNewArray,
    ZNewArray,
    CheckedCast(ClassInfo),
    InstanceOf(ClassInfo),
    AAStore,
    BAStore,
    CAStore,
    DAStore,
    FAStore,
    IAStore,
    LAStore,
    SAStore,
    AALoad,
    BALoad,
    CALoad,
    DALoad,
    FALoad,
    IALoad,
    LALoad,
    SALoad,
    LCmp,
    FCmpL,
    FCmpG,
    DCmpL,
    DCmpG,
    ArrayLength,
    IfACmpEq(usize),
    IfICmpGreater(usize),
    IfIGreterEqual(usize),
    IfGreterEqualZero(usize),
    IfGreterZero(usize),
    IfLessZero(usize),
    IfLessEqualZero(usize),
    IfNull(usize),
    IfNotNull(usize),
    IfZero(usize),
    IfNotZero(usize),
    IfICmpNe(usize),
    IfICmpEq(usize),
    IfACmpNe(usize),
    IfICmpLessEqual(usize),
    IfICmpLess(usize),
    GoTo(usize),
    IInc(u8, i8),
    Throw,
    MonitorEnter,
    MonitorExit,
    LookupSwitch { default_op: usize, pairs: Vec<(i32, usize)> },
}

// ---------------------------------------------------------------------------
// Resolution sites
// ---------------------------------------------------------------------------

/// The (class name, field name, descriptor) strings a field reference at
/// `index` resolves to through the pool.
pub open spec fn field_site(pool: Seq<ConstantItem>, index: u16) -> Option<
    (Seq<char>, Seq<char>, Seq<char>),
> {
    match fieldref_at(pool, index) {
        Option::Some(fr) => match nametype_at(pool, fr.1) {
            Option::Some(nt) => match (class_name_at(pool, fr.0), utf8_at(pool, nt.0), utf8_at(
                pool,
                nt.1,
            )) {
                (Option::Some(cn), Option::Some(fnm), Option::Some(d)) => Some((cn, fnm, d)),
                _ => None,
            },
            Option::None => None,
        },
        Option::None => None,
    }
}

/// The (class name, method name, descriptor) strings a method or
/// interface-method reference at `index` resolves to through the pool.
pub open spec fn method_site(pool: Seq<ConstantItem>, index: u16) -> Option<
    (Seq<char>, Seq<char>, Seq<char>),
> {
    match methodref_at(pool, index) {
        Option::Some(mr) => match nametype_at(pool, mr.1) {
            Option::Some(nt) => match (class_name_at(pool, mr.0), utf8_at(pool, nt.0), utf8_at(
                pool,
                nt.1,
            )) {
                (Option::Some(cn), Option::Some(mn), Option::Some(d)) => Some((cn, mn, d)),
                _ => None,
            },
            Option::None => None,
        },
        Option::None => None,
    }
}

/// A field site whose descriptor is one whole field type that is not void.
pub open spec fn field_ok(pool: Seq<ConstantItem>, index: u16) -> bool {
    match field_site(pool, index) {
        Option::Some(site) => ftype_end(site.2, 0) == Some(site.2.len() as int) && !(site.2.len()
            == 1 && site.2[0] == 'V'),
        Option::None => false,
    }
}

/// Looks up a field reference and decodes its descriptor into a variable
/// type, together with the owning class name and the field name.
fn fieldref_to_info(index: u16, class: &JavaClassFile) -> (r: Result<
    (VariableType, String, String),
    ResolveError,
>)
    ensures
        match field_site(class.spec_pool(), index) {
            Option::Some(site) => {
                if ftype_end(site.2, 0) == Some(site.2.len() as int) {
                    r matches Ok(t) && t.1@ == site.0 && t.2@ == site.1 && vt_parses(
                        site.2,
                        0,
                        site.2.len() as int,
                        t.0,
                    )
                } else {
                    r == Err::<(VariableType, String, String), ResolveError>(
                        ResolveError::BadDescriptor,
                    )
                }
            },
            Option::None => r == Err::<(VariableType, String, String), ResolveError>(
                ResolveError::BadConstantIndex,
            ),
        },
{
    let (field_class, nametype) = match class.lookup_field_ref(index) {
        Some(v) => v,
        None => {
            return Err(ResolveError::BadConstantIndex);
        },
    };
    let field_class = match class.lookup_class(field_class) {
        Some(v) => v,
        None => {
            return Err(ResolveError::BadConstantIndex);
        },
    };
    let (name, descriptor) = match class.lookup_nametype(nametype) {
        Some(v) => v,
        None => {
            return Err(ResolveError::BadConstantIndex);
        },
    };
    let name = match class.lookup_utf8(name) {
        Some(v) => v,
        None => {
            return Err(ResolveError::BadConstantIndex);
        },
    };
    let descriptor = match class.lookup_utf8(descriptor) {
        Some(v) => v,
        None => {
            return Err(ResolveError::BadConstantIndex);
        },
    };
    let ftype = match field_descriptor_to_ftype(descriptor.as_str()) {
        Some(v) => v,
        None => {
            return Err(ResolveError::BadDescriptor);
        },
    };
    Ok((ftype, field_class.clone(), name.clone()))
}

/// Looks up a method reference and decodes its descriptor, returning the
/// owning class name, the mangled method name, and the signature.
fn methodref_to_mangled_and_sig(index: u16, class: &JavaClassFile) -> (r: Result<
    (String, String, Vec<VariableType>, VariableType),
    ResolveError,
>)
    ensures
        match method_site(class.spec_pool(), index) {
            Option::Some(site) => {
                if method_desc_ok(site.2) {
                    r matches Ok(t) && t.0@ == site.0 && t.1@ == mangled_of(site.1, site.2)
                        && desc_parses(site.2, t.2@, t.3) && args_scan_count(site.2, 1) == Some(
                        t.2@.len() as int,
                    )
                } else {
                    r == Err::<(String, String, Vec<VariableType>, VariableType), ResolveError>(
                        ResolveError::BadDescriptor,
                    )
                }
            },
            Option::None => r == Err::<
                (String, String, Vec<VariableType>, VariableType),
                ResolveError,
            >(ResolveError::BadConstantIndex),
        },
{
    let (method_class, nametype) = match class.lookup_method_ref(index) {
        Some(v) => v,
        None => {
            return Err(ResolveError::BadConstantIndex);
        },
    };
    let (name, descriptor) = match class.lookup_nametype(nametype) {
        Some(v) => v,
        None => {
            return Err(ResolveError::BadConstantIndex);
        },
    };
    let method_class = match class.lookup_class(method_class) {
        Some(v) => v,
        None => {
            return Err(ResolveError::BadConstantIndex);
        },
    };
    let name = match class.lookup_utf8(name) {
        Some(v) => v,
        None => {
            return Err(ResolveError::BadConstantIndex);
        },
    };
    let descriptor = match class.lookup_utf8(descriptor) {
        Some(v) => v,
        None => {
            return Err(ResolveError::BadConstantIndex);
        },
    };
    let mangled = mangle_method_name(name.as_str(), descriptor.as_str());
    let (args, ret) = match method_desc_to_args(descriptor.as_str()) {
        Some(v) => v,
        None => {
            return Err(ResolveError::BadDescriptor);
        },
    };
    Ok((method_class.clone(), mangled, args, ret))
}

/// Looks up a method reference and derives its mangled name and argument
/// count.
fn methodref_to_mangled_and_argc(index: u16, class: &JavaClassFile) -> (r: Result<
    (String, u8),
    ResolveError,
>)
    ensures
        match method_site(class.spec_pool(), index) {
            Option::Some(site) => {
                match argc_of(site.2) {
                    Option::Some(n) => if n <= u8::MAX {
                        r matches Ok(t) && t.0@ == mangled_of(site.1, site.2) && t.1 == n
                    } else {
                        r == Err::<(String, u8), ResolveError>(ResolveError::BadDescriptor)
                    },
                    Option::None => r == Err::<(String, u8), ResolveError>(
                        ResolveError::BadDescriptor,
                    ),
                }
            },
            Option::None => r == Err::<(String, u8), ResolveError>(ResolveError::BadConstantIndex),
        },
{
    let (method_class, nametype) = match class.lookup_method_ref(index) {
        Some(v) => v,
        None => {
            return Err(ResolveError::BadConstantIndex);
        },
    };
    let (name, descriptor) = match class.lookup_nametype(nametype) {
        Some(v) => v,
        None => {
            return Err(ResolveError::BadConstantIndex);
        },
    };
    let _method_class = match class.lookup_class(method_class) {
        Some(v) => v,
        None => {
            return Err(ResolveError::BadConstantIndex);
        },
    };
    let name = match class.lookup_utf8(name) {
        Some(v) => v,
        None => {
            return Err(ResolveError::BadConstantIndex);
        },
    };
    let descriptor = match class.lookup_utf8(descriptor) {
        Some(v) => v,
        None => {
            return Err(ResolveError::BadConstantIndex);
        },
    };
    let mangled = mangle_method_name(name.as_str(), descriptor.as_str());
    let argc = match method_desc_to_argc(descriptor.as_str()) {
        Some(v) => v,
        None => {
            return Err(ResolveError::BadDescriptor);
        },
    };
    proof {
        match crate::descriptor::find_from(descriptor@, 1, ')') {
            Option::Some(cl) => {
                crate::descriptor::lemma_argc_from_nonneg(descriptor@, 1, cl);
            },
            Option::None => {},
        }
    }
    Ok((mangled, argc))
}

// ---------------------------------------------------------------------------
// Branch retargeting
// ---------------------------------------------------------------------------

/// The absolute byte offset a relative branch offset denotes, wrapped to the
/// 16-bit range the bytecode stream addresses.
pub open spec fn abs_off(off: u16, delta: int) -> u16 {
    (((off + delta) % 0x10000) as u16)
}

/// The first instruction index at or after `i` whose byte offset is `target`.
pub open spec fn op_index_from(ops: Seq<(OpCode, u16)>, i: int, target: u16) -> Option<int>
    decreases ops.len() - i,
{
    if i < 0 || i >= ops.len() {
        None
    } else if ops[i].1 == target {
        Some(i)
    } else {
        op_index_from(ops, i + 1, target)
    }
}

/// A found instruction index lies in range and carries the searched offset.
pub proof fn lemma_op_index_found(ops: Seq<(OpCode, u16)>, i: int, target: u16)
    ensures
        op_index_from(ops, i, target) matches Some(t) ==> i <= t < ops.len() && ops[t].1 == target,
    decreases ops.len() - i,
{
    if i < 0 || i >= ops.len() {
    } else if ops[i].1 == target {
    } else {
        lemma_op_index_found(ops, i + 1, target);
    }
}

/// Finds the instruction whose byte offset equals `idx`, by a linear scan.
pub fn find_op_with_offset(ops: &Vec<(OpCode, u16)>, idx: u16) -> (r: Option<usize>)
    ensures
        match r {
            Option::Some(k) => op_index_from(ops@, 0, idx) == Some(k as int) && k < ops@.len(),
            Option::None => op_index_from(ops@, 0, idx) is None,
        },
{
    let mut current: usize = 0;
    while current < ops.len()
        invariant
            current <= ops@.len(),
            op_index_from(ops@, 0, idx) == op_index_from(ops@, current as int, idx),
        decreases ops@.len() - current,
    {
        if ops[current].1 == idx {
            return Some(current);
        }
        current = current + 1;
    }
    None
}

/// Computes the absolute byte offset of a branch: the instruction's own
/// offset plus the relative delta, wrapped to 16 bits.
fn wrap_offset(off: u16, delta: i32) -> (r: u16)
    ensures
        r == abs_off(off, delta as int),
{
    let sum: i64 = off as i64 + delta as i64;
    let shifted: i64 = sum + 0x100000000;
    let m: i64 = shifted % 0x10000;
    proof {
        vstd::arithmetic::div_mod::lemma_mod_multiples_vanish(0x10000int, sum as int, 0x10000int);
        assert(0x10000 * 0x10000 + sum as int == shifted as int);
    }
    m as u16
}

/// Maps a relative branch offset to the index of the instruction that starts
/// at the absolute target offset.
fn resolve_jump(ops: &Vec<(OpCode, u16)>, off: u16, delta: i32) -> (r: Result<usize, ResolveError>)
    ensures
        match op_index_from(ops@, 0, abs_off(off, delta as int)) {
            Option::Some(t) => r matches Ok(u) && u == t && u < ops@.len(),
            Option::None => r == Err::<usize, ResolveError>(ResolveError::BadBranchTarget),
        },
{
    let target = wrap_offset(off, delta);
    match find_op_with_offset(ops, target) {
        Some(k) => Ok(k),
        None => Err(ResolveError::BadBranchTarget),
    }
}

// ---------------------------------------------------------------------------
// What each raw opcode resolves to
// ---------------------------------------------------------------------------

/// `d` is the descriptor `L<path>;` of an object reference whose flattened
/// type identifier is `tinfo`.
pub open spec fn obj_ref_type(d: Seq<char>, tinfo: Seq<char>) -> bool {
    &&& d.len() >= 1
    &&& d[0] == 'L'
    &&& find_from(d, 1, ';') == Some(d.len() - 1)
    &&& tinfo == flat_of(d.subrange(1, d.len() - 1))
}

/// The get-static variant that a field of class `cn`, name `fnm` and
/// descriptor `d` resolves to: one specialized op per field type, with the
/// referenced type carried along for object and array fields.
pub open spec fn get_static_resolves(cn: Seq<char>, fnm: Seq<char>, d: Seq<char>, fat: FatOp) -> bool {
    match fat {
        FatOp::ZGetStatic(ci, name) => ci@ == flat_of(cn) && name@ == fnm && vt_parses(d, 0, d.len() as int, VariableType::Bool),
        FatOp::BGetStatic(ci, name) => ci@ == flat_of(cn) && name@ == fnm && vt_parses(d, 0, d.len() as int, VariableType::Byte),
        FatOp::SGetStatic(ci, name) => ci@ == flat_of(cn) && name@ == fnm && vt_parses(d, 0, d.len() as int, VariableType::Short),
        FatOp::CGetStatic(ci, name) => ci@ == flat_of(cn) && name@ == fnm && vt_parses(d, 0, d.len() as int, VariableType::Char),
        FatOp::IGetStatic(ci, name) => ci@ == flat_of(cn) && name@ == fnm && vt_parses(d, 0, d.len() as int, VariableType::Int),
        FatOp::LGetStatic(ci, name) => ci@ == flat_of(cn) && name@ == fnm && vt_parses(d, 0, d.len() as int, VariableType::Long),
        FatOp::FGetStatic(ci, name) => ci@ == flat_of(cn) && name@ == fnm && vt_parses(d, 0, d.len() as int, VariableType::Float),
        FatOp::DGetStatic(ci, name) => ci@ == flat_of(cn) && name@ == fnm && vt_parses(d, 0, d.len() as int, VariableType::Double),
        FatOp::AGetStatic { class_info, static_name, type_info } => class_info@ == flat_of(cn) && static_name@ == fnm && obj_ref_type(d, type_info@),
        FatOp::AAGetStatic { class_info, static_name, atype } => class_info@ == flat_of(cn) && static_name@ == fnm && d.len() >= 1 && d[0] == '[' && vt_parses(d, 1, d.len() as int, atype),
        _ => false,
    }
}

/// The put-static variant a field resolves to.
pub open spec fn put_static_resolves(cn: Seq<char>, fnm: Seq<char>, d: Seq<char>, fat: FatOp) -> bool {
    match fat {
        FatOp::ZPutStatic(ci, name) => ci@ == flat_of(cn) && name@ == fnm && vt_parses(d, 0, d.len() as int, VariableType::Bool),
        FatOp::BPutStatic(ci, name) => ci@ == flat_of(cn) && name@ == fnm && vt_parses(d, 0, d.len() as int, VariableType::Byte),
        FatOp::SPutStatic(ci, name) => ci@ == flat_of(cn) && name@ == fnm && vt_parses(d, 0, d.len() as int, VariableType::Short),
        FatOp::CPutStatic(ci, name) => ci@ == flat_of(cn) && name@ == fnm && vt_parses(d, 0, d.len() as int, VariableType::Char),
        FatOp::IPutStatic(ci, name) => ci@ == flat_of(cn) && name@ == fnm && vt_parses(d, 0, d.len() as int, VariableType::Int),
        FatOp::LPutStatic(ci, name) => ci@ == flat_of(cn) && name@ == fnm && vt_parses(d, 0, d.len() as int, VariableType::Long),
        FatOp::FPutStatic(ci, name) => ci@ == flat_of(cn) && name@ == fnm && vt_parses(d, 0, d.len() as int, VariableType::Float),
        FatOp::DPutStatic(ci, name) => ci@ == flat_of(cn) && name@ == fnm && vt_parses(d, 0, d.len() as int, VariableType::Double),
        FatOp::APutStatic { class_info, field_name, type_info } => class_info@ == flat_of(cn) && field_name@ == fnm && obj_ref_type(d, type_info@),
        FatOp::AAPutStatic { class_info, field_name, atype } => class_info@ == flat_of(cn) && field_name@ == fnm && d.len() >= 1 && d[0] == '[' && vt_parses(d, 1, d.len() as int, atype),
        _ => false,
    }
}

/// The get-field variant a field resolves to.
pub open spec fn get_field_resolves(cn: Seq<char>, fnm: Seq<char>, d: Seq<char>, fat: FatOp) -> bool {
    match fat {
        FatOp::ZGetField(ci, name) => ci@ == flat_of(cn) && name@ == fnm && vt_parses(d, 0, d.len() as int, VariableType::Bool),
        FatOp::BGetField(ci, name) => ci@ == flat_of(cn) && name@ == fnm && vt_parses(d, 0, d.len() as int, VariableType::Byte),
        FatOp::SGetField(ci, name) => ci@ == flat_of(cn) && name@ == fnm && vt_parses(d, 0, d.len() as int, VariableType::Short),
        FatOp::CGetField(ci, name) => ci@ == flat_of(cn) && name@ == fnm && vt_parses(d, 0, d.len() as int, VariableType::Char),
        FatOp::IGetField(ci, name) => ci@ == flat_of(cn) && name@ == fnm && vt_parses(d, 0, d.len() as int, VariableType::Int),
        FatOp::LGetField(ci, name) => ci@ == flat_of(cn) && name@ == fnm && vt_parses(d, 0, d.len() as int, VariableType::Long),
        FatOp::FGetField(ci, name) => ci@ == flat_of(cn) && name@ == fnm && vt_parses(d, 0, d.len() as int, VariableType::Float),
        FatOp::DGetField(ci, name) => ci@ == flat_of(cn) && name@ == fnm && vt_parses(d, 0, d.len() as int, VariableType::Double),
        FatOp::AGetField { class_info, field_name, type_info } => class_info@ == flat_of(cn) && field_name@ == fnm && obj_ref_type(d, type_info@),
        FatOp::AAGetField { class_info, field_name, atype } => class_info@ == flat_of(cn) && field_name@ == fnm && d.len() >= 1 && d[0] == '[' && vt_parses(d, 1, d.len() as int, atype),
        _ => false,
    }
}

/// The put-field variant a field resolves to.
pub open spec fn put_field_resolves(cn: Seq<char>, fnm: Seq<char>, d: Seq<char>, fat: FatOp) -> bool {
    match fat {
        FatOp::ZPutField(ci, name) => ci@ == flat_of(cn) && name@ == fnm && vt_parses(d, 0, d.len() as int, VariableType::Bool),
        FatOp::BPutField(ci, name) => ci@ == flat_of(cn) && name@ == fnm && vt_parses(d, 0, d.len() as int, VariableType::Byte),
        FatOp::SPutField(ci, name) => ci@ == flat_of(cn) && name@ == fnm && vt_parses(d, 0, d.len() as int, VariableType::Short),
        FatOp::CPutField(ci, name) => ci@ == flat_of(cn) && name@ == fnm && vt_parses(d, 0, d.len() as int, VariableType::Char),
        FatOp::IPutField(ci, name) => ci@ == flat_of(cn) && name@ == fnm && vt_parses(d, 0, d.len() as int, VariableType::Int),
        FatOp::LPutField(ci, name) => ci@ == flat_of(cn) && name@ == fnm && vt_parses(d, 0, d.len() as int, VariableType::Long),
        FatOp::FPutField(ci, name) => ci@ == flat_of(cn) && name@ == fnm && vt_parses(d, 0, d.len() as int, VariableType::Float),
        FatOp::DPutField(ci, name) => ci@ == flat_of(cn) && name@ == fnm && vt_parses(d, 0, d.len() as int, VariableType::Double),
        FatOp::APutField { class_info, field_name, type_info } => class_info@ == flat_of(cn) && field_name@ == fnm && obj_ref_type(d, type_info@),
        FatOp::AAPutField { class_info, field_name, atype } => class_info@ == flat_of(cn) && field_name@ == fnm && d.len() >= 1 && d[0] == '[' && vt_parses(d, 1, d.len() as int, atype),
        _ => false,
    }
}

/// The typed constant a load-constant opcode resolves to, by the kind of the
/// pool entry it addresses.
pub open spec fn const_resolves(pool: Seq<ConstantItem>, index: u16, fat: FatOp) -> bool {
    match pool_at(pool, index) {
        Option::Some(ConstantItem::Integer(v)) => fat == FatOp::IConst(v),
        Option::Some(ConstantItem::Long(v)) => fat == FatOp::LConst(v),
        Option::Some(ConstantItem::Float(bits)) => fat == FatOp::FConst(bits),
        Option::Some(ConstantItem::Double(bits)) => fat == FatOp::DConst(bits),
        Option::Some(ConstantItem::ConstString { string_index }) => match utf8_at(pool, string_index) {
            Option::Some(s) => fat matches FatOp::StringConst(st) && st@ == s,
            Option::None => false,
        },
        Option::Some(ConstantItem::Class { name_index }) => match utf8_at(pool, name_index) {
            Option::Some(nm) => fat matches FatOp::ClassConst(ci) && ci@ == flat_of(nm),
            Option::None => false,
        },
        _ => false,
    }
}

/// Whether a load-constant opcode addresses a supported pool entry.
pub open spec fn const_resolvable(pool: Seq<ConstantItem>, index: u16) -> bool {
    match pool_at(pool, index) {
        Option::Some(ConstantItem::Integer(_)) => true,
        Option::Some(ConstantItem::Long(_)) => true,
        Option::Some(ConstantItem::Float(_)) => true,
        Option::Some(ConstantItem::Double(_)) => true,
        Option::Some(ConstantItem::ConstString { string_index }) => utf8_at(pool, string_index) is Some,
        Option::Some(ConstantItem::Class { name_index }) => utf8_at(pool, name_index) is Some,
        _ => false,
    }
}

/// The resolved switch: the default target and every (key, target) pair
/// retargeted from byte offsets to instruction indices, pair order kept.
pub open spec fn switch_resolves(ops: Seq<(OpCode, u16)>, off: u16, sw: LookupSwitch, fat: FatOp) -> bool {
    match fat {
        FatOp::LookupSwitch { default_op, pairs } => {
            &&& op_index_from(ops, 0, abs_off(off, sw.default_offset as int)) == Some(default_op as int)
            &&& pairs@.len() == sw.pairs@.len()
            &&& forall|k: int|
                0 <= k < pairs@.len() ==> #[trigger] pairs@[k].0 == sw.pairs@[k].0 && op_index_from(
                    ops,
                    0,
                    abs_off(off, sw.pairs@[k].1 as int),
                ) == Some(pairs@[k].1 as int)
        },
        _ => false,
    }
}

/// Whether every target of a raw switch aligns with an instruction start.
pub open spec fn switch_resolvable(ops: Seq<(OpCode, u16)>, off: u16, sw: LookupSwitch) -> bool {
    &&& op_index_from(ops, 0, abs_off(off, sw.default_offset as int)) is Some
    &&& forall|k: int|
        0 <= k < sw.pairs@.len() ==> #[trigger] op_index_from(
            ops,
            0,
            abs_off(off, sw.pairs@[k].1 as int),
        ) is Some
}

/// The mangled name of a method site.
pub open spec fn site_mangled(site: (Seq<char>, Seq<char>, Seq<char>)) -> Seq<char> {
    mangled_of(site.1, site.2)
}

/// The invoke-special form: a constructor call is lowered to a virtual call
/// so overriding logic is honored; a genuine special call keeps only the
/// argument count.
pub open spec fn invoke_special_resolves(pool: Seq<ConstantItem>, index: u16, fat: FatOp) -> bool {
    match method_site(pool, index) {
        Option::Some(site) => {
            if has_ctor_marker(site_mangled(site)) {
                match fat {
                    FatOp::InvokeVirtual(ci, m, args, ret) => ci@ == flat_of(site.0) && m@
                        == site_mangled(site) && desc_parses(site.2, args@, ret),
                    _ => false,
                }
            } else {
                match fat {
                    FatOp::InvokeSpecial(ci, m, argc) => ci@ == flat_of(site.0) && m@
                        == site_mangled(site) && args_scan_count(site.2, 1) == Some(argc as int),
                    _ => false,
                }
            }
        },
        Option::None => false,
    }
}

/// The invoke-static form: full signature kept.
pub open spec fn invoke_static_resolves(pool: Seq<ConstantItem>, index: u16, fat: FatOp) -> bool {
    match method_site(pool, index) {
        Option::Some(site) => match fat {
            FatOp::InvokeStatic(ci, m, args, ret) => ci@ == flat_of(site.0) && m@ == site_mangled(
                site,
            ) && desc_parses(site.2, args@, ret),
            _ => false,
        },
        Option::None => false,
    }
}

/// The invoke-virtual form: full signature kept, dispatched later through the
/// receiver's vtable by the mangled name.
pub open spec fn invoke_virtual_resolves(pool: Seq<ConstantItem>, index: u16, fat: FatOp) -> bool {
    match method_site(pool, index) {
        Option::Some(site) => match fat {
            FatOp::InvokeVirtual(ci, m, args, ret) => ci@ == flat_of(site.0) && m@ == site_mangled(
                site,
            ) && desc_parses(site.2, args@, ret),
            _ => false,
        },
        Option::None => false,
    }
}

/// The invoke-interface form: the mangled name and the argument count with
/// one added for the implicit receiver.
pub open spec fn invoke_interface_resolves(pool: Seq<ConstantItem>, index: u16, fat: FatOp) -> bool {
    match method_site(pool, index) {
        Option::Some(site) => match argc_of(site.2) {
            Option::Some(n) => match fat {
                FatOp::InvokeInterface(m, a) => m@ == site_mangled(site) && a == n + 1 && n + 1
                    <= u8::MAX,
                _ => false,
            },
            Option::None => false,
        },
        Option::None => false,
    }
}

/// Whether the invoke-dynamic bookkeeping (call-site entry, bootstrap method,
/// method handle) can be located; the op itself stays unsupported.
pub open spec fn invoke_dynamic_resolvable(
    pool: Seq<ConstantItem>,
    boot: Seq<BootstrapMethod>,
    index: u16,
) -> bool {
    match invoke_dynamic_at(pool, index) {
        Option::Some(idy) => idy.0 < boot.len() && method_handle_at(
            pool,
            boot[idy.0 as int].bootstrap_method_ref,
        ) is Some,
        Option::None => false,
    }
}

/// The flattened class reference a class-entry index resolves to.
pub open spec fn class_ref_resolves(pool: Seq<ConstantItem>, index: u16, ci: ClassInfo) -> bool {
    match class_name_at(pool, index) {
        Option::Some(nm) => ci@ == flat_of(nm),
        Option::None => false,
    }
}

/// `fat` is the resolution of the raw instruction `(op, off)` within the
/// instruction table `ops` and the pool and bootstrap tables of its class.
pub open spec fn resolves(
    op: OpCode,
    off: u16,
    ops: Seq<(OpCode, u16)>,
    pool: Seq<ConstantItem>,
    boot: Seq<BootstrapMethod>,
    fat: FatOp,
) -> bool {
    match op {
        OpCode::LoadConst(index) => const_resolves(pool, index, fat),
        OpCode::AConstNull => fat == FatOp::AConstNull,
        OpCode::BIPush(v) => fat == FatOp::BConst(v),
        OpCode::SIPush(v) => fat == FatOp::SConst(v),
        OpCode::IConst(v) => fat == FatOp::IConst(v),
        OpCode::FConst(b) => fat == FatOp::FConst(b),
        OpCode::DConst(b) => fat == FatOp::DConst(b),
        OpCode::LConst(v) => fat == FatOp::LConst(v),
        OpCode::LCmp => fat == FatOp::LCmp,
        OpCode::FCmpG => fat == FatOp::FCmpG,
        OpCode::FCmpL => fat == FatOp::FCmpL,
        OpCode::DCmpL => fat == FatOp::DCmpL,
        OpCode::DCmpG => fat == FatOp::DCmpG,
        OpCode::F2D => fat == FatOp::F2D,
        OpCode::D2F => fat == FatOp::D2F,
        OpCode::ISub => fat == FatOp::ISub,
        OpCode::DSub => fat == FatOp::DSub,
        OpCode::FSub => fat == FatOp::FSub,
        OpCode::LSub => fat == FatOp::LSub,
        OpCode::DAdd => fat == FatOp::DAdd,
        OpCode::FAdd => fat == FatOp::FAdd,
        OpCode::IAdd => fat == FatOp::IAdd,
        OpCode::LAdd => fat == FatOp::LAdd,
        OpCode::DMul => fat == FatOp::DMul,
        OpCode::FMul => fat == FatOp::FMul,
        OpCode::IMul => fat == FatOp::IMul,
        OpCode::LMul => fat == FatOp::LMul,
        OpCode::DDiv => fat == FatOp::DDiv,
        OpCode::FDiv => fat == FatOp::FDiv,
        OpCode::IDiv => fat == FatOp::IDiv,
        OpCode::LDiv => fat == FatOp::LDiv,
        OpCode::DRem => fat == FatOp::DRem,
        OpCode::FRem => fat == FatOp::FRem,
        OpCode::IRem => fat == FatOp::IRem,
        OpCode::LRem => fat == FatOp::LRem,
        OpCode::IShr => fat == FatOp::IShr,
        OpCode::IShl => fat == FatOp::IShl,
        OpCode::LShl => fat == FatOp::LShl,
        OpCode::LUShr => fat == FatOp::LUShr,
        OpCode::IUShr => fat == FatOp::IUShr,
        OpCode::IAnd => fat == FatOp::IAnd,
        OpCode::LAnd => fat == FatOp::LAnd,
        OpCode::IOr => fat == FatOp::IOr,
        OpCode::LOr => fat == FatOp::LOr,
        OpCode::IXOr => fat == FatOp::IXOr,
        OpCode::LXOr => fat == FatOp::LXOr,
        OpCode::INeg => fat == FatOp::INeg,
        OpCode::LNeg => fat == FatOp::LNeg,
        OpCode::DNeg => fat == FatOp::DNeg,
        OpCode::FNeg => fat == FatOp::FNeg,
        OpCode::L2I => fat == FatOp::L2I,
        OpCode::L2F => fat == FatOp::L2F,
        OpCode::F2I => fat == FatOp::F2I,
        OpCode::F2L => fat == FatOp::F2L,
        OpCode::I2B => fat == FatOp::I2B,
        OpCode::I2C => fat == FatOp::I2C,
        OpCode::I2F => fat == FatOp::I2F,
        OpCode::I2D => fat == FatOp::I2D,
        OpCode::I2S => fat == FatOp::I2S,
        OpCode::I2L => fat == FatOp::I2L,
        OpCode::D2I => fat == FatOp::D2I,
        OpCode::D2L => fat == FatOp::D2L,
        OpCode::L2D => fat == FatOp::L2D,
        OpCode::ALoad(i) => fat == FatOp::ALoad(i),
        OpCode::ILoad(i) => fat == FatOp::ILoad(i),
        OpCode::LLoad(i) => fat == FatOp::LLoad(i),
        OpCode::FLoad(i) => fat == FatOp::FLoad(i),
        OpCode::DLoad(i) => fat == FatOp::DLoad(i),
        OpCode::AStore(i) => fat == FatOp::AStore(i),
        OpCode::DStore(i) => fat == FatOp::DStore(i),
        OpCode::FStore(i) => fat == FatOp::FStore(i),
        OpCode::IStore(i) => fat == FatOp::IStore(i),
        OpCode::LStore(i) => fat == FatOp::LStore(i),
        OpCode::GetStatic(index) => match field_site(pool, index) {
            Option::Some(site) => get_static_resolves(site.0, site.1, site.2, fat),
            Option::None => false,
        },
        OpCode::PutStatic(index) => match field_site(pool, index) {
            Option::Some(site) => put_static_resolves(site.0, site.1, site.2, fat),
            Option::None => false,
        },
        OpCode::GetField(index) => match field_site(pool, index) {
            Option::Some(site) => get_field_resolves(site.0, site.1, site.2, fat),
            Option::None => false,
        },
        OpCode::PutField(index) => match field_site(pool, index) {
            Option::Some(site) => put_field_resolves(site.0, site.1, site.2, fat),
            Option::None => false,
        },
        OpCode::IfICmpEq(d) => match op_index_from(ops, 0, abs_off(off, d as int)) {
            Option::Some(t) => fat == FatOp::IfICmpEq(t as usize),
            Option::None => false,
        },
        OpCode::IfNull(d) => match op_index_from(ops, 0, abs_off(off, d as int)) {
            Option::Some(t) => fat == FatOp::IfNull(t as usize),
            Option::None => false,
        },
        OpCode::IfNotNull(d) => match op_index_from(ops, 0, abs_off(off, d as int)) {
            Option::Some(t) => fat == FatOp::IfNotNull(t as usize),
            Option::None => false,
        },
        OpCode::IfZero(d) => match op_index_from(ops, 0, abs_off(off, d as int)) {
            Option::Some(t) => fat == FatOp::IfZero(t as usize),
            Option::None => false,
        },
        OpCode::IfNotZero(d) => match op_index_from(ops, 0, abs_off(off, d as int)) {
            Option::Some(t) => fat == FatOp::IfNotZero(t as usize),
            Option::None => false,
        },
        OpCode::IfICmpNe(d) => match op_index_from(ops, 0, abs_off(off, d as int)) {
            Option::Some(t) => fat == FatOp::IfICmpNe(t as usize),
            Option::None => false,
        },
        OpCode::IfACmpEq(d) => match op_index_from(ops, 0, abs_off(off, d as int)) {
            Option::Some(t) => fat == FatOp::IfACmpEq(t as usize),
            Option::None => false,
        },
        OpCode::IfIGreterEqual(d) => match op_index_from(ops, 0, abs_off(off, d as int)) {
            Option::Some(t) => fat == FatOp::IfIGreterEqual(t as usize),
            Option::None => false,
        },
        OpCode::IfGreterEqualZero(d) => match op_index_from(ops, 0, abs_off(off, d as int)) {
            Option::Some(t) => fat == FatOp::IfGreterEqualZero(t as usize),
            Option::None => false,
        },
        OpCode::IfGreterZero(d) => match op_index_from(ops, 0, abs_off(off, d as int)) {
            Option::Some(t) => fat == FatOp::IfGreterZero(t as usize),
            Option::None => false,
        },
        OpCode::IfICmpGreater(d) => match op_index_from(ops, 0, abs_off(off, d as int)) {
            Option::Some(t) => fat == FatOp::IfICmpGreater(t as usize),
            Option::None => false,
        },
        OpCode::IfLessZero(d) => match op_index_from(ops, 0, abs_off(off, d as int)) {
            Option::Some(t) => fat == FatOp::IfLessZero(t as usize),
            Option::None => false,
        },
        OpCode::IfICmpLessEqual(d) => match op_index_from(ops, 0, abs_off(off, d as int)) {
            Option::Some(t) => fat == FatOp::IfICmpLessEqual(t as usize),
            Option::None => false,
        },
        OpCode::IfICmpLessThan(d) => match op_index_from(ops, 0, abs_off(off, d as int)) {
            Option::Some(t) => fat == FatOp::IfICmpLess(t as usize),
            Option::None => false,
        },
        OpCode::IfLessEqualZero(d) => match op_index_from(ops, 0, abs_off(off, d as int)) {
            Option::Some(t) => fat == FatOp::IfLessEqualZero(t as usize),
            Option::None => false,
        },
        OpCode::IfACmpNe(d) => match op_index_from(ops, 0, abs_off(off, d as int)) {
            Option::Some(t) => fat == FatOp::IfACmpNe(t as usize),
            Option::None => false,
        },
        OpCode::GoTo(d) => match op_index_from(ops, 0, abs_off(off, d as int)) {
            Option::Some(t) => fat == FatOp::GoTo(t as usize),
            Option::None => false,
        },
        OpCode::New(index) => match fat {
            FatOp::New(ci) => class_ref_resolves(pool, index, ci),
            _ => false,
        },
        OpCode::ANewArray(index) => match fat {
            FatOp::ANewArray(ci) => class_ref_resolves(pool, index, ci),
            _ => false,
        },
        OpCode::MultiANewArray(index, dims) => match fat {
            FatOp::MultiANewArray(ci, d2) => class_ref_resolves(pool, index, ci) && d2 == dims,
            _ => false,
        },
        OpCode::NewArray(tid) => {
            if tid == 4 {
                fat == FatOp::ZNewArray
            } else if tid == 5 {
                fat == FatOp::CNewArray
            } else if tid == 6 {
                fat == FatOp::FNewArray
            } else if tid == 7 {
                fat == FatOp::DNewArray
            } else if tid == 8 {
                fat == FatOp::BNewArray
            } else if tid == 9 {
                fat == FatOp::SNewArray
            } else if tid == 10 {
                fat == FatOp::INewArray
            } else if tid == 11 {
                fat == FatOp::LNewArray
            } else {
                false
            }
        },
        OpCode::CheckCast(index) => match fat {
            FatOp::CheckedCast(ci) => class_ref_resolves(pool, index, ci),
            _ => false,
        },
        OpCode::InstanceOf(index) => match fat {
            FatOp::InstanceOf(ci) => class_ref_resolves(pool, index, ci),
            _ => false,
        },
        OpCode::Swap => fat == FatOp::Swap,
        OpCode::Dup => fat == FatOp::Dup,
        OpCode::Dup2 => fat == FatOp::Dup2,
        OpCode::DupX1 => fat == FatOp::DupX1,
        OpCode::Dup2X1 => fat == FatOp::Dup2X1,
        OpCode::DupX2 => fat == FatOp::DupX2,
        OpCode::Dup2X2 => fat == FatOp::Dup2X2,
        OpCode::Pop => fat == FatOp::Pop,
        OpCode::Pop2 => fat == FatOp::Pop2,
        OpCode::InvokeSpecial(index) => invoke_special_resolves(pool, index, fat),
        OpCode::InvokeStatic(index) => invoke_static_resolves(pool, index, fat),
        OpCode::InvokeVirtual(index) => invoke_virtual_resolves(pool, index, fat),
        OpCode::InvokeInterface(index) => invoke_interface_resolves(pool, index, fat),
        OpCode::InvokeDynamic(index) => invoke_dynamic_resolvable(pool, boot, index) && fat
            == FatOp::InvokeDynamic,
        OpCode::Return => fat == FatOp::Return,
        OpCode::AReturn => fat == FatOp::AReturn,
        OpCode::FReturn => fat == FatOp::FReturn,
        OpCode::IReturn => fat == FatOp::IReturn,
        OpCode::LReturn => fat == FatOp::LReturn,
        OpCode::DReturn => fat == FatOp::DReturn,
        OpCode::AAStore => fat == FatOp::AAStore,
        OpCode::BAStore => fat == FatOp::BAStore,
        OpCode::CAStore => fat == FatOp::CAStore,
        OpCode::DAStore => fat == FatOp::DAStore,
        OpCode::FAStore => fat == FatOp::FAStore,
        OpCode::IAStore => fat == FatOp::IAStore,
        OpCode::LAStore => fat == FatOp::LAStore,
        OpCode::SAStore => fat == FatOp::SAStore,
        OpCode::AALoad => fat == FatOp::AALoad,
        OpCode::BALoad => fat == FatOp::BALoad,
        OpCode::CALoad => fat == FatOp::CALoad,
        OpCode::DALoad => fat == FatOp::DALoad,
        OpCode::FALoad => fat == FatOp::FALoad,
        OpCode::IALoad => fat == FatOp::IALoad,
        OpCode::LALoad => fat == FatOp::LALoad,
        OpCode::SALoad => fat == FatOp::SALoad,
        OpCode::ArrayLength => fat == FatOp::ArrayLength,
        OpCode::IInc(local, delta) => fat == FatOp::IInc(local, delta),
        OpCode::Throw => fat == FatOp::Throw,
        OpCode::MonitorEnter => fat == FatOp::MonitorEnter,
        OpCode::MonitorExit => fat == FatOp::MonitorExit,
        OpCode::LookupSwitch(sw) => switch_resolves(ops, off, sw, fat),
    }
}

/// Whether the raw instruction `(op, off)` can be resolved at all: its pool
/// lookups succeed, its descriptors parse, its field type is not void, its
/// counts fit, and its branch targets align with instruction starts.
pub open spec fn resolvable(
    op: OpCode,
    off: u16,
    ops: Seq<(OpCode, u16)>,
    pool: Seq<ConstantItem>,
    boot: Seq<BootstrapMethod>,
) -> bool {
    match op {
        OpCode::LoadConst(index) => const_resolvable(pool, index),
        OpCode::GetStatic(index) => field_ok(pool, index),
        OpCode::PutStatic(index) => field_ok(pool, index),
        OpCode::GetField(index) => field_ok(pool, index),
        OpCode::PutField(index) => field_ok(pool, index),
        OpCode::IfICmpEq(d) => op_index_from(ops, 0, abs_off(off, d as int)) is Some,
        OpCode::IfNull(d) => op_index_from(ops, 0, abs_off(off, d as int)) is Some,
        OpCode::IfNotNull(d) => op_index_from(ops, 0, abs_off(off, d as int)) is Some,
        OpCode::IfZero(d) => op_index_from(ops, 0, abs_off(off, d as int)) is Some,
        OpCode::IfNotZero(d) => op_index_from(ops, 0, abs_off(off, d as int)) is Some,
        OpCode::IfICmpNe(d) => op_index_from(ops, 0, abs_off(off, d as int)) is Some,
        OpCode::IfACmpEq(d) => op_index_from(ops, 0, abs_off(off, d as int)) is Some,
        OpCode::IfIGreterEqual(d) => op_index_from(ops, 0, abs_off(off, d as int)) is Some,
        OpCode::IfGreterEqualZero(d) => op_index_from(ops, 0, abs_off(off, d as int)) is Some,
        OpCode::IfGreterZero(d) => op_index_from(ops, 0, abs_off(off, d as int)) is Some,
        OpCode::IfICmpGreater(d) => op_index_from(ops, 0, abs_off(off, d as int)) is Some,
        OpCode::IfLessZero(d) => op_index_from(ops, 0, abs_off(off, d as int)) is Some,
        OpCode::IfICmpLessEqual(d) => op_index_from(ops, 0, abs_off(off, d as int)) is Some,
        OpCode::IfICmpLessThan(d) => op_index_from(ops, 0, abs_off(off, d as int)) is Some,
        OpCode::IfLessEqualZero(d) => op_index_from(ops, 0, abs_off(off, d as int)) is Some,
        OpCode::IfACmpNe(d) => op_index_from(ops, 0, abs_off(off, d as int)) is Some,
        OpCode::GoTo(d) => op_index_from(ops, 0, abs_off(off, d as int)) is Some,
        OpCode::New(index) => class_name_at(pool, index) is Some,
        OpCode::ANewArray(index) => class_name_at(pool, index) is Some,
        OpCode::MultiANewArray(index, _dims) => class_name_at(pool, index) is Some,
        OpCode::NewArray(tid) => 4 <= tid <= 11,
        OpCode::CheckCast(index) => class_name_at(pool, index) is Some,
        OpCode::InstanceOf(index) => class_name_at(pool, index) is Some,
        OpCode::InvokeSpecial(index) => match method_site(pool, index) {
            Option::Some(site) => method_desc_ok(site.2) && (has_ctor_marker(site_mangled(site))
                || (args_scan_count(site.2, 1) matches Some(n) && n <= u8::MAX)),
            Option::None => false,
        },
        OpCode::InvokeStatic(index) => match method_site(pool, index) {
            Option::Some(site) => method_desc_ok(site.2),
            Option::None => false,
        },
        OpCode::InvokeVirtual(index) => match method_site(pool, index) {
            Option::Some(site) => method_desc_ok(site.2),
            Option::None => false,
        },
        OpCode::InvokeInterface(index) => match method_site(pool, index) {
            Option::Some(site) => match argc_of(site.2) {
                Option::Some(n) => n + 1 <= u8::MAX,
                Option::None => false,
            },
            Option::None => false,
        },
        OpCode::InvokeDynamic(index) => invoke_dynamic_resolvable(pool, boot, index),
        OpCode::LookupSwitch(sw) => switch_resolvable(ops, off, sw),
        _ => true,
    }
}

// ---------------------------------------------------------------------------
// The resolver
// ---------------------------------------------------------------------------

/// Resolves a get-static access into its type-specialized form.
fn expand_get_static(index: u16, class: &JavaClassFile) -> (r: Result<FatOp, ResolveError>)
    ensures
        r matches Ok(f) ==> match field_site(class.spec_pool(), index) {
            Option::Some(site) => get_static_resolves(site.0, site.1, site.2, f),
            Option::None => false,
        },
        r is Ok <==> field_ok(class.spec_pool(), index),
{
    let (ftype, class_name, static_name) = match fieldref_to_info(index, class) {
        Ok(v) => v,
        Err(e) => {
            return Err(e);
        },
    };
    let class_info = ClassInfo::from_java_path(class_name.as_str());
    match ftype {
        VariableType::Bool => Ok(FatOp::ZGetStatic(class_info, static_name)),
        VariableType::Byte => Ok(FatOp::BGetStatic(class_info, static_name)),
        VariableType::Short => Ok(FatOp::SGetStatic(class_info, static_name)),
        VariableType::Char => Ok(FatOp::CGetStatic(class_info, static_name)),
        VariableType::Int => Ok(FatOp::IGetStatic(class_info, static_name)),
        VariableType::Long => Ok(FatOp::LGetStatic(class_info, static_name)),
        VariableType::Float => Ok(FatOp::FGetStatic(class_info, static_name)),
        VariableType::Double => Ok(FatOp::DGetStatic(class_info, static_name)),
        VariableType::ObjectRef(type_info) => Ok(
            FatOp::AGetStatic { class_info, static_name, type_info },
        ),
        VariableType::ArrayRef(atype) => Ok(
            FatOp::AAGetStatic { class_info, static_name, atype: *atype },
        ),
        VariableType::Void => Err(ResolveError::VoidField),
    }
}

/// Resolves a put-static access into its type-specialized form.
fn expand_put_static(index: u16, class: &JavaClassFile) -> (r: Result<FatOp, ResolveError>)
    ensures
        r matches Ok(f) ==> match field_site(class.spec_pool(), index) {
            Option::Some(site) => put_static_resolves(site.0, site.1, site.2, f),
            Option::None => false,
        },
        r is Ok <==> field_ok(class.spec_pool(), index),
{
    let (ftype, class_name, field_name) = match fieldref_to_info(index, class) {
        Ok(v) => v,
        Err(e) => {
            return Err(e);
        },
    };
    let class_info = ClassInfo::from_java_path(class_name.as_str());
    match ftype {
        VariableType::Bool => Ok(FatOp::ZPutStatic(class_info, field_name)),
        VariableType::Byte => Ok(FatOp::BPutStatic(class_info, field_name)),
        VariableType::Short => Ok(FatOp::SPutStatic(class_info, field_name)),
        VariableType::Char => Ok(FatOp::CPutStatic(class_info, field_name)),
        VariableType::Int => Ok(FatOp::IPutStatic(class_info, field_name)),
        VariableType::Long => Ok(FatOp::LPutStatic(class_info, field_name)),
        VariableType::Float => Ok(FatOp::FPutStatic(class_info, field_name)),
        VariableType::Double => Ok(FatOp::DPutStatic(class_info, field_name)),
        VariableType::ObjectRef(type_info) => Ok(
            FatOp::APutStatic { class_info, field_name, type_info },
        ),
        VariableType::ArrayRef(atype) => Ok(
            FatOp::AAPutStatic { class_info, field_name, atype: *atype },
        ),
        VariableType::Void => Err(ResolveError::VoidField),
    }
}

/// Resolves a get-field access into its type-specialized form.
fn expand_get_field(index: u16, class: &JavaClassFile) -> (r: Result<FatOp, ResolveError>)
    ensures
        r matches Ok(f) ==> match field_site(class.spec_pool(), index) {
            Option::Some(site) => get_field_resolves(site.0, site.1, site.2, f),
            Option::None => false,
        },
        r is Ok <==> field_ok(class.spec_pool(), index),
{
    let (ftype, class_name, field_name) = match fieldref_to_info(index, class) {
        Ok(v) => v,
        Err(e) => {
            return Err(e);
        },
    };
    let class_info = ClassInfo::from_java_path(class_name.as_str());
    match ftype {
        VariableType::Bool => Ok(FatOp::ZGetField(class_info, field_name)),
        VariableType::Byte => Ok(FatOp::BGetField(class_info, field_name)),
        VariableType::Short => Ok(FatOp::SGetField(class_info, field_name)),
        VariableType::Char => Ok(FatOp::CGetField(class_info, field_name)),
        VariableType::Int => Ok(FatOp::IGetField(class_info, field_name)),
        VariableType::Long => Ok(FatOp::LGetField(class_info, field_name)),
        VariableType::Float => Ok(FatOp::FGetField(class_info, field_name)),
        VariableType::Double => Ok(FatOp::DGetField(class_info, field_name)),
        VariableType::ObjectRef(type_info) => Ok(
            FatOp::AGetField { class_info, field_name, type_info },
        ),
        VariableType::ArrayRef(atype) => Ok(
            FatOp::AAGetField { class_info, field_name, atype: *atype },
        ),
        VariableType::Void => Err(ResolveError::VoidField),
    }
}

/// Resolves a put-field access into its type-specialized form.
fn expand_put_field(index: u16, class: &JavaClassFile) -> (r: Result<FatOp, ResolveError>)
    ensures
        r matches Ok(f) ==> match field_site(class.spec_pool(), index) {
            Option::Some(site) => put_field_resolves(site.0, site.1, site.2, f),
            Option::None => false,
        },
        r is Ok <==> field_ok(class.spec_pool(), index),
{
    let (ftype, class_name, field_name) = match fieldref_to_info(index, class) {
        Ok(v) => v,
        Err(e) => {
            return Err(e);
        },
    };
    let class_info = ClassInfo::from_java_path(class_name.as_str());
    match ftype {
        VariableType::Bool => Ok(FatOp::ZPutField(class_info, field_name)),
        VariableType::Byte => Ok(FatOp::BPutField(class_info, field_name)),
        VariableType::Short => Ok(FatOp::SPutField(class_info, field_name)),
        VariableType::Char => Ok(FatOp::CPutField(class_info, field_name)),
        VariableType::Int => Ok(FatOp::IPutField(class_info, field_name)),
        VariableType::Long => Ok(FatOp::LPutField(class_info, field_name)),
        VariableType::Float => Ok(FatOp::FPutField(class_info, field_name)),
        VariableType::Double => Ok(FatOp::DPutField(class_info, field_name)),
        VariableType::ObjectRef(type_info) => Ok(
            FatOp::APutField { class_info, field_name, type_info },
        ),
        VariableType::ArrayRef(atype) => Ok(
            FatOp::AAPutField { class_info, field_name, atype: *atype },
        ),
        VariableType::Void => Err(ResolveError::VoidField),
    }
}

/// Specializes a load-constant opcode by the kind of its pool entry.
fn expand_load_const(index: u16, class: &JavaClassFile) -> (r: Result<FatOp, ResolveError>)
    ensures
        r matches Ok(f) ==> const_resolves(class.spec_pool(), index, f),
        r is Ok <==> const_resolvable(class.spec_pool(), index),
{
    let item = match class.lookup_item(index) {
        Some(v) => v,
        None => {
            return Err(ResolveError::BadConstantIndex);
        },
    };
    match item {
        ConstantItem::ConstString { string_index } => match class.lookup_utf8(*string_index) {
            Some(s) => Ok(FatOp::StringConst(s.clone())),
            None => Err(ResolveError::BadConstantIndex),
        },
        ConstantItem::Class { name_index } => match class.lookup_utf8(*name_index) {
            Some(s) => Ok(FatOp::ClassConst(ClassInfo::from_java_path(s.as_str()))),
            None => Err(ResolveError::BadConstantIndex),
        },
        ConstantItem::Float(bits) => Ok(FatOp::FConst(*bits)),
        ConstantItem::Double(bits) => Ok(FatOp::DConst(*bits)),
        ConstantItem::Integer(v) => Ok(FatOp::IConst(*v)),
        ConstantItem::Long(v) => Ok(FatOp::LConst(*v)),
        _ => Err(ResolveError::UnsupportedConstant),
    }
}

/// Resolves a class-entry index into a flattened class reference.
fn class_info_at(index: u16, class: &JavaClassFile) -> (r: Result<ClassInfo, ResolveError>)
    ensures
        match class_name_at(class.spec_pool(), index) {
            Option::Some(nm) => r matches Ok(ci) && ci@ == flat_of(nm),
            Option::None => r == Err::<ClassInfo, ResolveError>(ResolveError::BadConstantIndex),
        },
{
    match class.lookup_class(index) {
        Some(name) => Ok(ClassInfo::from_java_path(name.as_str())),
        None => Err(ResolveError::BadConstantIndex),
    }
}

/// Resolves an invoke-special site: constructor calls are lowered to virtual
/// calls; genuine special calls keep only their argument count.
fn expand_invoke_special(index: u16, class: &JavaClassFile) -> (r: Result<FatOp, ResolveError>)
    ensures
        r matches Ok(f) ==> invoke_special_resolves(class.spec_pool(), index, f),
        r is Ok <==> match method_site(class.spec_pool(), index) {
            Option::Some(site) => method_desc_ok(site.2) && (has_ctor_marker(site_mangled(site))
                || (args_scan_count(site.2, 1) matches Some(n) && n <= u8::MAX)),
            Option::None => false,
        },
{
    let (method_class, method_name, args, ret) = match methodref_to_mangled_and_sig(index, class) {
        Ok(v) => v,
        Err(e) => {
            return Err(e);
        },
    };
    let class_info = ClassInfo::from_java_path(method_class.as_str());
    if contains_ctor_marker(method_name.as_str()) {
        Ok(FatOp::InvokeVirtual(class_info, method_name, args, ret))
    } else {
        if args.len() > 255 {
            return Err(ResolveError::TooManyArgs);
        }
        Ok(FatOp::InvokeSpecial(class_info, method_name, args.len() as u8))
    }
}

/// Resolves an invoke-static site with its full signature.
fn expand_invoke_static(index: u16, class: &JavaClassFile) -> (r: Result<FatOp, ResolveError>)
    ensures
        r matches Ok(f) ==> invoke_static_resolves(class.spec_pool(), index, f),
        r is Ok <==> match method_site(class.spec_pool(), index) {
            Option::Some(site) => method_desc_ok(site.2),
            Option::None => false,
        },
{
    let (method_class, method_name, args, ret) = match methodref_to_mangled_and_sig(index, class) {
        Ok(v) => v,
        Err(e) => {
            return Err(e);
        },
    };
    let class_info = ClassInfo::from_java_path(method_class.as_str());
    Ok(FatOp::InvokeStatic(class_info, method_name, args, ret))
}

/// Resolves an invoke-virtual site with its full signature; the call binds to
/// the receiver's class at run time through the mangled name.
fn expand_invoke_virtual(index: u16, class: &JavaClassFile) -> (r: Result<FatOp, ResolveError>)
    ensures
        r matches Ok(f) ==> invoke_virtual_resolves(class.spec_pool(), index, f),
        r is Ok <==> match method_site(class.spec_pool(), index) {
            Option::Some(site) => method_desc_ok(site.2),
            Option::None => false,
        },
{
    let (method_class, method_name, args, ret) = match methodref_to_mangled_and_sig(index, class) {
        Ok(v) => v,
        Err(e) => {
            return Err(e);
        },
    };
    let class_info = ClassInfo::from_java_path(method_class.as_str());
    Ok(FatOp::InvokeVirtual(class_info, method_name, args, ret))
}

/// Resolves an invoke-interface site: the mangled name and the argument count
/// incremented by one for the implicit receiver.
fn expand_invoke_interface(index: u16, class: &JavaClassFile) -> (r: Result<FatOp, ResolveError>)
    ensures
        r matches Ok(f) ==> invoke_interface_resolves(class.spec_pool(), index, f),
        r is Ok <==> match method_site(class.spec_pool(), index) {
            Option::Some(site) => match argc_of(site.2) {
                Option::Some(n) => n + 1 <= u8::MAX,
                Option::None => false,
            },
            Option::None => false,
        },
{
    let (name, argc) = match methodref_to_mangled_and_argc(index, class) {
        Ok(v) => v,
        Err(e) => {
            return Err(e);
        },
    };
    if argc == 255 {
        return Err(ResolveError::TooManyArgs);
    }
    Ok(FatOp::InvokeInterface(name, argc + 1))
}

/// Locates the bookkeeping of an invoke-dynamic site; the op itself is
/// emitted as a stand-in that only fails when executed.
fn expand_invoke_dynamic(index: u16, class: &JavaClassFile) -> (r: Result<FatOp, ResolveError>)
    ensures
        r matches Ok(f) ==> f == FatOp::InvokeDynamic,
        r is Ok <==> invoke_dynamic_resolvable(
            class.spec_pool(),
            class.spec_bootstrap(),
            index,
        ),
{
    let (bootstrap_method_attr_index, _name_and_type_index) = match class.lookup_invoke_dynamic(
        index,
    ) {
        Some(v) => v,
        None => {
            return Err(ResolveError::BadConstantIndex);
        },
    };
    let bootstrap_method = match class.lookup_bootstrap_method(bootstrap_method_attr_index) {
        Some(v) => v,
        None => {
            return Err(ResolveError::BadConstantIndex);
        },
    };
    let (_reference_kind, _reference_index) = match class.lookup_method_handle(
        bootstrap_method.bootstrap_method_ref,
    ) {
        Some(v) => v,
        None => {
            return Err(ResolveError::BadConstantIndex);
        },
    };
    Ok(FatOp::InvokeDynamic)
}

/// Resolves one raw instruction against the instruction table and the owning
/// class's pool: every symbolic reference becomes a concrete description and
/// every relative offset an absolute instruction index.
#[verifier::rlimit(100)]
#[verifier::spinoff_prover]
fn expand_op(op: &OpCode, off: u16, ops: &Vec<(OpCode, u16)>, class: &JavaClassFile) -> (r: Result<
    FatOp,
    ResolveError,
>)
    ensures
        r matches Ok(f) ==> resolves(
            *op,
            off,
            ops@,
            class.spec_pool(),
            class.spec_bootstrap(),
            f,
        ),
        r is Ok <==> resolvable(*op, off, ops@, class.spec_pool(), class.spec_bootstrap()),
{
    match op {
        OpCode::LoadConst(index) => expand_load_const(*index, class),
        OpCode::AConstNull => Ok(FatOp::AConstNull),
        OpCode::BIPush(v) => Ok(FatOp::BConst(*v)),
        OpCode::SIPush(v) => Ok(FatOp::SConst(*v)),
        OpCode::IConst(v) => Ok(FatOp::IConst(*v)),
        OpCode::FConst(b) => Ok(FatOp::FConst(*b)),
        OpCode::DConst(b) => Ok(FatOp::DConst(*b)),
        OpCode::LConst(v) => Ok(FatOp::LConst(*v)),
        OpCode::LCmp => Ok(FatOp::LCmp),
        OpCode::FCmpG => Ok(FatOp::FCmpG),
        OpCode::FCmpL => Ok(FatOp::FCmpL),
        OpCode::DCmpL => Ok(FatOp::DCmpL),
        OpCode::DCmpG => Ok(FatOp::DCmpG),
        OpCode::F2D => Ok(FatOp::F2D),
        OpCode::D2F => Ok(FatOp::D2F),
        OpCode::ISub => Ok(FatOp::ISub),
        OpCode::DSub => Ok(FatOp::DSub),
        OpCode::FSub => Ok(FatOp::FSub),
        OpCode::LSub => Ok(FatOp::LSub),
        OpCode::DAdd => Ok(FatOp::DAdd),
        OpCode::FAdd => Ok(FatOp::FAdd),
        OpCode::IAdd => Ok(FatOp::IAdd),
        OpCode::LAdd => Ok(FatOp::LAdd),
        OpCode::DMul => Ok(FatOp::DMul),
        OpCode::FMul => Ok(FatOp::FMul),
        OpCode::IMul => Ok(FatOp::IMul),
        OpCode::LMul => Ok(FatOp::LMul),
        OpCode::DDiv => Ok(FatOp::DDiv),
        OpCode::FDiv => Ok(FatOp::FDiv),
        OpCode::IDiv => Ok(FatOp::IDiv),
        OpCode::LDiv => Ok(FatOp::LDiv),
        OpCode::DRem => Ok(FatOp::DRem),
        OpCode::FRem => Ok(FatOp::FRem),
        OpCode::IRem => Ok(FatOp::IRem),
        OpCode::LRem => Ok(FatOp::LRem),
        OpCode::IShr => Ok(FatOp::IShr),
        OpCode::IShl => Ok(FatOp::IShl),
        OpCode::LShl => Ok(FatOp::LShl),
        OpCode::LUShr => Ok(FatOp::LUShr),
        OpCode::IUShr => Ok(FatOp::IUShr),
        OpCode::IAnd => Ok(FatOp::IAnd),
        OpCode::LAnd => Ok(FatOp::LAnd),
        OpCode::IOr => Ok(FatOp::IOr),
        OpCode::LOr => Ok(FatOp::LOr),
        OpCode::IXOr => Ok(FatOp::IXOr),
        OpCode::LXOr => Ok(FatOp::LXOr),
        OpCode::INeg => Ok(FatOp::INeg),
        OpCode::LNeg => Ok(FatOp::LNeg),
        OpCode::DNeg => Ok(FatOp::DNeg),
        OpCode::FNeg => Ok(FatOp::FNeg),
        OpCode::L2I => Ok(FatOp::L2I),
        OpCode::L2F => Ok(FatOp::L2F),
        OpCode::F2I => Ok(FatOp::F2I),
        OpCode::F2L => Ok(FatOp::F2L),
        OpCode::I2B => Ok(FatOp::I2B),
        OpCode::I2C => Ok(FatOp::I2C),
        OpCode::I2F => Ok(FatOp::I2F),
        OpCode::I2D => Ok(FatOp::I2D),
        OpCode::I2S => Ok(FatOp::I2S),
        OpCode::I2L => Ok(FatOp::I2L),
        OpCode::D2I => Ok(FatOp::D2I),
        OpCode::D2L => Ok(FatOp::D2L),
        OpCode::L2D => Ok(FatOp::L2D),
        OpCode::ALoad(i) => Ok(FatOp::ALoad(*i)),
        OpCode::ILoad(i) => Ok(FatOp::ILoad(*i)),
        OpCode::LLoad(i) => Ok(FatOp::LLoad(*i)),
        OpCode::FLoad(i) => Ok(FatOp::FLoad(*i)),
        OpCode::DLoad(i) => Ok(FatOp::DLoad(*i)),
        OpCode::AStore(i) => Ok(FatOp::AStore(*i)),
        OpCode::DStore(i) => Ok(FatOp::DStore(*i)),
        OpCode::FStore(i) => Ok(FatOp::FStore(*i)),
        OpCode::IStore(i) => Ok(FatOp::IStore(*i)),
        OpCode::LStore(i) => Ok(FatOp::LStore(*i)),
        OpCode::GetStatic(index) => expand_get_static(*index, class),
        OpCode::PutStatic(index) => expand_put_static(*index, class),
        OpCode::GetField(index) => expand_get_field(*index, class),
        OpCode::PutField(index) => expand_put_field(*index, class),
        OpCode::IfICmpEq(d) => match resolve_jump(ops, off, *d as i32) {
            Ok(t) => Ok(FatOp::IfICmpEq(t)),
            Err(e) => Err(e),
        },
        OpCode::IfNull(d) => match resolve_jump(ops, off, *d as i32) {
            Ok(t) => Ok(FatOp::IfNull(t)),
            Err(e) => Err(e),
        },
        OpCode::IfNotNull(d) => match resolve_jump(ops, off, *d as i32) {
            Ok(t) => Ok(FatOp::IfNotNull(t)),
            Err(e) => Err(e),
        },
        OpCode::IfZero(d) => match resolve_jump(ops, off, *d as i32) {
            Ok(t) => Ok(FatOp::IfZero(t)),
            Err(e) => Err(e),
        },
        OpCode::IfNotZero(d) => match resolve_jump(ops, off, *d as i32) {
            Ok(t) => Ok(FatOp::IfNotZero(t)),
            Err(e) => Err(e),
        },
        OpCode::IfICmpNe(d) => match resolve_jump(ops, off, *d as i32) {
            Ok(t) => Ok(FatOp::IfICmpNe(t)),
            Err(e) => Err(e),
        },
        OpCode::IfACmpEq(d) => match resolve_jump(ops, off, *d as i32) {
            Ok(t) => Ok(FatOp::IfACmpEq(t)),
            Err(e) => Err(e),
        },
        OpCode::IfIGreterEqual(d) => match resolve_jump(ops, off, *d as i32) {
            Ok(t) => Ok(FatOp::IfIGreterEqual(t)),
            Err(e) => Err(e),
        },
        OpCode::IfGreterEqualZero(d) => match resolve_jump(ops, off, *d as i32) {
            Ok(t) => Ok(FatOp::IfGreterEqualZero(t)),
            Err(e) => Err(e),
        },
        OpCode::IfGreterZero(d) => match resolve_jump(ops, off, *d as i32) {
            Ok(t) => Ok(FatOp::IfGreterZero(t)),
            Err(e) => Err(e),
        },
        OpCode::IfICmpGreater(d) => match resolve_jump(ops, off, *d as i32) {
            Ok(t) => Ok(FatOp::IfICmpGreater(t)),
            Err(e) => Err(e),
        },
        OpCode::IfLessZero(d) => match resolve_jump(ops, off, *d as i32) {
            Ok(t) => Ok(FatOp::IfLessZero(t)),
            Err(e) => Err(e),
        },
        OpCode::IfICmpLessEqual(d) => match resolve_jump(ops, off, *d as i32) {
            Ok(t) => Ok(FatOp::IfICmpLessEqual(t)),
            Err(e) => Err(e),
        },
        OpCode::IfICmpLessThan(d) => match resolve_jump(ops, off, *d as i32) {
            Ok(t) => Ok(FatOp::IfICmpLess(t)),
            Err(e) => Err(e),
        },
        OpCode::IfLessEqualZero(d) => match resolve_jump(ops, off, *d as i32) {
            Ok(t) => Ok(FatOp::IfLessEqualZero(t)),
            Err(e) => Err(e),
        },
        OpCode::IfACmpNe(d) => match resolve_jump(ops, off, *d as i32) {
            Ok(t) => Ok(FatOp::IfACmpNe(t)),
            Err(e) => Err(e),
        },
        OpCode::GoTo(d) => match resolve_jump(ops, off, *d as i32) {
            Ok(t) => Ok(FatOp::GoTo(t)),
            Err(e) => Err(e),
        },
        OpCode::New(index) => match class_info_at(*index, class) {
            Ok(ci) => Ok(FatOp::New(ci)),
            Err(e) => Err(e),
        },
        OpCode::ANewArray(index) => match class_info_at(*index, class) {
            Ok(ci) => Ok(FatOp::ANewArray(ci)),
            Err(e) => Err(e),
        },
        OpCode::MultiANewArray(index, dimensions) => match class_info_at(*index, class) {
            Ok(ci) => Ok(FatOp::MultiANewArray(ci, *dimensions)),
            Err(e) => Err(e),
        },
        OpCode::NewArray(typeid) => {
            if *typeid == 4 {
                Ok(FatOp::ZNewArray)
            } else if *typeid == 5 {
                Ok(FatOp::CNewArray)
            } else if *typeid == 6 {
                Ok(FatOp::FNewArray)
            } else if *typeid == 7 {
                Ok(FatOp::DNewArray)
            } else if *typeid == 8 {
                Ok(FatOp::BNewArray)
            } else if *typeid == 9 {
                Ok(FatOp::SNewArray)
            } else if *typeid == 10 {
                Ok(FatOp::INewArray)
            } else if *typeid == 11 {
                Ok(FatOp::LNewArray)
            } else {
                Err(ResolveError::BadNewArrayType)
            }
        },
        OpCode::CheckCast(index) => match class_info_at(*index, class) {
            Ok(ci) => Ok(FatOp::CheckedCast(ci)),
            Err(e) => Err(e),
        },
        OpCode::InstanceOf(index) => match class_info_at(*index, class) {
            Ok(ci) => Ok(FatOp::InstanceOf(ci)),
            Err(e) => Err(e),
        },
        OpCode::Swap => Ok(FatOp::Swap),
        OpCode::Dup => Ok(FatOp::Dup),
        OpCode::Dup2 => Ok(FatOp::Dup2),
        OpCode::DupX1 => Ok(FatOp::DupX1),
        OpCode::Dup2X1 => Ok(FatOp::Dup2X1),
        OpCode::DupX2 => Ok(FatOp::DupX2),
        OpCode::Dup2X2 => Ok(FatOp::Dup2X2),
        OpCode::Pop => Ok(FatOp::Pop),
        OpCode::Pop2 => Ok(FatOp::Pop2),
        OpCode::InvokeSpecial(index) => expand_invoke_special(*index, class),
        OpCode::InvokeStatic(index) => expand_invoke_static(*index, class),
        OpCode::InvokeVirtual(index) => expand_invoke_virtual(*index, class),
        OpCode::InvokeInterface(index) => expand_invoke_interface(*index, class),
        OpCode::InvokeDynamic(index) => expand_invoke_dynamic(*index, class),
        OpCode::Return => Ok(FatOp::Return),
        OpCode::AReturn => Ok(FatOp::AReturn),
        OpCode::FReturn => Ok(FatOp::FReturn),
        OpCode::IReturn => Ok(FatOp::IReturn),
        OpCode::LReturn => Ok(FatOp::LReturn),
        OpCode::DReturn => Ok(FatOp::DReturn),
        OpCode::AAStore => Ok(FatOp::AAStore),
        OpCode::BAStore => Ok(FatOp::BAStore),
        OpCode::CAStore => Ok(FatOp::CAStore),
        OpCode::DAStore => Ok(FatOp::DAStore),
        OpCode::FAStore => Ok(FatOp::FAStore),
        OpCode::IAStore => Ok(FatOp::IAStore),
        OpCode::LAStore => Ok(FatOp::LAStore),
        OpCode::SAStore => Ok(FatOp::SAStore),
        OpCode::AALoad => Ok(FatOp::AALoad),
        OpCode::BALoad => Ok(FatOp::BALoad),
        OpCode::CALoad => Ok(FatOp::CALoad),
        OpCode::DALoad => Ok(FatOp::DALoad),
        OpCode::FALoad => Ok(FatOp::FALoad),
        OpCode::IALoad => Ok(FatOp::IALoad),
        OpCode::LALoad => Ok(FatOp::LALoad),
        OpCode::SALoad => Ok(FatOp::SALoad),
        OpCode::ArrayLength => Ok(FatOp::ArrayLength),
        OpCode::IInc(local, offset) => Ok(FatOp::IInc(*local, *offset)),
        OpCode::Throw => Ok(FatOp::Throw),
        OpCode::MonitorEnter => Ok(FatOp::MonitorEnter),
        OpCode::MonitorExit => Ok(FatOp::MonitorExit),
        OpCode::LookupSwitch(switch) => expand_switch(switch, off, ops),
    }
}

/// Retargets a lookup-switch: the default offset and every (key, offset)
/// pair become instruction indices, pair order preserved.
fn expand_switch(switch: &LookupSwitch, off: u16, ops: &Vec<(OpCode, u16)>) -> (r: Result<
    FatOp,
    ResolveError,
>)
    ensures
        r matches Ok(f) ==> switch_resolves(ops@, off, *switch, f),
        r is Ok <==> switch_resolvable(ops@, off, *switch),
{
    let default_op = match resolve_jump(ops, off, switch.default_offset) {
        Ok(t) => t,
        Err(e) => {
            return Err(e);
        },
    };
    let mut pairs: Vec<(i32, usize)> = Vec::new();
    let mut k: usize = 0;
    while k < switch.pairs.len()
        invariant
            k <= switch.pairs@.len(),
            pairs@.len() == k,
            op_index_from(ops@, 0, abs_off(off, switch.default_offset as int)) == Some(
                default_op as int,
            ),
            forall|j: int|
                0 <= j < k ==> #[trigger] pairs@[j].0 == switch.pairs@[j].0 && op_index_from(
                    ops@,
                    0,
                    abs_off(off, switch.pairs@[j].1 as int),
                ) == Some(pairs@[j].1 as int),
        decreases switch.pairs@.len() - k,
    {
        let (key, offset) = switch.pairs[k];
        let target = match resolve_jump(ops, off, offset) {
            Ok(t) => t,
            Err(e) => {
                proof {
                    assert(op_index_from(ops@, 0, abs_off(off, switch.pairs@[k as int].1 as int))
                        is None);
                }
                return Err(e);
            },
        };
        pairs.push((key, target));
        k = k + 1;
    }
    proof {
        assert forall|j: int| 0 <= j < switch.pairs@.len() implies #[trigger] op_index_from(
            ops@,
            0,
            abs_off(off, switch.pairs@[j].1 as int),
        ) is Some by {
            assert(pairs@[j].0 == switch.pairs@[j].0);
        }
    }
    Ok(FatOp::LookupSwitch { default_op, pairs })
}

/// Resolves a method's whole raw opcode stream: a 1:1, order-preserving
/// rewrite in which every instruction of the result is the resolution of the
/// raw instruction at the same position, or the first fatal condition aborts
/// the load.
pub fn expand_ops(ops: &Vec<(OpCode, u16)>, class: &JavaClassFile) -> (r: Result<
    Vec<FatOp>,
    ResolveError,
>)
    ensures
        r matches Ok(fats) ==> {
            &&& fats@.len() == ops@.len()
            &&& forall|i: int|
                0 <= i < ops@.len() ==> resolves(
                    ops@[i].0,
                    ops@[i].1,
                    ops@,
                    class.spec_pool(),
                    class.spec_bootstrap(),
                    #[trigger] fats@[i],
                )
        },
        r is Ok <==> (forall|i: int|
            0 <= i < ops@.len() ==> #[trigger] resolvable(
                ops@[i].0,
                ops@[i].1,
                ops@,
                class.spec_pool(),
                class.spec_bootstrap(),
            )),
{
    let mut fatops: Vec<FatOp> = Vec::new();
    let mut i: usize = 0;
    while i < ops.len()
        invariant
            i <= ops@.len(),
            fatops@.len() == i,
            forall|j: int|
                0 <= j < i ==> resolves(
                    ops@[j].0,
                    ops@[j].1,
                    ops@,
                    class.spec_pool(),
                    class.spec_bootstrap(),
                    #[trigger] fatops@[j],
                ),
            forall|j: int|
                0 <= j < i ==> #[trigger] resolvable(
                    ops@[j].0,
                    ops@[j].1,
                    ops@,
                    class.spec_pool(),
                    class.spec_bootstrap(),
                ),
        decreases ops@.len() - i,
    {
        let pair = &ops[i];
        match expand_op(&pair.0, pair.1, ops, class) {
            Ok(fat) => {
                fatops.push(fat);
            },
            Err(e) => {
                proof {
                    assert(!resolvable(
                        ops@[i as int].0,
                        ops@[i as int].1,
                        ops@,
                        class.spec_pool(),
                        class.spec_bootstrap(),
                    ));
                }
                return Err(e);
            },
        }
        i = i + 1;
    }
    Ok(fatops)
}

// ---------------------------------------------------------------------------
// Jump targets and the resolution laws
// ---------------------------------------------------------------------------

/// The branch targets a resolved instruction carries, in order: the single
/// target of a conditional or unconditional jump, or the default target of a
/// switch followed by its pair targets.
pub open spec fn jump_targets_of(fat: FatOp) -> Option<Seq<usize>> {
    match fat {
        FatOp::IfACmpEq(t) => Some(seq![t]),
        FatOp::IfICmpGreater(t) => Some(seq![t]),
        FatOp::IfIGreterEqual(t) => Some(seq![t]),
        FatOp::IfGreterEqualZero(t) => Some(seq![t]),
        FatOp::IfGreterZero(t) => Some(seq![t]),
        FatOp::IfLessZero(t) => Some(seq![t]),
        FatOp::IfLessEqualZero(t) => Some(seq![t]),
        FatOp::IfNull(t) => Some(seq![t]),
        FatOp::IfNotNull(t) => Some(seq![t]),
        FatOp::IfZero(t) => Some(seq![t]),
        FatOp::IfNotZero(t) => Some(seq![t]),
        FatOp::IfICmpNe(t) => Some(seq![t]),
        FatOp::IfICmpEq(t) => Some(seq![t]),
        FatOp::IfACmpNe(t) => Some(seq![t]),
        FatOp::IfICmpLessEqual(t) => Some(seq![t]),
        FatOp::IfICmpLess(t) => Some(seq![t]),
        FatOp::GoTo(t) => Some(seq![t]),
        FatOp::LookupSwitch { default_op, pairs } => Some(
            seq![default_op] + pairs@.map_values(|p: (i32, usize)| p.1),
        ),
        _ => None,
    }
}

/// The absolute byte offsets a raw branch or switch instruction mentions, in
/// the same order as the resolved targets.
pub open spec fn branch_abs_offsets(op: OpCode, off: u16) -> Option<Seq<u16>> {
    match op {
        OpCode::IfICmpEq(d) => Some(seq![abs_off(off, d as int)]),
        OpCode::IfNull(d) => Some(seq![abs_off(off, d as int)]),
        OpCode::IfNotNull(d) => Some(seq![abs_off(off, d as int)]),
        OpCode::IfZero(d) => Some(seq![abs_off(off, d as int)]),
        OpCode::IfNotZero(d) => Some(seq![abs_off(off, d as int)]),
        OpCode::IfICmpNe(d) => Some(seq![abs_off(off, d as int)]),
        OpCode::IfACmpEq(d) => Some(seq![abs_off(off, d as int)]),
        OpCode::IfIGreterEqual(d) => Some(seq![abs_off(off, d as int)]),
        OpCode::IfGreterEqualZero(d) => Some(seq![abs_off(off, d as int)]),
        OpCode::IfGreterZero(d) => Some(seq![abs_off(off, d as int)]),
        OpCode::IfICmpGreater(d) => Some(seq![abs_off(off, d as int)]),
        OpCode::IfLessZero(d) => Some(seq![abs_off(off, d as int)]),
        OpCode::IfICmpLessEqual(d) => Some(seq![abs_off(off, d as int)]),
        OpCode::IfICmpLessThan(d) => Some(seq![abs_off(off, d as int)]),
        OpCode::IfLessEqualZero(d) => Some(seq![abs_off(off, d as int)]),
        OpCode::IfACmpNe(d) => Some(seq![abs_off(off, d as int)]),
        OpCode::GoTo(d) => Some(seq![abs_off(off, d as int)]),
        OpCode::LookupSwitch(sw) => Some(
            seq![abs_off(off, sw.default_offset as int)] + sw.pairs@.map_values(
                |p: (i32, i32)| abs_off(off, p.1 as int),
            ),
        ),
        _ => None,
    }
}

/// Round-trip law of branch resolution: for every branch or switch
/// instruction, each resolved target index addresses an instruction of the
/// same table whose byte offset equals the absolute byte offset computed from
/// the raw instruction, target for target and in order.
#[verifier::rlimit(100)]
#[verifier::spinoff_prover]
pub proof fn lemma_branch_roundtrip(
    op: OpCode,
    off: u16,
    ops: Seq<(OpCode, u16)>,
    pool: Seq<ConstantItem>,
    boot: Seq<BootstrapMethod>,
    fat: FatOp,
)
    requires
        ops.len() <= usize::MAX,
        resolves(op, off, ops, pool, boot, fat),
    ensures
        branch_abs_offsets(op, off) matches Some(offs) ==> (jump_targets_of(fat) matches Some(ts)
            && ts.len() == offs.len() && (forall|k: int|
            0 <= k < offs.len() ==> #[trigger] ts[k] < ops.len() && ops[ts[k] as int].1
                == offs[k])),
{
    match op {
        OpCode::IfICmpEq(d) => lemma_op_index_found(ops, 0, abs_off(off, d as int)),
        OpCode::IfNull(d) => lemma_op_index_found(ops, 0, abs_off(off, d as int)),
        OpCode::IfNotNull(d) => lemma_op_index_found(ops, 0, abs_off(off, d as int)),
        OpCode::IfZero(d) => lemma_op_index_found(ops, 0, abs_off(off, d as int)),
        OpCode::IfNotZero(d) => lemma_op_index_found(ops, 0, abs_off(off, d as int)),
        OpCode::IfICmpNe(d) => lemma_op_index_found(ops, 0, abs_off(off, d as int)),
        OpCode::IfACmpEq(d) => lemma_op_index_found(ops, 0, abs_off(off, d as int)),
        OpCode::IfIGreterEqual(d) => lemma_op_index_found(ops, 0, abs_off(off, d as int)),
        OpCode::IfGreterEqualZero(d) => lemma_op_index_found(ops, 0, abs_off(off, d as int)),
        OpCode::IfGreterZero(d) => lemma_op_index_found(ops, 0, abs_off(off, d as int)),
        OpCode::IfICmpGreater(d) => lemma_op_index_found(ops, 0, abs_off(off, d as int)),
        OpCode::IfLessZero(d) => lemma_op_index_found(ops, 0, abs_off(off, d as int)),
        OpCode::IfICmpLessEqual(d) => lemma_op_index_found(ops, 0, abs_off(off, d as int)),
        OpCode::IfICmpLessThan(d) => lemma_op_index_found(ops, 0, abs_off(off, d as int)),
        OpCode::IfLessEqualZero(d) => lemma_op_index_found(ops, 0, abs_off(off, d as int)),
        OpCode::IfACmpNe(d) => lemma_op_index_found(ops, 0, abs_off(off, d as int)),
        OpCode::GoTo(d) => lemma_op_index_found(ops, 0, abs_off(off, d as int)),
        OpCode::LookupSwitch(sw) => {
            lemma_op_index_found(ops, 0, abs_off(off, sw.default_offset as int));
            match fat {
                FatOp::LookupSwitch { default_op, pairs } => {
                    let ts = seq![default_op] + pairs@.map_values(|p: (i32, usize)| p.1);
                    let offs = seq![abs_off(off, sw.default_offset as int)]
                        + sw.pairs@.map_values(|p: (i32, i32)| abs_off(off, p.1 as int));
                    assert(ts.len() == offs.len());
                    assert forall|k: int| 0 <= k < offs.len() implies #[trigger] ts[k] < ops.len()
                        && ops[ts[k] as int].1 == offs[k] by {
                        if k == 0 {
                        } else {
                            assert(pairs@[k - 1].0 == sw.pairs@[k - 1].0);
                            assert(ts[k] == pairs@[k - 1].1);
                            assert(offs[k] == abs_off(off, sw.pairs@[k - 1].1 as int));
                            lemma_op_index_found(ops, 0, abs_off(off, sw.pairs@[k - 1].1 as int));
                        }
                    }
                    assert(jump_targets_of(fat) == Some(ts));
                    assert(branch_abs_offsets(op, off) == Some(offs));
                },
                _ => {},
            }
        },
        _ => {},
    }
}

/// Specialization totality of static field reads: a resolved get-static on a
/// field whose descriptor denotes each of the eight primitive kinds, an
/// object reference or an array reference carries exactly the matching
/// specialized variant, and no resolution exists for a void-typed field.
pub proof fn lemma_get_static_specialization(
    cn: Seq<char>,
    fnm: Seq<char>,
    d: Seq<char>,
    ftype: VariableType,
    fat: FatOp,
)
    requires
        vt_parses(d, 0, d.len() as int, ftype),
        get_static_resolves(cn, fnm, d, fat),
    ensures
        match ftype {
            VariableType::Bool => fat is ZGetStatic,
            VariableType::Byte => fat is BGetStatic,
            VariableType::Short => fat is SGetStatic,
            VariableType::Char => fat is CGetStatic,
            VariableType::Int => fat is IGetStatic,
            VariableType::Long => fat is LGetStatic,
            VariableType::Float => fat is FGetStatic,
            VariableType::Double => fat is DGetStatic,
            VariableType::ObjectRef(_) => fat is AGetStatic,
            VariableType::ArrayRef(_) => fat is AAGetStatic,
            VariableType::Void => false,
        },
{
}

/// Specialization totality of static field writes.
pub proof fn lemma_put_static_specialization(
    cn: Seq<char>,
    fnm: Seq<char>,
    d: Seq<char>,
    ftype: VariableType,
    fat: FatOp,
)
    requires
        vt_parses(d, 0, d.len() as int, ftype),
        put_static_resolves(cn, fnm, d, fat),
    ensures
        match ftype {
            VariableType::Bool => fat is ZPutStatic,
            VariableType::Byte => fat is BPutStatic,
            VariableType::Short => fat is SPutStatic,
            VariableType::Char => fat is CPutStatic,
            VariableType::Int => fat is IPutStatic,
            VariableType::Long => fat is LPutStatic,
            VariableType::Float => fat is FPutStatic,
            VariableType::Double => fat is DPutStatic,
            VariableType::ObjectRef(_) => fat is APutStatic,
            VariableType::ArrayRef(_) => fat is AAPutStatic,
            VariableType::Void => false,
        },
{
}

/// Specialization totality of instance field reads.
pub proof fn lemma_get_field_specialization(
    cn: Seq<char>,
    fnm: Seq<char>,
    d: Seq<char>,
    ftype: VariableType,
    fat: FatOp,
)
    requires
        vt_parses(d, 0, d.len() as int, ftype),
        get_field_resolves(cn, fnm, d, fat),
    ensures
        match ftype {
            VariableType::Bool => fat is ZGetField,
            VariableType::Byte => fat is BGetField,
            VariableType::Short => fat is SGetField,
            VariableType::Char => fat is CGetField,
            VariableType::Int => fat is IGetField,
            VariableType::Long => fat is LGetField,
            VariableType::Float => fat is FGetField,
            VariableType::Double => fat is DGetField,
            VariableType::ObjectRef(_) => fat is AGetField,
            VariableType::ArrayRef(_) => fat is AAGetField,
            VariableType::Void => false,
        },
{
}

/// Specialization totality of instance field writes.
pub proof fn lemma_put_field_specialization(
    cn: Seq<char>,
    fnm: Seq<char>,
    d: Seq<char>,
    ftype: VariableType,
    fat: FatOp,
)
    requires
        vt_parses(d, 0, d.len() as int, ftype),
        put_field_resolves(cn, fnm, d, fat),
    ensures
        match ftype {
            VariableType::Bool => fat is ZPutField,
            VariableType::Byte => fat is BPutField,
            VariableType::Short => fat is SPutField,
            VariableType::Char => fat is CPutField,
            VariableType::Int => fat is IPutField,
            VariableType::Long => fat is LPutField,
            VariableType::Float => fat is FPutField,
            VariableType::Double => fat is DPutField,
            VariableType::ObjectRef(_) => fat is APutField,
            VariableType::ArrayRef(_) => fat is AAPutField,
            VariableType::Void => false,
        },
{
}

impl FatOp {
    /// The branch targets the instruction jumps to, or nothing for an
    /// instruction that falls through.
    pub fn jump_target(&self) -> (r: Option<JumpTargets>)
        ensures
            match r {
                Option::Some(tv) => jump_targets_of(*self) matches Some(ts) && sv_elems(tv) == ts,
                Option::None => jump_targets_of(*self) is None,
            },
    {
        match self {
            FatOp::IfACmpEq(target) => Some(Self::single_target(*target)),
            FatOp::IfICmpGreater(target) => Some(Self::single_target(*target)),
            FatOp::IfIGreterEqual(target) => Some(Self::single_target(*target)),
            FatOp::IfGreterEqualZero(target) => Some(Self::single_target(*target)),
            FatOp::IfGreterZero(target) => Some(Self::single_target(*target)),
            FatOp::IfLessZero(target) => Some(Self::single_target(*target)),
            FatOp::IfLessEqualZero(target) => Some(Self::single_target(*target)),
            FatOp::IfNull(target) => Some(Self::single_target(*target)),
            FatOp::IfNotNull(target) => Some(Self::single_target(*target)),
            FatOp::IfZero(target) => Some(Self::single_target(*target)),
            FatOp::IfNotZero(target) => Some(Self::single_target(*target)),
            FatOp::IfICmpNe(target) => Some(Self::single_target(*target)),
            FatOp::IfICmpEq(target) => Some(Self::single_target(*target)),
            FatOp::IfACmpNe(target) => Some(Self::single_target(*target)),
            FatOp::IfICmpLessEqual(target) => Some(Self::single_target(*target)),
            FatOp::IfICmpLess(target) => Some(Self::single_target(*target)),
            FatOp::GoTo(target) => Some(Self::single_target(*target)),
            FatOp::LookupSwitch { default_op, pairs } => {
                let mut sv = JumpTargets::new();
                sv.push(*default_op);
                let ghost mapped = pairs@.map_values(|p: (i32, usize)| p.1);
                let mut k: usize = 0;
                while k < pairs.len()
                    invariant
                        k <= pairs@.len(),
                        mapped == pairs@.map_values(|p: (i32, usize)| p.1),
                        sv_elems(sv) == seq![*default_op] + mapped.take(k as int),
                    decreases pairs@.len() - k,
                {
                    sv.push(pairs[k].1);
                    proof {
                        assert((seq![*default_op] + mapped.take(k as int)).push(mapped[k as int])
                            =~= seq![*default_op] + mapped.take(k + 1 as int));
                    }
                    k = k + 1;
                }
                proof {
                    assert(mapped.take(pairs@.len() as int) =~= mapped);
                }
                Some(sv)
            },
            _ => None,
        }
    }

    /// A one-element target list.
    fn single_target(target: usize) -> (r: JumpTargets)
        ensures
            sv_elems(r) == seq![target],
    {
        let mut sv = JumpTargets::new();
        sv.push(target);
        proof {
            assert(Seq::<usize>::empty().push(target) =~= seq![target]);
        }
        sv
    }
}

} // verus!
