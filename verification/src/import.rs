use vstd::prelude::*;
use crate::field::{Field, fields_parse};

verus! {

// ---------------------------------------------------------------------------
// Big-endian byte readers
// ---------------------------------------------------------------------------

/// The big-endian 16-bit value stored at `i`.
pub open spec fn be16(b: Seq<u8>, i: int) -> int {
    b[i] * 0x100 + b[i + 1]
}

/// The big-endian 32-bit value stored at `i`.
pub open spec fn be32(b: Seq<u8>, i: int) -> int {
    be16(b, i) * 0x10000 + be16(b, i + 2)
}

/// The big-endian 64-bit value stored at `i`.
pub open spec fn be64(b: Seq<u8>, i: int) -> int {
    be32(b, i) * 0x100000000 + be32(b, i + 4)
}

/// The signed reading of an unsigned `bits`-wide value.
pub open spec fn as_signed(v: int, bound: int) -> int {
    if v < bound {
        v
    } else {
        v - 2 * bound
    }
}

pub fn load_u8(data: &Vec<u8>, pos: usize) -> (r: Option<(u8, usize)>)
    ensures
        pos < data@.len() <==> r is Some,
        r matches Some((v, p)) ==> p == pos + 1 && v == data@[pos as int],
{
    if pos < data.len() {
        Some((data[pos], pos + 1))
    } else {
        None
    }
}

pub fn load_u16(data: &Vec<u8>, pos: usize) -> (r: Option<(u16, usize)>)
    ensures
        pos + 2 <= data@.len() <==> r is Some,
        r matches Some((v, p)) ==> p == pos + 2 && v == be16(data@, pos as int),
{
    if pos < data.len() && data.len() - pos >= 2 {
        let v = (data[pos] as u16) * 0x100 + (data[pos + 1] as u16);
        Some((v, pos + 2))
    } else {
        None
    }
}

pub fn load_u32(data: &Vec<u8>, pos: usize) -> (r: Option<(u32, usize)>)
    ensures
        pos + 4 <= data@.len() <==> r is Some,
        r matches Some((v, p)) ==> p == pos + 4 && v == be32(data@, pos as int),
{
    if pos < data.len() && data.len() - pos >= 4 {
        let hi = (data[pos] as u32) * 0x100 + (data[pos + 1] as u32);
        let lo = (data[pos + 2] as u32) * 0x100 + (data[pos + 3] as u32);
        Some((hi * 0x10000 + lo, pos + 4))
    } else {
        None
    }
}

pub fn load_u64(data: &Vec<u8>, pos: usize) -> (r: Option<(u64, usize)>)
    ensures
        pos + 8 <= data@.len() <==> r is Some,
        r matches Some((v, p)) ==> p == pos + 8 && v == be64(data@, pos as int),
{
    if pos < data.len() && data.len() - pos >= 8 {
        match (load_u32(data, pos), load_u32(data, pos + 4)) {
            (Some((hi, _)), Some((lo, _))) => Some(
                ((hi as u64) * 0x100000000 + (lo as u64), pos + 8),
            ),
            _ => None,
        }
    } else {
        None
    }
}

pub fn load_i8(data: &Vec<u8>, pos: usize) -> (r: Option<(i8, usize)>)
    ensures
        pos < data@.len() <==> r is Some,
        r matches Some((v, p)) ==> p == pos + 1 && v == as_signed(data@[pos as int] as int, 0x80),
{
    match load_u8(data, pos) {
        Some((v, p)) => {
            let s: i8 = if v >= 0x80 {
                let d: u8 = v - 0x80;
                (d as i8) - 0x7f - 1
            } else {
                v as i8
            };
            Some((s, p))
        },
        None => None,
    }
}

pub fn load_i16(data: &Vec<u8>, pos: usize) -> (r: Option<(i16, usize)>)
    ensures
        pos + 2 <= data@.len() <==> r is Some,
        r matches Some((v, p)) ==> p == pos + 2 && v == as_signed(be16(data@, pos as int), 0x8000),
{
    match load_u16(data, pos) {
        Some((v, p)) => {
            let s: i16 = if v >= 0x8000 {
                let d: u16 = v - 0x8000;
                (d as i16) - 0x7fff - 1
            } else {
                v as i16
            };
            Some((s, p))
        },
        None => None,
    }
}

pub fn load_i32(data: &Vec<u8>, pos: usize) -> (r: Option<(i32, usize)>)
    ensures
        pos + 4 <= data@.len() <==> r is Some,
        r matches Some((v, p)) ==> p == pos + 4 && v == as_signed(
            be32(data@, pos as int),
            0x80000000,
        ),
{
    match load_u32(data, pos) {
        Some((v, p)) => {
            let s: i32 = if v >= 0x80000000 {
                let d: u32 = v - 0x80000000;
                (d as i32) - 0x7fffffff - 1
            } else {
                v as i32
            };
            Some((s, p))
        },
        None => None,
    }
}

pub fn load_i64(data: &Vec<u8>, pos: usize) -> (r: Option<(i64, usize)>)
    ensures
        pos + 8 <= data@.len() <==> r is Some,
        r matches Some((v, p)) ==> p == pos + 8 && v == as_signed(
            be64(data@, pos as int),
            0x8000000000000000,
        ),
{
    match load_u64(data, pos) {
        Some((v, p)) => {
            let s: i64 = if v >= 0x8000000000000000 {
                let d: u64 = v - 0x8000000000000000;
                (d as i64) - 0x7fffffffffffffff - 1
            } else {
                v as i64
            };
            Some((s, p))
        },
        None => None,
    }
}

// ---------------------------------------------------------------------------
// Constant pool items
// ---------------------------------------------------------------------------

/// One entry of the constant pool. Numeric float and double constants are
/// carried as raw IEEE-754 bit patterns; nothing here computes with them.
#[derive(Debug)]
pub enum ConstantItem {
    Integer(i32),
    Float(u32),
    Double(u64),
    MethodRef { class_index: u16, name_and_type_index: u16 },
    InterfaceMethodRef { class_index: u16, name_and_type_index: u16 },
    Class { name_index: u16 },
    NameAndType { name_index: u16, descriptor_index: u16 },
    FieldRef { class_index: u16, name_and_type_index: u16 },
    ConstString { string_index: u16 },
    InvokeDynamic { bootstrap_method_attr_index: u16, name_and_type_index: u16 },
    MethodHandle { reference_kind: u8, reference_index: u16 },
    MethodType { descriptor_index: u16 },
    Module { name_index: u16 },
    Package { name_index: u16 },
    Utf8(String),
    Long(i64),
    Padding,
}

impl ConstantItem {
    /// How many constant-pool slots the entry occupies: 8-byte numeric
    /// constants take two, everything else one.
    pub fn size(&self) -> (r: u16)
        ensures
            r == spec_item_size(*self),
    {
        match self {
            ConstantItem::Long(_) => 2,
            ConstantItem::Double(_) => 2,
            _ => 1,
        }
    }
}

/// The slot count of a constant-pool entry.
pub open spec fn spec_item_size(item: ConstantItem) -> int {
    match item {
        ConstantItem::Long(_) => 2,
        ConstantItem::Double(_) => 2,
        _ => 1,
    }
}

/// The pool entry a one-based constant-pool index addresses.
pub open spec fn pool_at(pool: Seq<ConstantItem>, index: u16) -> Option<ConstantItem> {
    if 1 <= index && index <= pool.len() {
        Some(pool[index - 1])
    } else {
        None
    }
}

/// The characters of the UTF-8 entry at `index`, if that is what it is.
pub open spec fn utf8_at(pool: Seq<ConstantItem>, index: u16) -> Option<Seq<char>> {
    match pool_at(pool, index) {
        Some(ConstantItem::Utf8(s)) => Some(s@),
        _ => None,
    }
}

/// The characters of the class name that the class entry at `index` refers
/// to.
pub open spec fn class_name_at(pool: Seq<ConstantItem>, index: u16) -> Option<Seq<char>> {
    match pool_at(pool, index) {
        Some(ConstantItem::Class { name_index }) => utf8_at(pool, name_index),
        _ => None,
    }
}

/// The (name index, descriptor index) pair of the name-and-type entry at
/// `index`.
pub open spec fn nametype_at(pool: Seq<ConstantItem>, index: u16) -> Option<(u16, u16)> {
    match pool_at(pool, index) {
        Some(ConstantItem::NameAndType { name_index, descriptor_index }) => Some(
            (name_index, descriptor_index),
        ),
        _ => None,
    }
}

/// The (class index, name-and-type index) pair of the field reference at
/// `index`.
pub open spec fn fieldref_at(pool: Seq<ConstantItem>, index: u16) -> Option<(u16, u16)> {
    match pool_at(pool, index) {
        Some(ConstantItem::FieldRef { class_index, name_and_type_index }) => Some(
            (class_index, name_and_type_index),
        ),
        _ => None,
    }
}

/// The (class index, name-and-type index) pair of the method or interface
/// method reference at `index`.
pub open spec fn methodref_at(pool: Seq<ConstantItem>, index: u16) -> Option<(u16, u16)> {
    match pool_at(pool, index) {
        Some(ConstantItem::MethodRef { class_index, name_and_type_index }) => Some(
            (class_index, name_and_type_index),
        ),
        Some(ConstantItem::InterfaceMethodRef { class_index, name_and_type_index }) => Some(
            (class_index, name_and_type_index),
        ),
        _ => None,
    }
}

/// The (bootstrap method attribute index, name-and-type index) pair of the
/// invoke-dynamic entry at `index`.
pub open spec fn invoke_dynamic_at(pool: Seq<ConstantItem>, index: u16) -> Option<(u16, u16)> {
    match pool_at(pool, index) {
        Some(ConstantItem::InvokeDynamic { bootstrap_method_attr_index, name_and_type_index }) =>
            Some((bootstrap_method_attr_index, name_and_type_index)),
        _ => None,
    }
}

/// The (reference kind, reference index) pair of the method handle entry at
/// `index`.
pub open spec fn method_handle_at(pool: Seq<ConstantItem>, index: u16) -> Option<(u8, u16)> {
    match pool_at(pool, index) {
        Some(ConstantItem::MethodHandle { reference_kind, reference_index }) => Some(
            (reference_kind, reference_index),
        ),
        _ => None,
    }
}

// ---------------------------------------------------------------------------
// Access flags
// ---------------------------------------------------------------------------

/// The access-flag mask of a class, field or method.
#[derive(Clone, Copy, Debug)]
pub struct AccessFlags {
    mask: u16,
}

impl AccessFlags {
    /// Reads the two flag bytes at `pos`.
    pub fn read(data: &Vec<u8>, pos: usize) -> (r: Option<(AccessFlags, usize)>)
        ensures
            pos + 2 <= data@.len() <==> r is Some,
            r matches Some((f, p)) ==> p == pos + 2 && f.spec_mask() == be16(data@, pos as int),
    {
        match load_u16(data, pos) {
            Some((mask, p)) => Some((AccessFlags { mask }, p)),
            None => None,
        }
    }

    /// Builds flags from a raw mask value.
    pub fn from_mask(mask: u16) -> (r: AccessFlags)
        ensures
            r.spec_mask() == mask,
    {
        AccessFlags { mask }
    }

    pub closed spec fn spec_mask(&self) -> u16 {
        self.mask
    }

    pub fn is_public(&self) -> (r: bool)
        ensures
            r == (self.spec_mask() & 0x0001 != 0),
    {
        self.mask & 0x0001 != 0
    }

    pub fn is_private(&self) -> (r: bool)
        ensures
            r == (self.spec_mask() & 0x0002 != 0),
    {
        self.mask & 0x0002 != 0
    }

    pub fn is_protected(&self) -> (r: bool)
        ensures
            r == (self.spec_mask() & 0x0004 != 0),
    {
        self.mask & 0x0004 != 0
    }

    pub fn is_static(&self) -> (r: bool)
        ensures
            r == (self.spec_mask() & 0x0008 != 0),
    {
        self.mask & 0x0008 != 0
    }

    pub fn is_final(&self) -> (r: bool)
        ensures
            r == (self.spec_mask() & 0x0010 != 0),
    {
        self.mask & 0x0010 != 0
    }

    pub fn is_super(&self) -> (r: bool)
        ensures
            r == (self.spec_mask() & 0x0020 != 0),
    {
        self.mask & 0x0020 != 0
    }

    pub fn is_interface(&self) -> (r: bool)
        ensures
            r == (self.spec_mask() & 0x0200 != 0),
    {
        self.mask & 0x0200 != 0
    }

    pub fn is_abstract(&self) -> (r: bool)
        ensures
            r == (self.spec_mask() & 0x0400 != 0),
    {
        self.mask & 0x0400 != 0
    }

    pub fn is_synthetic(&self) -> (r: bool)
        ensures
            r == (self.spec_mask() & 0x1000 != 0),
    {
        self.mask & 0x1000 != 0
    }

    pub fn is_annotantion(&self) -> (r: bool)
        ensures
            r == (self.spec_mask() & 0x2000 != 0),
    {
        self.mask & 0x2000 != 0
    }

    pub fn is_enum(&self) -> (r: bool)
        ensures
            r == (self.spec_mask() & 0x4000 != 0),
    {
        self.mask & 0x4000 != 0
    }
}

// ---------------------------------------------------------------------------
// Attributes
// ---------------------------------------------------------------------------

/// Copies `data[start..end)` into a fresh vector.
pub fn copy_range(data: &Vec<u8>, start: usize, end: usize) -> (r: Vec<u8>)
    requires
        start <= end <= data@.len(),
    ensures
        r@ == data@.subrange(start as int, end as int),
{
    let mut out: Vec<u8> = Vec::new();
    let mut i: usize = start;
    while i < end
        invariant
            start <= i <= end <= data@.len(),
            out@ == data@.subrange(start as int, i as int),
        decreases end - i,
    {
        out.push(data[i]);
        assert(out@ =~= data@.subrange(start as int, i + 1 as int));
        i = i + 1;
    }
    out
}

/// Relies on `String::from_utf8`: it succeeds exactly on valid UTF-8 input
/// and then decodes the bytes to the characters they encode.
#[verifier::external_body]
fn string_from_utf8(v: Vec<u8>) -> (r: Option<String>)
    ensures
        r is Some <==> vstd::utf8::valid_utf8(v@),
        r matches Some(s) ==> s@ == vstd::utf8::decode_utf8(v@),
{
    match String::from_utf8(v) {
        Ok(s) => Some(s),
        Err(_) => None,
    }
}

/// One raw attribute: the pool index of its name and its undecoded payload.
#[derive(Debug)]
pub struct Attribute {
    pub name_index: u16,
    pub data: Vec<u8>,
}

/// `a` is the attribute stored at `pos`, ending at `end`.
pub open spec fn attr_parses(b: Seq<u8>, pos: int, a: Attribute, end: int) -> bool {
    &&& pos + 6 <= b.len()
    &&& a.name_index == be16(b, pos)
    &&& end == pos + 6 + be32(b, pos + 2)
    &&& end <= b.len()
    &&& a.data@ == b.subrange(pos + 6, end)
}

/// Where the attribute stored at `pos` ends, when one fits the bytes: its
/// header and its declared payload must lie within them.
pub open spec fn attr_end(b: Seq<u8>, pos: int) -> Option<int> {
    if 0 <= pos && pos + 6 <= b.len() && pos + 6 + be32(b, pos + 2) <= b.len() {
        Some(pos + 6 + be32(b, pos + 2))
    } else {
        None
    }
}

/// Where a `count`-entry attribute table stored at `pos` ends, when one fits
/// the bytes.
pub open spec fn attrs_end(b: Seq<u8>, pos: int, count: int) -> Option<int>
    decreases count,
{
    if !(0 <= pos <= b.len()) {
        None
    } else if count <= 0 {
        if count == 0 {
            Some(pos)
        } else {
            None
        }
    } else {
        match attr_end(b, pos) {
            Option::None => None,
            Option::Some(m) => attrs_end(b, m, count - 1),
        }
    }
}

/// `attrs` are the `count` attributes stored one after the other at `pos`,
/// ending at `end`.
pub open spec fn attrs_parse(b: Seq<u8>, pos: int, count: int, attrs: Seq<Attribute>, end: int) -> bool
    decreases count,
{
    if count <= 0 {
        count == 0 && attrs.len() == 0 && end == pos
    } else {
        &&& attrs.len() >= 1
        &&& exists|m: int|
            #![trigger attr_parses(b, pos, attrs[0], m)]
            attr_parses(b, pos, attrs[0], m) && attrs_parse(b, m, count - 1, attrs.skip(1), end)
    }
}

/// Appending one more parsed attribute extends a parsed attribute table.
pub proof fn lemma_attrs_parse_push(
    b: Seq<u8>,
    pos: int,
    count: int,
    attrs: Seq<Attribute>,
    p: int,
    a: Attribute,
    m: int,
)
    requires
        count >= 0,
        attrs_parse(b, pos, count, attrs, p),
        attr_parses(b, p, a, m),
    ensures
        attrs_parse(b, pos, count + 1, attrs.push(a), m),
    decreases count,
{
    if count == 0 {
        assert(attrs.push(a)[0] == a);
        assert(attrs.push(a).skip(1) =~= Seq::<Attribute>::empty());
        assert(attr_parses(b, pos, attrs.push(a)[0], m));
        assert(attrs_parse(b, m, 0, attrs.push(a).skip(1), m));
    } else {
        let mid = choose|mid: int|
            #![trigger attr_parses(b, pos, attrs[0], mid)]
            attr_parses(b, pos, attrs[0], mid) && attrs_parse(b, mid, count - 1, attrs.skip(1), p);
        lemma_attrs_parse_push(b, mid, count - 1, attrs.skip(1), p, a, m);
        assert(attrs.push(a)[0] == attrs[0]);
        assert(attrs.push(a).skip(1) =~= attrs.skip(1).push(a));
        assert(attr_parses(b, pos, attrs.push(a)[0], mid));
        assert(attrs_parse(b, mid, count, attrs.push(a).skip(1), m));
    }
}

impl Attribute {
    /// Reads one attribute at `pos`: it succeeds exactly when one fits the
    /// bytes there.
    pub fn read(data: &Vec<u8>, pos: usize) -> (r: Option<(Attribute, usize)>)
        ensures
            r matches Some((a, p)) ==> pos <= p <= data@.len() && attr_parses(
                data@,
                pos as int,
                a,
                p as int,
            ) && attr_end(data@, pos as int) == Some(p as int),
            r is Some <==> attr_end(data@, pos as int) is Some,
    {
        let (name_index, pos2) = match load_u16(data, pos) {
            Some(v) => v,
            None => {
                return None;
            },
        };
        let (length, pos3) = match load_u32(data, pos2) {
            Some(v) => v,
            None => {
                return None;
            },
        };
        if length as usize > data.len() || pos3 > data.len() - length as usize {
            return None;
        }
        let end = pos3 + length as usize;
        let payload = copy_range(data, pos3, end);
        Some((Attribute { name_index, data: payload }, end))
    }

    /// Reads a `count`-entry attribute table at `pos`: it succeeds exactly
    /// when the whole table fits the bytes.
    pub fn read_table(data: &Vec<u8>, pos: usize, count: u16) -> (r: Option<(Vec<Attribute>, usize)>)
        ensures
            r matches Some((attrs, p)) ==> pos <= p <= data@.len() && attrs_parse(
                data@,
                pos as int,
                count as int,
                attrs@,
                p as int,
            ) && attrs_end(data@, pos as int, count as int) == Some(p as int),
            r is Some <==> attrs_end(data@, pos as int, count as int) is Some,
    {
        if pos > data.len() {
            return None;
        }
        let mut attrs: Vec<Attribute> = Vec::new();
        let mut cur = pos;
        let mut done: u16 = 0;
        while done < count
            invariant
                pos <= cur <= data@.len(),
                done <= count,
                attrs_parse(data@, pos as int, done as int, attrs@, cur as int),
                attrs_end(data@, pos as int, count as int) == attrs_end(
                    data@,
                    cur as int,
                    count - done,
                ),
            decreases count - done,
        {
            match Attribute::read(data, cur) {
                Some((a, p)) => {
                    proof {
                        lemma_attrs_parse_push(
                            data@,
                            pos as int,
                            done as int,
                            attrs@,
                            cur as int,
                            a,
                            p as int,
                        );
                    }
                    attrs.push(a);
                    cur = p;
                    done = done + 1;
                },
                None => {
                    return None;
                },
            }
        }
        Some((attrs, cur))
    }
}

/// Where a field or method table entry stored at `pos` ends, when one fits
/// the bytes: both tables share the layout of four 16-bit words followed by
/// an attribute table.
pub open spec fn member_end(b: Seq<u8>, pos: int) -> Option<int> {
    if 0 <= pos && pos + 8 <= b.len() {
        attrs_end(b, pos + 8, be16(b, pos + 6))
    } else {
        None
    }
}

/// Where a `count`-entry field or method table stored at `pos` ends, when one
/// fits the bytes.
pub open spec fn members_end(b: Seq<u8>, pos: int, count: int) -> Option<int>
    decreases count,
{
    if !(0 <= pos <= b.len()) {
        None
    } else if count <= 0 {
        if count == 0 {
            Some(pos)
        } else {
            None
        }
    } else {
        match member_end(b, pos) {
            Option::None => None,
            Option::Some(m) => members_end(b, m, count - 1),
        }
    }
}

// ---------------------------------------------------------------------------
// Methods
// ---------------------------------------------------------------------------

/// One declared method of a class: flags, the pool indices of its name and
/// descriptor, and its raw attributes.
#[derive(Debug)]
pub struct Method {
    pub flags: AccessFlags,
    pub name_index: u16,
    pub descriptor_index: u16,
    pub attributes: Vec<Attribute>,
}

/// `m` is the method table entry stored at `pos`, ending at `end`.
pub open spec fn method_parses(b: Seq<u8>, pos: int, m: Method, end: int) -> bool {
    &&& pos + 8 <= b.len()
    &&& m.flags.spec_mask() == be16(b, pos)
    &&& m.name_index == be16(b, pos + 2)
    &&& m.descriptor_index == be16(b, pos + 4)
    &&& attrs_parse(b, pos + 8, be16(b, pos + 6), m.attributes@, end)
}

impl Method {
    /// Reads one method table entry at `pos`: it succeeds exactly when one
    /// fits the bytes there.
    pub fn read(data: &Vec<u8>, pos: usize) -> (r: Option<(Method, usize)>)
        ensures
            r matches Some((m, p)) ==> pos <= p <= data@.len() && method_parses(
                data@,
                pos as int,
                m,
                p as int,
            ) && member_end(data@, pos as int) == Some(p as int),
            r is Some <==> member_end(data@, pos as int) is Some,
    {
        let (flags, pos) = match AccessFlags::read(data, pos) {
            Some(v) => v,
            None => {
                return None;
            },
        };
        let (name_index, pos) = match load_u16(data, pos) {
            Some(v) => v,
            None => {
                return None;
            },
        };
        let (descriptor_index, pos) = match load_u16(data, pos) {
            Some(v) => v,
            None => {
                return None;
            },
        };
        let (attributes_count, pos) = match load_u16(data, pos) {
            Some(v) => v,
            None => {
                return None;
            },
        };
        let (attributes, pos) = match Attribute::read_table(data, pos, attributes_count) {
            Some(v) => v,
            None => {
                return None;
            },
        };
        Some((Method { flags, name_index, descriptor_index, attributes }, pos))
    }
}

/// `ms` are the `count` method entries stored one after the other at `pos`,
/// ending at `end`.
pub open spec fn methods_parse(b: Seq<u8>, pos: int, count: int, ms: Seq<Method>, end: int) -> bool
    decreases count,
{
    if count <= 0 {
        count == 0 && ms.len() == 0 && end == pos
    } else {
        &&& ms.len() >= 1
        &&& exists|m: int|
            #![trigger method_parses(b, pos, ms[0], m)]
            method_parses(b, pos, ms[0], m) && methods_parse(b, m, count - 1, ms.skip(1), end)
    }
}

/// Appending one more parsed method extends a parsed method table.
pub proof fn lemma_methods_parse_push(
    b: Seq<u8>,
    pos: int,
    count: int,
    ms: Seq<Method>,
    p: int,
    mth: Method,
    m: int,
)
    requires
        count >= 0,
        methods_parse(b, pos, count, ms, p),
        method_parses(b, p, mth, m),
    ensures
        methods_parse(b, pos, count + 1, ms.push(mth), m),
    decreases count,
{
    if count == 0 {
        assert(ms.push(mth)[0] == mth);
        assert(ms.push(mth).skip(1) =~= Seq::<Method>::empty());
        assert(method_parses(b, pos, ms.push(mth)[0], m));
        assert(methods_parse(b, m, 0, ms.push(mth).skip(1), m));
    } else {
        let mid = choose|mid: int|
            #![trigger method_parses(b, pos, ms[0], mid)]
            method_parses(b, pos, ms[0], mid) && methods_parse(b, mid, count - 1, ms.skip(1), p);
        lemma_methods_parse_push(b, mid, count - 1, ms.skip(1), p, mth, m);
        assert(ms.push(mth)[0] == ms[0]);
        assert(ms.push(mth).skip(1) =~= ms.skip(1).push(mth));
        assert(method_parses(b, pos, ms.push(mth)[0], mid));
        assert(methods_parse(b, mid, count, ms.push(mth).skip(1), m));
    }
}

impl Method {
    /// Reads a `count`-entry method table at `pos`: it succeeds exactly when
    /// the whole table fits the bytes.
    pub fn read_table(data: &Vec<u8>, pos: usize, count: u16) -> (r: Option<(Vec<Method>, usize)>)
        ensures
            r matches Some((ms, p)) ==> pos <= p <= data@.len() && methods_parse(
                data@,
                pos as int,
                count as int,
                ms@,
                p as int,
            ) && members_end(data@, pos as int, count as int) == Some(p as int),
            r is Some <==> members_end(data@, pos as int, count as int) is Some,
    {
        if pos > data.len() {
            return None;
        }
        let mut ms: Vec<Method> = Vec::new();
        let mut cur = pos;
        let mut done: u16 = 0;
        while done < count
            invariant
                pos <= cur <= data@.len(),
                done <= count,
                methods_parse(data@, pos as int, done as int, ms@, cur as int),
                members_end(data@, pos as int, count as int) == members_end(
                    data@,
                    cur as int,
                    count - done,
                ),
            decreases count - done,
        {
            match Method::read(data, cur) {
                Some((mth, p)) => {
                    proof {
                        lemma_methods_parse_push(
                            data@,
                            pos as int,
                            done as int,
                            ms@,
                            cur as int,
                            mth,
                            p as int,
                        );
                    }
                    ms.push(mth);
                    cur = p;
                    done = done + 1;
                },
                None => {
                    return None;
                },
            }
        }
        Some((ms, cur))
    }
}

/// Reads `count` big-endian 16-bit values stored one after the other at
/// `pos`.
pub fn read_u16_table(data: &Vec<u8>, pos: usize, count: u16) -> (r: Option<(Vec<u16>, usize)>)
    ensures
        r matches Some((v, p)) ==> {
            &&& pos + 2 * count <= data@.len()
            &&& p == pos + 2 * count
            &&& v@.len() == count
            &&& forall|k: int| 0 <= k < count ==> v@[k] == be16(data@, pos + 2 * k)
        },
        r is Some <==> pos + 2 * count <= data@.len(),
{
    let mut v: Vec<u16> = Vec::new();
    let mut cur = pos;
    let mut done: u16 = 0;
    while done < count
        invariant
            done <= count,
            cur == pos + 2 * done,
            cur <= data@.len() || done == 0,
            v@.len() == done,
            forall|k: int| 0 <= k < done ==> v@[k] == be16(data@, pos + 2 * k),
        decreases count - done,
    {
        match load_u16(data, cur) {
            Some((x, p)) => {
                v.push(x);
                cur = p;
                done = done + 1;
            },
            None => {
                return None;
            },
        }
    }
    if pos > data.len() {
        return None;
    }
    Some((v, cur))
}

// ---------------------------------------------------------------------------
// Bootstrap methods
// ---------------------------------------------------------------------------

/// One bootstrap method of an invoke-dynamic call site: the pool index of
/// its method handle and the pool indices of its static arguments.
#[derive(Debug)]
pub struct BootstrapMethod {
    pub bootstrap_method_ref: u16,
    pub arguments: Vec<u16>,
}

/// `bm` is the bootstrap-method entry stored at `pos` of an attribute
/// payload, ending at `end`.
pub open spec fn bsm_parses(d: Seq<u8>, pos: int, bm: BootstrapMethod, end: int) -> bool {
    &&& pos + 4 <= d.len()
    &&& bm.bootstrap_method_ref == be16(d, pos)
    &&& ({
        let n = be16(d, pos + 2);
        &&& end == pos + 4 + 2 * n
        &&& end <= d.len()
        &&& bm.arguments@.len() == n
        &&& forall|k: int| 0 <= k < n ==> bm.arguments@[k] == be16(d, pos + 4 + 2 * k)
    })
}

/// Where the bootstrap-method entry stored at `pos` of an attribute payload
/// ends, when one fits the bytes.
pub open spec fn bsm_end(d: Seq<u8>, pos: int) -> Option<int> {
    if 0 <= pos && pos + 4 <= d.len() && pos + 4 + 2 * be16(d, pos + 2) <= d.len() {
        Some(pos + 4 + 2 * be16(d, pos + 2))
    } else {
        None
    }
}

/// Where a `count`-entry bootstrap-method table stored at `pos` ends, when
/// one fits the bytes.
pub open spec fn bsms_end(d: Seq<u8>, pos: int, count: int) -> Option<int>
    decreases count,
{
    if !(0 <= pos <= d.len()) {
        None
    } else if count <= 0 {
        if count == 0 {
            Some(pos)
        } else {
            None
        }
    } else {
        match bsm_end(d, pos) {
            Option::None => None,
            Option::Some(m) => bsms_end(d, m, count - 1),
        }
    }
}

/// Whether a whole bootstrap-method table fits an attribute payload.
pub open spec fn bsm_table_fits(d: Seq<u8>) -> bool {
    d.len() >= 2 && bsms_end(d, 2, be16(d, 0)) is Some
}

/// `bms` are the `count` bootstrap methods stored one after the other at
/// `pos`, ending at `end`.
pub open spec fn bsms_parse(
    d: Seq<u8>,
    pos: int,
    count: int,
    bms: Seq<BootstrapMethod>,
    end: int,
) -> bool
    decreases count,
{
    if count <= 0 {
        count == 0 && bms.len() == 0 && end == pos
    } else {
        &&& bms.len() >= 1
        &&& exists|m: int|
            #![trigger bsm_parses(d, pos, bms[0], m)]
            bsm_parses(d, pos, bms[0], m) && bsms_parse(d, m, count - 1, bms.skip(1), end)
    }
}

/// Appending one more parsed bootstrap method extends a parsed table.
pub proof fn lemma_bsms_parse_push(
    d: Seq<u8>,
    pos: int,
    count: int,
    bms: Seq<BootstrapMethod>,
    p: int,
    bm: BootstrapMethod,
    m: int,
)
    requires
        count >= 0,
        bsms_parse(d, pos, count, bms, p),
        bsm_parses(d, p, bm, m),
    ensures
        bsms_parse(d, pos, count + 1, bms.push(bm), m),
    decreases count,
{
    if count == 0 {
        assert(bms.push(bm)[0] == bm);
        assert(bms.push(bm).skip(1) =~= Seq::<BootstrapMethod>::empty());
        assert(bsm_parses(d, pos, bms.push(bm)[0], m));
        assert(bsms_parse(d, m, 0, bms.push(bm).skip(1), m));
    } else {
        let mid = choose|mid: int|
            #![trigger bsm_parses(d, pos, bms[0], mid)]
            bsm_parses(d, pos, bms[0], mid) && bsms_parse(d, mid, count - 1, bms.skip(1), p);
        lemma_bsms_parse_push(d, mid, count - 1, bms.skip(1), p, bm, m);
        assert(bms.push(bm)[0] == bms[0]);
        assert(bms.push(bm).skip(1) =~= bms.skip(1).push(bm));
        assert(bsm_parses(d, pos, bms.push(bm)[0], mid));
        assert(bsms_parse(d, mid, count, bms.push(bm).skip(1), m));
    }
}

/// The payload of a bootstrap-methods attribute parses to `bms`.
pub open spec fn bsm_table_parses(d: Seq<u8>, bms: Seq<BootstrapMethod>) -> bool {
    &&& d.len() >= 2
    &&& exists|end: int| #![trigger bsms_parse(d, 2, be16(d, 0), bms, end)] bsms_parse(d, 2, be16(d, 0), bms, end)
}

impl BootstrapMethod {
    /// Reads one bootstrap-method entry at `pos` of an attribute payload: it
    /// succeeds exactly when one fits the bytes there.
    pub fn read(d: &Vec<u8>, pos: usize) -> (r: Option<(BootstrapMethod, usize)>)
        ensures
            r matches Some((bm, p)) ==> pos <= p <= d@.len() && bsm_parses(
                d@,
                pos as int,
                bm,
                p as int,
            ) && bsm_end(d@, pos as int) == Some(p as int),
            r is Some <==> bsm_end(d@, pos as int) is Some,
    {
        let (bootstrap_method_ref, pos2) = match load_u16(d, pos) {
            Some(v) => v,
            None => {
                return None;
            },
        };
        let (num_args, pos3) = match load_u16(d, pos2) {
            Some(v) => v,
            None => {
                return None;
            },
        };
        match read_u16_table(d, pos3, num_args) {
            Some((arguments, p)) => Some((BootstrapMethod { bootstrap_method_ref, arguments }, p)),
            None => None,
        }
    }

    /// Reads the whole bootstrap-method table out of an attribute payload:
    /// it succeeds exactly when the table fits the payload.
    pub fn read_table(d: &Vec<u8>) -> (r: Option<Vec<BootstrapMethod>>)
        ensures
            r matches Some(bms) ==> bsm_table_parses(d@, bms@),
            r is Some <==> bsm_table_fits(d@),
    {
        let (count, start) = match load_u16(d, 0) {
            Some(v) => v,
            None => {
                return None;
            },
        };
        let mut bms: Vec<BootstrapMethod> = Vec::new();
        let mut cur = start;
        let mut done: u16 = 0;
        while done < count
            invariant
                done <= count,
                start == 2,
                cur <= d@.len(),
                d@.len() >= 2,
                count == be16(d@, 0),
                bsms_parse(d@, 2, done as int, bms@, cur as int),
                bsms_end(d@, 2, count as int) == bsms_end(d@, cur as int, count - done),
            decreases count - done,
        {
            match BootstrapMethod::read(d, cur) {
                Some((bm, p)) => {
                    proof {
                        lemma_bsms_parse_push(d@, 2, done as int, bms@, cur as int, bm, p as int);
                    }
                    bms.push(bm);
                    cur = p;
                    done = done + 1;
                },
                None => {
                    return None;
                },
            }
        }
        Some(bms)
    }
}

/// The decoded header of a method's code attribute: the declared stack and
/// local-slot counts and the raw bytecode.
#[derive(Debug)]
pub struct CodeAttribute {
    pub max_stack: u16,
    pub max_locals: u16,
    pub code: Vec<u8>,
}

/// The first attribute at or after `i` whose name reads `Code`.
pub open spec fn first_code_attr(pool: Seq<ConstantItem>, attrs: Seq<Attribute>, i: int) -> Option<
    int,
>
    decreases attrs.len() - i,
{
    if i < 0 || i >= attrs.len() {
        None
    } else if utf8_at(pool, attrs[i].name_index) == Some("Code"@) {
        Some(i)
    } else {
        first_code_attr(pool, attrs, i + 1)
    }
}

/// Whether a code-attribute payload holds its header and its declared
/// bytecode.
pub open spec fn code_attr_fits(d: Seq<u8>) -> bool {
    d.len() >= 8 && 8 + be32(d, 4) <= d.len()
}

/// `c` is the decoding of a code-attribute payload `d`.
pub open spec fn code_attr_parses(d: Seq<u8>, c: CodeAttribute) -> bool {
    &&& d.len() >= 8
    &&& c.max_stack == be16(d, 0)
    &&& c.max_locals == be16(d, 2)
    &&& ({
        let n = be32(d, 4);
        &&& 8 + n <= d.len()
        &&& c.code@ == d.subrange(8, 8 + n)
    })
}

// ---------------------------------------------------------------------------
// Constant-pool parsing
// ---------------------------------------------------------------------------

/// `item` is the constant-pool entry stored at `pos`, ending at `end`.
pub open spec fn const_item_parses(b: Seq<u8>, pos: int, item: ConstantItem, end: int) -> bool {
    &&& 0 <= pos < b.len()
    &&& match item {
        ConstantItem::Utf8(s) => {
            &&& b[pos] == 1
            &&& pos + 3 <= b.len()
            &&& end == pos + 3 + be16(b, pos + 1)
            &&& end <= b.len()
            &&& vstd::utf8::valid_utf8(b.subrange(pos + 3, end))
            &&& s@ == vstd::utf8::decode_utf8(b.subrange(pos + 3, end))
        },
        ConstantItem::Integer(v) => b[pos] == 3 && pos + 5 <= b.len() && end == pos + 5 && v
            == as_signed(be32(b, pos + 1), 0x80000000),
        ConstantItem::Float(bits) => b[pos] == 4 && pos + 5 <= b.len() && end == pos + 5 && bits
            == be32(b, pos + 1),
        ConstantItem::Long(v) => b[pos] == 5 && pos + 9 <= b.len() && end == pos + 9 && v
            == as_signed(be64(b, pos + 1), 0x8000000000000000),
        ConstantItem::Double(bits) => b[pos] == 6 && pos + 9 <= b.len() && end == pos + 9 && bits
            == be64(b, pos + 1),
        ConstantItem::Class { name_index } => b[pos] == 7 && pos + 3 <= b.len() && end == pos + 3
            && name_index == be16(b, pos + 1),
        ConstantItem::ConstString { string_index } => b[pos] == 8 && pos + 3 <= b.len() && end
            == pos + 3 && string_index == be16(b, pos + 1),
        ConstantItem::FieldRef { class_index, name_and_type_index } => b[pos] == 9 && pos + 5
            <= b.len() && end == pos + 5 && class_index == be16(b, pos + 1) && name_and_type_index
            == be16(b, pos + 3),
        ConstantItem::MethodRef { class_index, name_and_type_index } => b[pos] == 10 && pos + 5
            <= b.len() && end == pos + 5 && class_index == be16(b, pos + 1) && name_and_type_index
            == be16(b, pos + 3),
        ConstantItem::InterfaceMethodRef { class_index, name_and_type_index } => b[pos] == 11 && pos
            + 5 <= b.len() && end == pos + 5 && class_index == be16(b, pos + 1)
            && name_and_type_index == be16(b, pos + 3),
        ConstantItem::NameAndType { name_index, descriptor_index } => b[pos] == 12 && pos + 5
            <= b.len() && end == pos + 5 && name_index == be16(b, pos + 1) && descriptor_index
            == be16(b, pos + 3),
        ConstantItem::MethodHandle { reference_kind, reference_index } => b[pos] == 15 && pos + 4
            <= b.len() && end == pos + 4 && reference_kind == b[pos + 1] && reference_index == be16(
            b,
            pos + 2,
        ),
        ConstantItem::MethodType { descriptor_index } => b[pos] == 16 && pos + 3 <= b.len() && end
            == pos + 3 && descriptor_index == be16(b, pos + 1),
        ConstantItem::InvokeDynamic { bootstrap_method_attr_index, name_and_type_index } => b[pos]
            == 18 && pos + 5 <= b.len() && end == pos + 5 && bootstrap_method_attr_index == be16(
            b,
            pos + 1,
        ) && name_and_type_index == be16(b, pos + 3),
        ConstantItem::Module { name_index } => b[pos] == 19 && pos + 3 <= b.len() && end == pos + 3
            && name_index == be16(b, pos + 1),
        ConstantItem::Package { name_index } => b[pos] == 20 && pos + 3 <= b.len() && end == pos + 3
            && name_index == be16(b, pos + 1),
        ConstantItem::Padding => false,
    }
}

/// Whether a tag byte opens a recognized constant-pool entry kind.
pub open spec fn known_const_tag(tag: u8) -> bool {
    tag == 1 || tag == 3 || tag == 4 || tag == 5 || tag == 6 || tag == 7 || tag == 8 || tag == 9
        || tag == 10 || tag == 11 || tag == 12 || tag == 15 || tag == 16 || tag == 18 || tag == 19
        || tag == 20
}

/// How many bytes a fixed-width constant-pool entry of `tag` occupies,
/// including the tag byte.
pub open spec fn const_tag_width(tag: u8) -> int {
    if tag == 3 || tag == 4 || tag == 9 || tag == 10 || tag == 11 || tag == 12 || tag == 18 {
        5
    } else if tag == 5 || tag == 6 {
        9
    } else if tag == 15 {
        4
    } else {
        3
    }
}

/// Where the constant-pool entry stored at `pos` ends, when one fits the
/// bytes: the tag must be recognized, the entry must lie within the bytes,
/// and a UTF-8 entry's payload must be valid UTF-8.
pub open spec fn const_item_end(b: Seq<u8>, pos: int) -> Option<int> {
    if !(0 <= pos < b.len()) {
        None
    } else {
        let tag = b[pos];
        if tag == 1 {
            if pos + 3 <= b.len() && pos + 3 + be16(b, pos + 1) <= b.len() && vstd::utf8::valid_utf8(
                b.subrange(pos + 3, pos + 3 + be16(b, pos + 1)),
            ) {
                Some(pos + 3 + be16(b, pos + 1))
            } else {
                None
            }
        } else if known_const_tag(tag) {
            if pos + const_tag_width(tag) <= b.len() {
                Some(pos + const_tag_width(tag))
            } else {
                None
            }
        } else {
            None
        }
    }
}

/// Which failure reading the constant-pool entry at `pos` reports, when none
/// fits the bytes: the reserved zero tag, an unrecognized tag, a UTF-8
/// payload that does not decode, or a truncated stream.
pub open spec fn const_item_error(b: Seq<u8>, pos: int) -> ConstantImportError {
    if !(0 <= pos < b.len()) {
        ConstantImportError::UnexpectedEnd
    } else {
        let tag = b[pos];
        if tag == 0 {
            ConstantImportError::ZeroTypeConstError
        } else if tag == 1 {
            if pos + 3 <= b.len() && pos + 3 + be16(b, pos + 1) <= b.len() {
                ConstantImportError::InvalidUtf8
            } else {
                ConstantImportError::UnexpectedEnd
            }
        } else if known_const_tag(tag) {
            ConstantImportError::UnexpectedEnd
        } else {
            ConstantImportError::InvalidConstKind(tag)
        }
    }
}

impl ConstantItem {
    /// Reads one constant-pool entry at `pos`, by its leading tag byte: it
    /// succeeds exactly when a recognized entry fits the bytes there, and
    /// otherwise reports which failure stopped it.
    pub fn read(data: &Vec<u8>, pos: usize) -> (r: Result<(ConstantItem, usize), ConstantImportError>)
        ensures
            r matches Ok((item, p)) ==> pos < p <= data@.len() && const_item_parses(
                data@,
                pos as int,
                item,
                p as int,
            ) && const_item_end(data@, pos as int) == Some(p as int),
            r is Ok <==> const_item_end(data@, pos as int) is Some,
            r matches Err(e) ==> e == const_item_error(data@, pos as int),
    {
        let (tag, pos2) = match load_u8(data, pos) {
            Some(v) => v,
            None => {
                return Err(ConstantImportError::UnexpectedEnd);
            },
        };
        match tag {
            0 => Err(ConstantImportError::ZeroTypeConstError),
            1 => {
                let (length, pos3) = match load_u16(data, pos2) {
                    Some(v) => v,
                    None => {
                        return Err(ConstantImportError::UnexpectedEnd);
                    },
                };
                if length as usize > data.len() || pos3 > data.len() - length as usize {
                    return Err(ConstantImportError::UnexpectedEnd);
                }
                let end = pos3 + length as usize;
                let bytes = copy_range(data, pos3, end);
                match string_from_utf8(bytes) {
                    Some(s) => Ok((ConstantItem::Utf8(s), end)),
                    None => Err(ConstantImportError::InvalidUtf8),
                }
            },
            3 => match load_i32(data, pos2) {
                Some((v, p)) => Ok((ConstantItem::Integer(v), p)),
                None => Err(ConstantImportError::UnexpectedEnd),
            },
            4 => match load_u32(data, pos2) {
                Some((v, p)) => Ok((ConstantItem::Float(v), p)),
                None => Err(ConstantImportError::UnexpectedEnd),
            },
            5 => match load_i64(data, pos2) {
                Some((v, p)) => Ok((ConstantItem::Long(v), p)),
                None => Err(ConstantImportError::UnexpectedEnd),
            },
            6 => match load_u64(data, pos2) {
                Some((v, p)) => Ok((ConstantItem::Double(v), p)),
                None => Err(ConstantImportError::UnexpectedEnd),
            },
            7 => match load_u16(data, pos2) {
                Some((name_index, p)) => Ok((ConstantItem::Class { name_index }, p)),
                None => Err(ConstantImportError::UnexpectedEnd),
            },
            8 => match load_u16(data, pos2) {
                Some((string_index, p)) => Ok((ConstantItem::ConstString { string_index }, p)),
                None => Err(ConstantImportError::UnexpectedEnd),
            },
            9 => match load_u16(data, pos2) {
                Some((class_index, pm)) => match load_u16(data, pm) {
                    Some((name_and_type_index, p)) => Ok(
                        (ConstantItem::FieldRef { class_index, name_and_type_index }, p),
                    ),
                    None => Err(ConstantImportError::UnexpectedEnd),
                },
                None => Err(ConstantImportError::UnexpectedEnd),
            },
            10 => match load_u16(data, pos2) {
                Some((class_index, pm)) => match load_u16(data, pm) {
                    Some((name_and_type_index, p)) => Ok(
                        (ConstantItem::MethodRef { class_index, name_and_type_index }, p),
                    ),
                    None => Err(ConstantImportError::UnexpectedEnd),
                },
                None => Err(ConstantImportError::UnexpectedEnd),
            },
            11 => match load_u16(data, pos2) {
                Some((class_index, pm)) => match load_u16(data, pm) {
                    Some((name_and_type_index, p)) => Ok(
                        (ConstantItem::InterfaceMethodRef { class_index, name_and_type_index }, p),
                    ),
                    None => Err(ConstantImportError::UnexpectedEnd),
                },
                None => Err(ConstantImportError::UnexpectedEnd),
            },
            12 => match load_u16(data, pos2) {
                Some((name_index, pm)) => match load_u16(data, pm) {
                    Some((descriptor_index, p)) => Ok(
                        (ConstantItem::NameAndType { name_index, descriptor_index }, p),
                    ),
                    None => Err(ConstantImportError::UnexpectedEnd),
                },
                None => Err(ConstantImportError::UnexpectedEnd),
            },
            15 => match load_u8(data, pos2) {
                Some((reference_kind, pm)) => match load_u16(data, pm) {
                    Some((reference_index, p)) => Ok(
                        (ConstantItem::MethodHandle { reference_kind, reference_index }, p),
                    ),
                    None => Err(ConstantImportError::UnexpectedEnd),
                },
                None => Err(ConstantImportError::UnexpectedEnd),
            },
            16 => match load_u16(data, pos2) {
                Some((descriptor_index, p)) => Ok((ConstantItem::MethodType { descriptor_index }, p)),
                None => Err(ConstantImportError::UnexpectedEnd),
            },
            18 => match load_u16(data, pos2) {
                Some((bootstrap_method_attr_index, pm)) => match load_u16(data, pm) {
                    Some((name_and_type_index, p)) => Ok(
                        (
                            ConstantItem::InvokeDynamic {
                                bootstrap_method_attr_index,
                                name_and_type_index,
                            },
                            p,
                        ),
                    ),
                    None => Err(ConstantImportError::UnexpectedEnd),
                },
                None => Err(ConstantImportError::UnexpectedEnd),
            },
            19 => match load_u16(data, pos2) {
                Some((name_index, p)) => Ok((ConstantItem::Module { name_index }, p)),
                None => Err(ConstantImportError::UnexpectedEnd),
            },
            20 => match load_u16(data, pos2) {
                Some((name_index, p)) => Ok((ConstantItem::Package { name_index }, p)),
                None => Err(ConstantImportError::UnexpectedEnd),
            },
            _ => Err(ConstantImportError::InvalidConstKind(tag)),
        }
    }
}

/// `items` are the constant-pool entries stored one after the other at
/// `pos`, occupying `slots` pool slots in all and ending at `end`. An 8-byte
/// constant occupies two slots and is followed by a padding marker in
/// `items`.
pub open spec fn pool_parses(
    b: Seq<u8>,
    pos: int,
    slots: int,
    items: Seq<ConstantItem>,
    end: int,
) -> bool
    decreases items.len(),
{
    if items.len() == 0 {
        slots == 0 && end == pos
    } else {
        exists|item: ConstantItem, m: int|
            #![trigger const_item_parses(b, pos, item, m)]
            {
                &&& const_item_parses(b, pos, item, m)
                &&& items[0] == item
                &&& if spec_item_size(item) == 2 {
                    &&& items.len() >= 2
                    &&& items[1] == ConstantItem::Padding
                    &&& pool_parses(b, m, slots - 2, items.skip(2), end)
                } else {
                    pool_parses(b, m, slots - 1, items.skip(1), end)
                }
            }
    }
}

/// Appending one more parsed entry (with its padding slot, if 8-byte wide)
/// extends a parsed pool.
pub proof fn lemma_pool_parses_push(
    b: Seq<u8>,
    pos: int,
    slots: int,
    items: Seq<ConstantItem>,
    p: int,
    item: ConstantItem,
    m: int,
)
    requires
        pool_parses(b, pos, slots, items, p),
        const_item_parses(b, p, item, m),
    ensures
        spec_item_size(item) == 2 ==> pool_parses(
            b,
            pos,
            slots + 2,
            items + seq![item, ConstantItem::Padding],
            m,
        ),
        spec_item_size(item) != 2 ==> pool_parses(b, pos, slots + 1, items.push(item), m),
    decreases items.len(),
{
    if items.len() == 0 {
        if spec_item_size(item) == 2 {
            let ext = items + seq![item, ConstantItem::Padding];
            assert(ext[0] == item);
            assert(ext[1] == ConstantItem::Padding);
            assert(ext.skip(2) =~= Seq::<ConstantItem>::empty());
            assert(const_item_parses(b, pos, ext[0], m));
            assert(pool_parses(b, m, 0, ext.skip(2), m));
        } else {
            let ext = items.push(item);
            assert(ext[0] == item);
            assert(ext.skip(1) =~= Seq::<ConstantItem>::empty());
            assert(const_item_parses(b, pos, ext[0], m));
            assert(pool_parses(b, m, 0, ext.skip(1), m));
        }
    } else {
        let (item0, m0) = choose|item0: ConstantItem, m0: int|
            #![trigger const_item_parses(b, pos, item0, m0)]
            {
                &&& const_item_parses(b, pos, item0, m0)
                &&& items[0] == item0
                &&& if spec_item_size(item0) == 2 {
                    &&& items.len() >= 2
                    &&& items[1] == ConstantItem::Padding
                    &&& pool_parses(b, m0, slots - 2, items.skip(2), p)
                } else {
                    pool_parses(b, m0, slots - 1, items.skip(1), p)
                }
            };
        if spec_item_size(item0) == 2 {
            lemma_pool_parses_push(b, m0, slots - 2, items.skip(2), p, item, m);
            if spec_item_size(item) == 2 {
                let ext = items + seq![item, ConstantItem::Padding];
                assert(ext[0] == item0);
                assert(ext[1] == ConstantItem::Padding);
                assert(ext.skip(2) =~= items.skip(2) + seq![item, ConstantItem::Padding]);
                assert(const_item_parses(b, pos, ext[0], m0));
            } else {
                let ext = items.push(item);
                assert(ext[0] == item0);
                assert(ext[1] == ConstantItem::Padding);
                assert(ext.skip(2) =~= items.skip(2).push(item));
                assert(const_item_parses(b, pos, ext[0], m0));
            }
        } else {
            lemma_pool_parses_push(b, m0, slots - 1, items.skip(1), p, item, m);
            if spec_item_size(item) == 2 {
                let ext = items + seq![item, ConstantItem::Padding];
                assert(ext[0] == item0);
                assert(ext.skip(1) =~= items.skip(1) + seq![item, ConstantItem::Padding]);
                assert(const_item_parses(b, pos, ext[0], m0));
            } else {
                let ext = items.push(item);
                assert(ext[0] == item0);
                assert(ext.skip(1) =~= items.skip(1).push(item));
                assert(const_item_parses(b, pos, ext[0], m0));
            }
        }
    }
}

// ---------------------------------------------------------------------------
// Errors
// ---------------------------------------------------------------------------

/// Failures of reading one constant-pool entry.
#[derive(Debug)]
pub enum ConstantImportError {
    ZeroTypeConstError,
    UnexpectedEnd,
    InvalidUtf8,
    InvalidConstKind(u8),
}

/// Failures of importing a class file or an archive of class files.
#[derive(Debug)]
pub enum JavaImportError {
    NotJavaBytecode(u32),
    UnexpectedEnd,
    UnsuportedVersion(u16, u16),
    ConstantImportError(ConstantImportError),
    InvalidThisClass,
    InvalidSuperClass,
    ZipError(zip::result::ZipError),
}

// ---------------------------------------------------------------------------
// The loaded class file
// ---------------------------------------------------------------------------

/// A handle to a UTF-8 constant-pool entry.
#[derive(Clone, Copy, Debug)]
pub struct Utf8(u16);

impl Utf8 {
    pub closed spec fn spec_index(&self) -> u16 {
        self.0
    }
}

/// A handle to a class constant-pool entry.
#[derive(Clone, Copy, Debug)]
pub struct ClassInfo(u16);

impl ClassInfo {
    pub closed spec fn spec_index(&self) -> u16 {
        self.0
    }
}

/// The pool index of the name of the class entry at `index`.
pub open spec fn class_nameindex_at(pool: Seq<ConstantItem>, index: u16) -> Option<u16> {
    match pool_at(pool, index) {
        Some(ConstantItem::Class { name_index }) => Some(name_index),
        _ => None,
    }
}

/// A decoded class file: the constant pool, this- and super-class indices,
/// and the field, method, interface and attribute tables.
#[derive(Debug)]
pub struct JavaClassFile {
    const_items: Vec<ConstantItem>,
    this_class: u16,
    super_class: u16,
    fields: Vec<Field>,
    methods: Vec<Method>,
    interfaces: Vec<u16>,
    attributes: Vec<Attribute>,
    bootstrap_methods: Vec<BootstrapMethod>,
    flags: AccessFlags,
}

impl JavaClassFile {
    /// A stand-in with an empty constant pool, for synthetic classes whose
    /// methods are built directly from opcode streams rather than from bytes.
    pub fn synthetic() -> (r: JavaClassFile)
        ensures
            r.spec_pool().len() == 0,
            r.spec_bootstrap().len() == 0,
    {
        JavaClassFile {
            const_items: Vec::new(),
            this_class: 0,
            super_class: 0,
            fields: Vec::new(),
            methods: Vec::new(),
            interfaces: Vec::new(),
            attributes: Vec::new(),
            bootstrap_methods: Vec::new(),
            flags: AccessFlags::from_mask(0),
        }
    }

    pub closed spec fn spec_pool(&self) -> Seq<ConstantItem> {
        self.const_items@
    }

    pub closed spec fn spec_this_class(&self) -> u16 {
        self.this_class
    }

    pub closed spec fn spec_super_class(&self) -> u16 {
        self.super_class
    }

    pub closed spec fn spec_fields(&self) -> Seq<Field> {
        self.fields@
    }

    pub closed spec fn spec_methods(&self) -> Seq<Method> {
        self.methods@
    }

    pub closed spec fn spec_interfaces(&self) -> Seq<u16> {
        self.interfaces@
    }

    pub closed spec fn spec_attributes(&self) -> Seq<Attribute> {
        self.attributes@
    }

    pub closed spec fn spec_bootstrap(&self) -> Seq<BootstrapMethod> {
        self.bootstrap_methods@
    }

    pub closed spec fn spec_flags(&self) -> AccessFlags {
        self.flags
    }

    /// The string of a UTF-8 pool entry, if the handle addresses one.
    pub fn get_utf8(&self, utf8: Utf8) -> (r: Option<&str>)
        ensures
            match r {
                Option::Some(s) => utf8_at(self.spec_pool(), utf8.spec_index()) == Some(s@),
                Option::None => utf8_at(self.spec_pool(), utf8.spec_index()) is None,
            },
    {
        match self.lookup_utf8(utf8.0) {
            Some(s) => Some(s.as_str()),
            None => None,
        }
    }

    /// The name handle of a class pool entry, if the handle addresses one.
    pub fn get_class_info(&self, class_info: ClassInfo) -> (r: Option<Utf8>)
        ensures
            match r {
                Option::Some(u) => class_nameindex_at(self.spec_pool(), class_info.spec_index())
                    == Some(u.spec_index()),
                Option::None => class_nameindex_at(self.spec_pool(), class_info.spec_index())
                    is None,
            },
    {
        if class_info.0 == 0 {
            return None;
        }
        let i = (class_info.0 - 1) as usize;
        if i >= self.const_items.len() {
            return None;
        }
        match &self.const_items[i] {
            ConstantItem::Class { name_index } => Some(Utf8(*name_index)),
            _ => None,
        }
    }

    /// The handle of this class's own class pool entry.
    pub fn this_class(&self) -> (r: ClassInfo)
        ensures
            r.spec_index() == self.spec_this_class(),
    {
        ClassInfo(self.this_class)
    }

    /// The handle of the super class's pool entry.
    pub fn super_class(&self) -> (r: ClassInfo)
        ensures
            r.spec_index() == self.spec_super_class(),
    {
        ClassInfo(self.super_class)
    }

    /// The declared fields, in table order.
    pub fn fields(&self) -> (r: &Vec<Field>)
        ensures
            r@ == self.spec_fields(),
    {
        &self.fields
    }

    /// The declared methods, in table order.
    pub fn methods(&self) -> (r: &Vec<Method>)
        ensures
            r@ == self.spec_methods(),
    {
        &self.methods
    }

    /// The raw pool entry a one-based index addresses.
    pub fn lookup_item(&self, index: u16) -> (r: Option<&ConstantItem>)
        ensures
            match r {
                Option::Some(item) => pool_at(self.spec_pool(), index) == Some(*item),
                Option::None => pool_at(self.spec_pool(), index) is None,
            },
    {
        if index == 0 {
            return None;
        }
        let i = (index - 1) as usize;
        if i >= self.const_items.len() {
            return None;
        }
        Some(&self.const_items[i])
    }

    /// The string of the UTF-8 entry at `index`.
    pub fn lookup_utf8(&self, index: u16) -> (r: Option<&String>)
        ensures
            match r {
                Option::Some(s) => utf8_at(self.spec_pool(), index) == Some(s@),
                Option::None => utf8_at(self.spec_pool(), index) is None,
            },
    {
        if index == 0 {
            return None;
        }
        let i = (index - 1) as usize;
        if i >= self.const_items.len() {
            return None;
        }
        match &self.const_items[i] {
            ConstantItem::Utf8(s) => Some(s),
            _ => None,
        }
    }

    /// The name of the class entry at `index`.
    pub fn lookup_class(&self, index: u16) -> (r: Option<&String>)
        ensures
            match r {
                Option::Some(s) => class_name_at(self.spec_pool(), index) == Some(s@),
                Option::None => class_name_at(self.spec_pool(), index) is None,
            },
    {
        if index == 0 {
            return None;
        }
        let i = (index - 1) as usize;
        if i >= self.const_items.len() {
            return None;
        }
        let name_index = match &self.const_items[i] {
            ConstantItem::Class { name_index } => *name_index,
            _ => {
                return None;
            },
        };
        self.lookup_utf8(name_index)
    }

    /// The (name index, descriptor index) pair of the name-and-type entry at
    /// `index`.
    pub fn lookup_nametype(&self, index: u16) -> (r: Option<(u16, u16)>)
        ensures
            r == nametype_at(self.spec_pool(), index),
    {
        match self.lookup_item(index) {
            Some(item) => match item {
                ConstantItem::NameAndType { name_index, descriptor_index } => Some(
                    (*name_index, *descriptor_index),
                ),
                _ => None,
            },
            None => None,
        }
    }

    /// The (class index, name-and-type index) pair of the field reference at
    /// `index`.
    pub fn lookup_field_ref(&self, index: u16) -> (r: Option<(u16, u16)>)
        ensures
            r == fieldref_at(self.spec_pool(), index),
    {
        match self.lookup_item(index) {
            Some(item) => match item {
                ConstantItem::FieldRef { class_index, name_and_type_index } => Some(
                    (*class_index, *name_and_type_index),
                ),
                _ => None,
            },
            None => None,
        }
    }

    /// The (class index, name-and-type index) pair of the method or
    /// interface-method reference at `index`.
    pub fn lookup_method_ref(&self, index: u16) -> (r: Option<(u16, u16)>)
        ensures
            r == methodref_at(self.spec_pool(), index),
    {
        match self.lookup_item(index) {
            Some(item) => match item {
                ConstantItem::MethodRef { class_index, name_and_type_index } => Some(
                    (*class_index, *name_and_type_index),
                ),
                ConstantItem::InterfaceMethodRef { class_index, name_and_type_index } => Some(
                    (*class_index, *name_and_type_index),
                ),
                _ => None,
            },
            None => None,
        }
    }

    /// The (bootstrap-method index, name-and-type index) pair of the
    /// invoke-dynamic entry at `index`.
    pub fn lookup_invoke_dynamic(&self, index: u16) -> (r: Option<(u16, u16)>)
        ensures
            r == invoke_dynamic_at(self.spec_pool(), index),
    {
        match self.lookup_item(index) {
            Some(item) => match item {
                ConstantItem::InvokeDynamic { bootstrap_method_attr_index, name_and_type_index } =>
                    Some((*bootstrap_method_attr_index, *name_and_type_index)),
                _ => None,
            },
            None => None,
        }
    }

    /// The (reference kind, reference index) pair of the method-handle entry
    /// at `index`.
    pub fn lookup_method_handle(&self, index: u16) -> (r: Option<(u8, u16)>)
        ensures
            r == method_handle_at(self.spec_pool(), index),
    {
        match self.lookup_item(index) {
            Some(item) => match item {
                ConstantItem::MethodHandle { reference_kind, reference_index } => Some(
                    (*reference_kind, *reference_index),
                ),
                _ => None,
            },
            None => None,
        }
    }

    /// The raw bytecode and declared slot counts of one of this class's
    /// methods, read from the method's `Code` attribute; absent for a method
    /// without a body or with a malformed one.
    pub fn method_code(&self, method: &Method) -> (r: Option<CodeAttribute>)
        ensures
            r matches Some(c) ==> (first_code_attr(self.spec_pool(), method.attributes@, 0)
                matches Some(k) && code_attr_parses(method.attributes@[k].data@, c)),
            r is Some <==> match first_code_attr(self.spec_pool(), method.attributes@, 0) {
                Option::Some(k) => code_attr_fits(method.attributes@[k].data@),
                Option::None => false,
            },
    {
        let mut i: usize = 0;
        while i < method.attributes.len()
            invariant
                i <= method.attributes@.len(),
                first_code_attr(self.spec_pool(), method.attributes@, 0) == first_code_attr(
                    self.spec_pool(),
                    method.attributes@,
                    i as int,
                ),
            decreases method.attributes@.len() - i,
        {
            let a = &method.attributes[i];
            let is_code = match self.lookup_utf8(a.name_index) {
                Some(s) => crate::strutil::str_eq(s.as_str(), "Code"),
                None => false,
            };
            if is_code {
                let d = &a.data;
                let (max_stack, _) = match load_u16(d, 0) {
                    Some(v) => v,
                    None => {
                        return None;
                    },
                };
                let (max_locals, _) = match load_u16(d, 2) {
                    Some(v) => v,
                    None => {
                        return None;
                    },
                };
                let (code_len, _) = match load_u32(d, 4) {
                    Some(v) => v,
                    None => {
                        return None;
                    },
                };
                if code_len as usize > d.len() || 8 > d.len() - code_len as usize {
                    return None;
                }
                let code = copy_range(d, 8, 8 + code_len as usize);
                let c = CodeAttribute { max_stack, max_locals, code };
                proof {
                    assert(first_code_attr(self.spec_pool(), method.attributes@, i as int) == Some(
                        i as int,
                    ));
                    assert(code_attr_parses(method.attributes@[i as int].data@, c));
                }
                return Some(c);
            }
            i = i + 1;
        }
        None
    }

    /// The bootstrap method at `index` of the class's bootstrap-method table.
    pub fn lookup_bootstrap_method(&self, index: u16) -> (r: Option<&BootstrapMethod>)
        ensures
            match r {
                Option::Some(bm) => index < self.spec_bootstrap().len() && *bm
                    == self.spec_bootstrap()[index as int],
                Option::None => index >= self.spec_bootstrap().len(),
            },
    {
        if (index as usize) < self.bootstrap_methods.len() {
            Some(&self.bootstrap_methods[index as usize])
        } else {
            None
        }
    }
}

/// The bootstrap-method table is extracted from an attribute named
/// `BootstrapMethods`, or left empty when there is none or it does not parse.
pub open spec fn bootstrap_extracted(
    pool: Seq<ConstantItem>,
    attrs: Seq<Attribute>,
    bms: Seq<BootstrapMethod>,
) -> bool {
    ||| exists|i: int|
        #![trigger attrs[i]]
        {
            &&& 0 <= i < attrs.len()
            &&& utf8_at(pool, attrs[i].name_index) == Some("BootstrapMethods"@)
            &&& bsm_table_parses(attrs[i].data@, bms)
        }
    ||| bms.len() == 0
}

/// The class-file body that follows the constant pool at `p`: access flags,
/// this- and super-class indices, then the interface, field, method and
/// attribute tables.
pub open spec fn class_body_parses(b: Seq<u8>, p: int, c: JavaClassFile) -> bool {
    &&& p + 8 <= b.len()
    &&& c.spec_flags().spec_mask() == be16(b, p)
    &&& c.spec_this_class() == be16(b, p + 2)
    &&& c.spec_super_class() == be16(b, p + 4)
    &&& ({
        let icount = be16(b, p + 6);
        let fpos = p + 8 + 2 * icount;
        &&& c.spec_interfaces().len() == icount
        &&& fpos <= b.len()
        &&& (forall|k: int| 0 <= k < icount ==> c.spec_interfaces()[k] == be16(b, p + 8 + 2 * k))
        &&& fpos + 2 <= b.len()
        &&& exists|pf: int, pm: int, pa: int|
            #![trigger fields_parse(b, fpos + 2, be16(b, fpos), c.spec_fields(), pf), methods_parse(b, pf + 2, be16(b, pf), c.spec_methods(), pm), attrs_parse(b, pm + 2, be16(b, pm), c.spec_attributes(), pa)]
            {
                &&& fields_parse(b, fpos + 2, be16(b, fpos), c.spec_fields(), pf)
                &&& pf + 2 <= b.len()
                &&& methods_parse(b, pf + 2, be16(b, pf), c.spec_methods(), pm)
                &&& pm + 2 <= b.len()
                &&& attrs_parse(b, pm + 2, be16(b, pm), c.spec_attributes(), pa)
            }
    })
}

/// Where the constant pool ends, when it fits the bytes: entries are read
/// from `pos` while the slot counter `curr` is below `count`; an 8-byte
/// constant advances the counter by two.
pub open spec fn pool_end(b: Seq<u8>, pos: int, curr: int, count: int) -> Option<int>
    decreases count + 1 - curr,
{
    if curr >= count {
        if 0 <= pos <= b.len() {
            Some(pos)
        } else {
            None
        }
    } else {
        match const_item_end(b, pos) {
            Option::None => None,
            Option::Some(m) => pool_end(
                b,
                m,
                curr + (if b[pos] == 5 || b[pos] == 6 {
                    2int
                } else {
                    1int
                }),
                count,
            ),
        }
    }
}

/// The class-file header is accepted: the magic number, a zero minor version
/// and a major version in the supported range.
pub open spec fn class_header_ok(b: Seq<u8>) -> bool {
    &&& b.len() >= 10
    &&& be32(b, 0) == 0xCAFEBABE
    &&& be16(b, 4) == 0
    &&& 40 <= be16(b, 6) <= 64
}

/// Where the tables after the constant pool end, when they fit the bytes:
/// the access flags, this/super indices and interface list, then the field,
/// method and attribute tables.
pub open spec fn class_tables_end(b: Seq<u8>, pe: int) -> Option<int> {
    if pe + 8 <= b.len() {
        let fpos = pe + 8 + 2 * be16(b, pe + 6);
        if fpos + 2 <= b.len() {
            match members_end(b, fpos + 2, be16(b, fpos)) {
                Option::None => None,
                Option::Some(pf) => if pf + 2 <= b.len() {
                    match members_end(b, pf + 2, be16(b, pf)) {
                        Option::None => None,
                        Option::Some(pm) => if pm + 2 <= b.len() {
                            attrs_end(b, pm + 2, be16(b, pm))
                        } else {
                            None
                        },
                    }
                } else {
                    None
                },
            }
        } else {
            None
        }
    } else {
        None
    }
}

/// The whole class file is well-formed: an accepted header, a constant pool
/// that fills its declared slots, this- and super-class indices in range, and
/// body tables that fit the bytes.
pub open spec fn class_file_ok(b: Seq<u8>) -> bool {
    &&& class_header_ok(b)
    &&& match pool_end(b, 10, 1, be16(b, 8)) {
        Option::None => false,
        Option::Some(pe) => {
            &&& 1 <= be16(b, pe + 2) <= be16(b, 8)
            &&& be16(b, pe + 4) <= be16(b, 8)
            &&& class_tables_end(b, pe) is Some
        },
    }
}

/// The load rejects the this-class index: header and pool are fine, the index
/// is readable, and it is zero or beyond the pool.
pub open spec fn this_class_rejected(b: Seq<u8>) -> bool {
    &&& class_header_ok(b)
    &&& match pool_end(b, 10, 1, be16(b, 8)) {
        Option::None => false,
        Option::Some(pe) => pe + 4 <= b.len() && !(1 <= be16(b, pe + 2) <= be16(b, 8)),
    }
}

/// The load rejects the super-class index: everything up to it is fine and
/// the index lies beyond the pool. A zero super index is permitted.
pub open spec fn super_class_rejected(b: Seq<u8>) -> bool {
    &&& class_header_ok(b)
    &&& match pool_end(b, 10, 1, be16(b, 8)) {
        Option::None => false,
        Option::Some(pe) => pe + 6 <= b.len() && 1 <= be16(b, pe + 2) <= be16(b, 8) && be16(
            b,
            pe + 4,
        ) > be16(b, 8),
    }
}

/// `c` is the decoding of the class file `b`: the magic number and version
/// are accepted, the constant pool fills the declared slots, the this- and
/// super-class indices are in range, the body tables parse in order, and the
/// bootstrap-method table is extracted from the class attributes.
pub open spec fn class_file_parses(b: Seq<u8>, c: JavaClassFile) -> bool {
    &&& b.len() >= 10
    &&& be32(b, 0) == 0xCAFEBABE
    &&& be16(b, 4) == 0
    &&& 40 <= be16(b, 6) <= 64
    &&& ({
        let count = be16(b, 8);
        &&& 1 <= c.spec_this_class() <= count
        &&& c.spec_super_class() <= count
        &&& exists|slots: int, pe: int|
            #![trigger pool_parses(b, 10, slots, c.spec_pool(), pe)]
            {
                &&& count - 1 <= slots <= count
                &&& pool_parses(b, 10, slots, c.spec_pool(), pe)
                &&& class_body_parses(b, pe, c)
            }
    })
    &&& bootstrap_extracted(c.spec_pool(), c.spec_attributes(), c.spec_bootstrap())
}

/// Decodes one binary class file: a `0xCAFEBABE` magic, a version in the
/// accepted range, the constant pool, and the interface, field, method and
/// attribute tables. It succeeds exactly on a well-formed class file, and
/// each typed failure comes exactly on its own condition.
pub fn load_class(data: &Vec<u8>) -> (r: Result<JavaClassFile, JavaImportError>)
    ensures
        r matches Ok(c) ==> class_file_parses(data@, c),
        r is Ok <==> class_file_ok(data@),
        (r matches Err(e) && e is NotJavaBytecode) <==> (data@.len() >= 4 && be32(data@, 0)
            != 0xCAFEBABE),
        r matches Err(e) ==> (e matches JavaImportError::NotJavaBytecode(m) ==> m == be32(
            data@,
            0,
        )),
        (r matches Err(e) && e is UnsuportedVersion) <==> (data@.len() >= 8 && be32(data@, 0)
            == 0xCAFEBABE && !(be16(data@, 4) == 0 && 40 <= be16(data@, 6) <= 64)),
        r matches Err(e) ==> (e matches JavaImportError::UnsuportedVersion(maj, min) ==> maj
            == be16(data@, 6) && min == be16(data@, 4)),
        (r matches Err(e) && e is ConstantImportError) <==> (class_header_ok(data@) && pool_end(
            data@,
            10,
            1,
            be16(data@, 8),
        ) is None),
        (r matches Err(e) && e is InvalidThisClass) <==> this_class_rejected(data@),
        (r matches Err(e) && e is InvalidSuperClass) <==> super_class_rejected(data@),
{
    let (magic, pos) = match load_u32(data, 0) {
        Some(v) => v,
        None => {
            return Err(JavaImportError::UnexpectedEnd);
        },
    };
    if magic != 0xCAFEBABE {
        return Err(JavaImportError::NotJavaBytecode(magic));
    }
    let (minor, pos) = match load_u16(data, pos) {
        Some(v) => v,
        None => {
            return Err(JavaImportError::UnexpectedEnd);
        },
    };
    let (major, pos) = match load_u16(data, pos) {
        Some(v) => v,
        None => {
            return Err(JavaImportError::UnexpectedEnd);
        },
    };
    if !(40 <= major && major <= 64) || minor != 0 {
        return Err(JavaImportError::UnsuportedVersion(major, minor));
    }
    let (constant_pool_count, pos) = match load_u16(data, pos) {
        Some(v) => v,
        None => {
            return Err(JavaImportError::UnexpectedEnd);
        },
    };
    let mut const_items: Vec<ConstantItem> = Vec::new();
    let mut curr: u32 = 1;
    let mut pos = pos;
    while curr < constant_pool_count as u32
        invariant
            1 <= curr <= constant_pool_count + 1,
            pos <= data@.len(),
            data@.len() >= 10,
            be32(data@, 0) == 0xCAFEBABE,
            be16(data@, 4) == 0,
            40 <= be16(data@, 6) <= 64,
            constant_pool_count == be16(data@, 8),
            pool_parses(data@, 10, curr - 1, const_items@, pos as int),
            pool_end(data@, 10, 1, constant_pool_count as int) == pool_end(
                data@,
                pos as int,
                curr as int,
                constant_pool_count as int,
            ),
        decreases constant_pool_count + 1 - curr,
    {
        let (item, p) = match ConstantItem::read(data, pos) {
            Ok(v) => v,
            Err(e) => {
                return Err(JavaImportError::ConstantImportError(e));
            },
        };
        let sz = item.size();
        let ghost old_items = const_items@;
        let ghost item_g = item;
        proof {
            lemma_pool_parses_push(data@, 10, curr - 1, const_items@, pos as int, item, p as int);
            assert(spec_item_size(item) == (if data@[pos as int] == 5 || data@[pos as int] == 6 {
                2int
            } else {
                1int
            }));
        }
        const_items.push(item);
        if sz == 2 {
            const_items.push(ConstantItem::Padding);
            proof {
                assert(const_items@ =~= old_items + seq![item_g, ConstantItem::Padding]);
            }
        }
        curr = curr + sz as u32;
        pos = p;
    }
    let ghost pool_slots = curr - 1;
    let ghost pool_pos = pos as int;
    proof {
        assert(pool_end(data@, 10, 1, constant_pool_count as int) == Some(pool_pos));
    }
    let (flags, pos) = match AccessFlags::read(data, pos) {
        Some(v) => v,
        None => {
            return Err(JavaImportError::UnexpectedEnd);
        },
    };
    let (this_class, pos) = match load_u16(data, pos) {
        Some(v) => v,
        None => {
            return Err(JavaImportError::UnexpectedEnd);
        },
    };
    if this_class < 1 || this_class > constant_pool_count {
        return Err(JavaImportError::InvalidThisClass);
    }
    let (super_class, pos) = match load_u16(data, pos) {
        Some(v) => v,
        None => {
            return Err(JavaImportError::UnexpectedEnd);
        },
    };
    if super_class > constant_pool_count {
        return Err(JavaImportError::InvalidSuperClass);
    }
    let (interfaces_count, pos) = match load_u16(data, pos) {
        Some(v) => v,
        None => {
            return Err(JavaImportError::UnexpectedEnd);
        },
    };
    let (interfaces, pos) = match read_u16_table(data, pos, interfaces_count) {
        Some(v) => v,
        None => {
            return Err(JavaImportError::UnexpectedEnd);
        },
    };
    let ghost fpos_g = pos as int;
    let (fields_count, pos) = match load_u16(data, pos) {
        Some(v) => v,
        None => {
            return Err(JavaImportError::UnexpectedEnd);
        },
    };
    let (fields, pos) = match crate::field::Field::read_table(data, pos, fields_count) {
        Some(v) => v,
        None => {
            return Err(JavaImportError::UnexpectedEnd);
        },
    };
    let ghost fields_end = pos as int;
    let (methods_count, pos) = match load_u16(data, pos) {
        Some(v) => v,
        None => {
            return Err(JavaImportError::UnexpectedEnd);
        },
    };
    let (methods, pos) = match Method::read_table(data, pos, methods_count) {
        Some(v) => v,
        None => {
            return Err(JavaImportError::UnexpectedEnd);
        },
    };
    let ghost methods_end = pos as int;
    let (attributes_count, pos) = match load_u16(data, pos) {
        Some(v) => v,
        None => {
            return Err(JavaImportError::UnexpectedEnd);
        },
    };
    let (attributes, attrs_pos) = match Attribute::read_table(data, pos, attributes_count) {
        Some(v) => v,
        None => {
            return Err(JavaImportError::UnexpectedEnd);
        },
    };
    let ghost attrs_pos_g = attrs_pos as int;
    let bootstrap_methods = extract_bootstrap_methods(&const_items, &attributes);
    let c = JavaClassFile {
        const_items,
        this_class,
        super_class,
        fields,
        methods,
        interfaces,
        attributes,
        bootstrap_methods,
        flags,
    };
    proof {
        let b = data@;
        let pe = pool_pos;
        let icount = be16(b, pe + 6);
        let fpos = pe + 8 + 2 * icount;
        assert(fpos == fpos_g);
        assert(fields_parse(b, fpos + 2, be16(b, fpos), c.spec_fields(), fields_end));
        assert(fields_end + 2 <= b.len());
        assert(methods_parse(b, fields_end + 2, be16(b, fields_end), c.spec_methods(), methods_end));
        assert(methods_end + 2 <= b.len());
        assert(attrs_parse(b, methods_end + 2, be16(b, methods_end), c.spec_attributes(), attrs_pos_g));
        assert(class_body_parses(b, pe, c));
        assert(pool_parses(b, 10, pool_slots, c.spec_pool(), pe));
        assert(be16(b, 8) - 1 <= pool_slots <= be16(b, 8));
        assert(class_file_parses(b, c));
        assert(members_end(b, fpos + 2, be16(b, fpos)) == Some(fields_end));
        assert(members_end(b, fields_end + 2, be16(b, fields_end)) == Some(methods_end));
        assert(attrs_end(b, methods_end + 2, be16(b, methods_end)) == Some(attrs_pos_g));
        assert(class_tables_end(b, pe) is Some);
        assert(class_file_ok(b));
    }
    Ok(c)
}

/// Scans the class attributes for the bootstrap-method table and decodes it;
/// a class without one, or with one that does not parse, gets an empty table.
fn extract_bootstrap_methods(pool: &Vec<ConstantItem>, attrs: &Vec<Attribute>) -> (r: Vec<
    BootstrapMethod,
>)
    ensures
        bootstrap_extracted(pool@, attrs@, r@),
{
    let mut i: usize = 0;
    while i < attrs.len()
        invariant
            i <= attrs@.len(),
        decreases attrs@.len() - i,
    {
        let a = &attrs[i];
        let is_bsm = match pool_lookup_utf8(pool, a.name_index) {
            Some(s) => crate::strutil::str_eq(s.as_str(), "BootstrapMethods"),
            None => false,
        };
        if is_bsm {
            match BootstrapMethod::read_table(&a.data) {
                Some(bms) => {
                    return bms;
                },
                None => {
                    let empty: Vec<BootstrapMethod> = Vec::new();
                    return empty;
                },
            }
        }
        i = i + 1;
    }
    let empty: Vec<BootstrapMethod> = Vec::new();
    empty
}

/// The string of the UTF-8 entry at `index` of a raw pool.
fn pool_lookup_utf8(pool: &Vec<ConstantItem>, index: u16) -> (r: Option<&String>)
    ensures
        match r {
            Option::Some(s) => utf8_at(pool@, index) == Some(s@),
            Option::None => utf8_at(pool@, index) is None,
        },
{
    if index == 0 {
        return None;
    }
    let i = (index - 1) as usize;
    if i >= pool.len() {
        return None;
    }
    match &pool[i] {
        ConstantItem::Utf8(s) => Some(s),
        _ => None,
    }
}

} // verus!
