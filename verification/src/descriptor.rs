use vstd::prelude::*;
use crate::class::flat_of;
use crate::fatops::ClassInfo;
use crate::strutil::{chars_of, string_from_chars};

verus! {

/// The closed set of variable types a descriptor can denote.
#[derive(Debug)]
pub enum VariableType {
    Void,
    Bool,
    Byte,
    Short,
    Char,
    Int,
    Long,
    Float,
    Double,
    ObjectRef(ClassInfo),
    ArrayRef(Box<VariableType>),
}

/// The descriptor letters that denote a single base type.
pub open spec fn is_base_char(c: char) -> bool {
    c == 'Z' || c == 'B' || c == 'S' || c == 'C' || c == 'I' || c == 'J' || c == 'F' || c == 'D'
        || c == 'V'
}

/// The base type a descriptor letter denotes.
pub open spec fn base_type_of(c: char) -> VariableType {
    if c == 'Z' {
        VariableType::Bool
    } else if c == 'B' {
        VariableType::Byte
    } else if c == 'S' {
        VariableType::Short
    } else if c == 'C' {
        VariableType::Char
    } else if c == 'I' {
        VariableType::Int
    } else if c == 'J' {
        VariableType::Long
    } else if c == 'F' {
        VariableType::Float
    } else if c == 'D' {
        VariableType::Double
    } else {
        VariableType::Void
    }
}

/// The first position at or after `i` where `c` occurs in `s`.
pub open spec fn find_from(s: Seq<char>, i: int, c: char) -> Option<int>
    decreases s.len() - i,
{
    if i < 0 || i >= s.len() {
        None
    } else if s[i] == c {
        Some(i)
    } else {
        find_from(s, i + 1, c)
    }
}

/// The position one past the single field type that starts at `i`: one past a
/// base letter, one past the `;` that closes an `L...;` reference, or the end
/// of the element type after a run of `[`.
pub open spec fn ftype_end(s: Seq<char>, i: int) -> Option<int>
    decreases s.len() - i,
{
    if i < 0 || i >= s.len() {
        None
    } else if is_base_char(s[i]) {
        Some(i + 1)
    } else if s[i] == 'L' {
        match find_from(s, i + 1, ';') {
            Option::None => None,
            Option::Some(k) => Some(k + 1),
        }
    } else if s[i] == '[' {
        ftype_end(s, i + 1)
    } else {
        None
    }
}

/// `v` is the variable type denoted by `s[i..j)`.
pub open spec fn vt_parses(s: Seq<char>, i: int, j: int, v: VariableType) -> bool
    decreases v,
{
    match v {
        VariableType::ObjectRef(ci) => i < s.len() && s[i] == 'L' && find_from(s, i + 1, ';')
            == Some(j - 1) && ci@ == flat_of(s.subrange(i + 1, j - 1)),
        VariableType::ArrayRef(elem) => i < s.len() && s[i] == '[' && vt_parses(
            s,
            i + 1,
            j,
            *elem,
        ),
        _ => 0 <= i < s.len() && j == i + 1 && is_base_char(s[i]) && v == base_type_of(s[i]),
    }
}

/// `args` are exactly the variable types denoted, one after the other, by
/// `s[i..j)`.
pub open spec fn vts_parse(s: Seq<char>, i: int, j: int, args: Seq<VariableType>) -> bool
    decreases args.len(),
{
    if args.len() == 0 {
        i == j
    } else {
        exists|m: int|
            #![trigger vt_parses(s, i, m, args[0])]
            vt_parses(s, i, m, args[0]) && vts_parse(s, m, j, args.drop_first())
    }
}

/// Appending one more parsed type extends a parsed run of types.
pub proof fn lemma_vts_parse_push(
    s: Seq<char>,
    i: int,
    m: int,
    j: int,
    args: Seq<VariableType>,
    v: VariableType,
)
    requires
        vts_parse(s, i, m, args),
        vt_parses(s, m, j, v),
    ensures
        vts_parse(s, i, j, args.push(v)),
    decreases args.len(),
{
    if args.len() == 0 {
        assert(args.push(v)[0] == v);
        assert(args.push(v).drop_first() =~= Seq::<VariableType>::empty());
        assert(vt_parses(s, m, j, args.push(v)[0]));
        assert(vts_parse(s, j, j, args.push(v).drop_first()));
    } else {
        let mid = choose|mid: int|
            #![trigger vt_parses(s, i, mid, args[0])]
            vt_parses(s, i, mid, args[0]) && vts_parse(s, mid, m, args.drop_first());
        lemma_vts_parse_push(s, mid, m, j, args.drop_first(), v);
        assert(args.push(v)[0] == args[0]);
        assert(args.push(v).drop_first() =~= args.drop_first().push(v));
        assert(vt_parses(s, i, mid, args.push(v)[0]));
        assert(vts_parse(s, mid, j, args.push(v).drop_first()));
    }
}

/// The number of argument units in `s[i..stop)`: one per base letter, one per
/// `L...;` reference, one per array whatever its nesting depth.
pub open spec fn argc_from(s: Seq<char>, i: int, stop: int) -> Option<int>
    decreases stop - i,
{
    if i == stop {
        Some(0)
    } else if i > stop {
        None
    } else {
        match ftype_end(s, i) {
            Option::None => None,
            Option::Some(j) => if i < j <= stop {
                match argc_from(s, j, stop) {
                    Option::None => None,
                    Option::Some(n) => Some(n + 1),
                }
            } else {
                None
            },
        }
    }
}

/// Array nesting never multiplies the argument count: a run of `[` spans
/// one field type together with its element type, so the unit counting of
/// `argc_from` charges the whole array once, whatever its depth.
pub proof fn lemma_array_nesting_counts_once(s: Seq<char>, i: int)
    requires
        0 <= i < s.len(),
        s[i] == '[',
    ensures
        ftype_end(s, i) == ftype_end(s, i + 1),
{
}

/// An argument count is never negative.
pub proof fn lemma_argc_from_nonneg(s: Seq<char>, i: int, stop: int)
    ensures
        argc_from(s, i, stop) matches Some(n) ==> n >= 0,
    decreases stop - i,
{
    if i == stop {
    } else if i > stop {
    } else {
        match ftype_end(s, i) {
            Option::None => {},
            Option::Some(j) => {
                if i < j <= stop {
                    lemma_argc_from_nonneg(s, j, stop);
                }
            },
        }
    }
}

/// The argument count of a method descriptor: the units between the leading
/// `(` and the first `)`, or nothing when the descriptor is malformed.
pub open spec fn argc_of(s: Seq<char>) -> Option<int> {
    if s.len() >= 1 && s[0] == '(' {
        match find_from(s, 1, ')') {
            Option::None => None,
            Option::Some(cl) => argc_from(s, 1, cl),
        }
    } else {
        None
    }
}

/// Finds the first occurrence of `c` in `cs` at or after `start`.
pub fn find_char(cs: &Vec<char>, start: usize, c: char) -> (r: Option<usize>)
    ensures
        match r {
            Option::Some(k) => find_from(cs@, start as int, c) == Some(k as int) && start <= k
                < cs@.len(),
            Option::None => find_from(cs@, start as int, c) is None,
        },
{
    let mut i: usize = start;
    while i < cs.len()
        invariant
            start <= i,
            find_from(cs@, start as int, c) == find_from(cs@, i as int, c),
        decreases cs@.len() - i,
    {
        if cs[i] == c {
            return Some(i);
        }
        i = i + 1;
    }
    None
}

/// Parses the single field type that starts at `i`, returning it together
/// with the position one past its end.
pub fn parse_ftype(cs: &Vec<char>, i: usize) -> (r: Option<(VariableType, usize)>)
    ensures
        match r {
            Option::Some((v, j)) => i < j <= cs@.len() && ftype_end(cs@, i as int) == Some(
                j as int,
            ) && vt_parses(cs@, i as int, j as int, v),
            Option::None => ftype_end(cs@, i as int) is None,
        },
    decreases cs@.len() - i,
{
    if i >= cs.len() {
        return None;
    }
    let c = cs[i];
    if c == '[' {
        match parse_ftype(cs, i + 1) {
            Some((elem, j)) => Some((VariableType::ArrayRef(Box::new(elem)), j)),
            None => None,
        }
    } else if c == 'L' {
        match find_char(cs, i + 1, ';') {
            Some(k) => {
                let mut name: Vec<char> = Vec::new();
                let mut p: usize = i + 1;
                while p < k
                    invariant
                        i + 1 <= p <= k < cs@.len(),
                        name@ == cs@.subrange(i + 1 as int, p as int),
                    decreases k - p,
                {
                    name.push(cs[p]);
                    assert(name@ =~= cs@.subrange(i + 1 as int, p + 1 as int));
                    p = p + 1;
                }
                let name_str = string_from_chars(&name);
                let ci = ClassInfo::from_java_path(name_str.as_str());
                Some((VariableType::ObjectRef(ci), k + 1))
            },
            None => None,
        }
    } else if c == 'Z' || c == 'B' || c == 'S' || c == 'C' || c == 'I' || c == 'J' || c == 'F'
        || c == 'D' || c == 'V' {
        let v = if c == 'Z' {
            VariableType::Bool
        } else if c == 'B' {
            VariableType::Byte
        } else if c == 'S' {
            VariableType::Short
        } else if c == 'C' {
            VariableType::Char
        } else if c == 'I' {
            VariableType::Int
        } else if c == 'J' {
            VariableType::Long
        } else if c == 'F' {
            VariableType::Float
        } else if c == 'D' {
            VariableType::Double
        } else {
            VariableType::Void
        };
        Some((v, i + 1))
    } else {
        None
    }
}

/// Decodes a field descriptor into its variable type. The whole descriptor
/// must be one field type.
pub fn field_descriptor_to_ftype(descriptor: &str) -> (r: Option<VariableType>)
    ensures
        match r {
            Option::Some(v) => ftype_end(descriptor@, 0) == Some(descriptor@.len() as int)
                && vt_parses(descriptor@, 0, descriptor@.len() as int, v),
            Option::None => !(ftype_end(descriptor@, 0) == Some(descriptor@.len() as int)),
        },
{
    let cs = chars_of(descriptor);
    match parse_ftype(&cs, 0) {
        Some((v, j)) => {
            if j == cs.len() {
                Some(v)
            } else {
                None
            }
        },
        None => None,
    }
}

/// The position of the closing `)` reached by scanning one field type after
/// the other from `i`.
pub open spec fn args_scan(s: Seq<char>, i: int) -> Option<int>
    decreases s.len() - i,
{
    if i < 0 || i >= s.len() {
        None
    } else if s[i] == ')' {
        Some(i)
    } else {
        match ftype_end(s, i) {
            Option::None => None,
            Option::Some(j) => if i < j <= s.len() {
                args_scan(s, j)
            } else {
                None
            },
        }
    }
}

/// The number of field types scanned before the closing `)` is reached from
/// `i`.
pub open spec fn args_scan_count(s: Seq<char>, i: int) -> Option<int>
    decreases s.len() - i,
{
    if i < 0 || i >= s.len() {
        None
    } else if s[i] == ')' {
        Some(0)
    } else {
        match ftype_end(s, i) {
            Option::None => None,
            Option::Some(j) => if i < j <= s.len() {
                match args_scan_count(s, j) {
                    Option::None => None,
                    Option::Some(n) => Some(n + 1),
                }
            } else {
                None
            },
        }
    }
}

/// A whole method descriptor scans: a leading `(`, field types up to a `)`,
/// then one field type that reaches the end.
pub open spec fn method_desc_ok(s: Seq<char>) -> bool {
    &&& s.len() >= 1
    &&& s[0] == '('
    &&& match args_scan(s, 1) {
        Option::None => false,
        Option::Some(cl) => ftype_end(s, cl + 1) == Some(s.len() as int),
    }
}

/// A whole method descriptor denotes `args` and `ret`: an argument run
/// between `(` and `)`, then the return type to the end.
pub open spec fn desc_parses(s: Seq<char>, args: Seq<VariableType>, ret: VariableType) -> bool {
    &&& s.len() >= 1
    &&& s[0] == '('
    &&& exists|cl: int|
        #![trigger vts_parse(s, 1, cl, args)]
        {
            &&& 0 < cl < s.len()
            &&& s[cl] == ')'
            &&& vts_parse(s, 1, cl, args)
            &&& vt_parses(s, cl + 1, s.len() as int, ret)
        }
}

/// Decodes a method descriptor into its ordered argument types and its return
/// type.
#[verifier::rlimit(50)]
pub fn method_desc_to_args(desc: &str) -> (r: Option<(Vec<VariableType>, VariableType)>)
    ensures
        r matches Some(p) ==> desc_parses(desc@, p.0@, p.1) && args_scan_count(desc@, 1) == Some(
            p.0@.len() as int,
        ),
        r is Some <==> method_desc_ok(desc@),
{
    let cs = chars_of(desc);
    if cs.len() == 0 {
        return None;
    }
    if cs[0] != '(' {
        return None;
    }
    let mut args: Vec<VariableType> = Vec::new();
    let mut i: usize = 1;
    loop
        invariant_except_break
            1 <= i <= cs@.len(),
            cs@ == desc@,
            cs@.len() >= 1 && cs@[0] == '(',
            vts_parse(cs@, 1, i as int, args@),
            args_scan(cs@, 1) == args_scan(cs@, i as int),
            match args_scan_count(cs@, i as int) {
                Option::Some(n) => args_scan_count(cs@, 1) == Some(args@.len() + n),
                Option::None => args_scan_count(cs@, 1) is None,
            },
        ensures
            1 <= i < cs@.len(),
            cs@ == desc@,
            cs@[i as int] == ')',
            vts_parse(cs@, 1, i as int, args@),
            args_scan(cs@, 1) == Some(i as int),
            args_scan_count(cs@, 1) == Some(args@.len() as int),
        decreases cs@.len() - i,
    {
        if i >= cs.len() {
            return None;
        }
        if cs[i] == ')' {
            break;
        }
        match parse_ftype(&cs, i) {
            Some((v, j)) => {
                proof {
                    lemma_vts_parse_push(cs@, 1, i as int, j as int, args@, v);
                }
                args.push(v);
                i = j;
            },
            None => {
                return None;
            },
        }
    }
    let cl = i;
    match parse_ftype(&cs, cl + 1) {
        Some((ret, j)) => {
            if j == cs.len() {
                proof {
                    let s = desc@;
                    let w = cl as int;
                    assert(0 < w < s.len());
                    assert(s[w] == ')');
                    assert(vts_parse(s, 1, w, args@));
                    assert(vt_parses(s, w + 1, s.len() as int, ret));
                    assert(desc_parses(s, args@, ret));
                    assert(method_desc_ok(s));
                }
                Some((args, ret))
            } else {
                None
            }
        },
        None => None,
    }
}

/// Derives the argument count of a method descriptor: array nesting never
/// multiplies the count, and the implicit receiver is not included.
pub fn method_desc_to_argc(desc: &str) -> (r: Option<u8>)
    ensures
        match argc_of(desc@) {
            Option::Some(n) => if n <= u8::MAX {
                r == Some(n as u8)
            } else {
                r is None
            },
            Option::None => r is None,
        },
{
    let cs = chars_of(desc);
    if cs.len() == 0 {
        return None;
    }
    if cs[0] != '(' {
        return None;
    }
    let cl = match find_char(&cs, 1, ')') {
        Some(cl) => cl,
        None => {
            return None;
        },
    };
    let mut count: usize = 0;
    let mut i: usize = 1;
    while i < cl
        invariant
            1 <= i <= cl < cs@.len(),
            cs@ == desc@,
            count <= i,
            find_from(cs@, 1, ')') == Some(cl as int),
            cs@.len() >= 1 && cs@[0] == '(',
            match argc_from(cs@, i as int, cl as int) {
                Option::Some(n) => argc_of(cs@) == Some(count + n),
                Option::None => argc_of(cs@) is None,
            },
        decreases cl - i,
    {
        match parse_ftype(&cs, i) {
            Some((_v, j)) => {
                if j > cl {
                    return None;
                }
                count = count + 1;
                i = j;
            },
            None => {
                return None;
            },
        }
    }
    if count <= u8::MAX as usize {
        Some(count as u8)
    } else {
        None
    }
}

/// Characters that a method name must not leak into a mangled identifier:
/// the bracketing characters of special names are replaced by `_`.
pub open spec fn mangle_char(c: char) -> char {
    if c == '<' || c == '>' {
        '_'
    } else {
        c
    }
}

/// The mangled identity of a method within its class: the name with its
/// special characters replaced, followed by the raw descriptor.
pub open spec fn mangled_of(name: Seq<char>, desc: Seq<char>) -> Seq<char> {
    name.map_values(|c: char| mangle_char(c)) + desc
}

/// Mangles a method name and descriptor into the method's persistent
/// identity within its class.
pub fn mangle_method_name(name: &str, desc: &str) -> (r: String)
    ensures
        r@ == mangled_of(name@, desc@),
{
    let name_cs = chars_of(name);
    let desc_cs = chars_of(desc);
    let mut out: Vec<char> = Vec::new();
    let mut i: usize = 0;
    while i < name_cs.len()
        invariant
            i <= name_cs@.len(),
            name_cs@ == name@,
            out@ == name@.take(i as int).map_values(|c: char| mangle_char(c)),
        decreases name_cs@.len() - i,
    {
        let c = name_cs[i];
        if c == '<' || c == '>' {
            out.push('_');
        } else {
            out.push(c);
        }
        assert(out@ =~= name@.take(i + 1 as int).map_values(|c: char| mangle_char(c)));
        i = i + 1;
    }
    assert(name@.take(name@.len() as int) =~= name@);
    let mut j: usize = 0;
    let ghost prefix = out@;
    while j < desc_cs.len()
        invariant
            j <= desc_cs@.len(),
            desc_cs@ == desc@,
            out@ == prefix + desc@.take(j as int),
        decreases desc_cs@.len() - j,
    {
        out.push(desc_cs[j]);
        assert(out@ =~= prefix + desc@.take(j + 1 as int));
        j = j + 1;
    }
    assert(out@ =~= mangled_of(name@, desc@));
    string_from_chars(&out)
}

/// The constructor marker that a mangled constructor name carries.
pub open spec fn ctor_marker() -> Seq<char> {
    seq!['_', 'i', 'n', 'i', 't', '_']
}

/// Whether a mangled name contains the constructor marker.
pub open spec fn has_ctor_marker(s: Seq<char>) -> bool {
    exists|k: int|
        #![trigger s.subrange(k, k + 6)]
        0 <= k && k + 6 <= s.len() && s.subrange(k, k + 6) == ctor_marker()
}

/// Scans a mangled method name for the constructor marker.
#[verifier::rlimit(50)]
pub fn contains_ctor_marker(s: &str) -> (r: bool)
    ensures
        r == has_ctor_marker(s@),
{
    let cs = chars_of(s);
    if cs.len() < 6 {
        assert(!has_ctor_marker(s@)) by {
            assert(forall|k: int|
                #![trigger s@.subrange(k, k + 6)]
                0 <= k && k + 6 <= s@.len() ==> s@.len() >= 6);
        }
        return false;
    }
    let last = cs.len() - 6;
    let mut k: usize = 0;
    while k <= last
        invariant
            cs@ == s@,
            cs@.len() >= 6,
            last == cs@.len() - 6,
            last <= usize::MAX - 6,
            k <= last + 1,
            forall|m: int|
                #![trigger s@.subrange(m, m + 6)]
                0 <= m < k ==> s@.subrange(m, m + 6) != ctor_marker(),
        decreases cs@.len() - k,
    {
        assert(k + 5 < cs@.len());
        if cs[k] == '_' && cs[k + 1] == 'i' && cs[k + 2] == 'n' && cs[k + 3] == 'i' && cs[k + 4]
            == 't' && cs[k + 5] == '_' {
            assert(s@.subrange(k as int, k + 6) =~= ctor_marker());
            return true;
        }
        proof {
            assert(s@.subrange(k as int, k + 6) != ctor_marker()) by {
                if s@.subrange(k as int, k + 6) == ctor_marker() {
                    assert(s@.subrange(k as int, k + 6)[0] == s@[k as int]);
                    assert(s@.subrange(k as int, k + 6)[1] == s@[k + 1]);
                    assert(s@.subrange(k as int, k + 6)[2] == s@[k + 2]);
                    assert(s@.subrange(k as int, k + 6)[3] == s@[k + 3]);
                    assert(s@.subrange(k as int, k + 6)[4] == s@[k + 4]);
                    assert(s@.subrange(k as int, k + 6)[5] == s@[k + 5]);
                }
            }
        }
        k = k + 1;
    }
    assert(forall|m: int|
        #![trigger s@.subrange(m, m + 6)]
        0 <= m && m + 6 <= s@.len() ==> s@.subrange(m, m + 6) != ctor_marker());
    false
}

} // verus!
