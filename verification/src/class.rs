use vstd::prelude::*;
use crate::strutil::{chars_of, string_from_chars};

verus! {

// Flattened class identifiers.
//
// A binary class name such as `a/b/C` is flattened into a single identifier
// that contains no `/`. The mapping must be collision-free and reversible, so
// the two characters that could be confused are escaped: `_` becomes `_u` and
// `/` becomes `_s`.

/// The escape sequence a single character of a class path flattens to.
pub open spec fn enc_char(c: char) -> Seq<char> {
    if c == '/' {
        seq!['_', 's']
    } else if c == '_' {
        seq!['_', 'u']
    } else {
        seq![c]
    }
}

/// The flattening of the suffix of `path` that starts at `i`.
pub open spec fn flat_from(path: Seq<char>, i: int) -> Seq<char>
    decreases path.len() - i,
{
    if i < 0 || i >= path.len() {
        Seq::<char>::empty()
    } else {
        enc_char(path[i]) + flat_from(path, i + 1)
    }
}

/// The flattened identifier of a slash-separated class path.
pub open spec fn flat_of(path: Seq<char>) -> Seq<char> {
    flat_from(path, 0)
}

/// The class path recovered from the suffix of a flattened identifier that
/// starts at `i`. An `_s` escape decodes to `/`, every other escape to `_`.
pub open spec fn path_from(flat: Seq<char>, i: int) -> Seq<char>
    decreases flat.len() - i,
{
    if i < 0 || i >= flat.len() {
        Seq::<char>::empty()
    } else if flat[i] == '_' && i + 1 < flat.len() {
        let c = if flat[i + 1] == 's' {
            '/'
        } else {
            '_'
        };
        seq![c] + path_from(flat, i + 2)
    } else {
        seq![flat[i]] + path_from(flat, i + 1)
    }
}

/// The class path recovered from a flattened identifier.
pub open spec fn path_of(flat: Seq<char>) -> Seq<char> {
    path_from(flat, 0)
}

/// Flattening never emits the path separator: the resolver relies on this to
/// keep flattened identifiers and class paths apart.
pub proof fn lemma_flat_no_separator(path: Seq<char>, i: int)
    ensures
        forall|k: int| 0 <= k < flat_from(path, i).len() ==> flat_from(path, i)[k] != '/',
    decreases path.len() - i,
{
    if i < 0 || i >= path.len() {
    } else {
        lemma_flat_no_separator(path, i + 1);
        assert forall|k: int| 0 <= k < flat_from(path, i).len() implies flat_from(path, i)[k]
            != '/' by {
            let head = enc_char(path[i]);
            if k < head.len() {
                assert(flat_from(path, i)[k] == head[k]);
            } else {
                assert(flat_from(path, i)[k] == flat_from(path, i + 1)[k - head.len()]);
            }
        }
    }
}

/// Flattening then unflattening gives the original path back: the mapping is
/// reversible, and therefore collision-free.
pub proof fn lemma_flat_roundtrip(path: Seq<char>, i: int)
    requires
        0 <= i <= path.len(),
    ensures
        path_from(flat_from(path, i), 0) == path.skip(i),
    decreases path.len() - i,
{
    if i == path.len() {
        assert(path_from(flat_from(path, i), 0) =~= path.skip(i));
    } else {
        lemma_flat_roundtrip(path, i + 1);
        let c = path[i];
        let head = enc_char(c);
        let rest = flat_from(path, i + 1);
        let whole = flat_from(path, i);
        assert(whole == head + rest);
        lemma_path_from_shift(head, rest, c);
        assert(seq![c] + path.skip(i + 1) =~= path.skip(i));
    }
}

/// Decoding `enc_char(c) + rest` yields `c` followed by the decoding of
/// `rest`.
proof fn lemma_path_from_shift(head: Seq<char>, rest: Seq<char>, c: char)
    requires
        head == enc_char(c),
    ensures
        path_from(head + rest, 0) == seq![c] + path_from(rest, 0),
{
    let whole = head + rest;
    if c == '/' || c == '_' {
        assert(whole[0] == '_');
        assert(whole.len() >= 2);
        assert(whole[1] == (if c == '/' { 's' } else { 'u' }));
        assert(rest =~= whole.skip(2));
        lemma_path_from_offset(whole, rest, 2);
    } else {
        assert(whole[0] == c);
        assert(whole[0] != '_' || whole.len() < 2) by {
            if whole.len() >= 2 {
                assert(whole[0] == c && c != '_');
            }
        }
        assert(rest =~= whole.skip(1));
        lemma_path_from_offset(whole, rest, 1);
    }
}

/// `path_from` only looks at the suffix: decoding `whole` from `d` equals
/// decoding `rest` from `0` when `whole` ends with `rest` at offset `d`.
proof fn lemma_path_from_offset(whole: Seq<char>, rest: Seq<char>, d: int)
    requires
        0 <= d <= whole.len(),
        rest == whole.skip(d),
    ensures
        path_from(whole, d) == path_from(rest, 0),
    decreases whole.len() - d,
{
    if d >= whole.len() {
    } else {
        assert(rest[0] == whole[d]);
        if whole[d] == '_' && d + 1 < whole.len() {
            assert(rest[1] == whole[d + 1]);
            lemma_path_from_offset(whole, whole.skip(d + 2), d + 2);
            assert(whole.skip(d + 2) =~= rest.skip(2));
            lemma_path_from_offset(rest, rest.skip(2), 2);
        } else {
            lemma_path_from_offset(whole, whole.skip(d + 1), d + 1);
            assert(whole.skip(d + 1) =~= rest.skip(1));
            lemma_path_from_offset(rest, rest.skip(1), 1);
        }
    }
}

/// Flattens a slash-separated binary class name into an identifier with no
/// separator in it.
pub fn java_class_to_cpp_class(java_path: &str) -> (r: String)
    ensures
        r@ == flat_of(java_path@),
{
    let cs = chars_of(java_path);
    let mut out: Vec<char> = Vec::new();
    let mut i: usize = 0;
    while i < cs.len()
        invariant
            i <= cs@.len(),
            cs@ == java_path@,
            flat_from(cs@, 0) =~= out@ + flat_from(cs@, i as int),
        decreases cs@.len() - i,
    {
        let c = cs[i];
        if c == '/' {
            out.push('_');
            out.push('s');
        } else if c == '_' {
            out.push('_');
            out.push('u');
        } else {
            out.push(c);
        }
        assert(out@ + flat_from(cs@, i + 1 as int) =~= flat_from(cs@, 0));
        i = i + 1;
    }
    assert(out@ =~= flat_from(cs@, 0));
    string_from_chars(&out)
}

/// Recovers the slash-separated class path from a flattened identifier.
pub fn cpp_class_to_path(cpp_class: &str) -> (r: String)
    ensures
        r@ == path_of(cpp_class@),
{
    let cs = chars_of(cpp_class);
    let mut out: Vec<char> = Vec::new();
    let mut i: usize = 0;
    while i < cs.len()
        invariant
            i <= cs@.len(),
            cs@ == cpp_class@,
            path_from(cs@, 0) =~= out@ + path_from(cs@, i as int),
        decreases cs@.len() - i,
    {
        let c = cs[i];
        if c == '_' && i + 1 < cs.len() {
            let c2 = cs[i + 1];
            if c2 == 's' {
                out.push('/');
            } else {
                out.push('_');
            }
            assert(out@ + path_from(cs@, i + 2 as int) =~= path_from(cs@, 0));
            i = i + 2;
        } else {
            out.push(c);
            assert(out@ + path_from(cs@, i + 1 as int) =~= path_from(cs@, 0));
            i = i + 1;
        }
    }
    assert(out@ =~= path_from(cs@, 0));
    string_from_chars(&out)
}

} // verus!
