use vstd::prelude::*;
use crate::import::{JavaClassFile, JavaImportError, class_file_ok, class_file_parses, load_class};
use crate::strutil::chars_of;

verus! {

// An archive of class files. The zip crate holds the entry table; the spec
// function `archive_entries` names what an opened archive contains, and the
// wrappers below say what each call reads of it.

// The error type of the zip crate, carried opaquely inside import errors.
#[verifier::external_type_specification]
#[verifier::external_body]
pub struct ExZipError(zip::result::ZipError);

// The archive reader of the zip crate, over an in-memory byte cursor.
#[verifier::external_type_specification]
#[verifier::external_body]
#[verifier::reject_recursive_types(R)]
pub struct ExZipArchive<R>(zip::ZipArchive<R>);

// The in-memory byte cursor the archive reads from.
#[verifier::external_type_specification]
#[verifier::external_body]
#[verifier::reject_recursive_types(T)]
pub struct ExCursor<T>(std::io::Cursor<T>);

/// The entries an opened archive holds, in index order: each one a name and
/// the decompressed bytes.
pub uninterp spec fn archive_entries(a: zip::ZipArchive<std::io::Cursor<Vec<u8>>>) -> Seq<
    (Seq<char>, Seq<u8>),
>;

/// Whether reading entry `i` of an opened archive — decompressing its stored
/// bytes — succeeds.
pub uninterp spec fn entry_ok(a: zip::ZipArchive<std::io::Cursor<Vec<u8>>>, i: int) -> bool;

/// The entry table stored in archive bytes: names and decompressed contents
/// in index order, a function of the bytes alone.
pub uninterp spec fn entries_of(b: Seq<u8>) -> Seq<(Seq<char>, Seq<u8>)>;

/// Whether archive bytes parse as an archive at all: the central directory
/// is read from the bytes alone.
pub uninterp spec fn archive_ok(b: Seq<u8>) -> bool;

/// Whether reading entry `i` out of the archive stored in bytes `b`
/// succeeds: over an in-memory cursor, decompression is a function of the
/// bytes and the index alone.
pub uninterp spec fn entry_readable_of(b: Seq<u8>, i: int) -> bool;

/// Relies on `zip::ZipArchive::new` over a cursor of the bytes: it parses
/// the central directory and collects the entry table, or reports why the
/// bytes are no archive. Both the verdict and the table are determined by
/// the bytes alone, and so is what each later entry read of this archive
/// yields.
#[verifier::external_body]
fn archive_open(bytes: Vec<u8>) -> (r: Result<
    zip::ZipArchive<std::io::Cursor<Vec<u8>>>,
    zip::result::ZipError,
>)
    ensures
        r is Ok <==> archive_ok(bytes@),
        r matches Ok(a) ==> archive_entries(a) == entries_of(bytes@) && (forall|i: int|
            #[trigger] entry_ok(a, i) == entry_readable_of(bytes@, i)),
{
    zip::ZipArchive::new(std::io::Cursor::new(bytes))
}

/// Relies on `zip::ZipArchive::len`: the number of entries the archive
/// holds.
#[verifier::external_body]
fn archive_len(a: &zip::ZipArchive<std::io::Cursor<Vec<u8>>>) -> (r: usize)
    ensures
        r == archive_entries(*a).len(),
{
    a.len()
}

/// Relies on `zip::ZipArchive::by_index` and `std::io::Read::read_to_end`:
/// reading entry `i` yields its name and its decompressed bytes, and succeeds
/// or fails by the stored data alone; it moves only the reader position, so
/// the entry table and what every entry read yields stay as they were.
#[verifier::external_body]
fn archive_entry(a: &mut zip::ZipArchive<std::io::Cursor<Vec<u8>>>, i: usize) -> (r: Result<
    (String, Vec<u8>),
    zip::result::ZipError,
>)
    requires
        i < archive_entries(*old(a)).len(),
    ensures
        archive_entries(*final(a)) == archive_entries(*old(a)),
        forall|k: int| #[trigger] entry_ok(*final(a), k) == entry_ok(*old(a), k),
        r is Ok <==> entry_ok(*old(a), i as int),
        r matches Ok(e) ==> (e.0@, e.1@) == archive_entries(*old(a))[i as int],
{
    let mut file = a.by_index(i)?;
    let name = file.name().to_owned();
    let mut buf: Vec<u8> = Vec::new();
    std::io::Read::read_to_end(&mut file, &mut buf)?;
    Ok((name, buf))
}

/// The last position of `c` at or before `i` in `s`.
pub open spec fn last_index_of(s: Seq<char>, c: char, i: int) -> Option<int>
    decreases i + 1,
{
    if i < 0 || i >= s.len() {
        None
    } else if s[i] == c {
        Some(i)
    } else {
        last_index_of(s, c, i - 1)
    }
}

/// The extension of a file name: what follows the last dot, or the whole
/// name when it has none.
pub open spec fn ext_of(s: Seq<char>) -> Seq<char> {
    match last_index_of(s, '.', s.len() - 1) {
        Option::Some(k) => s.skip(k + 1),
        Option::None => s,
    }
}

/// Extracts the extension of a file name.
fn file_ext(name: &str) -> (r: Vec<char>)
    ensures
        r@ == ext_of(name@),
{
    let cs = chars_of(name);
    if cs.len() == 0 {
        assert(cs@ =~= ext_of(name@));
        return cs;
    }
    let mut i: usize = cs.len() - 1;
    loop
        invariant_except_break
            i < cs@.len(),
            cs@ == name@,
            cs@.len() > 0,
            last_index_of(cs@, '.', cs@.len() - 1) == last_index_of(cs@, '.', i as int),
        ensures
            cs@ == name@,
            cs@.len() > 0,
            i < cs@.len(),
            cs@[i as int] == '.',
            last_index_of(cs@, '.', cs@.len() - 1) == Some(i as int),
        decreases i,
    {
        if cs[i] == '.' {
            break;
        }
        if i == 0 {
            let r = cs;
            proof {
                assert(last_index_of(r@, '.', -1) is None);
                assert(r@ =~= ext_of(name@));
            }
            return r;
        }
        i = i - 1;
    }
    let mut out: Vec<char> = Vec::new();
    let mut k: usize = i + 1;
    while k < cs.len()
        invariant
            i + 1 <= k <= cs@.len(),
            cs@ == name@,
            cs@.len() > 0,
            last_index_of(cs@, '.', cs@.len() - 1) == Some(i as int),
            out@ == cs@.subrange(i + 1 as int, k as int),
        decreases cs@.len() - k,
    {
        out.push(cs[k]);
        assert(out@ =~= cs@.subrange(i + 1 as int, k + 1 as int));
        k = k + 1;
    }
    proof {
        assert(out@ =~= cs@.skip(i + 1 as int));
    }
    out
}

/// Whether an extension reads `class`.
fn is_class_ext(ext: &Vec<char>) -> (r: bool)
    ensures
        r == (ext@ == seq!['c', 'l', 'a', 's', 's']),
{
    if ext.len() == 5 && ext[0] == 'c' && ext[1] == 'l' && ext[2] == 'a' && ext[3] == 's' && ext[4]
        == 's' {
        proof {
            assert(ext@ =~= seq!['c', 'l', 'a', 's', 's']);
        }
        true
    } else {
        proof {
            if ext@ == seq!['c', 'l', 'a', 's', 's'] {
                assert(ext@.len() == 5);
                assert(ext@[0] == 'c' && ext@[1] == 'l' && ext@[2] == 'a' && ext@[3] == 's'
                    && ext@[4] == 's');
            }
        }
        false
    }
}

/// Whether an extension reads `jar`.
fn is_jar_ext(ext: &Vec<char>) -> (r: bool)
    ensures
        r == (ext@ == seq!['j', 'a', 'r']),
{
    if ext.len() == 3 && ext[0] == 'j' && ext[1] == 'a' && ext[2] == 'r' {
        proof {
            assert(ext@ =~= seq!['j', 'a', 'r']);
        }
        true
    } else {
        proof {
            if ext@ == seq!['j', 'a', 'r'] {
                assert(ext@.len() == 3);
                assert(ext@[0] == 'j' && ext@[1] == 'a' && ext@[2] == 'r');
            }
        }
        false
    }
}

/// `cs` are exactly the classes an archive with bytes `b` loads to, with
/// `depth` levels of nested archives left.
pub open spec fn jar_classes_rel(b: Seq<u8>, depth: int, cs: Seq<JavaClassFile>) -> bool
    decreases depth, 1int, 0int,
{
    depth >= 0 && entry_classes_rel(entries_of(b), 0, depth, cs)
}

/// `cs` are exactly the classes loaded from the entries at and after `i`:
/// one decoded class per `.class` entry, the classes of a nested `.jar`
/// entry spliced in place while `depth` allows, every other entry skipped.
pub open spec fn entry_classes_rel(
    es: Seq<(Seq<char>, Seq<u8>)>,
    i: int,
    depth: int,
    cs: Seq<JavaClassFile>,
) -> bool
    decreases depth, 0int, es.len() - i,
{
    if depth < 0 {
        false
    } else if i < 0 || i >= es.len() {
        cs.len() == 0
    } else {
        if ext_of(es[i].0) == seq!['c', 'l', 'a', 's', 's'] {
            &&& cs.len() >= 1
            &&& class_file_parses(es[i].1, cs[0])
            &&& entry_classes_rel(es, i + 1, depth, cs.skip(1))
        } else if ext_of(es[i].0) == seq!['j', 'a', 'r'] && depth > 0 {
            exists|k: int|
                #![trigger cs.take(k)]
                {
                    &&& 0 <= k <= cs.len()
                    &&& jar_classes_rel(es[i].1, depth - 1, cs.take(k))
                    &&& entry_classes_rel(es, i + 1, depth, cs.skip(k))
                }
        } else {
            entry_classes_rel(es, i + 1, depth, cs)
        }
    }
}

/// The load of archive bytes `b` succeeds with `depth` nesting levels left:
/// the bytes open as an archive, every entry reads, every class-file entry is
/// a well-formed class file, and every nested archive loads in turn.
pub open spec fn jar_ok(b: Seq<u8>, depth: int) -> bool
    decreases depth, 1int, 0int,
{
    &&& depth >= 0
    &&& archive_ok(b)
    &&& entries_ok(b, 0, depth)
}

/// Every entry of the archive in `b` at or after `i` loads.
pub open spec fn entries_ok(b: Seq<u8>, i: int, depth: int) -> bool
    decreases depth, 0int, entries_of(b).len() - i,
{
    let es = entries_of(b);
    if depth < 0 {
        false
    } else if i < 0 || i >= es.len() {
        true
    } else {
        &&& entry_readable_of(b, i)
        &&& (ext_of(es[i].0) == seq!['c', 'l', 'a', 's', 's'] ==> class_file_ok(es[i].1))
        &&& (ext_of(es[i].0) == seq!['j', 'a', 'r'] && depth > 0 ==> jar_ok(es[i].1, depth - 1))
        &&& entries_ok(b, i + 1, depth)
    }
}

/// Loads every class-file entry of an archive, expanding nested archives up
/// to `depth` levels. It succeeds exactly when the archive opens, every entry
/// reads, every class-file entry decodes and every nested archive loads.
fn load_jar_into(data: Vec<u8>, depth: u32, out: &mut Vec<JavaClassFile>) -> (r: Result<
    (),
    JavaImportError,
>)
    ensures
        final(out)@.len() >= old(out)@.len(),
        final(out)@.take(old(out)@.len() as int) == old(out)@,
        r is Ok <==> jar_ok(data@, depth as int),
        r is Ok ==> jar_classes_rel(
            data@,
            depth as int,
            final(out)@.skip(old(out)@.len() as int),
        ),
    decreases depth,
{
    let ghost bytes = data@;
    let mut archive = match archive_open(data) {
        Ok(a) => a,
        Err(e) => {
            proof {
                assert(out@.take(out@.len() as int) =~= out@);
            }
            return Err(JavaImportError::ZipError(e));
        },
    };
    let ghost es = entries_of(bytes);
    let n = archive_len(&archive);
    let mut i: usize = 0;
    proof {
        assert(out@.take(out@.len() as int) =~= out@);
    }
    while i < n
        invariant
            n == archive_entries(archive).len(),
            archive_entries(archive) == es,
            es == entries_of(bytes),
            bytes == data@,
            archive_ok(bytes),
            forall|k: int| #[trigger] entry_ok(archive, k) == entry_readable_of(bytes, k),
            entries_ok(bytes, 0, depth as int) == entries_ok(bytes, i as int, depth as int),
            i <= n,
            out@.len() >= old(out)@.len(),
            out@.take(old(out)@.len() as int) == old(out)@,
            forall|rest: Seq<JavaClassFile>|
                #[trigger] entry_classes_rel(es, i as int, depth as int, rest)
                    ==> entry_classes_rel(
                    es,
                    0,
                    depth as int,
                    out@.skip(old(out)@.len() as int) + rest,
                ),
        decreases n - i,
    {
        let ghost built = out@.skip(old(out)@.len() as int);
        let (file_name, bytes_i) = match archive_entry(&mut archive, i) {
            Ok(e) => e,
            Err(e) => {
                proof {
                    assert(!entry_readable_of(bytes, i as int));
                    assert(!entries_ok(bytes, i as int, depth as int));
                }
                return Err(JavaImportError::ZipError(e));
            },
        };
        proof {
            assert(entry_readable_of(bytes, i as int));
        }
        let ext = file_ext(file_name.as_str());
        if is_class_ext(&ext) {
            let class = match load_class(&bytes_i) {
                Ok(class) => class,
                Err(e) => {
                    proof {
                        assert(!crate::import::class_file_ok(es[i as int].1));
                        assert(!entries_ok(bytes, i as int, depth as int));
                    }
                    return Err(e);
                },
            };
            proof {
                assert(entries_ok(bytes, i as int, depth as int) == entries_ok(
                    bytes,
                    i + 1,
                    depth as int,
                ));
            }
            let ghost c = class;
            out.push(class);
            proof {
                assert forall|rest: Seq<JavaClassFile>|
                    #[trigger] entry_classes_rel(es, i + 1, depth as int, rest)
                        implies entry_classes_rel(
                        es,
                        0,
                        depth as int,
                        out@.skip(old(out)@.len() as int) + rest,
                    ) by {
                    let prepended = seq![c] + rest;
                    assert(prepended[0] == c);
                    assert(prepended.skip(1) =~= rest);
                    assert(entry_classes_rel(es, i as int, depth as int, prepended));
                    assert(built + prepended =~= out@.skip(old(out)@.len() as int) + rest);
                }
                assert(out@.take(old(out)@.len() as int) =~= old(out)@);
            }
        } else if is_jar_ext(&ext) && depth > 0 {
            let ghost before = out@;
            match load_jar_into(bytes_i, depth - 1, out) {
                Ok(()) => {},
                Err(e) => {
                    proof {
                        assert(!jar_ok(es[i as int].1, depth - 1));
                        assert(!entries_ok(bytes, i as int, depth as int));
                        assert(out@.take(old(out)@.len() as int) =~= old(out)@);
                    }
                    return Err(e);
                },
            }
            proof {
                assert(entries_ok(bytes, i as int, depth as int) == entries_ok(
                    bytes,
                    i + 1,
                    depth as int,
                ));
            }
            proof {
                let delta = out@.skip(before.len() as int);
                assert forall|rest: Seq<JavaClassFile>|
                    #[trigger] entry_classes_rel(es, i + 1, depth as int, rest)
                        implies entry_classes_rel(
                        es,
                        0,
                        depth as int,
                        out@.skip(old(out)@.len() as int) + rest,
                    ) by {
                    let prepended = delta + rest;
                    assert(prepended.take(delta.len() as int) =~= delta);
                    assert(prepended.skip(delta.len() as int) =~= rest);
                    assert(entry_classes_rel(es, i as int, depth as int, prepended));
                    assert(built + prepended =~= out@.skip(old(out)@.len() as int) + rest);
                }
                assert(out@.take(old(out)@.len() as int) =~= old(out)@);
            }
        } else {
            proof {
                assert(entries_ok(bytes, i as int, depth as int) == entries_ok(
                    bytes,
                    i + 1,
                    depth as int,
                ));
                assert forall|rest: Seq<JavaClassFile>|
                    #[trigger] entry_classes_rel(es, i + 1, depth as int, rest)
                        implies entry_classes_rel(
                        es,
                        0,
                        depth as int,
                        out@.skip(old(out)@.len() as int) + rest,
                    ) by {
                    assert(entry_classes_rel(es, i as int, depth as int, rest));
                }
            }
        }
        i = i + 1;
    }
    proof {
        assert(entries_ok(bytes, n as int, depth as int));
        assert(jar_ok(bytes, depth as int));
        assert(entry_classes_rel(es, n as int, depth as int, Seq::<JavaClassFile>::empty()));
        assert(out@.skip(old(out)@.len() as int) + Seq::<JavaClassFile>::empty() =~= out@.skip(
            old(out)@.len() as int,
        ));
    }
    Ok(())
}

/// How deep nested archives are expanded.
pub const MAX_ARCHIVE_NESTING: u32 = 16;

/// Loads every class file of an archive, recursively expanding nested
/// archives. It succeeds exactly when the archive and every nested archive
/// open and read whole and every class-file entry is well formed; the result
/// then holds exactly the decodings of the class-file entries, in entry
/// order, with nested archives spliced in place.
pub fn load_jar(data: Vec<u8>) -> (r: Result<Vec<JavaClassFile>, JavaImportError>)
    ensures
        r is Ok <==> jar_ok(data@, MAX_ARCHIVE_NESTING as int),
        r matches Ok(cs) ==> jar_classes_rel(data@, MAX_ARCHIVE_NESTING as int, cs@),
{
    let mut out: Vec<JavaClassFile> = Vec::new();
    match load_jar_into(data, MAX_ARCHIVE_NESTING, &mut out) {
        Ok(()) => {
            proof {
                assert(out@.skip(0) =~= out@);
            }
            Ok(out)
        },
        Err(e) => Err(e),
    }
}

} // verus!
