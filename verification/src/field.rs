use vstd::prelude::*;
use crate::import::{AccessFlags, Attribute, attrs_parse, be16, load_u16, member_end, members_end};

verus! {

/// One declared field of a class: flags, the pool indices of its name and
/// descriptor, and its raw attributes.
#[derive(Debug)]
pub struct Field {
    pub flags: AccessFlags,
    pub name_index: u16,
    pub descriptor_index: u16,
    pub attributes: Vec<Attribute>,
}

/// `f` is the field table entry stored at `pos`, ending at `end`.
pub open spec fn field_parses(b: Seq<u8>, pos: int, f: Field, end: int) -> bool {
    &&& pos + 8 <= b.len()
    &&& f.flags.spec_mask() == be16(b, pos)
    &&& f.name_index == be16(b, pos + 2)
    &&& f.descriptor_index == be16(b, pos + 4)
    &&& attrs_parse(b, pos + 8, be16(b, pos + 6), f.attributes@, end)
}

/// `fs` are the `count` field entries stored one after the other at `pos`,
/// ending at `end`.
pub open spec fn fields_parse(b: Seq<u8>, pos: int, count: int, fs: Seq<Field>, end: int) -> bool
    decreases count,
{
    if count <= 0 {
        count == 0 && fs.len() == 0 && end == pos
    } else {
        &&& fs.len() >= 1
        &&& exists|m: int|
            #![trigger field_parses(b, pos, fs[0], m)]
            field_parses(b, pos, fs[0], m) && fields_parse(b, m, count - 1, fs.skip(1), end)
    }
}

/// Appending one more parsed field extends a parsed field table.
pub proof fn lemma_fields_parse_push(
    b: Seq<u8>,
    pos: int,
    count: int,
    fs: Seq<Field>,
    p: int,
    f: Field,
    m: int,
)
    requires
        count >= 0,
        fields_parse(b, pos, count, fs, p),
        field_parses(b, p, f, m),
    ensures
        fields_parse(b, pos, count + 1, fs.push(f), m),
    decreases count,
{
    if count == 0 {
        assert(fs.push(f)[0] == f);
        assert(fs.push(f).skip(1) =~= Seq::<Field>::empty());
        assert(field_parses(b, pos, fs.push(f)[0], m));
        assert(fields_parse(b, m, 0, fs.push(f).skip(1), m));
    } else {
        let mid = choose|mid: int|
            #![trigger field_parses(b, pos, fs[0], mid)]
            field_parses(b, pos, fs[0], mid) && fields_parse(b, mid, count - 1, fs.skip(1), p);
        lemma_fields_parse_push(b, mid, count - 1, fs.skip(1), p, f, m);
        assert(fs.push(f)[0] == fs[0]);
        assert(fs.push(f).skip(1) =~= fs.skip(1).push(f));
        assert(field_parses(b, pos, fs.push(f)[0], mid));
        assert(fields_parse(b, mid, count, fs.push(f).skip(1), m));
    }
}

impl Field {
    /// Reads one field table entry at `pos`: it succeeds exactly when one
    /// fits the bytes there.
    pub fn read(data: &Vec<u8>, pos: usize) -> (r: Option<(Field, usize)>)
        ensures
            r matches Some((f, p)) ==> pos <= p <= data@.len() && field_parses(
                data@,
                pos as int,
                f,
                p as int,
            ) && member_end(data@, pos as int) == Some(p as int),
            r is Some <==> member_end(data@, pos as int) is Some,
    {
        let (flags, pos) = match AccessFlags::read(data, pos) {
            Some(v) => v,
            None => {
                return None;
            },
        };
        let (name_index, pos) = match load_u16(data, pos) {
            Some(v) => v,
            None => {
                return None;
            },
        };
        let (descriptor_index, pos) = match load_u16(data, pos) {
            Some(v) => v,
            None => {
                return None;
            },
        };
        let (attributes_count, pos) = match load_u16(data, pos) {
            Some(v) => v,
            None => {
                return None;
            },
        };
        let (attributes, pos) = match Attribute::read_table(data, pos, attributes_count) {
            Some(v) => v,
            None => {
                return None;
            },
        };
        Some((Field { flags, name_index, descriptor_index, attributes }, pos))
    }

    /// Reads a `count`-entry field table at `pos`: it succeeds exactly when
    /// the whole table fits the bytes.
    pub fn read_table(data: &Vec<u8>, pos: usize, count: u16) -> (r: Option<(Vec<Field>, usize)>)
        ensures
            r matches Some((fs, p)) ==> pos <= p <= data@.len() && fields_parse(
                data@,
                pos as int,
                count as int,
                fs@,
                p as int,
            ) && members_end(data@, pos as int, count as int) == Some(p as int),
            r is Some <==> members_end(data@, pos as int, count as int) is Some,
    {
        if pos > data.len() {
            return None;
        }
        let mut fs: Vec<Field> = Vec::new();
        let mut cur = pos;
        let mut done: u16 = 0;
        while done < count
            invariant
                pos <= cur <= data@.len(),
                done <= count,
                fields_parse(data@, pos as int, done as int, fs@, cur as int),
                members_end(data@, pos as int, count as int) == members_end(
                    data@,
                    cur as int,
                    count - done,
                ),
            decreases count - done,
        {
            match Field::read(data, cur) {
                Some((f, p)) => {
                    proof {
                        lemma_fields_parse_push(
                            data@,
                            pos as int,
                            done as int,
                            fs@,
                            cur as int,
                            f,
                            p as int,
                        );
                    }
                    fs.push(f);
                    cur = p;
                    done = done + 1;
                },
                None => {
                    return None;
                },
            }
        }
        Some((fs, cur))
    }
}

} // verus!
