use jport::import::{AccessFlags, Attribute, ConstantImportError, ConstantItem, JavaImportError, load_class};
use jport::field::Field;

fn utf8_entry(s: &str) -> Vec<u8> {
    let mut e = vec![1u8];
    e.extend((s.len() as u16).to_be_bytes());
    e.extend(s.as_bytes());
    e
}

fn class_entry(name_index: u16) -> Vec<u8> {
    let mut e = vec![7u8];
    e.extend(name_index.to_be_bytes());
    e
}

fn long_entry(v: i64) -> Vec<u8> {
    let mut e = vec![5u8];
    e.extend(v.to_be_bytes());
    e
}

/// Assembles a class file from pool entries; `pool_slots` is the number of
/// slots the entries fill (8-byte constants fill two).
fn class_file(pool: Vec<Vec<u8>>, pool_slots: u16, this_class: u16) -> Vec<u8> {
    let mut b: Vec<u8> = vec![0xCA, 0xFE, 0xBA, 0xBE, 0, 0, 0, 52];
    b.extend((pool_slots + 1).to_be_bytes());
    for e in pool {
        b.extend(e);
    }
    b.extend(0u16.to_be_bytes());
    b.extend(this_class.to_be_bytes());
    b.extend(0u16.to_be_bytes());
    b.extend(0u16.to_be_bytes());
    b.extend(0u16.to_be_bytes());
    b.extend(0u16.to_be_bytes());
    b.extend(0u16.to_be_bytes());
    b
}

#[test]
fn rejects_wrong_magic() {
    let data = vec![0u8, 1, 2, 3, 0, 0, 0, 52];
    match load_class(&data) {
        Err(JavaImportError::NotJavaBytecode(m)) => assert_eq!(m, 0x00010203),
        other => panic!("expected a magic failure, got {:?}", other),
    }
}

#[test]
fn rejects_truncated_input() {
    let data = vec![0xCAu8, 0xFE];
    assert!(matches!(load_class(&data), Err(JavaImportError::UnexpectedEnd)));
}

#[test]
fn rejects_nonzero_minor_version() {
    let data = vec![0xCAu8, 0xFE, 0xBA, 0xBE, 0, 1, 0, 52, 0, 1];
    match load_class(&data) {
        Err(JavaImportError::UnsuportedVersion(major, minor)) => {
            assert_eq!(major, 52);
            assert_eq!(minor, 1);
        },
        other => panic!("expected a version failure, got {:?}", other),
    }
}

#[test]
fn rejects_major_version_out_of_range() {
    let data = vec![0xCAu8, 0xFE, 0xBA, 0xBE, 0, 0, 0, 65, 0, 1];
    assert!(matches!(load_class(&data), Err(JavaImportError::UnsuportedVersion(65, 0))));
}

#[test]
fn rejects_invalid_this_class() {
    let data = class_file(vec![utf8_entry("a/B"), class_entry(1)], 2, 0);
    assert!(matches!(load_class(&data), Err(JavaImportError::InvalidThisClass)));
}

#[test]
fn rejects_invalid_super_class() {
    let mut data: Vec<u8> = vec![0xCA, 0xFE, 0xBA, 0xBE, 0, 0, 0, 52];
    data.extend(3u16.to_be_bytes());
    data.extend(utf8_entry("a/B"));
    data.extend(class_entry(1));
    data.extend(0u16.to_be_bytes());
    data.extend(2u16.to_be_bytes());
    data.extend(9u16.to_be_bytes());
    assert!(matches!(load_class(&data), Err(JavaImportError::InvalidSuperClass)));
}

#[test]
fn loads_minimal_class_and_resolves_names() {
    let data = class_file(vec![utf8_entry("pkg/Thing"), class_entry(1)], 2, 2);
    let class = load_class(&data).unwrap();
    let this = class.this_class();
    let name_handle = class.get_class_info(this).unwrap();
    assert_eq!(class.get_utf8(name_handle), Some("pkg/Thing"));
    assert!(class.fields().is_empty());
    assert!(class.methods().is_empty());
}

#[test]
fn eight_byte_constants_take_two_slots() {
    let data = class_file(vec![long_entry(77), utf8_entry("a/B"), class_entry(3)], 4, 4);
    let class = load_class(&data).unwrap();
    assert!(matches!(class.lookup_item(1), Some(ConstantItem::Long(77))));
    assert!(matches!(class.lookup_item(2), Some(ConstantItem::Padding)));
    assert!(matches!(class.lookup_item(3), Some(ConstantItem::Utf8(_))));
    assert!(class.lookup_item(0).is_none());
    assert!(class.lookup_item(5).is_none());
}

#[test]
fn constant_item_read_rejects_bad_tags() {
    assert!(matches!(
        ConstantItem::read(&vec![0u8], 0),
        Err(ConstantImportError::ZeroTypeConstError)
    ));
    assert!(matches!(
        ConstantItem::read(&vec![2u8], 0),
        Err(ConstantImportError::InvalidConstKind(2))
    ));
    assert!(matches!(
        ConstantItem::read(&vec![1u8, 0], 0),
        Err(ConstantImportError::UnexpectedEnd)
    ));
}

#[test]
fn constant_item_read_rejects_invalid_utf8() {
    let data = vec![1u8, 0, 1, 0xFF];
    assert!(matches!(ConstantItem::read(&data, 0), Err(ConstantImportError::InvalidUtf8)));
}

#[test]
fn constant_item_read_parses_numbers() {
    let mut data = vec![3u8];
    data.extend((-5i32).to_be_bytes());
    match ConstantItem::read(&data, 0) {
        Ok((ConstantItem::Integer(v), end)) => {
            assert_eq!(v, -5);
            assert_eq!(end, 5);
        },
        other => panic!("expected an integer entry, got {:?}", other),
    }
}

#[test]
fn bad_pool_entry_aborts_the_load() {
    let data = class_file(vec![vec![0u8]], 1, 1);
    assert!(matches!(
        load_class(&data),
        Err(JavaImportError::ConstantImportError(ConstantImportError::ZeroTypeConstError))
    ));
}

#[test]
fn method_code_attribute_is_decoded() {
    let mut data: Vec<u8> = vec![0xCA, 0xFE, 0xBA, 0xBE, 0, 0, 0, 52];
    data.extend(6u16.to_be_bytes());
    data.extend(utf8_entry("Code"));
    data.extend(utf8_entry("m"));
    data.extend(utf8_entry("()V"));
    data.extend(utf8_entry("x/C"));
    data.extend(class_entry(4));
    data.extend(0u16.to_be_bytes());
    data.extend(5u16.to_be_bytes());
    data.extend(0u16.to_be_bytes());
    data.extend(0u16.to_be_bytes());
    data.extend(0u16.to_be_bytes());
    data.extend(1u16.to_be_bytes());
    // One method `m()V` with a single Code attribute.
    data.extend(0u16.to_be_bytes());
    data.extend(2u16.to_be_bytes());
    data.extend(3u16.to_be_bytes());
    data.extend(1u16.to_be_bytes());
    data.extend(1u16.to_be_bytes());
    data.extend(10u32.to_be_bytes());
    data.extend(2u16.to_be_bytes());
    data.extend(3u16.to_be_bytes());
    data.extend(2u32.to_be_bytes());
    data.push(0xB1);
    data.push(0xB1);
    data.extend(0u16.to_be_bytes());
    let class = load_class(&data).unwrap();
    assert_eq!(class.methods().len(), 1);
    let code = class.method_code(&class.methods()[0]).unwrap();
    assert_eq!(code.max_stack, 2);
    assert_eq!(code.max_locals, 3);
    assert_eq!(code.code, vec![0xB1, 0xB1]);
}

#[test]
fn access_flags_bits() {
    let data = vec![0x00u8, 0x29];
    let (flags, end) = AccessFlags::read(&data, 0).unwrap();
    assert_eq!(end, 2);
    assert!(flags.is_public());
    assert!(flags.is_static());
    assert!(flags.is_super());
    assert!(!flags.is_private());
    assert!(!flags.is_final());
    assert!(!flags.is_interface());
    assert!(!flags.is_abstract());
    assert!(!flags.is_synthetic());
    assert!(!flags.is_annotantion());
    assert!(!flags.is_enum());
    assert!(!flags.is_protected());
}

#[test]
fn field_read_parses_entry() {
    let mut data: Vec<u8> = Vec::new();
    data.extend(0x0008u16.to_be_bytes());
    data.extend(4u16.to_be_bytes());
    data.extend(9u16.to_be_bytes());
    data.extend(0u16.to_be_bytes());
    let (field, end) = Field::read(&data, 0).unwrap();
    assert_eq!(end, 8);
    assert!(field.flags.is_static());
    assert_eq!(field.name_index, 4);
    assert_eq!(field.descriptor_index, 9);
    assert!(field.attributes.is_empty());
}

#[test]
fn attribute_read_copies_payload() {
    let mut data: Vec<u8> = Vec::new();
    data.extend(3u16.to_be_bytes());
    data.extend(2u32.to_be_bytes());
    data.push(9);
    data.push(7);
    let (attr, end) = Attribute::read(&data, 0).unwrap();
    assert_eq!(end, 8);
    assert_eq!(attr.name_index, 3);
    assert_eq!(attr.data, vec![9, 7]);
    let short = vec![0u8, 3, 0, 0, 0, 9];
    assert!(Attribute::read(&short, 0).is_none());
}
