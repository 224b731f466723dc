use jport::fatops::{expand_ops, FatOp, ResolveError};
use jport::import::{JavaClassFile, load_class};
use jport::opcodes::{LookupSwitch, OpCode};

fn utf8_entry(s: &str) -> Vec<u8> {
    let mut e = vec![1u8];
    e.extend((s.len() as u16).to_be_bytes());
    e.extend(s.as_bytes());
    e
}

fn class_entry(name_index: u16) -> Vec<u8> {
    let mut e = vec![7u8];
    e.extend(name_index.to_be_bytes());
    e
}

fn nametype_entry(name_index: u16, descriptor_index: u16) -> Vec<u8> {
    let mut e = vec![12u8];
    e.extend(name_index.to_be_bytes());
    e.extend(descriptor_index.to_be_bytes());
    e
}

fn fieldref_entry(class_index: u16, nametype_index: u16) -> Vec<u8> {
    let mut e = vec![9u8];
    e.extend(class_index.to_be_bytes());
    e.extend(nametype_index.to_be_bytes());
    e
}

fn methodref_entry(tag: u8, class_index: u16, nametype_index: u16) -> Vec<u8> {
    let mut e = vec![tag];
    e.extend(class_index.to_be_bytes());
    e.extend(nametype_index.to_be_bytes());
    e
}

fn int_entry(v: i32) -> Vec<u8> {
    let mut e = vec![3u8];
    e.extend(v.to_be_bytes());
    e
}

fn string_entry(utf8_index: u16) -> Vec<u8> {
    let mut e = vec![8u8];
    e.extend(utf8_index.to_be_bytes());
    e
}

fn class_file(pool: Vec<Vec<u8>>, pool_slots: u16, this_class: u16) -> Vec<u8> {
    let mut b: Vec<u8> = vec![0xCA, 0xFE, 0xBA, 0xBE, 0, 0, 0, 52];
    b.extend((pool_slots + 1).to_be_bytes());
    for e in pool {
        b.extend(e);
    }
    b.extend(0u16.to_be_bytes());
    b.extend(this_class.to_be_bytes());
    b.extend(0u16.to_be_bytes());
    b.extend(0u16.to_be_bytes());
    b.extend(0u16.to_be_bytes());
    b.extend(0u16.to_be_bytes());
    b.extend(0u16.to_be_bytes());
    b
}

/// A class whose pool holds one field reference: entry 6, on class
/// `test/Owner`, field `fld`, with the given descriptor.
fn field_class(descriptor: &str) -> JavaClassFile {
    let pool = vec![
        utf8_entry("test/Owner"),
        class_entry(1),
        utf8_entry("fld"),
        utf8_entry(descriptor),
        nametype_entry(3, 4),
        fieldref_entry(2, 5),
    ];
    let data = class_file(pool, 6, 2);
    load_class(&data).unwrap()
}

/// A class whose pool holds one method reference: entry 6, on class
/// `test/A`, with the given name, descriptor, and reference tag.
fn method_class(tag: u8, name: &str, descriptor: &str) -> JavaClassFile {
    let pool = vec![
        utf8_entry("test/A"),
        class_entry(1),
        utf8_entry(name),
        utf8_entry(descriptor),
        nametype_entry(3, 4),
        methodref_entry(tag, 2, 5),
    ];
    let data = class_file(pool, 6, 2);
    load_class(&data).unwrap()
}

fn get_static_tag(fat: &FatOp) -> &'static str {
    match fat {
        FatOp::ZGetStatic(..) => "Z",
        FatOp::BGetStatic(..) => "B",
        FatOp::SGetStatic(..) => "S",
        FatOp::CGetStatic(..) => "C",
        FatOp::IGetStatic(..) => "I",
        FatOp::LGetStatic(..) => "J",
        FatOp::FGetStatic(..) => "F",
        FatOp::DGetStatic(..) => "D",
        FatOp::AGetStatic { .. } => "A",
        FatOp::AAGetStatic { .. } => "AA",
        _ => "?",
    }
}

#[test]
fn get_static_specializes_by_field_type() {
    for (descriptor, expected) in [
        ("Z", "Z"),
        ("B", "B"),
        ("S", "S"),
        ("C", "C"),
        ("I", "I"),
        ("J", "J"),
        ("F", "F"),
        ("D", "D"),
        ("Ltest/T;", "A"),
        ("[I", "AA"),
    ] {
        let class = field_class(descriptor);
        let ops = vec![(OpCode::GetStatic(6), 0u16)];
        let fats = expand_ops(&ops, &class).unwrap();
        assert_eq!(fats.len(), 1);
        assert_eq!(get_static_tag(&fats[0]), expected, "descriptor {}", descriptor);
    }
}

#[test]
fn void_field_access_is_rejected() {
    let class = field_class("V");
    for op in [
        OpCode::GetStatic(6),
        OpCode::PutStatic(6),
        OpCode::GetField(6),
        OpCode::PutField(6),
    ] {
        let ops = vec![(op.clone(), 0u16)];
        assert_eq!(expand_ops(&ops, &class).unwrap_err(), ResolveError::VoidField);
    }
}

#[test]
fn object_field_carries_class_and_type() {
    let class = field_class("Ltest/T;");
    let ops = vec![(OpCode::GetField(6), 0u16)];
    let fats = expand_ops(&ops, &class).unwrap();
    match &fats[0] {
        FatOp::AGetField { class_info, field_name, type_info } => {
            assert_eq!(class_info.cpp_class(), "test_sOwner");
            assert_eq!(field_name, "fld");
            assert_eq!(type_info.cpp_class(), "test_sT");
        },
        other => panic!("expected an object get-field, got {:?}", other),
    }
}

#[test]
fn put_field_specializes_too() {
    let class = field_class("J");
    let ops = vec![(OpCode::PutField(6), 0u16)];
    let fats = expand_ops(&ops, &class).unwrap();
    assert!(matches!(&fats[0], FatOp::LPutField(..)));
    let class = field_class("[Z");
    let ops = vec![(OpCode::PutStatic(6), 0u16)];
    let fats = expand_ops(&ops, &class).unwrap();
    assert!(matches!(&fats[0], FatOp::AAPutStatic { .. }));
}

#[test]
fn missing_field_reference_fails() {
    let class = field_class("I");
    let ops = vec![(OpCode::GetStatic(5), 0u16)];
    assert_eq!(expand_ops(&ops, &class).unwrap_err(), ResolveError::BadConstantIndex);
}

#[test]
fn branch_offsets_become_absolute_indices() {
    let class = JavaClassFile::synthetic();
    // Offsets: 0, 1, 4, 5. The branch at offset 1 jumps +3 to offset 4,
    // which is instruction index 2.
    let ops = vec![
        (OpCode::IConst(0), 0u16),
        (OpCode::IfZero(3), 1u16),
        (OpCode::IConst(1), 4u16),
        (OpCode::Return, 5u16),
    ];
    let fats = expand_ops(&ops, &class).unwrap();
    assert_eq!(fats.len(), ops.len());
    match &fats[1] {
        FatOp::IfZero(target) => {
            assert_eq!(*target, 2);
            // Round trip: the target index addresses the instruction whose
            // byte offset equals the computed absolute offset.
            assert_eq!(ops[*target].1, 1 + 3);
        },
        other => panic!("expected a conditional branch, got {:?}", other),
    }
    let targets = fats[1].jump_target().unwrap();
    assert_eq!(targets.len(), 1);
    assert_eq!(targets.get(0), 2);
    assert!(fats[0].jump_target().is_none());
}

#[test]
fn branch_if_nonzero_keeps_its_sense() {
    let class = JavaClassFile::synthetic();
    let ops = vec![
        (OpCode::IfNotZero(3), 0u16),
        (OpCode::IConst(1), 2u16),
        (OpCode::Return, 3u16),
    ];
    let fats = expand_ops(&ops, &class).unwrap();
    match &fats[0] {
        FatOp::IfNotZero(target) => assert_eq!(*target, 2),
        other => panic!("expected a branch-if-nonzero, got {:?}", other),
    }
}

#[test]
fn array_static_access_keeps_class_and_field_name() {
    let class = field_class("[I");
    let fats = expand_ops(&vec![(OpCode::GetStatic(6), 0u16)], &class).unwrap();
    match &fats[0] {
        FatOp::AAGetStatic { class_info, static_name, atype } => {
            assert_eq!(class_info.cpp_class(), "test_sOwner");
            assert_eq!(static_name, "fld");
            assert!(matches!(atype, jport::descriptor::VariableType::Int));
        },
        other => panic!("expected an array get-static, got {:?}", other),
    }
    let fats = expand_ops(&vec![(OpCode::PutStatic(6), 0u16)], &class).unwrap();
    match &fats[0] {
        FatOp::AAPutStatic { class_info, field_name, .. } => {
            assert_eq!(class_info.cpp_class(), "test_sOwner");
            assert_eq!(field_name, "fld");
        },
        other => panic!("expected an array put-static, got {:?}", other),
    }
}

#[test]
fn backward_branch_resolves() {
    let class = JavaClassFile::synthetic();
    let ops = vec![
        (OpCode::IConst(0), 0u16),
        (OpCode::GoTo(-3), 3u16),
    ];
    let fats = expand_ops(&ops, &class).unwrap();
    match &fats[1] {
        FatOp::GoTo(target) => {
            assert_eq!(*target, 0);
            assert_eq!(ops[*target].1, 0);
        },
        other => panic!("expected a jump, got {:?}", other),
    }
}

#[test]
fn branch_into_instruction_middle_fails() {
    let class = JavaClassFile::synthetic();
    let ops = vec![(OpCode::GoTo(1), 0u16), (OpCode::Return, 3u16)];
    assert_eq!(expand_ops(&ops, &class).unwrap_err(), ResolveError::BadBranchTarget);
}

#[test]
fn lookup_switch_retargets_every_pair() {
    let class = JavaClassFile::synthetic();
    let switch = LookupSwitch { default_offset: 10, pairs: vec![(7, 12), (-2, 14)] };
    let ops = vec![
        (OpCode::LookupSwitch(switch), 0u16),
        (OpCode::IConst(0), 10u16),
        (OpCode::IConst(1), 12u16),
        (OpCode::IConst(2), 14u16),
    ];
    let fats = expand_ops(&ops, &class).unwrap();
    match &fats[0] {
        FatOp::LookupSwitch { default_op, pairs } => {
            assert_eq!(*default_op, 1);
            assert_eq!(pairs.len(), 2);
            assert_eq!(pairs[0], (7, 2));
            assert_eq!(pairs[1], (-2, 3));
            for (k, (_key, target)) in pairs.iter().enumerate() {
                let delta = if k == 0 { 12 } else { 14 };
                assert_eq!(ops[*target].1, 0 + delta);
            }
        },
        other => panic!("expected a switch, got {:?}", other),
    }
    let targets = fats[0].jump_target().unwrap();
    assert_eq!(targets.len(), 3);
    assert_eq!(targets.get(0), 1);
    assert_eq!(targets.get(1), 2);
    assert_eq!(targets.get(2), 3);
}

#[test]
fn one_to_one_order_preserving_rewrite() {
    let class = JavaClassFile::synthetic();
    let ops = vec![
        (OpCode::IConst(1), 0u16),
        (OpCode::IConst(2), 1u16),
        (OpCode::IAdd, 2u16),
        (OpCode::IReturn, 3u16),
    ];
    let fats = expand_ops(&ops, &class).unwrap();
    assert_eq!(fats.len(), 4);
    assert!(matches!(fats[0], FatOp::IConst(1)));
    assert!(matches!(fats[1], FatOp::IConst(2)));
    assert!(matches!(fats[2], FatOp::IAdd));
    assert!(matches!(fats[3], FatOp::IReturn));
}

#[test]
fn constructor_special_call_lowers_to_virtual() {
    let class = method_class(10, "<init>", "()V");
    let ops = vec![(OpCode::InvokeSpecial(6), 0u16)];
    let fats = expand_ops(&ops, &class).unwrap();
    match &fats[0] {
        FatOp::InvokeVirtual(ci, name, args, _ret) => {
            assert_eq!(ci.cpp_class(), "test_sA");
            assert_eq!(name, "_init_()V");
            assert_eq!(args.len(), 0);
        },
        other => panic!("expected a lowered constructor call, got {:?}", other),
    }
}

#[test]
fn genuine_special_call_keeps_argument_count() {
    let class = method_class(10, "run", "(IJ)V");
    let ops = vec![(OpCode::InvokeSpecial(6), 0u16)];
    let fats = expand_ops(&ops, &class).unwrap();
    match &fats[0] {
        FatOp::InvokeSpecial(ci, name, argc) => {
            assert_eq!(ci.cpp_class(), "test_sA");
            assert_eq!(name, "run(IJ)V");
            assert_eq!(*argc, 2);
        },
        other => panic!("expected a special call, got {:?}", other),
    }
}

#[test]
fn interface_call_adds_the_receiver() {
    let class = method_class(11, "f", "(I)I");
    let ops = vec![(OpCode::InvokeInterface(6), 0u16)];
    let fats = expand_ops(&ops, &class).unwrap();
    match &fats[0] {
        FatOp::InvokeInterface(name, argc) => {
            assert_eq!(name, "f(I)I");
            assert_eq!(*argc, 2);
        },
        other => panic!("expected an interface call, got {:?}", other),
    }
}

#[test]
fn static_call_keeps_full_signature() {
    let class = method_class(10, "calc", "(II)I");
    let ops = vec![(OpCode::InvokeStatic(6), 0u16)];
    let fats = expand_ops(&ops, &class).unwrap();
    match &fats[0] {
        FatOp::InvokeStatic(ci, name, args, _ret) => {
            assert_eq!(ci.cpp_class(), "test_sA");
            assert_eq!(name, "calc(II)I");
            assert_eq!(args.len(), 2);
        },
        other => panic!("expected a static call, got {:?}", other),
    }
}

#[test]
fn load_const_specializes_by_pool_kind() {
    let pool = vec![
        utf8_entry("a/B"),
        class_entry(1),
        int_entry(99),
        utf8_entry("hello"),
        string_entry(4),
        nametype_entry(1, 4),
    ];
    let data = class_file(pool, 6, 2);
    let class = load_class(&data).unwrap();
    let fats = expand_ops(&vec![(OpCode::LoadConst(3), 0u16)], &class).unwrap();
    assert!(matches!(fats[0], FatOp::IConst(99)));
    let fats = expand_ops(&vec![(OpCode::LoadConst(5), 0u16)], &class).unwrap();
    match &fats[0] {
        FatOp::StringConst(s) => assert_eq!(s, "hello"),
        other => panic!("expected a string constant, got {:?}", other),
    }
    let fats = expand_ops(&vec![(OpCode::LoadConst(2), 0u16)], &class).unwrap();
    match &fats[0] {
        FatOp::ClassConst(ci) => assert_eq!(ci.cpp_class(), "a_sB"),
        other => panic!("expected a class constant, got {:?}", other),
    }
    assert_eq!(
        expand_ops(&vec![(OpCode::LoadConst(6), 0u16)], &class).unwrap_err(),
        ResolveError::UnsupportedConstant
    );
}

#[test]
fn malformed_method_descriptor_fails() {
    let class = method_class(10, "bad", "(Q)V");
    let ops = vec![(OpCode::InvokeStatic(6), 0u16)];
    assert_eq!(expand_ops(&ops, &class).unwrap_err(), ResolveError::BadDescriptor);
}

#[test]
fn interface_receiver_must_fit_the_count_slot() {
    let mut desc = String::from("(");
    for _ in 0..255 {
        desc.push('I');
    }
    desc.push_str(")V");
    let class = method_class(11, "wide", &desc);
    let ops = vec![(OpCode::InvokeInterface(6), 0u16)];
    assert_eq!(expand_ops(&ops, &class).unwrap_err(), ResolveError::TooManyArgs);
}

#[test]
fn unsupported_new_array_type_fails() {
    let class = JavaClassFile::synthetic();
    let ops = vec![(OpCode::NewArray(3), 0u16)];
    assert_eq!(expand_ops(&ops, &class).unwrap_err(), ResolveError::BadNewArrayType);
    let ops = vec![(OpCode::NewArray(10), 0u16)];
    assert!(matches!(expand_ops(&ops, &class).unwrap()[0], FatOp::INewArray));
}
