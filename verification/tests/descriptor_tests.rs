use jport::descriptor::{
    field_descriptor_to_ftype, mangle_method_name, contains_ctor_marker, method_desc_to_argc,
    method_desc_to_args, VariableType,
};

#[test]
fn argcount_no_args() {
    assert_eq!(method_desc_to_argc("()I"), Some(0));
}

#[test]
fn argcount_one_int() {
    assert_eq!(method_desc_to_argc("(I)I"), Some(1));
}

#[test]
fn argcount_mixed_primitives() {
    assert_eq!(method_desc_to_argc("(IJF)I"), Some(3));
}

#[test]
fn argcount_object_reference() {
    assert_eq!(method_desc_to_argc("(Ljava/lang/Object;)V"), Some(1));
}

#[test]
fn argcount_array_nesting_counts_once() {
    assert_eq!(method_desc_to_argc("([[[D)V"), Some(1));
}

#[test]
fn argcount_mixed_arrays_and_objects() {
    assert_eq!(method_desc_to_argc("([I[JLjava/lang/String;D)V"), Some(4));
}

#[test]
fn argcount_rejects_malformed() {
    assert_eq!(method_desc_to_argc(""), None);
    assert_eq!(method_desc_to_argc("I"), None);
    assert_eq!(method_desc_to_argc("(I"), None);
    assert_eq!(method_desc_to_argc("(Q)V"), None);
    assert_eq!(method_desc_to_argc("(Ljava/lang/Object)V"), None);
}

#[test]
fn method_args_shapes() {
    let (args, ret) = method_desc_to_args("(IJ)V").unwrap();
    assert_eq!(args.len(), 2);
    assert!(matches!(args[0], VariableType::Int));
    assert!(matches!(args[1], VariableType::Long));
    assert!(matches!(ret, VariableType::Void));

    let (args, ret) = method_desc_to_args("(La/B;[Z)F").unwrap();
    assert_eq!(args.len(), 2);
    match &args[0] {
        VariableType::ObjectRef(ci) => assert_eq!(ci.class_path(), "a/B"),
        other => panic!("expected an object reference, got {:?}", other),
    }
    match &args[1] {
        VariableType::ArrayRef(elem) => assert!(matches!(**elem, VariableType::Bool)),
        other => panic!("expected an array reference, got {:?}", other),
    }
    assert!(matches!(ret, VariableType::Float));
}

#[test]
fn method_args_rejects_malformed() {
    assert!(method_desc_to_args("").is_none());
    assert!(method_desc_to_args("()").is_none());
    assert!(method_desc_to_args("(I)").is_none());
    assert!(method_desc_to_args("(I)II").is_none());
}

#[test]
fn field_descriptor_kinds() {
    assert!(matches!(field_descriptor_to_ftype("Z"), Some(VariableType::Bool)));
    assert!(matches!(field_descriptor_to_ftype("B"), Some(VariableType::Byte)));
    assert!(matches!(field_descriptor_to_ftype("S"), Some(VariableType::Short)));
    assert!(matches!(field_descriptor_to_ftype("C"), Some(VariableType::Char)));
    assert!(matches!(field_descriptor_to_ftype("I"), Some(VariableType::Int)));
    assert!(matches!(field_descriptor_to_ftype("J"), Some(VariableType::Long)));
    assert!(matches!(field_descriptor_to_ftype("F"), Some(VariableType::Float)));
    assert!(matches!(field_descriptor_to_ftype("D"), Some(VariableType::Double)));
    assert!(matches!(field_descriptor_to_ftype("V"), Some(VariableType::Void)));
    match field_descriptor_to_ftype("La/b/C;") {
        Some(VariableType::ObjectRef(ci)) => assert_eq!(ci.class_path(), "a/b/C"),
        other => panic!("expected an object reference, got {:?}", other),
    }
    match field_descriptor_to_ftype("[[I") {
        Some(VariableType::ArrayRef(elem)) => match *elem {
            VariableType::ArrayRef(inner) => assert!(matches!(*inner, VariableType::Int)),
            other => panic!("expected a nested array, got {:?}", other),
        },
        other => panic!("expected an array reference, got {:?}", other),
    }
    assert!(field_descriptor_to_ftype("").is_none());
    assert!(field_descriptor_to_ftype("II").is_none());
    assert!(field_descriptor_to_ftype("La/b/C").is_none());
}

#[test]
fn mangling_replaces_special_name_characters() {
    assert_eq!(mangle_method_name("<init>", "()V"), "_init_()V");
    assert_eq!(mangle_method_name("add", "(II)I"), "add(II)I");
    assert_eq!(mangle_method_name("<clinit>", "()V"), "_clinit_()V");
}

#[test]
fn ctor_marker_detection() {
    assert!(contains_ctor_marker("_init_()V"));
    assert!(contains_ctor_marker("x_init_y"));
    assert!(!contains_ctor_marker("init()V"));
    assert!(!contains_ctor_marker("_init"));
    assert!(!contains_ctor_marker(""));
}
