use jport::class::{cpp_class_to_path, java_class_to_cpp_class};
use jport::fatops::ClassInfo;

#[test]
fn flatten_replaces_separators() {
    assert_eq!(java_class_to_cpp_class("a/b/C"), "a_sb_sC");
    assert_eq!(java_class_to_cpp_class("C"), "C");
    assert_eq!(java_class_to_cpp_class(""), "");
}

#[test]
fn flatten_escapes_underscores() {
    assert_eq!(java_class_to_cpp_class("my_pkg/T_x"), "my_upkg_sT_ux");
}

#[test]
fn flattened_identifier_has_no_separator() {
    for path in ["a/b/C", "x_y/z", "deep/er/and/deep_er/T"] {
        let flat = java_class_to_cpp_class(path);
        assert!(!flat.contains('/'));
    }
}

#[test]
fn flatten_round_trips() {
    for path in ["a/b/C", "C", "", "my_pkg/T_x", "java/lang/Object", "_/_s/__"] {
        let flat = java_class_to_cpp_class(path);
        assert_eq!(cpp_class_to_path(&flat), path);
    }
}

#[test]
fn flatten_is_collision_free_on_lookalikes() {
    let a = java_class_to_cpp_class("a_s");
    let b = java_class_to_cpp_class("a/");
    assert_ne!(a, b);
}

#[test]
fn class_info_round_trip() {
    let ci = ClassInfo::from_java_path("java/util/List");
    assert_eq!(ci.cpp_class(), "java_sutil_sList");
    assert_eq!(ci.class_path(), "java/util/List");
}
