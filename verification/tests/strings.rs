use voxel_heat::string_utils::pascal_case_to_readable;

#[test]
fn pascal_case_gets_spaces_before_uppercase() {
    assert_eq!(pascal_case_to_readable("PascalCase"), "Pascal Case");
    assert_eq!(pascal_case_to_readable("heatTransferRate"), "heat Transfer Rate");
}

#[test]
fn leading_uppercase_gets_no_space() {
    assert_eq!(pascal_case_to_readable("X"), "X");
    assert_eq!(pascal_case_to_readable("ABC"), "A B C");
}

#[test]
fn lowercase_and_empty_strings_pass_through() {
    assert_eq!(pascal_case_to_readable(""), "");
    assert_eq!(pascal_case_to_readable("simple"), "simple");
    assert_eq!(pascal_case_to_readable("two words"), "two words");
}
