use stack::strfmt::{camel_to_snake, pascal_to_snake, snake_to_camel, snake_to_pascal};

#[test]
fn pascal_to_snake_splits_at_capitals() {
    assert_eq!(pascal_to_snake("UserService"), "user_service");
    assert_eq!(pascal_to_snake(""), "");
    assert_eq!(pascal_to_snake("already_snake"), "already_snake");
    assert_eq!(pascal_to_snake("HTTPServer"), "h_t_t_p_server");
}

#[test]
fn camel_to_snake_splits_at_capitals() {
    assert_eq!(camel_to_snake("userService"), "user_service");
    assert_eq!(camel_to_snake("x"), "x");
}

#[test]
fn snake_to_pascal_raises_after_underscores() {
    assert_eq!(snake_to_pascal("user_service"), "UserService");
    assert_eq!(snake_to_pascal("__a__b_"), "AB");
    assert_eq!(snake_to_pascal(""), "");
}

#[test]
fn snake_to_camel_keeps_the_first_letter() {
    assert_eq!(snake_to_camel("user_service"), "userService");
    assert_eq!(snake_to_camel("_user"), "User");
}

#[test]
fn snake_uses_the_unicode_upper_case_property() {
    assert_eq!(pascal_to_snake("ÉcoleNormale"), "École_normale");
    assert_eq!(pascal_to_snake("aΔb"), "a_Δb");
    assert_eq!(camel_to_snake("A"), "a");
    assert_eq!(camel_to_snake("AB"), "a_b");
    assert_eq!(camel_to_snake("a1B2"), "a1_b2");
}

#[test]
fn joining_raises_ascii_letters_only() {
    assert_eq!(snake_to_pascal("été_é"), "étéé");
    assert_eq!(snake_to_pascal("a_1_b"), "A1B");
    assert_eq!(snake_to_camel("a__b"), "aB");
    assert_eq!(snake_to_camel("A_b"), "AB");
    assert_eq!(snake_to_camel("_"), "");
}
