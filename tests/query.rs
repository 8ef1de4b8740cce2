use account_provider::query::get_param;

#[test]
fn finds_the_first_matching_parameter() {
    assert_eq!(get_param("a=1&arg=xyz", "arg"), Some("xyz"));
    assert_eq!(get_param("b=2&arg=3&arg=4", "arg"), Some("3"));
    assert_eq!(get_param("arg=", "arg"), Some(""));
    assert_eq!(get_param("arg=a=b", "arg"), Some("a=b"));
}

#[test]
fn needs_the_equals_sign_right_after_the_name() {
    assert_eq!(get_param("argx=1", "arg"), None);
    assert_eq!(get_param("arg", "arg"), None);
    assert_eq!(get_param("", "arg"), None);
    assert_eq!(get_param("xarg=1&", "arg"), None);
    assert_eq!(get_param("&&arg=ü&", "arg"), Some("ü"));
}
