use ruitl::naming::{capitalize, split_words, to_pascal_case};

#[test]
fn test_to_pascal_case() {
    assert_eq!(to_pascal_case("hello_world"), "HelloWorld");
    assert_eq!(to_pascal_case("user-card"), "UserCard");
    assert_eq!(to_pascal_case("button"), "Button");
    assert_eq!(to_pascal_case("my_awesome_component"), "MyAwesomeComponent");
}

#[test]
fn pascal_case_lowers_the_rest_and_skips_empty_words() {
    assert_eq!(to_pascal_case("HELLO__world-"), "HelloWorld");
    assert_eq!(to_pascal_case(""), "");
    assert_eq!(to_pascal_case("ß_x"), "SSX");
}

#[test]
fn words_and_capitals() {
    assert_eq!(split_words("user-card_x"), vec!["user", "card", "x"]);
    assert_eq!(split_words(""), vec![""]);
    assert_eq!(split_words("a__b"), vec!["a", "", "b"]);
    assert_eq!(capitalize("hELLO"), "Hello");
    assert_eq!(capitalize(""), "");
}
