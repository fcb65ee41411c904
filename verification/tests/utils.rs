use static_templater::utils::{_push_capitalized, to_camel_case};

#[test]
fn test_to_camel_case() {
    let s: &str = "foo_bar_baz";
    assert!(to_camel_case(s) == "FooBarBaz");

    let s: String = "foo_bar_baz".to_string();
    assert!(to_camel_case(&s) == "FooBarBaz");

    assert!(to_camel_case("AbCdEf") == "Abcdef");
    assert!(to_camel_case("AbC_dEf") == "AbcDef");

    assert!(to_camel_case("str2int_type") == "Str2IntType");
}

#[test]
fn camel_case_drops_repeated_and_edge_underscores() {
    assert_eq!(to_camel_case("foo__bar"), "FooBar");
    assert_eq!(to_camel_case("_foo_"), "Foo");
    assert_eq!(to_camel_case(""), "");
}

#[test]
fn camel_case_digits_start_a_word() {
    assert_eq!(to_camel_case("9lives"), "9Lives");
    assert_eq!(to_camel_case("a1b2c"), "A1B2C");
}

#[test]
fn camel_case_uses_unicode_case_mapping() {
    assert_eq!(to_camel_case("ÉCOLE_été"), "ÉcoleÉté");
    assert_eq!(to_camel_case("ßa"), "SSa");
}

#[test]
fn push_capitalized_appends_each_chunk_capitalised() {
    let mut s = String::from("x");
    _push_capitalized(&mut s, "foo_bar");
    assert_eq!(s, "xFooBar");

    let mut t = String::new();
    _push_capitalized(&mut t, "str2int_type");
    assert_eq!(t, "Str2intType");

    let mut u = String::new();
    _push_capitalized(&mut u, "a");
    assert_eq!(u, "A");
}

#[test]
fn camel_case_ignores_ascii_case() {
    assert_eq!(to_camel_case("FOO_BAR"), "FooBar");
    assert_eq!(to_camel_case("foo_bar"), "FooBar");
    assert_eq!(to_camel_case("fOo_BaR9x"), to_camel_case("foo_bar9x"));
}

#[test]
fn camel_case_splits_at_underscore_and_digit() {
    let whole = to_camel_case("ab_cd");
    assert_eq!(whole, to_camel_case("ab") + &to_camel_case("cd"));
    let with_digit = to_camel_case("ab1cd");
    assert_eq!(with_digit, to_camel_case("ab") + "1" + &to_camel_case("cd"));
}
