use std::collections::HashMap;

use static_templater::types::ItemGetter;

#[test]
fn vec_items_by_index() {
    let v = vec!["zero", "one", "two"];
    assert_eq!(v.get_value(&1), Some(&"one"));
    assert_eq!(v.get_value(&3), None);
    assert_eq!(v.get_string(&0), "zero");
    assert_eq!(v.get_string(&7), "");
}

#[test]
fn vec_of_numbers_as_strings() {
    let v: Vec<u64> = vec![5, 7, 9];
    assert_eq!(v.get_string(&1), "7");
    let w: Vec<i32> = vec![-123];
    assert_eq!(w.get_string(&0), "-123");
}

#[test]
fn hash_map_items_by_key() {
    let mut m: HashMap<&'static str, u64> = HashMap::new();
    m.insert("foo", 123);
    m.insert("bar", 456);
    assert_eq!(m.get_string(&"foo"), "123");
    assert_eq!(m.get_string(&"bar"), "456");
    assert_eq!(m.get_string(&"baz"), "");
    assert_eq!(m.get_value(&"foo"), Some(&123));
}
