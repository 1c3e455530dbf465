//! Tests of the canonical header ordering and the disclosure filter.

use teefetch::order::{filter_headers, sort_headers};

fn pairs(items: &[(&str, &str)]) -> Vec<(String, String)> {
    items.iter().map(|(k, v)| (k.to_string(), v.to_string())).collect()
}

#[test]
fn sorts_by_name_bytes() {
    let sorted = sort_headers(&pairs(&[("b", "2"), ("A", "0"), ("a", "1")]));
    // byte order: upper-case letters sort before lower-case ones
    assert_eq!(sorted, pairs(&[("A", "0"), ("a", "1"), ("b", "2")]));
}

#[test]
fn equal_names_sort_by_value() {
    let sorted = sort_headers(&pairs(&[("k", "z"), ("k", "a"), ("j", "x")]));
    assert_eq!(sorted, pairs(&[("j", "x"), ("k", "a"), ("k", "z")]));
}

#[test]
fn sorting_is_order_insensitive() {
    let a = sort_headers(&pairs(&[("x", "1"), ("y", "2"), ("z", "3")]));
    let b = sort_headers(&pairs(&[("z", "3"), ("x", "1"), ("y", "2")]));
    assert_eq!(a, b);
}

#[test]
fn sorting_handles_multibyte_names() {
    let sorted = sort_headers(&pairs(&[("é", "2"), ("e", "1")]));
    // "é" encodes as 0xc3 0xa9, after every ASCII name
    assert_eq!(sorted, pairs(&[("e", "1"), ("é", "2")]));
}

#[test]
fn filter_keeps_listed_names_in_order() {
    let observed = pairs(&[("server", "s"), ("date", "d"), ("etag", "e"), ("date", "d2")]);
    let names = vec![String::from("date"), String::from("etag")];
    let kept = filter_headers(&observed, &names);
    assert_eq!(kept, pairs(&[("date", "d"), ("etag", "e"), ("date", "d2")]));
}

#[test]
fn filter_is_case_sensitive() {
    let observed = pairs(&[("Date", "d"), ("date", "d2")]);
    let names = vec![String::from("date")];
    assert_eq!(filter_headers(&observed, &names), pairs(&[("date", "d2")]));
}

#[test]
fn filter_with_no_names_drops_everything() {
    let observed = pairs(&[("a", "1")]);
    assert_eq!(filter_headers(&observed, &vec![]), pairs(&[]));
}
