use weframe::entropy::client_id_for;
use weframe::text::{decimal, equal, joined, precedes};

#[test]
fn decimal_numerals() {
    assert_eq!(decimal(0), "0");
    assert_eq!(decimal(7), "7");
    assert_eq!(decimal(10), "10");
    assert_eq!(decimal(4096), "4096");
    assert_eq!(decimal(u32::MAX), "4294967295");
    for n in [1u32, 9, 99, 100, 1234567890] {
        assert_eq!(decimal(n), n.to_string());
    }
}

#[test]
fn client_ids_from_numbers() {
    assert_eq!(client_id_for(0), "user-0");
    assert_eq!(client_id_for(42), "user-42");
    assert_eq!(client_id_for(u32::MAX), "user-4294967295");
}

#[test]
fn strings_compare_as_std_does() {
    let words = ["", "a", "ab", "b", "B", "user-10", "user-9", "é", "z", "日本", "a\u{10000}"];
    for x in words {
        for y in words {
            assert_eq!(precedes(x, y), x < y, "{:?} {:?}", x, y);
            assert_eq!(equal(x, y), x == y, "{:?} {:?}", x, y);
        }
    }
}

#[test]
fn joined_strings() {
    assert_eq!(joined("clip-", "7"), "clip-7");
    assert_eq!(joined("", ""), "");
}
