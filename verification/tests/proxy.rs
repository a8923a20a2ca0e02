use nutblaster::proxy::original_client;

#[test]
fn the_first_entry_is_the_client() {
    assert_eq!(original_client("203.0.113.7, 10.0.0.1, 10.0.0.2"), "203.0.113.7");
    assert_eq!(original_client("203.0.113.7"), "203.0.113.7");
    assert_eq!(original_client(" \t2001:db8::1\t ,x"), "2001:db8::1");
    assert_eq!(original_client(""), "");
    assert_eq!(original_client(" , a"), "");
    assert_eq!(original_client(",a"), "");
    assert_eq!(original_client("\u{3000}a b\u{a0}"), "a b");
}
