use ce_gke::bytes::{push_le, to_twos_complement};
use ce_gke::text::{around, before, clone_opt, clone_texts, decimal_text, lists, same};

#[test]
fn numerals_have_no_leading_zeros() {
    for n in [0, 1, 9, 10, 99, 100, 1234567890, u64::MAX] {
        assert_eq!(decimal_text(n), n.to_string());
    }
}

#[test]
fn texts_are_ordered_like_strings() {
    let texts = ["", "a", "b", "ab", "a\0", "Z", "é", "\u{ffff}", "\u{10000}"];
    for a in texts {
        for b in texts {
            assert_eq!(before(a, b), a < b);
            assert_eq!(same(a, b), a == b);
        }
    }
}

#[test]
fn integers_are_written_least_significant_byte_first() {
    let mut out = vec![7u8];
    push_le(&mut out, 0x0102_0304, 4);
    assert_eq!(out, vec![7, 4, 3, 2, 1]);
    let mut low = vec![];
    push_le(&mut low, 0x0102_0304, 2);
    assert_eq!(low, vec![4, 3]);
    for x in [0i128, 1, -1, 255, -256, i128::MAX, i128::MIN] {
        let mut wide = vec![];
        push_le(&mut wide, to_twos_complement(x), 16);
        assert_eq!(wide, x.to_le_bytes().to_vec());
    }
}

#[test]
fn copies_are_equal() {
    let v = vec!["a".to_string(), "".to_string()];
    assert_eq!(clone_texts(&v), v);
    assert_eq!(clone_opt(&Some("x".to_string())), Some("x".to_string()));
    assert_eq!(clone_opt(&None), None);
    assert_eq!(around("a", "b", "c"), "abc");
    assert!(lists(&v, "a"));
    assert!(!lists(&v, "b"));
}
