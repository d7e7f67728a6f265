use mdmf::numbers::{format_number, round_word_count};

#[test]
fn test_format_number() {
    assert_eq!(format_number(80000), "80,000");
    assert_eq!(format_number(1234567), "1,234,567");
    assert_eq!(format_number(0), "0");
    assert_eq!(format_number(500), "500");
}

#[test]
fn format_number_group_edges() {
    assert_eq!(format_number(999), "999");
    assert_eq!(format_number(1000), "1,000");
    assert_eq!(format_number(1001), "1,001");
    assert_eq!(format_number(100000), "100,000");
    assert_eq!(format_number(1000000), "1,000,000");
    assert_eq!(format_number(usize::MAX), "18,446,744,073,709,551,615");
}

#[test]
fn grouping_keeps_digits() {
    for n in [0usize, 7, 42, 999, 1000, 12345, 987654321] {
        assert_eq!(format_number(n).replace(',', ""), n.to_string());
    }
}

#[test]
fn rounding_to_nearest_hundred() {
    assert_eq!(round_word_count(0), 0);
    assert_eq!(round_word_count(49), 0);
    assert_eq!(round_word_count(50), 100);
    assert_eq!(round_word_count(60), 100);
    assert_eq!(round_word_count(149), 100);
    assert_eq!(round_word_count(150), 200);
    assert_eq!(round_word_count(80049), 80000);
    for w in [0usize, 1, 49, 50, 51, 99, 100, 12345] {
        let r = round_word_count(w);
        assert_eq!(r % 100, 0);
        assert!(w < r + 50 && r <= w + 50);
    }
}
