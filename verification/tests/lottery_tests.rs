use rustamath::random::lottery::lottery;

#[test]
fn test_lottery() {
    let list = lottery(1, 100);
    assert_eq!(list.len(), 100);

    let has_duplicates = (1..list.len()).any(|i| list[i..].contains(&list[i - 1]));
    assert_eq!(has_duplicates, false);
}

#[test]
fn lottery_single_value_range() {
    let list = lottery(5, 5);
    assert_eq!(list, vec![5]);
}

#[test]
fn lottery_holds_every_value_of_the_range() {
    let list = lottery(-3, 6);
    assert_eq!(list.len(), 10);
    for v in -3..=6 {
        assert!(list.contains(&v));
    }
}
