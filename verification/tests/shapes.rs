use line_editor::{
    AddressCondition, LineNumber, LineRange, OneAddressCondition, RangeBounds, TwoAddressCondition,
    Values,
};

fn one<C: OneAddressCondition>(addr: u32) -> C {
    C::new(addr)
}

fn two<C: TwoAddressCondition>(a: u32, b: u32) -> C {
    C::new(a, b)
}

#[test]
fn line_number_conditions() {
    let conditions: Vec<LineNumber> = [0, 5, 10].iter().map(|n| LineNumber::new(*n)).collect();
    let expected_results = vec![
        vec![true, false, false],
        vec![false, false, false],
        vec![false, false, false],
        vec![false, false, false],
        vec![false, false, false],
        vec![false, true, false],
        vec![false, false, false],
        vec![false, false, false],
        vec![false, false, false],
        vec![false, false, false],
        vec![false, false, true],
    ];
    for (addr, expected) in (0..11).zip(expected_results.iter()) {
        let actual: Vec<bool> = conditions.iter().map(|c| c.applies(addr)).collect();
        assert_eq!(*expected, actual, "Test failed at line: {}", addr);
    }
}

#[test]
fn line_number_as_a_condition() {
    let cond = LineNumber::new(4).condition();
    assert_eq!(cond, AddressCondition::line_number(4));
    assert_eq!(cond.values(), Values::LineNumber(4));
}

#[test]
fn line_range_is_half_open() {
    let range = LineRange::new(5, 10);
    assert!(!range.applies(4));
    assert!(range.applies(5));
    assert!(range.applies(9));
    assert!(!range.applies(10));
    assert!(range.check_min(5));
    assert!(!range.check_min(4));
    assert!(range.check_max(9));
    assert!(!range.check_max(10));
    assert_eq!(range.condition(), AddressCondition::range(5, 10, true, false));
}

#[test]
fn line_range_with_chosen_bounds() {
    let range = LineRange::with_bounds(
        RangeBounds { val: 5, is_inclusive: false },
        RangeBounds { val: 10, is_inclusive: true },
    );
    assert!(!range.check_min(5));
    assert!(range.check_min(6));
    assert!(range.check_max(10));
    assert!(!range.check_max(11));
    assert!(!range.applies(5));
    assert!(range.applies(10));
    assert_eq!(range.condition(), AddressCondition::range(5, 10, false, true));
}

#[test]
fn conditions_made_through_the_traits() {
    assert_eq!(one::<LineNumber>(7), LineNumber::new(7));
    assert_eq!(two::<LineRange>(2, 8), LineRange::new(2, 8));
    assert_eq!(<LineNumber as OneAddressCondition>::new(7), LineNumber::new(7));
    assert_eq!(<LineRange as TwoAddressCondition>::new(2, 8), LineRange::new(2, 8));
}
