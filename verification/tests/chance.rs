use chrono::Datelike;
use coupon_draw::chance::pick;
use coupon_draw::clock::today_utc;
use coupon_draw::types::Date;

#[test]
fn the_only_weight_that_is_not_zero_is_picked() {
    for _ in 0..200 {
        assert_eq!(pick(&vec![1_000_000, 0, 0, 0]), Some(0));
        assert_eq!(pick(&vec![0, 5, 0]), Some(1));
        assert_eq!(pick(&vec![0, 0, 0, 1]), Some(3));
        assert_eq!(pick(&vec![9]), Some(0));
    }
}

#[test]
fn a_weight_of_zero_is_never_picked() {
    let weights = vec![0, 300_000, 0, 700_000, 0];
    let mut seen = [0usize; 5];
    for _ in 0..2000 {
        let k = pick(&weights).unwrap();
        assert!(k < weights.len());
        assert!(weights[k] > 0);
        seen[k] += 1;
    }
    assert_eq!(seen[0] + seen[2] + seen[4], 0);
    assert!(seen[1] > 0);
    assert!(seen[3] > 0);
    assert!(seen[3] > seen[1]);
}

#[test]
fn no_weights_or_only_zeros_give_no_pick() {
    assert_eq!(pick(&vec![]), None);
    assert_eq!(pick(&vec![0]), None);
    assert_eq!(pick(&vec![0, 0, 0]), None);
}

#[test]
fn weights_whose_sum_does_not_fit_give_no_pick() {
    assert_eq!(pick(&vec![u32::MAX, 1]), None);
    assert_eq!(pick(&vec![u32::MAX, u32::MAX, u32::MAX]), None);
    assert_eq!(pick(&vec![1, u32::MAX - 1, 1]), None);
    assert!(pick(&vec![u32::MAX]).is_some());
    assert!(pick(&vec![u32::MAX - 1, 1]).is_some());
}

#[test]
fn today_is_the_day_of_the_clock() {
    let before = chrono::Utc::now().date_naive();
    let today = today_utc().unwrap();
    let after = chrono::Utc::now().date_naive();
    let as_date = |d: chrono::NaiveDate| Date::new(d.year(), d.month(), d.day()).unwrap();
    assert!(today == as_date(before) || today == as_date(after));
    assert!(today.year >= 1970);
    assert!((1..=12).contains(&today.month));
    assert!((1..=31).contains(&today.day));
}
