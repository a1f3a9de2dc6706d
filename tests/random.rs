use pg_jobs::random::get_random_range_u32;
use pg_jobs::task::DecisionTask;

#[test]
fn random_range_stays_within_bounds() {
    for _ in 0..200 {
        let r = get_random_range_u32(10, 20);
        assert!((10..=20).contains(&r));
    }
    assert_eq!(get_random_range_u32(7, 7), 7);
}

#[test]
fn decisions_split_about_evenly() {
    let d = DecisionTask { opt1: 1, opt2: 2 };
    let mut first = 0;
    for _ in 0..4000 {
        if d.pick(get_random_range_u32(0, 100)) == 1 {
            first += 1;
        }
    }
    assert!(first > 1700 && first < 2400, "first option {} times out of 4000", first);
}
