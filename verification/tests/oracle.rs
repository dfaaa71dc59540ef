use featherpd::server::FeatherPD;

#[test]
fn new_always_succeeds() {
    assert!(FeatherPD::new().is_ok());
}

#[test]
fn three_sequential_calls_return_one_two_three() {
    let mut pd = FeatherPD::new().unwrap();
    assert_eq!(pd.get_next_ts(), 1);
    assert_eq!(pd.get_next_ts(), 2);
    assert_eq!(pd.get_next_ts(), 3);
}

#[test]
fn issued_values_are_one_to_n_without_gaps_or_duplicates() {
    let mut pd = FeatherPD::new().unwrap();
    let mut seen = Vec::new();
    for _ in 0..100 {
        seen.push(pd.get_next_ts());
    }
    let expected: Vec<u64> = (1..=100).collect();
    assert_eq!(seen, expected);
}

#[test]
fn values_are_strictly_increasing_and_distinct() {
    let mut pd = FeatherPD::new().unwrap();
    let mut last = 0u64;
    for _ in 0..1000 {
        let ts = pd.get_next_ts();
        assert!(ts > last);
        last = ts;
    }
}
