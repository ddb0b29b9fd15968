use config::ids::Generator;

#[test]
fn next_id_follows_forward_clock() {
    assert_eq!(Generator::next_id(100, 200), 200);
    assert_eq!(Generator::next_id(0, 1), 1);
}

#[test]
fn next_id_counter_fallback_on_stalled_clock() {
    assert_eq!(Generator::next_id(100, 100), 101);
}

#[test]
fn next_id_counter_fallback_on_backward_clock() {
    assert_eq!(Generator::next_id(100, 50), 101);
    assert_eq!(Generator::next_id(100, -5), 101);
}

#[test]
fn next_id_positive_from_fresh_state() {
    assert_eq!(Generator::next_id(0, -1000), 1);
}

#[test]
fn generated_ids_distinct_and_ascending() {
    let mut generator = Generator::new();
    let mut ids: Vec<i64> = Vec::new();
    let mut i = 0;
    while i < 200 {
        ids.push(generator.generate());
        i += 1;
    }
    let mut j = 1;
    while j < ids.len() {
        assert!(ids[j - 1] < ids[j]);
        j += 1;
    }
}

#[test]
fn generated_ids_at_least_one() {
    let mut generator = Generator::default();
    assert!(generator.generate() >= 1);
}
