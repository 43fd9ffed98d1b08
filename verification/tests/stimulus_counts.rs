use dataflow_latency::nodes::DoNotCare;
use dataflow_latency::stimulus::Stimulus;

#[test]
fn stimulus_of_zero_is_closed_at_once() {
    let mut source = Stimulus::new(0);
    assert_eq!(source.remaining(), 0);
    assert_eq!(source.emit(), None);
    assert_eq!(source.emit(), None);
    assert_eq!(source.remaining(), 0);
}

#[test]
fn stimulus_gives_exactly_its_count() {
    let mut source = Stimulus::new(3);
    assert_eq!(source.remaining(), 3);
    assert_eq!(source.emit(), Some(DoNotCare {}));
    assert_eq!(source.remaining(), 2);
    assert_eq!(source.emit(), Some(DoNotCare {}));
    assert_eq!(source.emit(), Some(DoNotCare {}));
    assert_eq!(source.remaining(), 0);
    assert_eq!(source.emit(), None);
    assert_eq!(source.emit(), None);
}

#[test]
fn stimulus_counts_hold_for_many_sizes() {
    for repeats in 0..50usize {
        let mut source = Stimulus::new(repeats);
        let mut given = 0;
        for _ in 0..(repeats + 5) {
            if source.emit().is_some() {
                given += 1;
            }
        }
        assert_eq!(given, repeats);
    }
}

#[test]
fn stimulus_of_the_largest_count_starts_full() {
    let mut source = Stimulus::new(usize::MAX);
    assert_eq!(source.emit(), Some(DoNotCare {}));
    assert_eq!(source.remaining(), usize::MAX - 1);
}
