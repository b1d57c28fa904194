use dioxide::history::{History, MAX_CAPACITY};
use dioxide::scd30::Measurement;

fn sample(number: u32) -> Measurement {
    Measurement {
        co2_ppm_bits: (400.0 + number as f32).to_bits(),
        temperature_celsius_bits: 20.0f32.to_bits(),
        humidity_percent_bits: number,
    }
}

#[test]
fn history_starts_empty() {
    let history = History::new(108).expect("a capacity of 108 is fine");
    assert_eq!(history.capacity(), 108);
    assert_eq!(history.len(), 0);
    assert!(!history.is_full());
    assert_eq!(history.iter(), vec![]);
}

#[test]
fn history_rejects_capacity_zero() {
    assert!(History::new(0).is_none());
}

#[test]
fn history_capacity_limits() {
    assert_eq!(MAX_CAPACITY, 511);
    assert!(History::new(1).is_some());
    assert!(History::new(256).is_some());
    assert!(History::new(MAX_CAPACITY).is_some());
    assert!(History::new(MAX_CAPACITY + 1).is_none());
    assert!(History::new(usize::MAX).is_none());
}

#[test]
fn history_keeps_the_last_capacity_items() {
    let capacity: usize = 108;
    let mut history = History::new(capacity).expect("valid");
    for number in 0..(capacity as u32 + 3) {
        history.push(sample(number));
    }
    assert_eq!(history.len(), capacity);
    let expected: Vec<Measurement> = (3..(capacity as u32 + 3)).map(sample).collect();
    assert_eq!(history.iter(), expected);
}

#[test]
fn history_is_full_exactly_at_capacity() {
    let capacity: usize = 5;
    let mut history = History::new(capacity).expect("valid");
    for pushed in 1..=(capacity + 3) {
        history.push(sample(pushed as u32));
        assert_eq!(history.is_full(), pushed >= capacity, "after {} pushes", pushed);
        assert_eq!(history.len(), pushed.min(capacity));
        assert!(history.len() <= history.capacity());
    }
}

#[test]
fn history_of_capacity_one() {
    let mut history = History::new(1).expect("valid");
    history.push(sample(1));
    assert!(history.is_full());
    history.push(sample(2));
    assert_eq!(history.iter(), vec![sample(2)]);
}

#[test]
fn history_of_largest_capacity() {
    let mut history = History::new(MAX_CAPACITY).expect("valid");
    for number in 0..(MAX_CAPACITY as u32 + 2) {
        history.push(sample(number));
    }
    assert_eq!(history.len(), MAX_CAPACITY);
    let items = history.iter();
    assert_eq!(items[0], sample(2));
    assert_eq!(items[MAX_CAPACITY - 1], sample(MAX_CAPACITY as u32 + 1));
}

#[test]
fn history_can_be_read_again_and_again() {
    let mut history = History::new(4).expect("valid");
    history.push(sample(1));
    history.push(sample(2));
    let first = history.iter();
    let second = history.iter();
    assert_eq!(first, vec![sample(1), sample(2)]);
    assert_eq!(first, second);
    assert_eq!(history.len(), 2);
}
