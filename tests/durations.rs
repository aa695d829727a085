use deser_bench::durations::{Durations, SumError};

fn sample(values: &[(&str, u128, usize)]) -> Durations {
    let mut d = Durations::default();
    for (name, duration, src_len) in values {
        d.add(name, *duration, *src_len);
    }
    d
}

#[test]
fn default_is_empty_with_one_sample() {
    let d = Durations::default();
    assert!(d.entries.is_empty());
    assert_eq!(d.samples_count, 1);
}

#[test]
fn add_appends_in_order() {
    let d = sample(&[("a", 5, 10), ("b", 7, 20)]);
    assert_eq!(d.entries.len(), 2);
    assert_eq!(d.entries[0].name, "a");
    assert_eq!(d.entries[1].name, "b");
    assert_eq!(d.entries[1].duration, 7);
    assert_eq!(d.entries[1].src_len, 20);
}

#[test]
fn fastest_is_least_duration() {
    let d = sample(&[("A", 50, 1), ("B", 10, 1), ("C", 30, 1)]);
    assert_eq!(d.fastest().name, "B");
}

#[test]
fn fastest_tie_goes_to_first() {
    let d = sample(&[("A", 50, 1), ("B", 10, 1), ("C", 10, 1)]);
    assert_eq!(d.fastest().name, "B");
}

#[test]
fn check_fails_when_all_zero() {
    let d = sample(&[("A", 0, 1), ("B", 0, 1)]);
    assert!(!d.check());
}

#[test]
fn check_fails_when_empty() {
    assert!(!Durations::default().check());
}

#[test]
fn check_passes_with_one_nonzero() {
    let d = sample(&[("A", 0, 1), ("B", 3, 1), ("C", 0, 1)]);
    assert!(d.check());
}

#[test]
fn get_finds_first_by_name() {
    let d = sample(&[("A", 1, 1), ("B", 2, 3), ("B", 4, 5)]);
    let e = d.get("B");
    assert_eq!(e.duration, 2);
    assert_eq!(e.src_len, 3);
}

#[test]
fn sum_adds_entry_by_entry() {
    let s = vec![
        sample(&[("A", 10, 100), ("B", 20, 200)]),
        sample(&[("A", 1, 1), ("B", 2, 2)]),
        sample(&[("A", 5, 7), ("B", 0, 9)]),
    ];
    let d = Durations::sum(&s).unwrap();
    assert_eq!(d.samples_count, 3);
    assert_eq!(d.entries.len(), 2);
    assert_eq!(d.entries[0].name, "A");
    assert_eq!(d.entries[0].duration, 16);
    assert_eq!(d.entries[0].src_len, 108);
    assert_eq!(d.entries[1].name, "B");
    assert_eq!(d.entries[1].duration, 22);
    assert_eq!(d.entries[1].src_len, 211);
}

#[test]
fn sum_of_nothing_is_default() {
    let d = Durations::sum(&[]).unwrap();
    assert!(d.entries.is_empty());
    assert_eq!(d.samples_count, 1);
}

#[test]
fn sum_of_one_keeps_it() {
    let d = Durations::sum(&[sample(&[("A", 4, 9)])]).unwrap();
    assert_eq!(d.samples_count, 1);
    assert_eq!(d.entries[0].duration, 4);
    assert_eq!(d.entries[0].src_len, 9);
}

#[test]
fn sum_rejects_other_order() {
    let s = vec![sample(&[("A", 1, 1), ("B", 1, 1)]), sample(&[("B", 1, 1), ("A", 1, 1)])];
    assert_eq!(Durations::sum(&s).unwrap_err(), SumError::MismatchedFormats);
}

#[test]
fn sum_rejects_other_count() {
    let s = vec![sample(&[("A", 1, 1), ("B", 1, 1)]), sample(&[("A", 1, 1)])];
    assert_eq!(Durations::sum(&s).unwrap_err(), SumError::MismatchedFormats);
}

#[test]
fn sum_reports_overflow() {
    let s = vec![sample(&[("A", u128::MAX, 1)]), sample(&[("A", 1, 1)])];
    assert_eq!(Durations::sum(&s).unwrap_err(), SumError::Overflow);
    let s = vec![sample(&[("A", 1, usize::MAX)]), sample(&[("A", 1, 1)])];
    assert_eq!(Durations::sum(&s).unwrap_err(), SumError::Overflow);
}

#[test]
fn sorted_orders_by_duration() {
    let d = sample(&[("A", 50, 1), ("B", 10, 2), ("C", 30, 3), ("D", 10, 4)]).sorted();
    let names: Vec<&str> = d.entries.iter().map(|e| e.name.as_str()).collect();
    assert_eq!(names, vec!["B", "D", "C", "A"]);
    assert_eq!(d.samples_count, 1);
}
