use uncertainty::Dataset;
use uncertainty::IndexOutOfRange;
use uncertainty::Measure;

#[derive(Clone, Copy, Debug, PartialEq)]
struct Reading(f64);

impl std::ops::Add for Reading {
    type Output = Reading;
    fn add(self, o: Reading) -> Reading {
        Reading(self.0 + o.0)
    }
}

impl std::ops::Div<usize> for Reading {
    type Output = Reading;
    fn div(self, n: usize) -> Reading {
        Reading(self.0 / n as f64)
    }
}

fn sample() -> Dataset<usize> {
    Dataset::new(vec![
        Measure { value: 2, error: 1 },
        Measure { value: 4, error: 3 },
        Measure { value: 9, error: 5 },
    ])
}

#[test]
fn indices_below_len_succeed() {
    let d = sample();
    assert_eq!(d.len(), 3);
    for i in 0..d.len() {
        assert!(d.index(i).is_ok());
    }
    assert_eq!(*d.index(2).unwrap(), Measure { value: 9, error: 5 });
}

#[test]
fn index_at_len_is_out_of_range() {
    let mut d = sample();
    assert_eq!(d.index(3), Err(IndexOutOfRange { index: 3, len: 3 }));
    assert!(d.index_mut(3).is_err());
    let e: Dataset<usize> = Dataset::new(Vec::new());
    assert_eq!(e.index(0), Err(IndexOutOfRange { index: 0, len: 0 }));
}

#[test]
fn average_of_values() {
    let d = Dataset::new(vec![Measure { value: 2usize, error: 7 }, Measure { value: 4usize, error: 9 }]);
    assert_eq!(d.avarage(), Some(3));
    let f = Dataset::new(vec![
        Measure { value: Reading(2.0), error: Reading(0.1) },
        Measure { value: Reading(4.0), error: Reading(0.5) },
    ]);
    assert_eq!(f.avarage(), Some(Reading(3.0)));
}

#[test]
fn average_of_nothing_is_none() {
    let d: Dataset<usize> = Dataset::new(Vec::new());
    assert_eq!(d.avarage(), None);
}

#[test]
fn average_ignores_errors_and_truncates() {
    assert_eq!(sample().avarage(), Some(5));
}

#[test]
fn mutating_one_error_leaves_the_others() {
    let mut d = sample();
    d.index_mut(1).unwrap().error = 42;
    assert_eq!(d.index(0).unwrap().error, 1);
    assert_eq!(d.index(1).unwrap().error, 42);
    assert_eq!(d.index(2).unwrap().error, 5);
    assert_eq!(d.index(1).unwrap().value, 4);
}
