use rust_decimal::Decimal;
use timeseries::dec::Dec;
use timeseries::ops::{apply, ScalarOp};
use timeseries::time::{Hour, TimeRange};
use timeseries::{Contigious, Error, NonContigious, Tags};

fn hours(s: i64, e: i64) -> TimeRange<Hour> {
    TimeRange::from_start_end(Hour { n: s }, Hour { n: e }).unwrap()
}

fn num(x: Dec) -> Decimal {
    Decimal::from_i128_with_scale(x.mantissa(), x.scale())
}

#[test]
fn apply_each_operation() {
    let a = Dec::new(25, 1).unwrap();
    let b = Dec::from_int(2);
    assert_eq!(num(apply(ScalarOp::Add, a, b).unwrap()), Decimal::new(45, 1));
    assert_eq!(num(apply(ScalarOp::Sub, a, b).unwrap()), Decimal::new(5, 1));
    assert_eq!(num(apply(ScalarOp::Mul, a, b).unwrap()), Decimal::new(5, 0));
    assert_eq!(num(apply(ScalarOp::Div, a, b).unwrap()), Decimal::new(125, 2));
    assert_eq!(apply(ScalarOp::Div, a, Dec::from_int(0)), None);
}

#[test]
fn apply_reports_overflow() {
    let big = Dec::new(79228162514264337593543950335, 0).unwrap();
    assert_eq!(apply(ScalarOp::Add, big, Dec::from_int(1)), None);
    assert_eq!(apply(ScalarOp::Mul, big, Dec::from_int(2)), None);
}

#[test]
fn scalar_on_dense_series() {
    let mut tags = Tags::new();
    tags.insert("k".to_string(), "v".to_string());
    let s = Contigious::from_parts(hours(1, 3), tags, vec![Dec::from_int(1), Dec::from_int(2), Dec::from_int(3)])
        .ok()
        .unwrap();
    let m = s.scalar(ScalarOp::Mul, Dec::from_int(10)).ok().unwrap();
    let got: Vec<Decimal> = m.data().iter().map(|x| num(*x)).collect();
    assert_eq!(got, vec![Decimal::new(10, 0), Decimal::new(20, 0), Decimal::new(30, 0)]);
    assert_eq!(m.get_tag("k"), Some(&"v".to_string()));
    assert_eq!(m.period().len(), 3);
    let q = s.scalar(ScalarOp::Div, Dec::from_int(4)).ok().unwrap();
    assert_eq!(num(q.get(Hour { n: 2 }).unwrap()), Decimal::new(5, 1));
}

#[test]
fn scalar_division_by_zero_is_an_error() {
    let s = Contigious::from_parts(hours(1, 2), Tags::new(), vec![Dec::from_int(1), Dec::from_int(2)]).ok().unwrap();
    assert!(matches!(s.scalar(ScalarOp::Div, Dec::new(0, 3).unwrap()), Err(Error::DivisionByZero)));
    let g = NonContigious::from_parts(hours(1, 2), Tags::new(), vec![None, None]).ok().unwrap();
    assert!(matches!(g.scalar(ScalarOp::Div, Dec::from_int(0)), Err(Error::DivisionByZero)));
}

#[test]
fn scalar_overflow_is_an_error() {
    let big = Dec::new(79228162514264337593543950335, 0).unwrap();
    let s = Contigious::from_parts(hours(1, 2), Tags::new(), vec![Dec::from_int(1), big]).ok().unwrap();
    assert!(matches!(s.scalar(ScalarOp::Add, Dec::from_int(1)), Err(Error::Overflow)));
}

#[test]
fn scalar_keeps_gaps() {
    let g = NonContigious::from_parts(hours(1, 3), Tags::new(), vec![Some(Dec::from_int(4)), None, Some(Dec::from_int(6))])
        .ok()
        .unwrap();
    let r = g.scalar(ScalarOp::Sub, Dec::from_int(1)).ok().unwrap();
    assert_eq!(num(r.get(Hour { n: 1 }).unwrap()), Decimal::new(3, 0));
    assert_eq!(r.get(Hour { n: 2 }), None);
    assert_eq!(r.data()[1], None);
    assert_eq!(num(r.get(Hour { n: 3 }).unwrap()), Decimal::new(5, 0));
}
