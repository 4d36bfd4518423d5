use timeseries::dec::Dec;
use timeseries::join::JoinKind;
use timeseries::time::{Hour, TimeRange};
use timeseries::{Contigious, Error, NonContigious, Tags};

fn hours(s: i64, e: i64) -> TimeRange<Hour> {
    TimeRange::from_start_end(Hour { n: s }, Hour { n: e }).unwrap()
}

fn series(s: i64, e: i64, base: i64) -> Contigious<Hour> {
    let data: Vec<Dec> = (s..=e).map(|t| Dec::from_int(base + t)).collect();
    Contigious::from_parts(hours(s, e), Tags::new(), data).ok().unwrap()
}

#[test]
fn inner_join_covers_intersection() {
    let a = series(1, 10, 100);
    let b = series(5, 15, 200);
    let j = a.join(&b, JoinKind::Inner, Tags::new()).ok().unwrap();
    assert_eq!((j.period().start(), j.period().end()), (Hour { n: 5 }, Hour { n: 10 }));
    assert_eq!(j.period().len(), 6);
    assert_eq!(j.left().len(), 6);
    for t in 5..=10i64 {
        let (l, r) = j.get(Hour { n: t }).unwrap();
        assert_eq!(l, Some(Dec::from_int(100 + t)));
        assert_eq!(r, Some(Dec::from_int(200 + t)));
    }
}

#[test]
fn inner_join_keeps_existing_gaps() {
    let a = NonContigious::from_parts(hours(1, 3), Tags::new(), vec![Some(Dec::from_int(1)), None, Some(Dec::from_int(3))])
        .ok()
        .unwrap();
    let b = NonContigious::from_parts(hours(2, 4), Tags::new(), vec![Some(Dec::from_int(7)), None, None]).ok().unwrap();
    let j = a.join(&b, JoinKind::Inner, Tags::new()).ok().unwrap();
    assert_eq!(j.left(), &vec![None, Some(Dec::from_int(3))]);
    assert_eq!(j.right(), &vec![Some(Dec::from_int(7)), None]);
}

#[test]
fn full_outer_join_covers_union() {
    let a = series(1, 10, 100);
    let b = series(5, 15, 200);
    let mut tags = Tags::new();
    tags.insert("pair".to_string(), "ab".to_string());
    let j = a.join(&b, JoinKind::FullOuter, tags).ok().unwrap();
    assert_eq!((j.period().start(), j.period().end()), (Hour { n: 1 }, Hour { n: 15 }));
    assert_eq!(j.period().len(), 15);
    assert_eq!(j.tags().get("pair"), Some(&"ab".to_string()));
    for t in 1..=15i64 {
        let (l, r) = j.get(Hour { n: t }).unwrap();
        assert_eq!(l.is_some(), t <= 10);
        assert_eq!(r.is_some(), t >= 5);
    }
    assert_eq!(j.get(Hour { n: 16 }), None);
}

#[test]
fn left_and_right_outer_joins() {
    let a = series(1, 10, 100);
    let b = series(5, 15, 200);
    let l = a.join(&b, JoinKind::LeftOuter, Tags::new()).ok().unwrap();
    assert_eq!((l.period().start(), l.period().end()), (Hour { n: 1 }, Hour { n: 10 }));
    assert_eq!(l.right()[0], None);
    assert_eq!(l.right()[4], Some(Dec::from_int(205)));
    let r = a.join(&b, JoinKind::RightOuter, Tags::new()).ok().unwrap();
    assert_eq!((r.period().start(), r.period().end()), (Hour { n: 5 }, Hour { n: 15 }));
    assert_eq!(r.left()[10], None);
    assert_eq!(r.left()[0], Some(Dec::from_int(105)));
}

#[test]
fn join_of_disjoint_ranges_fails() {
    let a = series(1, 3, 0);
    let b = series(6, 8, 0);
    assert!(matches!(a.join(&b, JoinKind::Inner, Tags::new()), Err(Error::Disjoint)));
    assert!(matches!(a.join(&b, JoinKind::FullOuter, Tags::new()), Err(Error::Disjoint)));
    let c = series(4, 5, 0);
    let j = a.join(&c, JoinKind::FullOuter, Tags::new()).ok().unwrap();
    assert_eq!(j.period().len(), 5);
    assert!(matches!(a.join(&c, JoinKind::Inner, Tags::new()), Err(Error::Disjoint)));
}

#[test]
fn full_outer_join_of_separated_ranges_is_disjoint() {
    let early = NonContigious::from_parts(hours(-1, 0), Tags::new(), vec![None, None]).ok().unwrap();
    let far = NonContigious::from_parts(hours(-9, -5), Tags::new(), vec![None; 5]).ok().unwrap();
    assert!(matches!(far.join(&early, JoinKind::FullOuter, Tags::new()), Err(Error::Disjoint)));
}
