use timeseries::dec::Dec;
use timeseries::time::{Hour, TimeRange};
use timeseries::union::ConflictPolicy;
use timeseries::{Contigious, Error, Tags};

fn hours(s: i64, e: i64) -> TimeRange<Hour> {
    TimeRange::from_start_end(Hour { n: s }, Hour { n: e }).unwrap()
}

fn tagged(pairs: &[(&str, &str)]) -> Tags {
    let mut t = Tags::new();
    for (k, v) in pairs {
        t.insert(k.to_string(), v.to_string());
    }
    t
}

fn series(s: i64, vals: &[i64], tags: Tags) -> Contigious<Hour> {
    let data: Vec<Dec> = vals.iter().map(|v| Dec::from_int(*v)).collect();
    Contigious::from_parts(hours(s, s + vals.len() as i64 - 1), tags, data).ok().unwrap()
}

#[test]
fn union_of_adjacent_series() {
    let a = series(1, &[1, 2, 3], tagged(&[("host", "a")]));
    let b = series(4, &[4, 5], tagged(&[("metric", "cpu")]));
    let u = a.union(&b, ConflictPolicy::Reject).ok().unwrap();
    assert_eq!((u.period().start(), u.period().end()), (Hour { n: 1 }, Hour { n: 5 }));
    let want: Vec<Dec> = (1..=5).map(Dec::from_int).collect();
    assert_eq!(u.data(), &want);
    assert_eq!(u.get_tag("host"), Some(&"a".to_string()));
    assert_eq!(u.get_tag("metric"), Some(&"cpu".to_string()));
}

#[test]
fn union_overlap_policies() {
    let a = series(1, &[1, 2, 3], Tags::new());
    let b = series(3, &[30, 4], Tags::new());
    let left = a.union(&b, ConflictPolicy::LeftWins).ok().unwrap();
    assert_eq!(left.get(Hour { n: 3 }), Some(Dec::from_int(3)));
    assert_eq!(left.get(Hour { n: 4 }), Some(Dec::from_int(4)));
    let right = a.union(&b, ConflictPolicy::RightWins).ok().unwrap();
    assert_eq!(right.get(Hour { n: 3 }), Some(Dec::from_int(30)));
    assert_eq!(right.get(Hour { n: 1 }), Some(Dec::from_int(1)));
    assert!(matches!(a.union(&b, ConflictPolicy::Reject), Err(Error::Conflict)));
}

#[test]
fn union_agreeing_overlap_is_no_conflict() {
    let a = series(1, &[1, 2, 3], Tags::new());
    let b = series(2, &[2, 3, 4], Tags::new());
    let u = a.union(&b, ConflictPolicy::Reject).ok().unwrap();
    assert_eq!(u.period().len(), 4);
    assert_eq!(u.get(Hour { n: 4 }), Some(Dec::from_int(4)));
}

#[test]
fn union_of_separated_series_fails() {
    let a = series(1, &[1], Tags::new());
    let b = series(3, &[3], Tags::new());
    assert!(matches!(a.union(&b, ConflictPolicy::LeftWins), Err(Error::Disjoint)));
}

#[test]
fn union_tag_collisions() {
    let a = series(1, &[1], tagged(&[("host", "a"), ("dc", "x")]));
    let b = series(2, &[2], tagged(&[("host", "b")]));
    assert!(matches!(a.union(&b, ConflictPolicy::Reject), Err(Error::Conflict)));
    let l = a.union(&b, ConflictPolicy::LeftWins).ok().unwrap();
    assert_eq!(l.get_tag("host"), Some(&"a".to_string()));
    assert_eq!(l.get_tag("dc"), Some(&"x".to_string()));
    let r = a.union(&b, ConflictPolicy::RightWins).ok().unwrap();
    assert_eq!(r.get_tag("host"), Some(&"b".to_string()));
    assert_eq!(r.tags().len(), 2);
}

#[test]
fn merge_tags_directly() {
    let a = tagged(&[("k", "1")]);
    let b = tagged(&[("k", "1"), ("j", "2")]);
    let m = a.merge(&b, ConflictPolicy::Reject).ok().unwrap();
    assert_eq!(m.len(), 2);
    assert_eq!(m.get("j"), Some(&"2".to_string()));
}

#[test]
fn union_same_number_different_scale_is_no_conflict() {
    let a = Contigious::from_parts(hours(1, 2), Tags::new(), vec![Dec::from_int(1), Dec::new(10, 1).unwrap()]).ok().unwrap();
    let b = Contigious::from_parts(hours(2, 3), Tags::new(), vec![Dec::new(100, 2).unwrap(), Dec::from_int(3)]).ok().unwrap();
    let u = a.union(&b, ConflictPolicy::Reject).ok().unwrap();
    assert_eq!(u.get(Hour { n: 2 }), Some(Dec::new(10, 1).unwrap()));
    assert_eq!(u.get(Hour { n: 3 }), Some(Dec::from_int(3)));
}

#[test]
fn union_of_ranges_too_long_is_refused() {
    let last = timeseries::time::MAX_RANGE_LEN as i64 - 1;
    let a = Contigious::from_parts(hours(0, 0), Tags::new(), vec![Dec::from_int(0)]).ok().unwrap();
    let b = Contigious::from_parts(hours(1, 1), Tags::new(), vec![Dec::from_int(1)]).ok().unwrap();
    assert!(a.union(&b, ConflictPolicy::Reject).is_ok());
    let start = TimeRange::from_start_end(Hour { n: 1 }, Hour { n: last }).unwrap();
    assert_eq!(start.len() as i64, last);
    let early = TimeRange::from_start_end(Hour { n: -1 }, Hour { n: 0 }).unwrap();
    assert!(start.union(early).is_none());
}
