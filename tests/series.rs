use rust_decimal::Decimal;
use timeseries::dec::Dec;
use timeseries::series::TimeseriesData;
use timeseries::time::{Hour, TimeRange, TimeRangeComparison};
use timeseries::{Contigious, Error, NonContigious, Tags};

fn hours(s: i64, e: i64) -> TimeRange<Hour> {
    TimeRange::from_start_end(Hour { n: s }, Hour { n: e }).unwrap()
}

fn d(n: i64) -> Dec {
    Dec::from_int(n)
}

fn host_tags() -> Tags {
    let mut t = Tags::new();
    t.insert("host".to_string(), "a".to_string());
    t.insert("metric".to_string(), "cpu".to_string());
    t
}

#[test]
fn dec_new_bounds() {
    assert!(Dec::new(12345, 2).is_some());
    assert!(Dec::new(1, 29).is_none());
    assert!(Dec::new(79228162514264337593543950335, 0).is_some());
    assert!(Dec::new(79228162514264337593543950336, 0).is_none());
    let x = Dec::new(-314, 2).unwrap();
    assert_eq!((x.mantissa(), x.scale()), (-314, 2));
    assert!(Dec::from_int(0).is_zero());
    assert_eq!(Decimal::from_i128_with_scale(x.mantissa(), x.scale()), Decimal::new(-314, 2));
}

#[test]
fn tags_insert_get_and_replace() {
    let mut t = host_tags();
    assert_eq!(t.len(), 2);
    assert_eq!(t.get("host"), Some(&"a".to_string()));
    assert_eq!(t.get("missing"), None);
    t.insert("host".to_string(), "b".to_string());
    assert_eq!(t.len(), 2);
    assert_eq!(t.get("host"), Some(&"b".to_string()));
    let c = t.clone();
    assert_eq!(c.get("metric"), Some(&"cpu".to_string()));
    assert_eq!(c.entries().len(), 2);
}

#[test]
fn contigious_from_parts_and_get() {
    let data: Vec<Dec> = (1..=10).map(|i| d(i * 10)).collect();
    let s = Contigious::from_parts(hours(1, 10), host_tags(), data.clone()).ok().unwrap();
    for t in 1..=10i64 {
        let idx = s.period().index_of(Hour { n: t }).unwrap();
        assert_eq!(s.get(Hour { n: t }), Some(data[idx]));
    }
    assert_eq!(s.get(Hour { n: 0 }), None);
    assert_eq!(s.get(Hour { n: 11 }), None);
    assert_eq!(s.get_tag("host"), Some(&"a".to_string()));
    assert_eq!(s.tags().len(), 2);
    assert_eq!(s.data().len(), 10);
}

#[test]
fn contigious_length_mismatch() {
    let r = Contigious::from_parts(hours(1, 10), Tags::new(), vec![d(1), d(2), d(3)]);
    assert!(matches!(r, Err(Error::LengthMismatch { period: 10, data: 3 })));
    let r = Contigious::from_parts(hours(1, 2), Tags::new(), vec![d(1), d(2), d(3)]);
    assert!(matches!(r, Err(Error::LengthMismatch { period: 2, data: 3 })));
}

#[test]
fn non_contigious_length_mismatch() {
    let r = NonContigious::from_parts(hours(1, 3), Tags::new(), vec![Some(d(1))]);
    assert!(matches!(r, Err(Error::LengthMismatch { period: 3, data: 1 })));
}

#[test]
fn contigious_iter_order_and_size() {
    let s = Contigious::from_parts(hours(3, 7), Tags::new(), vec![d(1), d(2), d(3), d(4), d(5)]).ok().unwrap();
    let mut it = s.iter();
    assert_eq!(it.size_hint(), (5, Some(5)));
    let mut items = Vec::new();
    while let Some(item) = it.next() {
        items.push(item);
        assert_eq!(it.len(), 5 - items.len());
        assert_eq!(it.size_hint(), (it.len(), Some(it.len())));
    }
    assert_eq!(items.len(), 5);
    assert_eq!(items[0].0, Hour { n: 3 });
    assert_eq!(items[4].0, Hour { n: 7 });
    for w in items.windows(2) {
        assert!(w[0].0.n < w[1].0.n);
    }
    assert_eq!(it.next(), None);
    assert_eq!(it.next(), None);
    let again: Vec<(Hour, Dec)> = {
        let mut it2 = s.iter();
        let mut v = Vec::new();
        while let Some(x) = it2.next() {
            v.push(x);
        }
        v
    };
    assert_eq!(again, items);
}

#[test]
fn empty_iterators_yield_nothing() {
    let s = Contigious::from_parts(hours(3, 4), Tags::new(), vec![d(1), d(2)]).ok().unwrap();
    let mut it = timeseries::ContigiousIter::empty(&s);
    assert_eq!(it.len(), 0);
    assert_eq!(it.next(), None);
    let g = NonContigious::from_parts(hours(3, 4), Tags::new(), vec![None, Some(d(2))]).ok().unwrap();
    let mut git = timeseries::NonContigiousIter::empty(&g);
    assert_eq!(git.size_hint(), (0, Some(0)));
    assert_eq!(git.next(), None);
}

#[test]
fn non_contigious_get_distinguishes_gap() {
    let s = NonContigious::from_parts(hours(1, 4), Tags::new(), vec![Some(d(0)), None, Some(d(5)), None]).ok().unwrap();
    assert_eq!(s.get(Hour { n: 1 }), Some(d(0)));
    assert_eq!(s.get(Hour { n: 2 }), None);
    assert!(s.period().index_of(Hour { n: 2 }).is_some());
    assert_eq!(s.get(Hour { n: 9 }), None);
    assert!(s.period().index_of(Hour { n: 9 }).is_none());
}

#[test]
fn non_contigious_iter_keeps_gaps() {
    let vals = vec![Some(d(1)), None, None, Some(d(4)), None];
    let s = NonContigious::from_parts(hours(10, 14), Tags::new(), vals.clone()).ok().unwrap();
    let mut it = s.iter();
    let mut items = Vec::new();
    while let Some(x) = it.next() {
        items.push(x);
    }
    assert_eq!(items.len(), 5);
    let present = items.iter().filter(|p| p.1.is_some()).count();
    assert_eq!(present, vals.iter().filter(|v| v.is_some()).count());
    assert_eq!(present, 2);
    assert_eq!(items[0].0, Hour { n: 10 });
    assert_eq!(items[4].0, Hour { n: 14 });
}

#[test]
fn round_trip_through_iteration() {
    let s = Contigious::from_parts(hours(1, 4), host_tags(), vec![d(7), d(8), d(9), d(10)]).ok().unwrap();
    let mut it = s.iter();
    let mut pairs = Vec::new();
    while let Some(x) = it.next() {
        pairs.push(x);
    }
    let period = TimeRange::from_start_end(pairs[0].0, pairs[pairs.len() - 1].0).unwrap();
    let values: Vec<Dec> = pairs.iter().map(|p| p.1).collect();
    let back = Contigious::from_parts(period, s.tags().clone(), values).ok().unwrap();
    assert_eq!(back.period().compare(s.period()), TimeRangeComparison::Equal);
    assert_eq!(back.data(), s.data());
    assert_eq!(back.get_tag("host"), s.get_tag("host"));
    assert_eq!(back.get_tag("metric"), s.get_tag("metric"));
}

#[test]
fn series_compare_and_contains() {
    let s = Contigious::from_parts(hours(1, 10), Tags::new(), vec![d(0); 10]).ok().unwrap();
    assert_eq!(s.compare(hours(2, 3)), TimeRangeComparison::Superset);
    assert!(s.contains(hours(2, 3)));
    assert!(!s.contains(hours(9, 12)));
    let g = NonContigious::from_parts(hours(1, 10), Tags::new(), vec![None; 10]).ok().unwrap();
    assert_eq!(g.compare(hours(1, 10)), TimeRangeComparison::Equal);
    assert!(!g.contains(hours(0, 3)));
    assert_eq!(g.get_tag("host"), None);
}

#[test]
fn storage_get_by_position() {
    let data = TimeseriesData::Basic(vec![d(1), d(2)]);
    assert_eq!(data.len(), 2);
    assert_eq!(data.get(1), Some(d(2)));
    assert_eq!(data.get(2), None);
}
