use bbox::feature_endpoints::{filter_params_from_pairs, parse_query_params, QueryParamsError};
use bbox::text::IntErrorKind;

fn filter_value(filters: &[(String, String)], k: &str) -> Option<String> {
    filters.iter().find(|(key, _)| key == k).map(|(_, v)| v.clone())
}

#[test]
fn query_fields_and_filters() {
    let fp = parse_query_params("bbox=1,2,3,4&limit=10&offset=20&datetime=2020&name=lake&collections=a,b&ids=7")
        .unwrap();
    assert_eq!(fp.bbox.as_deref(), Some("1,2,3,4"));
    assert_eq!(fp.limit, Some(10));
    assert_eq!(fp.offset, Some(20));
    assert_eq!(fp.datetime.as_deref(), Some("2020"));
    assert_eq!(fp.collections.as_deref(), Some("a,b"));
    assert_eq!(fp.ids.as_deref(), Some("7"));
    assert_eq!(fp.intersects, None);
    assert_eq!(fp.filters.len(), 1);
    assert_eq!(filter_value(&fp.filters, "name").as_deref(), Some("lake"));
}

#[test]
fn empty_query_has_no_filters() {
    let fp = parse_query_params("").unwrap();
    assert_eq!(fp.offset, None);
    assert_eq!(fp.limit, None);
    assert!(fp.filters.is_empty());
}

#[test]
fn query_is_percent_decoded() {
    let fp = parse_query_params("name=a%20b&kind=x+y").unwrap();
    assert_eq!(filter_value(&fp.filters, "name").as_deref(), Some("a b"));
    assert_eq!(filter_value(&fp.filters, "kind").as_deref(), Some("x y"));
}

#[test]
fn bbox_and_intersects_exclude_each_other() {
    let e = parse_query_params("bbox=1,2,3,4&intersects=POINT(1 2)").unwrap_err();
    assert_eq!(e, QueryParamsError::BboxAndIntersects);
    assert_eq!(e.message(), "bbox and intersects are mutually exclusive options");
}

#[test]
fn bad_numbers_are_refused() {
    let e = parse_query_params("offset=abc").unwrap_err();
    assert_eq!(e, QueryParamsError::InvalidNumber(IntErrorKind::InvalidDigit));
    assert_eq!(e.message(), "abc".parse::<u64>().unwrap_err().to_string());
    let e = parse_query_params("limit=").unwrap_err();
    assert_eq!(e, QueryParamsError::InvalidNumber(IntErrorKind::Empty));
    assert_eq!(e.message(), "".parse::<u64>().unwrap_err().to_string());
    let e = parse_query_params("limit=99999999999999999999").unwrap_err();
    assert_eq!(e, QueryParamsError::InvalidNumber(IntErrorKind::PosOverflow));
    assert_eq!(e.message(), "99999999999999999999".parse::<u64>().unwrap_err().to_string());
}

#[test]
fn later_parameter_wins() {
    let fp = parse_query_params("a=1&a=2&limit=5&limit=6").unwrap();
    assert_eq!(filter_value(&fp.filters, "a").as_deref(), Some("2"));
    assert_eq!(fp.limit, Some(6));
}

#[test]
fn reserved_names_never_stay_filters() {
    let fp = parse_query_params("bbox=1&datetime=2&collections=3&ids=4&offset=5&limit=6&x=7").unwrap();
    for k in ["bbox", "datetime", "collections", "ids", "intersects", "offset", "limit"] {
        assert_eq!(filter_value(&fp.filters, k), None);
    }
    assert_eq!(filter_value(&fp.filters, "x").as_deref(), Some("7"));
}

#[test]
fn pairs_build_filter_params() {
    let pairs = vec![("offset".to_string(), "+3".to_string()), ("q".to_string(), "v".to_string())];
    let fp = filter_params_from_pairs(&pairs).unwrap();
    assert_eq!(fp.offset, Some(3));
    assert_eq!(filter_value(&fp.filters, "q").as_deref(), Some("v"));
    let pairs = vec![("bbox".to_string(), "1".to_string()), ("intersects".to_string(), "2".to_string())];
    assert_eq!(filter_params_from_pairs(&pairs).unwrap_err(), QueryParamsError::BboxAndIntersects);
}

#[test]
fn undecodable_message() {
    assert_eq!(QueryParamsError::Undecodable.message(), "Bad");
}
