use filebox::download::{content_length_value, content_range, plan_download, range_request, ObjectRequest, RangeBound};
use filebox::status::Status;

#[test]
fn no_header_asks_for_the_whole_object() {
    assert_eq!(range_request(None), Ok(ObjectRequest::Whole));
    assert_eq!(range_request(Some((None, false))), Ok(ObjectRequest::Whole));
}

#[test]
fn a_single_range_is_served() {
    let r = Some((Some((RangeBound::Included(10), RangeBound::Included(19))), false));
    assert_eq!(range_request(r), Ok(ObjectRequest::Range { start: 10, end: Some(19) }));
    let r = Some((Some((RangeBound::Included(10), RangeBound::Unbounded)), false));
    assert_eq!(range_request(r), Ok(ObjectRequest::Range { start: 10, end: None }));
    let r = Some((Some((RangeBound::Excluded(3), RangeBound::Excluded(8))), false));
    assert_eq!(range_request(r), Ok(ObjectRequest::Range { start: 3, end: Some(8) }));
}

#[test]
fn several_ranges_or_an_open_start_are_refused() {
    let r = Some((Some((RangeBound::Included(0), RangeBound::Included(1))), true));
    assert_eq!(range_request(r), Err(Status::RangeNotSatisfiable));
    let r = Some((Some((RangeBound::Unbounded, RangeBound::Included(5))), false));
    assert_eq!(range_request(r), Err(Status::RangeNotSatisfiable));
    assert_eq!(range_request(Some((None, true))), Err(Status::RangeNotSatisfiable));
}

#[test]
fn downloads_pick_the_object() {
    let d = plan_download(Some("key"), Some("thumb"), false, None).ok().unwrap();
    assert_eq!(d.key, "key");
    assert_eq!(d.request, ObjectRequest::Whole);
    let d = plan_download(Some("key"), Some("thumb"), true, None).ok().unwrap();
    assert_eq!(d.key, "thumb");
    assert_eq!(plan_download(None, None, false, None).err(), Some(Status::NoContent));
    assert_eq!(plan_download(Some("key"), None, true, None).err(), Some(Status::NotFound));
    let bad = Some((Some((RangeBound::Unbounded, RangeBound::Included(5))), false));
    assert_eq!(plan_download(Some("key"), None, true, bad).err(), Some(Status::RangeNotSatisfiable));
}

#[test]
fn content_range_describes_the_part() {
    assert_eq!(content_range(0, 100, 100), "bytes 0-99/100");
    assert_eq!(content_range(10, 5, 100), "bytes 10-14/100");
    assert_eq!(content_range(0, 5, 100), "bytes 0-4/5");
    assert_eq!(content_length_value(5), "5");
}
