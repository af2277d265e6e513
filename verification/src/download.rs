//! Serving a stored file: which object to fetch, which byte range of it,
//! and the headers that describe the part sent.
use vstd::prelude::*;
use vstd::string::*;
use crate::decimal::{i64_to_decimal, int_digits, nat_digits, u64_to_decimal};
use crate::status::Status;

verus! {

/// One end of a requested byte range, as the `Range` header gives it.
#[derive(Debug, Clone, Copy, PartialEq, Eq, Structural)]
pub enum RangeBound {
    Included(u64),
    Excluded(u64),
    Unbounded,
}

/// What to fetch from storage: the whole object, or the bytes from `start`
/// up to `end` (inclusive; to the end of the object when absent).
#[derive(Debug, Clone, Copy, PartialEq, Eq, Structural)]
pub enum ObjectRequest {
    Whole,
    Range { start: u64, end: Option<u64> },
}

/// The value a range bound carries (an excluded bound is taken as its value).
pub open spec fn bound_value(b: RangeBound) -> Option<u64> {
    match b {
        RangeBound::Included(v) => Some(v),
        RangeBound::Excluded(v) => Some(v),
        RangeBound::Unbounded => None,
    }
}

/// What a `Range` header asks for, given its first satisfiable range (if
/// any) and whether it has more than one; `None` when there is no header.
/// More than one range, or an end without a start, cannot be served.
pub open spec fn range_request_spec(ranges: Option<(Option<(RangeBound, RangeBound)>, bool)>) -> Result<
    ObjectRequest,
    Status,
> {
    let (start, end, more) = match ranges {
        None => (None, None, false),
        Some((first, more)) => match first {
            Some((s, e)) => (bound_value(s), bound_value(e), more),
            None => (None, None, more),
        },
    };
    if more {
        Err(Status::RangeNotSatisfiable)
    } else if end is Some && start is None {
        Err(Status::RangeNotSatisfiable)
    } else if start is None && end is None {
        Ok(ObjectRequest::Whole)
    } else {
        Ok(ObjectRequest::Range { start: start.unwrap_or(0), end })
    }
}

fn bound_of(b: RangeBound) -> (res: Option<u64>)
    ensures
        res == bound_value(b),
{
    match b {
        RangeBound::Included(v) => Some(v),
        RangeBound::Excluded(v) => Some(v),
        RangeBound::Unbounded => None,
    }
}

/// What to fetch for a `Range` header (see `range_request_spec`).
pub fn range_request(ranges: Option<(Option<(RangeBound, RangeBound)>, bool)>) -> (res: Result<ObjectRequest, Status>)
    ensures
        res == range_request_spec(ranges),
{
    let (start, end, more) = match ranges {
        None => (None, None, false),
        Some((first, more)) => match first {
            Some((s, e)) => (bound_of(s), bound_of(e), more),
            None => (None, None, more),
        },
    };
    if more {
        Err(Status::RangeNotSatisfiable)
    } else if end.is_some() && start.is_none() {
        Err(Status::RangeNotSatisfiable)
    } else if start.is_none() && end.is_none() {
        Ok(ObjectRequest::Whole)
    } else {
        Ok(ObjectRequest::Range { start: start.unwrap_or(0), end })
    }
}

/// What a download sends: the storage key of the object and the part of it.
pub struct Download {
    pub key: String,
    pub request: ObjectRequest,
}

/// The outcome of a download request for a file entry: `NoContent` for an
/// entry without stored object (a directory), the range's refusal, or
/// `NotFound` when the thumbnail is asked for and there is none.
pub open spec fn download_spec(
    s3_key: Option<Seq<char>>,
    thumbnail_key: Option<Seq<char>>,
    want_thumbnail: bool,
    ranges: Option<(Option<(RangeBound, RangeBound)>, bool)>,
) -> Result<(Seq<char>, ObjectRequest), Status> {
    if s3_key is None {
        Err(Status::NoContent)
    } else {
        match range_request_spec(ranges) {
            Err(e) => Err(e),
            Ok(request) => if want_thumbnail {
                match thumbnail_key {
                    Some(k) => Ok((k, request)),
                    None => Err(Status::NotFound),
                }
            } else {
                Ok((s3_key->0, request))
            },
        }
    }
}

/// Plans a download of a file entry.
pub fn plan_download(
    s3_key: Option<&str>,
    thumbnail_key: Option<&str>,
    want_thumbnail: bool,
    ranges: Option<(Option<(RangeBound, RangeBound)>, bool)>,
) -> (res: Result<Download, Status>)
    ensures
        match (res, download_spec(crate::text::opt_str(s3_key), crate::text::opt_str(thumbnail_key), want_thumbnail, ranges)) {
            (Ok(d), Ok((key, request))) => d.key@ == key && d.request == request,
            (Err(e), Err(se)) => e == se,
            _ => false,
        },
{
    let object = match s3_key {
        Some(k) => k,
        None => return Err(Status::NoContent),
    };
    let request = match range_request(ranges) {
        Ok(r) => r,
        Err(e) => return Err(e),
    };
    if want_thumbnail {
        match thumbnail_key {
            Some(k) => Ok(Download { key: String::from_str(k), request }),
            None => Err(Status::NotFound),
        }
    } else {
        Ok(Download { key: String::from_str(object), request })
    }
}

/// The first byte sent for a request.
pub open spec fn first_byte(request: ObjectRequest) -> u64 {
    match request {
        ObjectRequest::Whole => 0,
        ObjectRequest::Range { start, .. } => start,
    }
}

/// The first byte sent for a request.
pub fn start_byte(request: ObjectRequest) -> (res: u64)
    ensures
        res == first_byte(request),
{
    match request {
        ObjectRequest::Whole => 0,
        ObjectRequest::Range { start, .. } => start,
    }
}

/// The `Content-Range` value for `len` bytes sent from `start` of an object
/// of `size` bytes: `bytes start-last/total`, where the total is `len` when
/// the part starts at 0 and `size` otherwise.
pub open spec fn content_range_spec(start: u64, len: i64, size: i64) -> Seq<char> {
    let total = if start == 0 { int_digits(len as int) } else { int_digits(size as int) };
    "bytes "@ + nat_digits(start as nat) + seq!['-'] + nat_digits((start + (len as u64) - 1) as nat) + seq!['/']
        + total
}

/// The `Content-Range` value for a part of `len` bytes from `start`.
pub fn content_range(start: u64, len: i64, size: i64) -> (res: String)
    requires
        1 <= start + (len as u64) <= u64::MAX,
    ensures
        res@ == content_range_spec(start, len, size),
{
    #[verifier::truncate]
    let count = len as u64;
    let last = start + count - 1;
    let total = if start == 0 { i64_to_decimal(len) } else { i64_to_decimal(size) };
    let mut res = String::from_str("bytes ");
    res.append(u64_to_decimal(start).as_str());
    crate::text::push_char(&mut res, '-');
    res.append(u64_to_decimal(last).as_str());
    crate::text::push_char(&mut res, '/');
    res.append(total.as_str());
    res
}

/// The `Content-Length` value for a part of `len` bytes.
pub fn content_length_value(len: i64) -> (res: String)
    ensures
        res@ == int_digits(len as int),
{
    i64_to_decimal(len)
}

/// The query of a download: `thumbnail` asks for the preview image.
pub struct RequestParams {
    pub key: Option<String>,
    pub thumbnail: Option<String>,
}

/// A file download honours a single byte range: when the entry has a
/// stored object and the file itself is asked for, the object is fetched
/// from the range's first byte up to its last one (to the end of the object
/// when the range is open at the end), whichever way each bound is written.
pub proof fn lemma_download_honours_range(
    key: Seq<char>,
    thumbnail_key: Option<Seq<char>>,
    start: RangeBound,
    end: RangeBound,
    s: u64,
)
    requires
        start == RangeBound::Included(s) || start == RangeBound::Excluded(s),
    ensures
        download_spec(Some(key), thumbnail_key, false, Some((Some((start, end)), false))) == Ok::<
            (Seq<char>, ObjectRequest),
            Status,
        >(
            (
                key,
                ObjectRequest::Range {
                    start: s,
                    end: match end {
                        RangeBound::Included(e) => Some(e),
                        RangeBound::Excluded(e) => Some(e),
                        RangeBound::Unbounded => None,
                    },
                },
            ),
        ),
{
}

/// Without a `Range` header the whole stored object is fetched; a header
/// with more than one range, or with an end but no start, is refused as
/// unsatisfiable.
pub proof fn lemma_download_whole_or_refused(
    key: Seq<char>,
    thumbnail_key: Option<Seq<char>>,
    first: Option<(RangeBound, RangeBound)>,
    end: u64,
)
    ensures
        download_spec(Some(key), thumbnail_key, false, None) == Ok::<(Seq<char>, ObjectRequest), Status>(
            (key, ObjectRequest::Whole),
        ),
        download_spec(Some(key), thumbnail_key, false, Some((first, true))) == Err::<(Seq<char>, ObjectRequest), Status>(
            Status::RangeNotSatisfiable,
        ),
        download_spec(
            Some(key),
            thumbnail_key,
            false,
            Some((Some((RangeBound::Unbounded, RangeBound::Included(end))), false)),
        ) == Err::<(Seq<char>, ObjectRequest), Status>(Status::RangeNotSatisfiable),
{
}

/// Asking for the thumbnail fetches the thumbnail's object with the same
/// byte range as the file itself would be fetched with, and is refused with
/// `NotFound` when there is no thumbnail; an entry without stored object
/// (a directory) answers `NoContent` whatever is asked.
pub proof fn lemma_thumbnail_like_file(
    key: Seq<char>,
    thumbnail_key: Option<Seq<char>>,
    ranges: Option<(Option<(RangeBound, RangeBound)>, bool)>,
    want_thumbnail: bool,
)
    ensures
        match (download_spec(Some(key), thumbnail_key, false, ranges), download_spec(Some(key), thumbnail_key, true, ranges)) {
            (Ok((k1, r1)), Ok((k2, r2))) => k1 == key && thumbnail_key == Some(k2) && r1 == r2,
            (Ok((k1, _)), Err(e)) => k1 == key && thumbnail_key is None && e == Status::NotFound,
            (Err(e1), Err(e2)) => e1 == e2,
            (Err(_), Ok(_)) => false,
        },
        download_spec(None, thumbnail_key, want_thumbnail, ranges) == Err::<(Seq<char>, ObjectRequest), Status>(
            Status::NoContent,
        ),
{
}

} // verus!
