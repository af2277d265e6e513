use filebox::status::Status;
use filebox::upload::{
    classify_content, detect_content, name_candidate, prepare_completion, stored_content_type, stored_size,
    upload_basename, wants_preview, Hasher, UploadSession, part_too_large, cache_control,
};
use filebox::upload_store::{EtagScan, PartEtags};
use filebox::upload::{name_step, NameStep, NAME_PROBES, file_updated_at, stored_key};
use filebox::session::Instant;

fn session() -> UploadSession {
    UploadSession::new(5, "KEY".to_string(), Some("my file".to_string()), None, None)
}

fn hex(b: &[u8]) -> String {
    b.iter().map(|x| format!("{:02x}", x)).collect()
}

#[test]
fn a_new_upload_starts_empty_in_the_root() {
    let s = session();
    assert_eq!(s.directory, "/");
    assert_eq!(s.user_id, 5);
    assert_eq!(s.s3_key, "KEY");
    assert_eq!(s.part_number, None);
    assert!(s.part_etag.is_empty());
    assert_eq!(s.content_length, 0);
    let s = UploadSession::new(5, "K".to_string(), None, Some("/docs/".to_string()), Some("2024-01-01T00:00:00Z".to_string()));
    assert_eq!(s.directory, "/docs/");
    assert_eq!(s.last_modified.as_deref(), Some("2024-01-01T00:00:00Z"));
}

#[test]
fn parts_must_come_in_order_from_zero() {
    let mut s = session();
    assert_eq!(s.begin_part(1), Err(Status::BadRequest));
    assert_eq!(s.part_number, None);
    assert_eq!(s.begin_part(0), Ok(0));
    assert_eq!(s.begin_part(0), Err(Status::BadRequest));
    assert_eq!(s.begin_part(2), Err(Status::BadRequest));
    assert_eq!(s.begin_part(1), Ok(1));
    assert_eq!(s.part_number, Some(1));
}

#[test]
fn parts_are_hashed_counted_and_named() {
    let mut s = session();
    s.begin_part(0).unwrap();
    s.start_upload("image/png".to_string(), Some(".png".to_string()), "UP".to_string());
    assert_eq!(s.absorb_part(b"ab"), "s3_wait_etag:UP-0");
    s.begin_part(1).unwrap();
    assert_eq!(s.absorb_part(b"c"), "s3_wait_etag:UP-1");
    assert_eq!(s.content_length, 3);
    assert_eq!(s.part_etag, vec!["s3_wait_etag:UP-0".to_string(), "s3_wait_etag:UP-1".to_string()]);
    assert_eq!(hex(&s.hasher.finalize()), "ba7816bf8f01cfea414140de5dae2223b00361a396177a9cb410ff61f20015ad");
}

#[test]
fn hasher_digests_what_it_was_fed() {
    let mut h = Hasher::new();
    assert_eq!(hex(&h.finalize()), "e3b0c44298fc1c149afbf4c8996fb92427ae41e4649b934ca495991b7852b855");
    h.update(b"a");
    let copy = h.duplicate();
    h.update(b"bc");
    assert_eq!(hex(&h.finalize()), "ba7816bf8f01cfea414140de5dae2223b00361a396177a9cb410ff61f20015ad");
    assert_eq!(hex(&copy.finalize()), "ca978112ca1bbdcafac231b39a23dc4da786eff8147c4e72b9807785afee48bb");
}

#[test]
fn content_types_are_classified() {
    assert_eq!(classify_content(Some(("image/png", "png"))), ("image/png".to_string(), Some(".png".to_string())));
    assert_eq!(classify_content(Some(("image/apng", "apng"))), ("image/png".to_string(), Some(".apng".to_string())));
    assert_eq!(classify_content(Some(("video/mp4", "mp4"))), ("video/mp4".to_string(), Some(".mp4".to_string())));
    assert_eq!(classify_content(Some(("application/pdf", "pdf"))), ("application/octet-stream".to_string(), None));
    assert_eq!(classify_content(Some(("image/jpeg", ""))), ("image/jpeg".to_string(), Some(".".to_string())));
    assert_eq!(classify_content(None), ("application/octet-stream".to_string(), None));
}

#[test]
fn content_is_detected_from_its_first_bytes() {
    let png = [0x89u8, b'P', b'N', b'G', 0x0D, 0x0A, 0x1A, 0x0A, 0, 0, 0, 13, b'I', b'H', b'D', b'R'];
    assert_eq!(detect_content(&png), ("image/png".to_string(), Some(".png".to_string())));
    assert_eq!(detect_content(b"plain text"), ("application/octet-stream".to_string(), None));
    let pdf = b"%PDF-1.4 rest";
    assert_eq!(detect_content(pdf), ("application/octet-stream".to_string(), None));
}

#[test]
fn oversized_parts_are_detected() {
    assert!(!part_too_large(10, 10, 20));
    assert!(part_too_large(10, 11, 20));
    assert!(!part_too_large(1 << 40, 1, -1));
}

fn finished_session() -> (UploadSession, PartEtags) {
    let mut s = session();
    let mut tags = PartEtags::new();
    s.begin_part(0).unwrap();
    s.start_upload("image/png".to_string(), None, "UP".to_string());
    let n0 = s.absorb_part(b"ab");
    s.begin_part(1).unwrap();
    let n1 = s.absorb_part(b"c");
    assert_eq!(tags.scan(&s.part_etag), EtagScan::Pending);
    tags.insert(n0, "e0".to_string());
    assert_eq!(tags.scan(&s.part_etag), EtagScan::Pending);
    tags.insert(n1, "e1".to_string());
    assert_eq!(tags.scan(&s.part_etag), EtagScan::Ready);
    (s, tags)
}

#[test]
fn a_complete_upload_is_prepared() {
    let (s, tags) = finished_session();
    let c = prepare_completion(&s, &tags).ok().unwrap();
    assert_eq!(c.parts, vec![(1, "e0".to_string()), (2, "e1".to_string())]);
    assert_eq!(c.sha256_hex, "ba7816bf8f01cfea414140de5dae2223b00361a396177a9cb410ff61f20015ad");
    assert_eq!(c.content_disposition, "inline; filename=\"my%20file\"");
    assert_eq!(c.upload_id, "UP");
    assert_eq!(cache_control(), "max-age=31536000, immutable");
}

#[test]
fn disposition_percent_encodes_the_title() {
    let mut s = UploadSession::new(1, "K".to_string(), Some("a-b é.txt".to_string()), None, None);
    let tags = PartEtags::new();
    s.begin_part(0).unwrap();
    s.start_upload("text/plain".to_string(), None, "U".to_string());
    let mut tags = tags;
    let n = s.absorb_part(b"x");
    tags.insert(n, "t".to_string());
    let c = prepare_completion(&s, &tags).ok().unwrap();
    assert_eq!(c.content_disposition, "inline; filename=\"a%2Db%20%C3%A9%2Etxt\"");
    let mut s = UploadSession::new(1, "K".to_string(), None, None, None);
    let mut tags = PartEtags::new();
    s.begin_part(0).unwrap();
    s.start_upload("text/plain".to_string(), None, "U".to_string());
    let n = s.absorb_part(b"x");
    tags.insert(n, "t".to_string());
    assert_eq!(prepare_completion(&s, &tags).ok().unwrap().content_disposition, "inline; filename=\"no%20title\"");
}

#[test]
fn incomplete_uploads_are_refused() {
    let s = session();
    let tags = PartEtags::new();
    assert_eq!(prepare_completion(&s, &tags).err(), Some(Status::BadRequest));
    let (mut s, tags) = finished_session();
    s.part_number = Some(5);
    assert_eq!(prepare_completion(&s, &tags).err(), Some(Status::BadRequest));
    let (mut s, tags) = finished_session();
    s.upload_id = None;
    assert_eq!(prepare_completion(&s, &tags).err(), Some(Status::InternalServerError));
}

#[test]
fn failed_parts_are_reported() {
    let mut s = session();
    let mut tags = PartEtags::new();
    s.begin_part(0).unwrap();
    s.start_upload("image/png".to_string(), None, "UP".to_string());
    let n0 = s.absorb_part(b"ab");
    tags.insert(n0, String::new());
    assert_eq!(tags.scan(&s.part_etag), EtagScan::Failed);
}

#[test]
fn new_files_are_named_and_typed() {
    assert_eq!(upload_basename(Some("cat.png")), "cat.png");
    assert_eq!(upload_basename(None), "no_title");
    assert_eq!(name_candidate("cat.png", 0), "cat.png");
    assert_eq!(name_candidate("cat.png", 1), "cat.png(1)");
    assert_eq!(name_candidate("cat.png", 100), "cat.png(100)");
    assert_eq!(stored_content_type(Some("image/png")), "image/png");
    assert_eq!(stored_content_type(None), "application/octet-stream");
    assert_eq!(stored_size(12345), 12345);
    assert_eq!(stored_size(u64::MAX), -1);
}

#[test]
fn candidate_names_differ() {
    let names: Vec<String> = (0..=100).map(|n| name_candidate("x", n)).collect();
    for i in 0..names.len() {
        for j in i + 1..names.len() {
            assert_ne!(names[i], names[j]);
        }
    }
}

#[test]
fn previews_are_made_for_images_and_videos() {
    assert!(wants_preview(Some("image/png")));
    assert!(wants_preview(Some("video/mp4")));
    assert!(!wants_preview(Some("audio/mpeg")));
    assert!(!wants_preview(Some("")));
    assert!(!wants_preview(None));
}

fn chosen_name(base: &str, taken: &[String]) -> String {
    let mut step = NameStep::Probe(0);
    loop {
        match step {
            NameStep::Probe(n) => {
                let candidate = name_candidate(base, n);
                step = name_step(n, taken.contains(&candidate));
            }
            NameStep::Store(n) => return name_candidate(base, n),
        }
    }
}

#[test]
fn new_files_take_the_first_free_name() {
    assert_eq!(name_step(0, false), NameStep::Store(0));
    assert_eq!(name_step(0, true), NameStep::Probe(1));
    assert_eq!(name_step(98, true), NameStep::Probe(99));
    assert_eq!(name_step(99, true), NameStep::Store(100));
    assert_eq!(NAME_PROBES, 100);
    assert_eq!(chosen_name("a.txt", &[]), "a.txt");
    let taken = vec!["a.txt".to_string(), "a.txt(1)".to_string(), "a.txt(3)".to_string()];
    assert_eq!(chosen_name("a.txt", &taken), "a.txt(2)");
    let all: Vec<String> = (0..=100).map(|n| name_candidate("b", n)).collect();
    assert_eq!(chosen_name("b", &all), "b(100)");
}

#[test]
fn files_take_the_named_modification_time_when_it_reads() {
    let now = Instant { secs: 1_700_000_000, nanos: 5 };
    assert_eq!(file_updated_at(None, now), now);
    assert_eq!(file_updated_at(Some("yesterday"), now), now);
    assert_eq!(file_updated_at(Some("2024-10-20T12:00:00+09:00"), now), Instant { secs: 1_729_393_200, nanos: 0 });
    assert_eq!(file_updated_at(Some("2024-10-20T03:00:00.25Z"), now), Instant { secs: 1_729_393_200, nanos: 250_000_000 });
}

#[test]
fn duplicate_content_shares_the_earlier_object() {
    assert_eq!(stored_key("NEW", None), "NEW");
    assert_eq!(stored_key("NEW", Some("OLD")), "OLD");
}
