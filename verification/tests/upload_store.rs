use filebox::status::Status;
use filebox::upload::UploadSession;
use filebox::upload_store::{bearer_token, wait_step, EtagScan, PartEtags, UploadSessions, WaitStep};

#[test]
fn bearer_values_are_read() {
    assert_eq!(bearer_token(Some("Bearer abc")), Ok("abc".to_string()));
    assert_eq!(bearer_token(Some("Bearer ")), Ok(String::new()));
    assert_eq!(bearer_token(Some("bearer abc")), Err(Status::BadRequest));
    assert_eq!(bearer_token(Some("Bearer")), Err(Status::BadRequest));
    assert_eq!(bearer_token(None), Err(Status::BadRequest));
}

#[test]
fn a_written_session_is_looked_up_by_its_id() {
    let mut sessions = UploadSessions::new();
    sessions.write(UploadSession::new(3, "K".to_string(), None, None, None), "sid".to_string());
    let (s, id) = sessions.lookup(Some("Bearer sid"), false).ok().unwrap();
    assert_eq!(id, "sid");
    assert_eq!(s.user_id, 3);
    assert!(sessions.lookup(Some("Bearer sid"), false).is_ok());
}

#[test]
fn lookups_refuse_bad_headers_and_unknown_ids() {
    let mut sessions = UploadSessions::new();
    sessions.write(UploadSession::new(3, "K".to_string(), None, None, None), "sid".to_string());
    assert_eq!(sessions.lookup(Some("Token sid"), false).err(), Some(Status::BadRequest));
    assert_eq!(sessions.lookup(None, false).err(), Some(Status::BadRequest));
    assert_eq!(sessions.lookup(Some("Bearer other"), false).err(), Some(Status::Forbidden));
}

#[test]
fn a_deleting_lookup_removes_the_session() {
    let mut sessions = UploadSessions::new();
    sessions.write(UploadSession::new(3, "K".to_string(), None, None, None), "sid".to_string());
    assert!(sessions.lookup(Some("Bearer sid"), true).is_ok());
    assert_eq!(sessions.lookup(Some("Bearer sid"), true).err(), Some(Status::Forbidden));
}

#[test]
fn tags_are_recorded() {
    let mut tags = PartEtags::new();
    assert_eq!(tags.get("a"), None);
    tags.insert("a".to_string(), "etag".to_string());
    assert_eq!(tags.get("a"), Some("etag".to_string()));
    let names = vec!["a".to_string(), "b".to_string()];
    assert_eq!(tags.scan(&names), EtagScan::Pending);
    tags.insert("b".to_string(), String::new());
    assert_eq!(tags.scan(&names), EtagScan::Failed);
    tags.insert("b".to_string(), "x".to_string());
    assert_eq!(tags.scan(&names), EtagScan::Ready);
    assert_eq!(tags.scan(&Vec::new()), EtagScan::Ready);
}

#[test]
fn the_wait_retries_sixty_times_then_aborts() {
    assert_eq!(wait_step(0, EtagScan::Ready), (WaitStep::Proceed, 0));
    assert_eq!(wait_step(3, EtagScan::Failed), (WaitStep::Abort, 3));
    let mut count = 0;
    let mut retries = 0;
    loop {
        let (step, next) = wait_step(count, EtagScan::Pending);
        count = next;
        if step == WaitStep::Abort {
            break;
        }
        assert_eq!(step, WaitStep::Retry);
        retries += 1;
    }
    assert_eq!(retries, 60);
    assert_eq!(count, 61);
}
