use filebox::paths::{
    check_directory_path, check_move_request, check_new_name, check_upload_request, directory_chain, lookup_path,
    mkdir_target, move_destination,
};
use filebox::status::Status;

fn chain(dir: &str) -> Vec<(String, String)> {
    directory_chain(dir)
}

fn pair(a: &str, b: &str) -> (String, String) {
    (a.to_string(), b.to_string())
}

#[test]
fn chain_lists_each_directory_under_its_parent() {
    assert_eq!(chain("/a/b/c/"), vec![pair("/", "a/"), pair("/a/", "b/"), pair("/a/b/", "c/")]);
    assert_eq!(chain("/photos/"), vec![pair("/", "photos/")]);
}

#[test]
fn chain_skips_empty_pieces_and_takes_a_trailing_piece() {
    assert_eq!(chain("//a///b"), vec![pair("/", "a/"), pair("/a/", "b/")]);
    assert_eq!(chain("x"), vec![pair("/", "x/")]);
    assert_eq!(chain(""), Vec::<(String, String)>::new());
    assert_eq!(chain("/"), Vec::<(String, String)>::new());
}

#[test]
fn chain_links_parents() {
    let c = chain("/one/two/three/four/");
    assert_eq!(c[0].0, "/");
    for i in 0..c.len() - 1 {
        assert_eq!(c[i + 1].0, format!("{}{}", c[i].0, c[i].1));
    }
}

#[test]
fn mkdir_target_splits_the_last_directory() {
    assert_eq!(mkdir_target("/a/b/"), Ok(pair("/a/", "b/")));
    assert_eq!(mkdir_target("/x/"), Ok(pair("/", "x/")));
    assert_eq!(mkdir_target("//"), Ok(pair("/", "/")));
    assert_eq!(mkdir_target("/a//b/"), Ok(pair("/a//", "b/")));
}

#[test]
fn mkdir_target_refuses_bad_paths() {
    assert_eq!(mkdir_target("a/"), Err(Status::BadRequest));
    assert_eq!(mkdir_target("/a"), Err(Status::BadRequest));
    assert_eq!(mkdir_target("/a\0/"), Err(Status::BadRequest));
    assert_eq!(mkdir_target(""), Err(Status::BadRequest));
}

#[test]
fn mkdir_target_is_the_last_entry_of_the_chain() {
    for dir in ["/a/", "/a/b/", "/x/y/z/"] {
        assert_eq!(mkdir_target(dir).unwrap(), chain(dir).last().unwrap().clone());
        assert_eq!(mkdir_target(dir).unwrap(), lookup_path(dir));
    }
}

#[test]
fn lookup_path_splits_at_the_last_slash() {
    assert_eq!(lookup_path("/a/b/"), pair("/a/", "b/"));
    assert_eq!(lookup_path("/a/b"), pair("/a/", "b/"));
    assert_eq!(lookup_path("abc"), pair("", "abc/"));
    assert_eq!(lookup_path(""), pair("", "/"));
    assert_eq!(lookup_path("/"), pair("", "/"));
}

#[test]
fn names_and_directories_are_checked() {
    assert!(check_new_name("photo.jpg"));
    assert!(!check_new_name("a/b"));
    assert!(!check_new_name("a\0"));
    assert!(check_directory_path("/a/"));
    assert!(!check_directory_path("/a"));
    assert!(!check_directory_path(""));
}

#[test]
fn move_requests_are_checked() {
    assert_eq!(check_move_request(Some("new.txt"), Some("/docs/")), Ok(()));
    assert_eq!(check_move_request(None, None), Ok(()));
    assert_eq!(check_move_request(Some("a/b"), None), Err(Status::BadRequest));
    assert_eq!(check_move_request(None, Some("docs/")), Err(Status::BadRequest));
    assert_eq!(check_move_request(None, Some("/docs")), Err(Status::BadRequest));
}

#[test]
fn a_move_onto_itself_is_refused() {
    assert_eq!(move_destination(None, None, "/d/", "f"), Err(Status::BadRequest));
    assert_eq!(move_destination(Some("f"), Some("/d/"), "/d/", "f"), Err(Status::BadRequest));
    assert_eq!(move_destination(Some("g"), None, "/d/", "f"), Ok(pair("/d/", "g")));
    assert_eq!(move_destination(None, Some("/e/"), "/d/", "f"), Ok(pair("/e/", "f")));
}

#[test]
fn upload_requests_are_checked() {
    assert_eq!(check_upload_request(Some("title"), Some("/")), Ok(()));
    assert_eq!(check_upload_request(None, Some("/a")), Ok(()));
    assert_eq!(check_upload_request(Some("a/b"), None), Err(Status::BadRequest));
    assert_eq!(check_upload_request(None, Some("a/")), Err(Status::BadRequest));
    assert_eq!(check_upload_request(None, Some("/a\0")), Err(Status::BadRequest));
}
