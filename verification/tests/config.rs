use filebox::config::{object_url, virtual_host_url, S3Config};

fn config(endpoint: &str, path_style: bool) -> S3Config {
    S3Config {
        endpoint: endpoint.to_string(),
        bucket: "files".to_string(),
        region: "r".to_string(),
        access_key: "a".to_string(),
        secret_key: "s".to_string(),
        timeout: 30,
        path_style,
    }
}

#[test]
fn path_style_urls_join_endpoint_bucket_and_key() {
    assert_eq!(object_url(&config("http://s3.local:9000", true), "KEY"), Some("http://s3.local:9000/files/KEY".to_string()));
}

#[test]
fn host_style_urls_put_the_bucket_in_the_host() {
    assert_eq!(object_url(&config("https://s3.example.com", false), "KEY"), Some("https://files.s3.example.com:443/KEY".to_string()));
    assert_eq!(object_url(&config("http://s3.example.com", false), "KEY"), Some("http://files.s3.example.com:80/KEY".to_string()));
    assert_eq!(object_url(&config("http://s3.example.com:9000", false), "KEY"), Some("http://files.s3.example.com:9000/KEY".to_string()));
    assert_eq!(object_url(&config("not a url", false), "KEY"), None);
}

#[test]
fn host_style_url_formula() {
    assert_eq!(virtual_host_url("https", "h", Some(8443), "b", "k"), "https://b.h:8443/k");
    assert_eq!(virtual_host_url("ftp", "h", None, "b", "k"), "ftp://b.h:443/k");
}
