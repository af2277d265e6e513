//! Settings of the object storage, and the URL of a stored object.
use vstd::prelude::*;
use vstd::string::*;
use crate::decimal::{nat_digits, u64_to_decimal};

verus! {

/// How to reach the object storage.
pub struct S3Config {
    pub endpoint: String,
    pub bucket: String,
    pub region: String,
    pub access_key: String,
    pub secret_key: String,
    pub timeout: u64,
    /// Whether objects are addressed as `endpoint/bucket/key` rather than
    /// under a bucket host name.
    pub path_style: bool,
}

/// The scheme, host and port that a URL names, if it parses as a URI with a
/// scheme and a host.
pub uninterp spec fn uri_authority(url: Seq<char>) -> Option<(Seq<char>, Seq<char>, Option<u16>)>;

/// Splits a URL into scheme, host and explicit port: `http::Uri::from_str`
/// read with `scheme_str`, `host` and `port_u16`. Claimed: the result
/// depends on the text alone; `None` when it does not parse or lacks a
/// scheme or host.
#[verifier::external_body]
fn parse_authority(url: &str) -> (res: Option<(String, String, Option<u16>)>)
    ensures
        match res {
            Some((s, h, p)) => uri_authority(url@) == Some((s@, h@, p)),
            None => uri_authority(url@) is None,
        },
{
    let uri = <axum::http::Uri as std::str::FromStr>::from_str(url).ok()?;
    Some((uri.scheme_str()?.to_string(), uri.host()?.to_string(), uri.port_u16()))
}

/// The URL of an object under a bucket host name: the port defaults to 80
/// for `http` and to 443 otherwise.
pub open spec fn virtual_host_url_spec(
    scheme: Seq<char>,
    host: Seq<char>,
    port: Option<u16>,
    bucket: Seq<char>,
    key: Seq<char>,
) -> Seq<char> {
    let port = match port { Some(p) => p as nat, None => if scheme == "http"@ { 80 } else { 443 } };
    scheme + "://"@ + bucket + seq!['.'] + host + seq![':'] + nat_digits(port) + seq!['/'] + key
}

/// The URL of an object under a bucket host name.
pub fn virtual_host_url(scheme: &str, host: &str, port: Option<u16>, bucket: &str, key: &str) -> (res: String)
    ensures
        res@ == virtual_host_url_spec(scheme@, host@, port, bucket@, key@),
{
    let port: u16 = match port {
        Some(p) => p,
        None => if crate::text::str_eq(scheme, "http") { 80 } else { 443 },
    };
    let mut res = String::from_str(scheme);
    res.append("://");
    res.append(bucket);
    crate::text::push_char(&mut res, '.');
    res.append(host);
    crate::text::push_char(&mut res, ':');
    res.append(u64_to_decimal(port as u64).as_str());
    crate::text::push_char(&mut res, '/');
    res.append(key);
    res
}

/// The URL of an object in path style: endpoint, bucket and key joined by `/`.
pub open spec fn path_style_url_spec(endpoint: Seq<char>, bucket: Seq<char>, key: Seq<char>) -> Seq<char> {
    endpoint + seq!['/'] + bucket + seq!['/'] + key
}

/// The URL under which the storage serves object `key`: `None` only when
/// objects are addressed by host name and the endpoint is not a URL with a
/// scheme and a host.
pub fn object_url(config: &S3Config, key: &str) -> (res: Option<String>)
    ensures
        config.path_style ==> (res matches Some(u) && u@ == path_style_url_spec(config.endpoint@, config.bucket@, key@)),
        !config.path_style ==> match (res, uri_authority(config.endpoint@)) {
            (Some(u), Some((s, h, p))) => u@ == virtual_host_url_spec(s, h, p, config.bucket@, key@),
            (None, None) => true,
            _ => false,
        },
{
    if config.path_style {
        let mut res = String::from_str(config.endpoint.as_str());
        crate::text::push_char(&mut res, '/');
        res.append(config.bucket.as_str());
        crate::text::push_char(&mut res, '/');
        res.append(key);
        Some(res)
    } else {
        match parse_authority(config.endpoint.as_str()) {
            Some((scheme, host, port)) => Some(
                virtual_host_url(scheme.as_str(), host.as_str(), port, config.bucket.as_str(), key),
            ),
            None => None,
        }
    }
}

/// An object URL under a bucket host name puts the bucket in front of the
/// host and the key after the port, which is the one given or else 80 for
/// `http` and 443 for any other scheme.
pub proof fn lemma_virtual_host_port(scheme: Seq<char>, host: Seq<char>, bucket: Seq<char>, key: Seq<char>, port: u16)
    ensures
        virtual_host_url_spec("http"@, host, None, bucket, key) == "http"@ + "://"@ + bucket + seq!['.'] + host
            + seq![':'] + nat_digits(80) + seq!['/'] + key,
        scheme != "http"@ ==> virtual_host_url_spec(scheme, host, None, bucket, key) == scheme + "://"@ + bucket
            + seq!['.'] + host + seq![':'] + nat_digits(443) + seq!['/'] + key,
        virtual_host_url_spec(scheme, host, Some(port), bucket, key) == scheme + "://"@ + bucket + seq!['.'] + host
            + seq![':'] + nat_digits(port as nat) + seq!['/'] + key,
{
}

} // verus!
