use doh::location::Location;
use doh::ops::request::{HeaderError, Method, RawFsApiHeader};
use doh::ops::{delete, download, download_raw, upload};
use doh::util::USER_AGENT;

#[test]
fn header_name() {
    assert_eq!(RawFsApiHeader::header_name(), "X-Raw-Filesystem-API");
}

#[test]
fn parse_header_correct() {
    assert_eq!(RawFsApiHeader::parse_header(&[vec![b'1']]).unwrap(), RawFsApiHeader(true));
    assert_eq!(RawFsApiHeader::parse_header(&[vec![b'0']]).unwrap(), RawFsApiHeader(false));
}

#[test]
fn parse_header_incorrect() {
    assert_eq!(RawFsApiHeader::parse_header(&[]).unwrap_err(), HeaderError::Invalid);
    assert_eq!(RawFsApiHeader::parse_header(&[vec![]]).unwrap_err(), HeaderError::Invalid);
    assert_eq!(RawFsApiHeader::parse_header(&[vec![b'1', b'0']]).unwrap_err(), HeaderError::Invalid);
    assert_eq!(
        RawFsApiHeader::parse_header(&[vec![b'1'], vec![b'1']]).unwrap_err(),
        HeaderError::Invalid
    );
}

#[test]
fn parse_header_other_byte() {
    assert_eq!(RawFsApiHeader::parse_header(&[vec![b'2']]).unwrap_err(), HeaderError::Invalid);
}

#[test]
fn fmt_header() {
    assert_eq!(&RawFsApiHeader(true).fmt_header(), "1");
    assert_eq!(&RawFsApiHeader(false).fmt_header(), "0");
}

fn header_pairs(request: &doh::ops::request::Request) -> Vec<(String, String)> {
    request.headers.iter().map(|h| (h.name.clone(), h.value.clone())).collect()
}

#[test]
fn download_asks_for_a_listing() {
    let at = Location::parse("http://h/a/").unwrap();
    let request = download(&at);
    assert_eq!(request.method, Method::Get);
    assert_eq!(request.url, at);
    assert!(request.gzip);
    assert_eq!(
        header_pairs(&request),
        vec![
            ("X-Raw-Filesystem-API".to_string(), "1".to_string()),
            ("User-Agent".to_string(), USER_AGENT.to_string()),
        ]
    );
}

#[test]
fn download_raw_asks_for_the_bytes() {
    let at = Location::parse("http://h/a/f").unwrap();
    let request = download_raw(&at);
    assert_eq!(request.method, Method::Get);
    assert_eq!(request.url, at);
    assert_eq!(
        header_pairs(&request),
        vec![
            ("X-Raw-Filesystem-API".to_string(), "0".to_string()),
            ("User-Agent".to_string(), USER_AGENT.to_string()),
        ]
    );
}

#[test]
fn upload_and_delete_say_who_asks() {
    let at = Location::parse("http://h/a/f").unwrap();
    let put = upload(&at);
    assert_eq!(put.method, Method::Put);
    assert_eq!(header_pairs(&put), vec![("User-Agent".to_string(), USER_AGENT.to_string())]);
    let del = delete(&at);
    assert_eq!(del.method, Method::Delete);
    assert_eq!(del.url, at);
    assert_eq!(header_pairs(&del), vec![("User-Agent".to_string(), USER_AGENT.to_string())]);
}

#[test]
fn options_take_a_url() {
    let with = doh::Options::from_url("https://example.com/files/").unwrap();
    assert_eq!(with.remote_dir.as_str(), "https://example.com/files/");
}

#[test]
fn options_default_to_http() {
    let without = doh::Options::from_url("example.com/files").unwrap();
    assert_eq!(without.remote_dir.as_str(), "http://example.com/files");
}

#[test]
fn options_refuse_what_is_no_url() {
    assert!(doh::Options::from_url("").is_none());
    assert!(doh::Options::from_url("://").is_none());
}
