use deck_assets::asset::{
    choose_filename, read_attachment_name, resolve_filename, sanitize_filename,
};
use deck_assets::error::DeckError;
use reqwest::header::{HeaderMap, HeaderValue};

fn headers_with(name: &'static str, value: &[u8]) -> HeaderMap {
    let mut headers = HeaderMap::new();
    headers.insert(name, HeaderValue::from_bytes(value).unwrap());
    headers
}

#[test]
fn resolve_filename_with_asterisk() {
    let headers = headers_with("content-disposition", b"attachment; filename=\"Foo*.png\"");
    assert_eq!(resolve_filename(&headers, "front.jpg").unwrap(), "Foo(asterisk).png");
}

#[test]
fn resolve_filename_missing_header() {
    let headers = headers_with("content-type", b"image/png");
    match resolve_filename(&headers, "front.jpg") {
        Err(DeckError::MissingHeader(name, listing)) => {
            assert_eq!(name, "content-disposition");
            assert_eq!(listing, format!("{:#?}", headers));
            assert!(listing.contains("content-type"));
        }
        other => panic!("{:?}", other),
    }
}

#[test]
fn resolve_filename_no_headers() {
    let headers = HeaderMap::new();
    assert!(matches!(
        resolve_filename(&headers, "front.jpg"),
        Err(DeckError::MissingHeader(_, _))
    ));
}

#[test]
fn resolve_filename_header_not_text() {
    let headers = headers_with("content-disposition", &[b'f', 0xff, b'=']);
    assert_eq!(resolve_filename(&headers, "front.jpg").unwrap(), "front.jpg");
    assert_eq!(resolve_filename(&headers, "back.jpg").unwrap(), "back.jpg");
}

#[test]
fn resolve_filename_header_not_text_sanitizes_default() {
    let headers = headers_with("content-disposition", "filename=ä.png".as_bytes());
    assert_eq!(resolve_filename(&headers, "\"a*\".jpg").unwrap(), "a(asterisk).jpg");
}

#[test]
fn resolve_filename_header_without_filename() {
    let headers = headers_with("content-disposition", b"attachment");
    match resolve_filename(&headers, "front.jpg") {
        Err(DeckError::InvalidHeader(name, listing)) => {
            assert_eq!(name, "content-disposition");
            assert_eq!(listing, format!("{:#?}", headers));
        }
        other => panic!("{:?}", other),
    }
}

#[test]
fn resolve_filename_takes_first_value() {
    let mut headers = headers_with("content-disposition", b"filename=one.png");
    headers.append("content-disposition", HeaderValue::from_static("filename=two.png"));
    assert_eq!(resolve_filename(&headers, "front.jpg").unwrap(), "one.png");
}

#[test]
fn resolve_filename_with_tab_is_text() {
    let headers = headers_with("content-disposition", b"attachment;\tfilename=a.png");
    assert_eq!(resolve_filename(&headers, "front.jpg").unwrap(), "a.png");
}

#[test]
fn read_attachment_name_stops_at_next_marker() {
    assert_eq!(read_attachment_name("filename=a; filename=b"), Some("a; ".to_string()));
    assert_eq!(read_attachment_name("x filename="), Some(String::new()));
    assert_eq!(read_attachment_name("attachment; filename=\"Foo*.png\""), Some("\"Foo*.png\"".to_string()));
    assert_eq!(read_attachment_name("attachment"), None);
    assert_eq!(read_attachment_name(""), None);
}

#[test]
fn sanitize_filename_quotes_and_asterisks() {
    assert_eq!(sanitize_filename("\"Foo*.png\""), "Foo(asterisk).png");
    assert_eq!(sanitize_filename("**"), "(asterisk)(asterisk)");
    assert_eq!(sanitize_filename("\"\""), "");
    assert_eq!(sanitize_filename("plain.png"), "plain.png");
}

#[test]
fn choose_filename_cases() {
    assert_eq!(choose_filename(None, "front.jpg"), Some("front.jpg".to_string()));
    assert_eq!(choose_filename(None, "f*.jpg"), Some("f(asterisk).jpg".to_string()));
    assert_eq!(choose_filename(Some("filename=\"a\".png"), "front.jpg"), Some("a.png".to_string()));
    assert_eq!(choose_filename(Some("inline"), "front.jpg"), None);
}
