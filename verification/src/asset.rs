//! The filename under which an image is kept, taken from the headers of the
//! response that brought it.

use crate::error::{DeckError, DeckErrorView};
use crate::text::{after_first, before_first, replace_all, replaced, text_after, text_before};
use reqwest::header::{HeaderMap, HeaderValue};
use vstd::prelude::*;

verus! {

/// `reqwest::header::HeaderMap`: the headers of a response.
#[verifier::external_type_specification]
#[verifier::external_body]
#[verifier::reject_recursive_types(T)]
pub struct ExHeaderMap<T>(HeaderMap<T>);

/// `reqwest::header::HeaderValue`: the value of one header.
#[verifier::external_type_specification]
#[verifier::external_body]
pub struct ExHeaderValue(HeaderValue);

/// The first value that `headers` holds under the name `name`, if it holds one.
pub uninterp spec fn first_value(headers: HeaderMap, name: Seq<char>) -> Option<HeaderValue>;

/// The bytes that a header value holds.
pub uninterp spec fn value_bytes(value: HeaderValue) -> Seq<u8>;

/// All of `headers` as `HeaderMap`'s `Debug` writes them in its long form.
pub uninterp spec fn headers_listing(headers: HeaderMap) -> Seq<char>;

/// Whether `byte` is a visible ASCII character, a space or a tab.
pub open spec fn is_visible_ascii(byte: u8) -> bool {
    32 <= byte < 127 || byte == 9
}

/// The text that a header value with the bytes `bytes` reads as: the bytes as
/// characters, where each of them is visible ASCII; else none.
pub open spec fn header_text_of(bytes: Seq<u8>) -> Option<Seq<char>> {
    if forall|i: int| 0 <= i < bytes.len() ==> is_visible_ascii(#[trigger] bytes[i]) {
        Some(Seq::new(bytes.len(), |i: int| bytes[i] as char))
    } else {
        None
    }
}

/// `HeaderMap::get` with a text as the key: the first value under that name,
/// `None` where there is none.
#[verifier::external_body]
fn header_value<'a>(headers: &'a HeaderMap, name: &str) -> (value: Option<&'a HeaderValue>)
    ensures
        match value {
            Some(value) => first_value(*headers, name@) == Some(*value),
            None => first_value(*headers, name@) is None,
        },
{
    headers.get(name)
}

/// `HeaderValue::to_str`: the value as text where each of its bytes is visible
/// ASCII, a space or a tab, and `None` where `to_str` reports an error.
#[verifier::external_body]
fn header_text(value: &HeaderValue) -> (text: Option<&str>)
    ensures
        match text {
            Some(text) => header_text_of(value_bytes(*value)) == Some(text@),
            None => header_text_of(value_bytes(*value)) is None,
        },
{
    value.to_str().ok()
}

/// `HeaderMap`'s `Debug`, in its long form.
#[verifier::external_body]
fn describe_headers(headers: &HeaderMap) -> (listing: String)
    ensures
        listing@ == headers_listing(*headers),
{
    format!("{:#?}", headers)
}

/// The filename that the text of a `content-disposition` header names: what
/// stands between the first `filename=` and the next one, or the end of the
/// text. A text without `filename=` names none.
pub open spec fn attachment_name(header: Seq<char>) -> Option<Seq<char>> {
    match after_first(header, "filename="@) {
        Some(rest) => Some(before_first(rest, "filename="@)),
        None => None,
    }
}

/// `name` as it is used for a file: without any `"`, and with `(asterisk)`
/// in place of each `*`.
pub open spec fn sanitized(name: Seq<char>) -> Seq<char> {
    replaced(replaced(name, "\""@, ""@), "*"@, "(asterisk)"@)
}

/// The filename for an image whose `content-disposition` header reads as
/// `header`, or does not read as text, where `header` is `None`. A header
/// that is no text leaves the choice to `default_filename`. The filename is
/// sanitized in either case. A header that is text and names no file gives
/// none.
pub open spec fn chosen_filename(header: Option<Seq<char>>, default_filename: Seq<char>) -> Option<
    Seq<char>,
> {
    match header {
        None => Some(sanitized(default_filename)),
        Some(text) => match attachment_name(text) {
            Some(name) => Some(sanitized(name)),
            None => None,
        },
    }
}

/// The filename that the headers of a response give to the image that it
/// brought.
pub open spec fn resolved(
    header: Option<HeaderValue>,
    listing: Seq<char>,
    default_filename: Seq<char>,
) -> Result<Seq<char>, DeckErrorView> {
    match header {
        None => Err(DeckErrorView::MissingHeader("content-disposition"@, listing)),
        Some(value) => match chosen_filename(
            header_text_of(value_bytes(value)),
            default_filename,
        ) {
            Some(name) => Ok(name),
            None => Err(DeckErrorView::InvalidHeader("content-disposition"@, listing)),
        },
    }
}

/// Makes a name fit for a file: takes out each `"` and writes `(asterisk)`
/// for each `*`.
pub fn sanitize_filename(name: &str) -> (result: String)
    ensures
        result@ == sanitized(name@),
{
    let unquoted = replace_all(name, "\"", "");
    replace_all(unquoted.as_str(), "*", "(asterisk)")
}

/// Reads the filename that the text of a `content-disposition` header names.
pub fn read_attachment_name(header: &str) -> (result: Option<String>)
    ensures
        match attachment_name(header@) {
            Some(name) => result matches Some(found) && found@ == name,
            None => result is None,
        },
{
    match text_after(header, "filename=") {
        Some(rest) => Some(text_before(rest.as_str(), "filename=")),
        None => None,
    }
}

/// Chooses the filename for an image from the text of its
/// `content-disposition` header; `header` is `None` where the header does
/// not read as text.
pub fn choose_filename(header: Option<&str>, default_filename: &str) -> (result: Option<String>)
    ensures
        match chosen_filename(
            match header {
                Some(text) => Some(text@),
                None => None,
            },
            default_filename@,
        ) {
            Some(name) => result matches Some(found) && found@ == name,
            None => result is None,
        },
{
    match header {
        None => Some(sanitize_filename(default_filename)),
        Some(text) => match read_attachment_name(text) {
            Some(name) => Some(sanitize_filename(name.as_str())),
            None => None,
        },
    }
}

/// Resolves the filename of an image from the headers of the response that
/// brought it. Without a `content-disposition` header there is none, and
/// none where that header is text and names no file; both errors show all
/// headers of the response.
pub fn resolve_filename(headers: &HeaderMap, default_filename: &str) -> (result: Result<
    String,
    DeckError,
>)
    ensures
        match resolved(
            first_value(*headers, "content-disposition"@),
            headers_listing(*headers),
            default_filename@,
        ) {
            Ok(name) => result matches Ok(found) && found@ == name,
            Err(error) => result matches Err(found) && found@ == error,
        },
{
    let value = match header_value(headers, "content-disposition") {
        Some(value) => value,
        None => {
            return Err(
                DeckError::MissingHeader(
                    "content-disposition".to_owned(),
                    describe_headers(headers),
                ),
            );
        },
    };
    match choose_filename(header_text(value), default_filename) {
        Some(name) => Ok(name),
        None => Err(
            DeckError::InvalidHeader("content-disposition".to_owned(), describe_headers(headers)),
        ),
    }
}

/// Without a `content-disposition` header no filename is resolved: the error
/// names the header and shows all headers.
pub proof fn lemma_missing_header(listing: Seq<char>, default_filename: Seq<char>)
    ensures
        resolved(None, listing, default_filename) == Err::<Seq<char>, DeckErrorView>(
            DeckErrorView::MissingHeader("content-disposition"@, listing),
        ),
{
}

/// A `content-disposition` header that does not read as text gives the
/// default filename, sanitized, whatever its bytes are.
pub proof fn lemma_unreadable_header(
    value: HeaderValue,
    listing: Seq<char>,
    default_filename: Seq<char>,
)
    requires
        header_text_of(value_bytes(value)) is None,
    ensures
        resolved(Some(value), listing, default_filename) == Ok::<Seq<char>, DeckErrorView>(
            sanitized(default_filename),
        ),
{
}

/// A header value with a byte that is not visible ASCII, a space or a tab
/// does not read as text.
pub proof fn lemma_byte_not_text(bytes: Seq<u8>, at: int)
    requires
        0 <= at < bytes.len(),
        !is_visible_ascii(bytes[at]),
    ensures
        header_text_of(bytes) is None,
{
}

} // verus!
