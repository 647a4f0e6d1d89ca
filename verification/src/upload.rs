//! Wire encoding of the upload: base64 body, Basic-auth and range
//! headers, the POST target, and extraction of the item URL from the
//! response. The POST itself is performed by the application, which
//! hands the status and the `Content-Location` header back.

use vstd::prelude::*;
use vstd::utf8::encode_utf8;
use crate::config::Config;
use crate::errors::UploadError;
use crate::text::{after_last, dec_str, find_last_char, u64_to_dec};

verus! {

/// The text that base64 (standard alphabet, padded) encodes the given
/// bytes to; the result of base64's STANDARD `encode`, a function of
/// the bytes alone.
pub uninterp spec fn base64_of(bytes: Seq<u8>) -> Seq<char>;

/// Relies on base64's `Engine::encode` with the STANDARD engine:
/// RFC 4648 encoding with padding, deterministic in the input bytes.
#[verifier::external_body]
fn b64_encode(bytes: &[u8]) -> (r: String)
    ensures
        r@ == base64_of(bytes@),
{
    base64::Engine::encode(&base64::engine::general_purpose::STANDARD, bytes)
}

/// Everything of one POST to the paste service.
pub struct UploadRequest {
    /// `{base_url}/apis/rest/items`
    pub url: String,
    /// `Basic` followed by base64 of `username:{api_key}`.
    pub authorization: String,
    /// `bytes 0-{len-1}/{len}`.
    pub content_range: String,
    /// The derived filename.
    pub content_filename: String,
    /// The sniffed MIME type.
    pub content_type: String,
    /// base64 of the raw content.
    pub body: String,
}

/// The POST target for a base URL.
pub open spec fn upload_url_spec(base: Seq<char>) -> Seq<char> {
    base + "/apis/rest/items"@
}

/// The Basic-auth header value for an API key.
pub open spec fn auth_header_spec(key: Seq<char>) -> Seq<char> {
    "Basic "@ + base64_of(encode_utf8("username:"@ + key))
}

/// The byte range header for a content length.
pub open spec fn content_range_spec(len: nat) -> Seq<char>
    recommends
        len > 0,
{
    "bytes 0-"@ + dec_str((len - 1) as nat) + "/"@ + dec_str(len)
}

/// The part of `s` after its last `/` (all of `s` when it has none).
pub open spec fn last_segment(s: Seq<char>) -> Seq<char> {
    s.skip(find_last_char(s, '/') + 1)
}

/// The reported item URL: the base, a slash, and the last segment of
/// the response's `Content-Location`.
pub open spec fn result_url_spec(base: Seq<char>, loc: Seq<char>) -> Seq<char> {
    base + "/"@ + last_segment(loc)
}

/// The size rule on its own, for a length known before the content is
/// loaded: the application checks a file's stat length against the
/// limit here before reading the file at all.
pub fn check_size(size: u64, limit: u64) -> (r: Result<(), UploadError>)
    ensures
        r is Ok <==> size <= limit,
        r matches Err(e) ==> e == (UploadError::SizeLimit { size, limit }) && size > limit,
{
    if size > limit {
        Err(UploadError::SizeLimit { size, limit })
    } else {
        Ok(())
    }
}

/// Builds the one request an upload issues.
///
/// Content longer than the configured maximum is refused before any
/// network activity, as is empty content: a zero-length body has no
/// valid `bytes 0-{len-1}/{len}` range, so this library rejects it
/// outright rather than emit an invalid range.
pub fn build_upload_request(
    config: &Config,
    content: &Vec<u8>,
    filename: &String,
    mime: &String,
) -> (r: Result<UploadRequest, UploadError>)
    ensures
        r is Ok <==> 0 < content@.len() <= config.max_file_size,
        r matches Err(e) ==> match e {
            UploadError::SizeLimit { size, limit } => size == content@.len() && limit
                == config.max_file_size && content@.len() > config.max_file_size,
            UploadError::EmptyContent => content@.len() == 0,
            _ => false,
        },
        r matches Ok(req) ==> req.url@ == upload_url_spec(config.base_url@)
            && req.authorization@ == auth_header_spec(config.api_key@)
            && req.content_range@ == content_range_spec(content@.len())
            && req.content_filename@ == filename@ && req.content_type@ == mime@
            && req.body@ == base64_of(content@),
{
    let len = content.len();
    if len as u64 > config.max_file_size {
        return Err(UploadError::SizeLimit { size: len as u64, limit: config.max_file_size });
    }
    if len == 0 {
        return Err(UploadError::EmptyContent);
    }
    let body = b64_encode(content.as_slice());
    let mut auth_input = "username:".to_owned();
    auth_input.append(config.api_key.as_str());
    let auth_b64 = b64_encode(auth_input.as_str().as_bytes());
    let mut authorization = "Basic ".to_owned();
    authorization.append(auth_b64.as_str());
    let mut content_range = "bytes 0-".to_owned();
    let low = u64_to_dec((len - 1) as u64);
    content_range.append(low.as_str());
    content_range.append("/");
    let high = u64_to_dec(len as u64);
    content_range.append(high.as_str());
    let url = config.base_url.clone().concat("/apis/rest/items");
    Ok(
        UploadRequest {
            url,
            authorization,
            content_range,
            content_filename: filename.clone(),
            content_type: mime.clone(),
            body,
        },
    )
}

/// Decodes the service's answer into the item URL.
///
/// A non-success status is the error it came with; a success without a
/// `Content-Location` header is its own error; otherwise the item URL
/// is the base plus the header's last path segment.
pub fn process_upload_response(
    base_url: &String,
    status: u16,
    content_location: &Option<String>,
) -> (r: Result<String, UploadError>)
    ensures
        r is Ok <==> (200 <= status < 300 && content_location is Some),
        !(200 <= status < 300) ==> (r matches Err(UploadError::BadStatus(s)) && s == status),
        (200 <= status < 300 && content_location is None) ==> (r matches Err(e) && e
            is MissingContentLocation),
        r matches Ok(u) ==> (content_location matches Some(loc) && u@ == result_url_spec(
            base_url@,
            loc@,
        )),
{
    if !(status >= 200 && status < 300) {
        return Err(UploadError::BadStatus(status));
    }
    match content_location {
        Some(loc) => {
            let n = loc.as_str().unicode_len();
            let a = after_last(loc.as_str(), '/');
            let seg = loc.as_str().substring_char(a, n);
            proof {
                assert(loc@.subrange(a as int, n as int) =~= loc@.skip(a as int));
            }
            let mut url = base_url.clone();
            url.append("/");
            url.append(seg);
            Ok(url)
        },
        None => Err(UploadError::MissingContentLocation),
    }
}

} // verus!
