use vstd::prelude::*;
use vstd::string::*;
use crate::error::SubmitError;

verus! {

/// The longest text, in bytes, that is read as a URL. It bounds the work and
/// the depth to which the `url` crate follows a URL nested in a `blob:` URL.
pub const MAX_URL_BYTES: usize = 2048;

/// `url::ParseError`, the reason `url::Url::parse` gives for turning a text
/// down. Nothing here looks inside it.
#[verifier::external_type_specification]
#[verifier::external_body]
pub struct ExParseError(url::ParseError);

/// The origin that the `url` crate finds in `raw`: `None` where
/// `url::Url::parse` turns `raw` down, and where `url::Url::origin` of the
/// parsed URL is `url::Origin::Opaque`; else the text that
/// `url::Origin::unicode_serialization` gives for that origin, which is then
/// a `url::Origin::Tuple` of scheme, host and port.
pub uninterp spec fn url_origin(raw: Seq<char>) -> Option<Seq<char>>;

/// Calls `url::Url::parse` on `raw` and, where that succeeds,
/// `url::Url::origin` on the URL; an opaque origin is answered with `None`,
/// and a tuple origin with what `url::Origin::unicode_serialization` gives
/// for it. Trusted: the answer depends on `raw` alone, so that the same text
/// always has the same origin. The parser's error is handed on as it is. The
/// text is bounded because `url::Url::origin` calls itself once for each
/// `blob:` that a URL is nested in.
#[verifier::external_body]
fn parse_origin(raw: &str) -> (r: Result<Option<String>, url::ParseError>)
    requires
        raw.len() <= MAX_URL_BYTES,
    ensures
        match r {
            Ok(Some(origin)) => url_origin(raw@) == Some(origin@),
            Ok(None) => url_origin(raw@) is None,
            Err(_) => url_origin(raw@) is None,
        },
{
    match url::Url::parse(raw) {
        Ok(parsed) => match parsed.origin() {
            url::Origin::Opaque(_) => Ok(None),
            tuple @ url::Origin::Tuple(..) => Ok(Some(tuple.unicode_serialization())),
        },
        Err(e) => Err(e),
    }
}

/// The origin under which a submitted text is queued, `None` where the text
/// is refused: a text of more than `MAX_URL_BYTES` bytes, and one in which
/// the `url` crate finds no origin of scheme, host and port.
pub open spec fn origin_of(raw: &str) -> Option<Seq<char>> {
    if raw.len() > MAX_URL_BYTES {
        None
    } else {
        url_origin(raw@)
    }
}

/// What `normalize` answers for a text whose origin is `parsed`.
pub open spec fn normalized(parsed: Option<Seq<char>>) -> Result<Seq<char>, SubmitError> {
    match parsed {
        Some(origin) => Ok(origin),
        None => Err(SubmitError::InvalidUrl),
    }
}

/// What contracts see of a text or an error.
pub open spec fn text_of(r: Result<String, SubmitError>) -> Result<Seq<char>, SubmitError> {
    match r {
        Ok(s) => Ok(s@),
        Err(e) => Err(e),
    }
}

/// Reduces an absolute URL to its origin of scheme, host and port, as the
/// `url` crate writes it. `InvalidUrl` comes for a text that is no absolute
/// URL, for a URL that has no such origin (`mailto:`, `data:`, `file:` and
/// every scheme but `http`, `https`, `ws`, `wss` and `ftp`), and for a text of
/// more than `MAX_URL_BYTES` bytes.
pub fn normalize(raw: &str) -> (r: Result<String, SubmitError>)
    ensures
        text_of(r) == normalized(origin_of(raw)),
{
    if raw.len() > MAX_URL_BYTES {
        return Err(SubmitError::InvalidUrl);
    }
    match parse_origin(raw) {
        Ok(Some(origin)) => Ok(origin),
        Ok(None) => Err(SubmitError::InvalidUrl),
        Err(_) => Err(SubmitError::InvalidUrl),
    }
}

} // verus!
