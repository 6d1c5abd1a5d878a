//! A fetched HTTP response, held as plain values, and the decoding of its
//! body to text.

use vstd::prelude::*;

verus! {

#[verifier::external_type_specification]
#[verifier::external_body]
pub struct ExFromStrError(mime::FromStrError);

#[verifier::external_type_specification]
#[verifier::external_body]
pub struct ExEncoding(encoding_rs::Encoding);

/// One header of a response. Names are lowercase, as HTTP header maps hold
/// them; values are the raw bytes received.
#[derive(Debug)]
pub struct Header {
    pub name: String,
    pub value: Vec<u8>,
}

/// An HTTP response that can be stored.
#[derive(Debug)]
pub struct Response {
    /// The URL that actually produced the response.
    pub url: String,
    /// The HTTP version of the response, as in `HTTP/1.1`.
    pub version: String,
    /// The HTTP status code of the response.
    pub status: u16,
    /// The HTTP headers of the response, in the order received.
    pub headers: Vec<Header>,
    /// The body returned by the response.
    pub body: Vec<u8>,
}

/// Errors resulting from processing an HTTP response.
#[derive(Debug)]
pub enum ResponseError {
    /// Could not convert header value to string.
    InvalidStr,
    /// Could not convert header value to MIME media type.
    InvalidMediaType(mime::FromStrError),
    /// Unknown charset in header.
    InvalidCharset(String),
}

/// The media type of a response, as its content-type header gives it.
#[derive(Debug)]
pub struct MediaType {
    /// The header's text.
    pub value: String,
    /// The value of its `charset` parameter, if it has one.
    pub charset: Option<String>,
}

pub open spec fn opt_view(o: Option<String>) -> Option<Seq<char>> {
    match o {
        Some(s) => Some(s@),
        None => None,
    }
}

/// What the mime crate reads out of a media type: `None` where it does not
/// parse, else the value of its `charset` parameter, if any.
pub uninterp spec fn media_type_charset(s: Seq<char>) -> Option<Option<Seq<char>>>;

/// Relies on `<mime::Mime as FromStr>::from_str` to parse a media type, and
/// on `Mime::get_param(mime::CHARSET)` to read its charset.
#[verifier::external_body]
fn parse_media_type(s: &str) -> (r: Result<Option<String>, mime::FromStrError>)
    ensures
        r is Err <==> media_type_charset(s@) is None,
        r matches Ok(c) ==> media_type_charset(s@) == Some(opt_view(c)),
{
    s.parse::<mime::Mime>().map(|m| m.get_param(mime::CHARSET).map(|v| v.as_str().to_string()))
}

/// Whether encoding_rs knows an encoding by this label.
pub uninterp spec fn label_known(label: Seq<char>) -> bool;

/// Relies on `encoding_rs::Encoding::for_label`: the encoding for a label,
/// if the label is known.
#[verifier::external_body]
fn encoding_for_label(label: &str) -> (r: Option<&'static encoding_rs::Encoding>)
    ensures
        r is Some <==> label_known(label@),
{
    encoding_rs::Encoding::for_label(label.as_bytes())
}

/// The text that encoding_rs decodes `body` to with the encoding for `label`.
pub uninterp spec fn decoded(label: Seq<char>, body: Seq<u8>) -> Seq<char>;

/// Relies on `encoding_rs::Encoding::decode` (through `Encoding::for_label`):
/// lossy decoding, which never fails for a known label.
#[verifier::external_body]
fn decode_labelled(label: &str, body: &[u8]) -> (r: Option<String>)
    ensures
        r is Some <==> label_known(label@),
        r matches Some(t) ==> t@ == decoded(label@, body@),
{
    encoding_rs::Encoding::for_label(label.as_bytes()).map(|e| e.decode(body).0.into_owned())
}

/// Relies on `std::str::from_utf8`: ASCII bytes are valid UTF-8, each byte
/// one character.
#[verifier::external_body]
fn ascii_str(b: &[u8]) -> (r: &str)
    requires
        forall|i: int| 0 <= i < b@.len() ==> b@[i] < 128,
    ensures
        r@ == ascii_text(b@),
{
    std::str::from_utf8(b).unwrap()
}

/// The characters of ASCII bytes.
pub open spec fn ascii_text(b: Seq<u8>) -> Seq<char> {
    b.map_values(|x: u8| x as char)
}

/// A header value is text when it holds visible ASCII and tabs only.
pub open spec fn is_visible_ascii(b: Seq<u8>) -> bool {
    forall|i: int| 0 <= i < b.len() ==> (32 <= b[i] < 127 || b[i] == 9)
}

/// The name of the content-type header.
pub open spec fn content_type_name() -> Seq<char> {
    "content-type"@
}

/// The value of the first header named `content-type` at or after `i`.
pub open spec fn content_type_from(hs: Seq<Header>, i: int) -> Option<Seq<u8>>
    decreases hs.len() - i,
{
    if i < 0 || i >= hs.len() {
        None
    } else if hs[i].name@ == content_type_name() {
        Some(hs[i].value@)
    } else {
        content_type_from(hs, i + 1)
    }
}

/// The value of the first content-type header.
pub open spec fn content_type_bytes(hs: Seq<Header>) -> Option<Seq<u8>> {
    content_type_from(hs, 0)
}

/// Where the content-type header parses, what it says of the charset.
pub open spec fn parsed_charset(hs: Seq<Header>) -> Option<Option<Seq<char>>> {
    match content_type_bytes(hs) {
        None => Some(None),
        Some(v) => if is_visible_ascii(v) {
            media_type_charset(ascii_text(v))
        } else {
            None
        },
    }
}

/// The error that the content-type header gives, if any: the result is
/// `Err` exactly where one of these holds, with that variant.
pub open spec fn media_type_error(hs: Seq<Header>, r: Result<Option<Seq<char>>, ResponseError>) -> bool {
    match content_type_bytes(hs) {
        None => r is Ok,
        Some(v) => if !is_visible_ascii(v) {
            r matches Err(ResponseError::InvalidStr)
        } else if media_type_charset(ascii_text(v)) is None {
            r matches Err(ResponseError::InvalidMediaType(_))
        } else {
            r is Ok
        },
    }
}

/// The label whose encoding decodes a body: the declared charset, else
/// UTF-8.
pub open spec fn body_label(charset: Option<Seq<char>>) -> Seq<char> {
    match charset {
        Some(c) => c,
        None => "utf-8"@,
    }
}

fn visible_ascii(b: &Vec<u8>) -> (r: bool)
    ensures
        r == is_visible_ascii(b@),
{
    let mut i: usize = 0;
    while i < b.len()
        invariant
            i <= b@.len(),
            forall|k: int| 0 <= k < i ==> (32 <= b@[k] < 127 || b@[k] == 9),
        decreases b.len() - i,
    {
        if !(32 <= b[i] && b[i] < 127 || b[i] == 9) {
            return false;
        }
        i = i + 1;
    }
    true
}

impl Response {
    /// The value of the first content-type header, if there is one.
    fn content_type_header(&self) -> (r: Option<&Vec<u8>>)
        ensures
            match r {
                Some(v) => content_type_bytes(self.headers@) == Some(v@),
                None => content_type_bytes(self.headers@) is None,
            },
    {
        let name = String::from_str("content-type");
        let mut i: usize = 0;
        while i < self.headers.len()
            invariant
                i <= self.headers@.len(),
                name@ == content_type_name(),
                content_type_from(self.headers@, 0) == content_type_from(self.headers@, i as int),
            decreases self.headers.len() - i,
        {
            if self.headers[i].name == name {
                return Some(&self.headers[i].value);
            }
            i = i + 1;
        }
        None
    }

    /// Get the content-type.
    pub fn content_type(&self) -> (r: Result<Option<MediaType>, ResponseError>)
        ensures
            media_type_error(self.headers@, match r {
                Ok(_) => Ok(None),
                Err(e) => Err(e),
            }),
            r matches Ok(m) ==> match m {
                None => content_type_bytes(self.headers@) is None,
                Some(m) => content_type_bytes(self.headers@) matches Some(v)
                    && m.value@ == ascii_text(v)
                    && parsed_charset(self.headers@) == Some(opt_view(m.charset)),
            },
    {
        proof {
            reveal_strlit("content-type");
        }
        match self.content_type_header() {
            None => Ok(None),
            Some(v) => {
                if !visible_ascii(v) {
                    return Err(ResponseError::InvalidStr);
                }
                let s = ascii_str(v.as_slice());
                match parse_media_type(s) {
                    Ok(charset) => Ok(Some(MediaType { value: s.to_string(), charset })),
                    Err(e) => Err(ResponseError::InvalidMediaType(e)),
                }
            },
        }
    }

    /// Get the charset.
    pub fn charset(&self) -> (r: Result<Option<String>, ResponseError>)
        ensures
            media_type_error(self.headers@, match r {
                Ok(c) => Ok(opt_view(c)),
                Err(e) => Err(e),
            }),
            r matches Ok(c) ==> parsed_charset(self.headers@) == Some(opt_view(c)),
    {
        match self.content_type() {
            Ok(Some(m)) => Ok(m.charset),
            Ok(None) => Ok(None),
            Err(e) => Err(e),
        }
    }

    /// Get the encoding of the declared charset, if one is declared.
    pub fn charset_encoding(&self) -> (r: Result<Option<&'static encoding_rs::Encoding>, ResponseError>)
        ensures
            parsed_charset(self.headers@) is None ==> media_type_error(self.headers@, match r {
                Ok(_) => Ok(None),
                Err(e) => Err(e),
            }),
            parsed_charset(self.headers@) == Some(None::<Seq<char>>) ==> r matches Ok(None),
            parsed_charset(self.headers@) matches Some(Some(c)) ==> if label_known(c) {
                r matches Ok(Some(_))
            } else {
                r matches Err(ResponseError::InvalidCharset(n)) && n@ == c
            },
    {
        match self.charset() {
            Ok(Some(charset)) => match encoding_for_label(charset.as_str()) {
                Some(e) => Ok(Some(e)),
                None => Err(ResponseError::InvalidCharset(charset)),
            },
            Ok(None) => Ok(None),
            Err(e) => Err(e),
        }
    }

    /// Get the response body as text, decoded with the declared charset, or
    /// as UTF-8 where none is declared. Malformed bytes are replaced.
    pub fn text(&self) -> (r: Result<String, ResponseError>)
        ensures
            parsed_charset(self.headers@) is None ==> media_type_error(self.headers@, match r {
                Ok(_) => Ok(None),
                Err(e) => Err(e),
            }),
            parsed_charset(self.headers@) matches Some(c) ==> {
                let label = body_label(c);
                if label_known(label) {
                    r matches Ok(t) && t@ == decoded(label, self.body@)
                } else {
                    r matches Err(ResponseError::InvalidCharset(n)) && n@ == label
                }
            },
    {
        proof {
            reveal_strlit("utf-8");
        }
        let label = match self.charset() {
            Ok(Some(charset)) => charset,
            Ok(None) => String::from_str("utf-8"),
            Err(e) => return Err(e),
        };
        match decode_labelled(label.as_str(), self.body.as_slice()) {
            Some(t) => Ok(t),
            None => Err(ResponseError::InvalidCharset(label)),
        }
    }
}

} // verus!
