use vstd::prelude::*;

use crate::error::Error;

verus! {

/// The value of a `Link` header that asks a client to preload `file` as a
/// resource of kind `kind` (`style`, `script` or `image`).
pub open spec fn preload_value(file: Seq<char>, kind: Seq<char>) -> Seq<char> {
    "</"@ + file + ">; rel=preload; as="@ + kind
}

/// A character that may stand in an HTTP header value: a tab, or any
/// character from the space on but DEL.
pub open spec fn header_char(c: char) -> bool {
    c == '\t' || (' ' <= c && c != '\x7f')
}

/// Text that is a legal HTTP header value.
pub open spec fn is_header_text(s: Seq<char>) -> bool {
    forall|i: int| 0 <= i < s.len() ==> header_char(#[trigger] s[i])
}

/// Relies on `HeaderValue::from_str` of actix-web (the `http` crate), which
/// accepts a string exactly when each of its bytes is a tab, or at least 32
/// and not 127; a non-ASCII character is encoded in bytes of 128 and more.
#[verifier::external_body]
fn is_header_value(s: &str) -> (r: bool)
    ensures
        r == is_header_text(s@),
{
    actix_web::http::header::HeaderValue::from_str(s).is_ok()
}

/// The preload header value for `file_name` as a resource of kind
/// `as_type`, or an error where it is not a legal header value.
pub fn http_preload(file_name: &str, as_type: &str) -> (r: Result<String, Error>)
    ensures
        is_header_text(preload_value(file_name@, as_type@)) ==> (r matches Ok(v) && v@
            == preload_value(file_name@, as_type@)),
        !is_header_text(preload_value(file_name@, as_type@)) ==> r == Err::<String, Error>(
            Error::HeaderValue,
        ),
{
    let mut v = "</".to_owned();
    v.append(file_name);
    v.append(">; rel=preload; as=");
    v.append(as_type);
    if is_header_value(v.as_str()) {
        Ok(v)
    } else {
        Err(Error::HeaderValue)
    }
}

} // verus!
