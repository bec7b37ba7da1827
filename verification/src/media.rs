//! Media types of image formats, as registered for file extensions.

use vstd::prelude::*;

verus! {

/// The media type registered for a file extension, written as the value of a
/// `Content-Type` header; `None` for an extension that has no registration.
/// The registry is the table of known extensions of `rocket`'s `ContentType`.
pub uninterp spec fn media_type_of_extension(extension: Seq<char>) -> Option<Seq<char>>;

/// Calls `rocket::http::ContentType::from_extension` and writes the content
/// type it finds as text. Trusted: the result is the registered media type of
/// `extension`, and `None` exactly where the extension has none. The lookup is
/// a fixed table, so equal extensions give equal results.
#[verifier::external_body]
fn lookup_media_type(extension: &str) -> (media_type: Option<String>)
    ensures
        match media_type {
            Some(text) => media_type_of_extension(extension@) == Some(text@),
            None => media_type_of_extension(extension@) is None,
        },
{
    rocket::http::ContentType::from_extension(extension).map(|content_type| content_type.to_string())
}

/// The media type registered for a file extension, if it has one.
pub fn media_type(extension: &str) -> (media_type: Option<String>)
    ensures
        match media_type {
            Some(text) => media_type_of_extension(extension@) == Some(text@),
            None => media_type_of_extension(extension@) is None,
        },
{
    lookup_media_type(extension)
}

} // verus!
