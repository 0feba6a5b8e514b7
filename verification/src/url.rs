//! The engine's read-only picture of a parsed absolute URL: its scheme, host,
//! path segments, decoded query pairs, fragment, and the full serialization
//! that a rendered link reproduces verbatim.

use vstd::prelude::*;

verus! {

/// A parsed URL, held as plain values. The engine never mutates one.
pub struct Url {
    /// The scheme, without the `://` separator (for example `https`).
    pub scheme: String,
    /// The host, if the URL has one.
    pub host: Option<String>,
    /// The path split at `/`, without the leading slash. A trailing slash
    /// contributes a final empty segment.
    pub path_segments: Vec<String>,
    /// The query key/value pairs, in order, percent-decoded.
    pub query_pairs: Vec<(String, String)>,
    /// The fragment, without the leading `#`, if present.
    pub fragment: Option<String>,
    /// The URL's full serialization, reproduced verbatim inside a rendered
    /// link.
    pub text: String,
}

/// The mathematical value of a [`Url`]: every field as a character sequence.
pub struct UrlView {
    pub scheme: Seq<char>,
    pub host: Option<Seq<char>>,
    pub path_segments: Seq<Seq<char>>,
    pub query_pairs: Seq<(Seq<char>, Seq<char>)>,
    pub fragment: Option<Seq<char>>,
    pub text: Seq<char>,
}

impl View for Url {
    type V = UrlView;

    open spec fn view(&self) -> UrlView {
        UrlView {
            scheme: self.scheme@,
            host: self.host.deep_view(),
            path_segments: self.path_segments.deep_view(),
            query_pairs: self.query_pairs.deep_view(),
            fragment: self.fragment.deep_view(),
            text: self.text@,
        }
    }
}

} // verus!
