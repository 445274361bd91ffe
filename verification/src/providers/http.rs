//! HTTP requests as plain data.
use crate::json::{Json, JsonView};
use vstd::prelude::*;

verus! {

/// A POST request with a bearer token and a JSON body.
#[derive(Debug)]
pub struct HttpRequest {
    pub url: String,
    pub bearer: String,
    pub headers: Vec<(String, String)>,
    pub body: Json,
}

/// What an [`HttpRequest`] stands for.
#[verifier::ext_equal]
pub struct HttpRequestView {
    pub url: Seq<char>,
    pub bearer: Seq<char>,
    pub headers: Seq<(Seq<char>, Seq<char>)>,
    pub body: JsonView,
}

/// The characters of header names and values.
pub open spec fn headers_view(headers: Seq<(String, String)>) -> Seq<(Seq<char>, Seq<char>)> {
    Seq::new(headers.len(), |i: int| (headers[i].0@, headers[i].1@))
}

impl View for HttpRequest {
    type V = HttpRequestView;

    open spec fn view(&self) -> HttpRequestView {
        HttpRequestView {
            url: self.url@,
            bearer: self.bearer@,
            headers: headers_view(self.headers@),
            body: self.body@,
        }
    }
}

/// Adds one header.
pub fn push_header(headers: &mut Vec<(String, String)>, name: &str, value: &str)
    ensures
        headers_view(final(headers)@) == headers_view(old(headers)@).push((name@, value@)),
{
    headers.push((name.to_owned(), value.to_owned()));
    assert(headers_view(headers@) =~= headers_view(old(headers)@).push((name@, value@)));
}

/// Quotes a text as std's `Debug` does.
pub uninterp spec fn quoted(text: Seq<char>) -> Seq<char>;

/// `{:?}` of std on a string slice: the text depends on the slice alone, and
/// is named by [`quoted`].
#[verifier::external_body]
pub(crate) fn quote(text: &str) -> (r: String)
    ensures
        r@ == quoted(text@),
{
    format!("{:?}", text)
}

} // verus!
