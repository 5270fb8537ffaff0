//! Requests to the identity provider, as values: what is to be sent, not the
//! sending of it.

use vstd::prelude::*;

verus! {

/// The method of a request.
#[derive(Debug, Clone, Copy, PartialEq, Eq, Structural)]
pub enum Method {
    Get,
    Post,
    Delete,
}

/// One request to the identity provider.
#[derive(Debug)]
pub struct Request {
    pub method: Method,
    /// The address the request goes to.
    pub url: String,
    /// The header lines, each a name and a value.
    pub headers: Vec<(String, String)>,
    /// The members of the JSON object that is sent as the body, each a name
    /// and a text; `None` where the request has no body.
    pub json: Option<Vec<(String, String)>>,
}

/// The mathematical value of a [`Request`].
pub struct RequestView {
    pub method: Method,
    pub url: Seq<char>,
    pub headers: Seq<(Seq<char>, Seq<char>)>,
    pub json: Option<Seq<(Seq<char>, Seq<char>)>>,
}

/// The characters of each text of a sequence of pairs.
pub open spec fn pair_views(pairs: Seq<(String, String)>) -> Seq<(Seq<char>, Seq<char>)> {
    pairs.map_values(|pair: (String, String)| (pair.0@, pair.1@))
}

impl View for Request {
    type V = RequestView;

    open spec fn view(&self) -> RequestView {
        RequestView {
            method: self.method,
            url: self.url@,
            headers: pair_views(self.headers@),
            json: match self.json {
                Some(members) => Some(pair_views(members@)),
                None => None,
            },
        }
    }
}

/// Whether an answer with the status code `status` reports success: the
/// codes from 200 to 299 do, every other code reports a failure.
pub fn is_success(status: u16) -> (success: bool)
    ensures
        success == (200 <= status <= 299),
{
    200 <= status && status <= 299
}

/// The text made of `a`, `b` and `c`, one after the other.
pub(crate) fn join3(a: &str, b: &str, c: &str) -> (text: String)
    ensures
        text@ == a@ + b@ + c@,
{
    let mut text = a.to_owned();
    text.append(b);
    text.append(c);
    text
}

/// A pair of owned texts.
pub(crate) fn pair(name: &str, value: &str) -> (made: (String, String))
    ensures
        made.0@ == name@,
        made.1@ == value@,
{
    (name.to_owned(), value.to_owned())
}

} // verus!
