//! Reading the address of a request: the path and the query parameters of
//! its URL, as the `url` crate parses them. The crate is reached through
//! `worker`, which hands its `Url` on under its own name.

use vstd::prelude::*;
use crate::dispatch::dispatch;
use crate::dispatch::reply_to;
use crate::dispatch::IncomingRequest;
use crate::dispatch::Method;
use crate::dispatch::Reply;
use crate::dispatch::RequestValues;

verus! {

/// The error of the `url` crate's parser. Nothing is known of a value of it.
#[verifier::external_type_specification]
#[verifier::external_body]
pub struct ExParseError(worker::url::ParseError);

/// Whether `Url::parse` accepts `text` as an absolute URL.
pub uninterp spec fn url_parses(text: Seq<char>) -> bool;

/// What `Url::path` gives for the URL that `Url::parse` makes of `text`: the
/// path, still percent-encoded.
pub uninterp spec fn url_path(text: Seq<char>) -> Seq<char>;

/// What `Url::query_pairs` gives for the URL that `Url::parse` makes of
/// `text`: the names and values of the query, percent-decoded, in order.
pub uninterp spec fn url_query_pairs(text: Seq<char>) -> Seq<(Seq<char>, Seq<char>)>;

/// `Url::parse` of the `url` crate, and of the URL that it gives `Url::path`
/// and `Url::query_pairs`, each copied into a value of its own. Taken on
/// trust: the three are functions of the text alone, so that the outcome is
/// the one that `url_parses`, `url_path` and `url_query_pairs` name. Nothing
/// is claimed of what path or which parameters a given text has.
#[verifier::external_body]
fn parse_url(text: &str) -> (parts: Result<(String, Vec<(String, String)>), worker::url::ParseError>)
    ensures
        parts is Ok <==> url_parses(text@),
        parts matches Ok(p) ==> p.0@ == url_path(text@) && p.1.deep_view() == url_query_pairs(
            text@,
        ),
{
    match worker::Url::parse(text) {
        Ok(url) => Ok((url.path().to_owned(), url.query_pairs().into_owned().collect())),
        Err(e) => Err(e),
    }
}

/// Why a request could not be read.
#[derive(Clone, Copy, Debug, PartialEq, Eq, Structural)]
pub enum RequestError {
    /// The address is not an absolute URL.
    InvalidUrl,
}

/// Reads a request from its method and its URL.
pub fn read_request(method: Method, url: &str) -> (request: Result<IncomingRequest, RequestError>)
    ensures
        request is Ok <==> url_parses(url@),
        request matches Ok(r) ==> r@ == (RequestValues {
            method,
            path: url_path(url@),
            query: url_query_pairs(url@),
        }),
        request matches Err(e) ==> e == RequestError::InvalidUrl,
{
    match parse_url(url) {
        Ok(parts) => {
            let (path, query) = parts;
            Ok(IncomingRequest { method, path, query })
        },
        Err(_) => Err(RequestError::InvalidUrl),
    }
}

/// Answers the request with the given method and URL.
pub fn dispatch_url(method: Method, url: &str) -> (reply: Result<Reply, RequestError>)
    ensures
        reply is Ok <==> url_parses(url@),
        reply matches Ok(r) ==> r@ == reply_to(
            RequestValues { method, path: url_path(url@), query: url_query_pairs(url@) },
        ),
        reply matches Err(e) ==> e == RequestError::InvalidUrl,
{
    match read_request(method, url) {
        Ok(request) => Ok(dispatch(&request)),
        Err(e) => Err(e),
    }
}

} // verus!
