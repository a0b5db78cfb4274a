//! From a request to a reply: the preflight answer, the two card routes and
//! the answer to every other path.

use vstd::prelude::*;
use vstd::string::StringExecFns;
use crate::card::rendering;
use crate::card::CardTemplate;
use crate::card::CardValues;
use crate::card::DocumentValues;
use crate::card::RenderedDocument;
use crate::strings::replace_char;
use crate::strings::replaced;
use crate::strings::starts_with;
use crate::strings::strip_prefix;

verus! {

/// The path prefix of the baby-name route; the slug follows it.
pub const NAME_ROUTE: &'static str = "/baby-name/";

/// The path prefix of the word route; an identifier follows it.
pub const WORD_ROUTE: &'static str = "/word/";

/// The body of the reply to an unknown path.
pub const NOT_FOUND_BODY: &'static str = "Not found";

/// The status of a reply that went well.
pub const STATUS_OK: u16 = 200;

/// The status of the reply to an unknown path.
pub const STATUS_NOT_FOUND: u16 = 404;

/// The method of a request, as far as the dispatch tells methods apart.
#[derive(Clone, Copy, Debug, PartialEq, Eq, Structural)]
pub enum Method {
    Get,
    Options,
    Other,
}

/// A request: its method, its path, and its query parameters in the order
/// in which they came. A key may come more than once.
#[derive(Clone, Debug, PartialEq, Eq)]
pub struct IncomingRequest {
    pub method: Method,
    pub path: String,
    pub query: Vec<(String, String)>,
}

/// The values of an `IncomingRequest`.
pub struct RequestValues {
    pub method: Method,
    pub path: Seq<char>,
    pub query: Seq<(Seq<char>, Seq<char>)>,
}

impl View for IncomingRequest {
    type V = RequestValues;

    open spec fn view(&self) -> RequestValues {
        RequestValues { method: self.method, path: self.path@, query: self.query.deep_view() }
    }
}

/// The value of the parameter `key`: that of its last occurrence, and the
/// empty text if there is none.
pub open spec fn param(query: Seq<(Seq<char>, Seq<char>)>, key: Seq<char>) -> Seq<char>
    decreases query.len(),
{
    if query.len() == 0 {
        Seq::empty()
    } else if query.last().0 == key {
        query.last().1
    } else {
        param(query.drop_last(), key)
    }
}

/// The name that a slug stands for: the slug with a space for every hyphen.
pub open spec fn slug_name(slug: Seq<char>) -> Seq<char> {
    replaced(slug, '-', seq![' '])
}

/// The card that a path and a query ask for, if the path is one of the two
/// routes. The name of a baby-name card is the parameter `name`, and the
/// name of the slug where that is empty.
pub open spec fn route(path: Seq<char>, query: Seq<(Seq<char>, Seq<char>)>) -> Option<
    CardValues,
> {
    if starts_with(path, NAME_ROUTE@) {
        let slug = path.skip(NAME_ROUTE@.len() as int);
        let given = param(query, "name"@);
        Some(
            CardValues::BabyName {
                name: if given.len() == 0 {
                    slug_name(slug)
                } else {
                    given
                },
                pronunciation: param(query, "pronunciation"@),
                meaning: param(query, "meaning"@),
                story: param(query, "story"@),
                gender: param(query, "gender"@),
            },
        )
    } else if starts_with(path, WORD_ROUTE@) {
        Some(
            CardValues::WordOfDay {
                sanskrit: param(query, "sanskrit"@),
                transliteration: param(query, "transliteration"@),
                meaning: param(query, "meaning"@),
            },
        )
    } else {
        None
    }
}

/// The last occurrence of a key decides: the parameter has the value that
/// stands at `i` if the key stands there and nowhere behind, and is empty if
/// the key stands nowhere.
pub proof fn lemma_param_is_last(query: Seq<(Seq<char>, Seq<char>)>, key: Seq<char>, i: int)
    requires
        forall|j: int| 0 <= j < query.len() && i < j ==> (#[trigger] query[j]).0 != key,
    ensures
        0 <= i < query.len() && query[i].0 == key ==> param(query, key) == query[i].1,
        i < 0 ==> param(query, key) == Seq::<char>::empty(),
    decreases query.len(),
{
    if query.len() > 0 && i < query.len() - 1 {
        lemma_param_is_last(query.drop_last(), key, i);
    }
}

/// The value of the parameter `key` in `query`.
pub fn query_value(query: &Vec<(String, String)>, key: &str) -> (value: String)
    ensures
        value@ == param(query.deep_view(), key@),
{
    let wanted = String::from_str(key);
    let mut value = String::new();
    let ghost all = query.deep_view();
    for i in 0..query.len()
        invariant
            all == query.deep_view(),
            wanted@ == key@,
            value@ == param(all.take(i as int), key@),
    {
        proof {
            assert(all.take(i + 1).drop_last() =~= all.take(i as int));
        }
        if query[i].0 == wanted {
            value = query[i].1.clone();
        }
    }
    proof {
        assert(all.take(query.len() as int) =~= all);
    }
    value
}

/// Picks the card that a path and a query ask for.
pub fn select_card(path: &str, query: &Vec<(String, String)>) -> (card: Option<CardTemplate>)
    ensures
        match card {
            Some(c) => route(path@, query.deep_view()) == Some(c@),
            None => route(path@, query.deep_view()) is None,
        },
{
    match strip_prefix(path, NAME_ROUTE) {
        Some(slug) => {
            let given = query_value(query, "name");
            let name = if given.as_str().is_empty() {
                replace_char(slug.as_str(), '-', ' ')
            } else {
                given
            };
            Some(
                CardTemplate::BabyName {
                    name,
                    pronunciation: query_value(query, "pronunciation"),
                    meaning: query_value(query, "meaning"),
                    story: query_value(query, "story"),
                    gender: query_value(query, "gender"),
                },
            )
        },
        None => match strip_prefix(path, WORD_ROUTE) {
            Some(_id) => Some(
                CardTemplate::WordOfDay {
                    sanskrit: query_value(query, "sanskrit"),
                    transliteration: query_value(query, "transliteration"),
                    meaning: query_value(query, "meaning"),
                },
            ),
            None => None,
        },
    }
}

/// What is sent back: the answer to a preflight, a rendered card, or the
/// answer to an unknown path.
#[derive(Clone, Debug, PartialEq, Eq)]
pub enum Reply {
    Preflight,
    Card(RenderedDocument),
    NotFound,
}

/// The values of a `Reply`.
pub enum ReplyValues {
    Preflight,
    Card(DocumentValues),
    NotFound,
}

impl View for Reply {
    type V = ReplyValues;

    open spec fn view(&self) -> ReplyValues {
        match self {
            Reply::Preflight => ReplyValues::Preflight,
            Reply::Card(doc) => ReplyValues::Card(doc@),
            Reply::NotFound => ReplyValues::NotFound,
        }
    }
}

/// The reply to a request. The method `OPTIONS` gets the preflight answer
/// whatever the path; any other method gets the card of its path, or the
/// answer to an unknown path.
pub open spec fn reply_to(request: RequestValues) -> ReplyValues {
    if request.method == Method::Options {
        ReplyValues::Preflight
    } else {
        match route(request.path, request.query) {
            Some(card) => ReplyValues::Card(rendering(card)),
            None => ReplyValues::NotFound,
        }
    }
}

/// On the way to a card the method is not looked at: whatever is not
/// `OPTIONS` is answered as `GET` is.
pub proof fn lemma_method_is_not_checked(request: RequestValues)
    requires
        request.method != Method::Options,
    ensures
        reply_to(request) == reply_to(
            RequestValues { method: Method::Get, path: request.path, query: request.query },
        ),
{
}

/// A reply has status 404 where the method is not `OPTIONS` and the path is
/// neither route, and status 200 everywhere else.
pub proof fn lemma_reply_status(request: RequestValues)
    ensures
        reply_status(reply_to(request)) == if request.method != Method::Options && route(
            request.path,
            request.query,
        ) is None {
            404u16
        } else {
            200u16
        },
{
}

/// Answers a request.
pub fn dispatch(request: &IncomingRequest) -> (reply: Reply)
    ensures
        reply@ == reply_to(request@),
{
    match request.method {
        Method::Options => Reply::Preflight,
        _ => match select_card(request.path.as_str(), &request.query) {
            Some(card) => Reply::Card(card.render()),
            None => Reply::NotFound,
        },
    }
}

/// Name of the header that says who may read a reply.
pub const ALLOW_ORIGIN: &'static str = "Access-Control-Allow-Origin";

/// Name of the header that says which methods are allowed.
pub const ALLOW_METHODS: &'static str = "Access-Control-Allow-Methods";

/// Name of the header that says which request headers are allowed.
pub const ALLOW_HEADERS: &'static str = "Access-Control-Allow-Headers";

/// Who may read a reply: anyone.
pub const ANY_ORIGIN: &'static str = "*";

/// The methods that are allowed.
pub const ALLOWED_METHODS: &'static str = "GET, OPTIONS";

/// The request headers that are allowed.
pub const ALLOWED_HEADERS: &'static str = "Content-Type";

/// Name of the header that gives the content type.
pub const CONTENT_TYPE_HEADER: &'static str = "Content-Type";

/// Name of the header that says how long a reply may be kept.
pub const CACHE_CONTROL_HEADER: &'static str = "Cache-Control";

/// The three headers that open a reply to other origins.
pub open spec fn cors_headers() -> Seq<(Seq<char>, Seq<char>)> {
    seq![
        (ALLOW_ORIGIN@, ANY_ORIGIN@),
        (ALLOW_METHODS@, ALLOWED_METHODS@),
        (ALLOW_HEADERS@, ALLOWED_HEADERS@),
    ]
}

/// The status of a reply.
pub open spec fn reply_status(reply: ReplyValues) -> u16 {
    match reply {
        ReplyValues::Preflight => STATUS_OK,
        ReplyValues::Card(_) => STATUS_OK,
        ReplyValues::NotFound => STATUS_NOT_FOUND,
    }
}

/// The headers of a reply, in the order in which they are set. The reply to
/// an unknown path has none.
pub open spec fn reply_headers(reply: ReplyValues) -> Seq<(Seq<char>, Seq<char>)> {
    match reply {
        ReplyValues::Preflight => cors_headers(),
        ReplyValues::Card(doc) => seq![
            (CONTENT_TYPE_HEADER@, doc.content_type),
            (CACHE_CONTROL_HEADER@, doc.cache_control),
        ] + cors_headers(),
        ReplyValues::NotFound => Seq::empty(),
    }
}

/// The body of a reply.
pub open spec fn reply_body(reply: ReplyValues) -> Seq<char> {
    match reply {
        ReplyValues::Preflight => Seq::empty(),
        ReplyValues::Card(doc) => doc.markup,
        ReplyValues::NotFound => NOT_FOUND_BODY@,
    }
}

/// Appends the three headers that open a reply to other origins.
fn push_cors_headers(headers: &mut Vec<(String, String)>)
    ensures
        final(headers).deep_view() == old(headers).deep_view() + cors_headers(),
{
    headers.push((String::from_str(ALLOW_ORIGIN), String::from_str(ANY_ORIGIN)));
    headers.push((String::from_str(ALLOW_METHODS), String::from_str(ALLOWED_METHODS)));
    headers.push((String::from_str(ALLOW_HEADERS), String::from_str(ALLOWED_HEADERS)));
}

impl Reply {
    /// The status of the reply.
    pub fn status(&self) -> (code: u16)
        ensures
            code == reply_status(self@),
    {
        match self {
            Reply::Preflight => STATUS_OK,
            Reply::Card(_) => STATUS_OK,
            Reply::NotFound => STATUS_NOT_FOUND,
        }
    }

    /// The headers of the reply, in the order in which they are to be set.
    pub fn headers(&self) -> (headers: Vec<(String, String)>)
        ensures
            headers.deep_view() == reply_headers(self@),
    {
        let mut headers: Vec<(String, String)> = Vec::new();
        match self {
            Reply::Preflight => {
                push_cors_headers(&mut headers);
            },
            Reply::Card(doc) => {
                headers.push(
                    (String::from_str(CONTENT_TYPE_HEADER), String::from_str(doc.content_type())),
                );
                headers.push(
                    (
                        String::from_str(CACHE_CONTROL_HEADER),
                        String::from_str(doc.cache_control()),
                    ),
                );
                push_cors_headers(&mut headers);
            },
            Reply::NotFound => {},
        }
        headers
    }

    /// The body of the reply.
    pub fn body(&self) -> (text: &str)
        ensures
            text@ == reply_body(self@),
    {
        proof {
            reveal_strlit("");
        }
        match self {
            Reply::Preflight => "",
            Reply::Card(doc) => doc.markup(),
            Reply::NotFound => NOT_FOUND_BODY,
        }
    }
}

} // verus!
