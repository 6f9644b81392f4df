//! The package site: where the page of a package stands, and what an
//! answer of the server means.

use crate::error::Error;
use crate::error::ErrorView;
use crate::table::extract;
use crate::table::extracted;
use crate::table::extraction_view;
use crate::table::Version;
use crate::table::VersionView;
use crate::table::MAX_DOCUMENT_CHARS;
use url::Url;
use vstd::prelude::*;

verus! {

/// The root of the package pages.
pub const BASE_URL: &'static str = "https://packages.fedoraproject.org/pkgs";

/// The most characters that a base address and two path segments may have
/// together. Every character takes a dozen bytes at most in an address,
/// whose positions must fit in 32 bits.
pub const MAX_URL_CHARS: usize = 0x100_0000;

/// The status with which a server says that it has no such page.
pub const NOT_FOUND: u16 = 404;

/// `status` says that the request succeeded.
pub open spec fn success(status: u16) -> bool {
    200 <= status < 300
}

/// Whether `status` says that the request succeeded, so that the answer
/// has a page to read.
#[verifier::when_used_as_spec(success)]
pub fn is_success(status: u16) -> (yes: bool)
    ensures
        yes == success(status),
{
    200 <= status && status < 300
}

/// The address that `url::Url` makes of `base` with `primary` and then
/// `secondary` appended as path segments; `None` where `base` is no
/// address that can take path segments.
pub uninterp spec fn url_with_segments(
    base: Seq<char>,
    primary: Seq<char>,
    secondary: Seq<char>,
) -> Option<Seq<char>>;

/// Parses `base` with `url::Url::parse`, asks for its path with
/// `Url::path_segments_mut`, appends the two segments with
/// `PathSegmentsMut::push` and hands back the address as text. `None`
/// stands for a `base` that does not parse or that cannot be a base.
///
/// Not proved: that the result is a function of the three texts, named
/// [`url_with_segments`]. The bound keeps the address within the 32 bits
/// in which `url` counts its bytes.
#[verifier::external_body]
fn push_segments(base: &str, primary: &str, secondary: &str) -> (url: Option<String>)
    requires
        base@.len() + primary@.len() + secondary@.len() <= MAX_URL_CHARS,
    ensures
        url.deep_view() == url_with_segments(base@, primary@, secondary@),
{
    let mut url = Url::parse(base).ok()?;
    url.path_segments_mut().ok()?.push(primary).push(secondary);
    Some(String::from(url))
}

/// What came back for a request.
#[derive(Debug, PartialEq, Eq)]
pub enum Answer {
    /// Nothing: the request failed on its way, and this is what the
    /// transport said.
    Failed(String),
    /// An answer of the server, with its status and its text. The text
    /// counts only where the status is a success.
    Response { status: u16, body: String },
}

/// An [`Answer`] with its texts as sequences of characters.
pub enum AnswerView {
    Failed(Seq<char>),
    Response { status: u16, body: Seq<char> },
}

impl DeepView for Answer {
    type V = AnswerView;

    open spec fn deep_view(&self) -> AnswerView {
        match self {
            Answer::Failed(cause) => AnswerView::Failed(cause@),
            Answer::Response { status, body } => AnswerView::Response {
                status: *status,
                body: body@,
            },
        }
    }
}

impl Answer {
    /// The text of the answer, where there is one to parse, is short
    /// enough for the parser.
    pub open spec fn readable(&self) -> bool {
        match self {
            Answer::Failed(_) => true,
            Answer::Response { status, body } => success(*status) ==> body@.len()
                <= MAX_DOCUMENT_CHARS,
        }
    }

    /// Whether the answer is [`readable`](Answer::readable).
    pub fn is_readable(&self) -> (yes: bool)
        ensures
            yes == self.readable(),
    {
        match self {
            Answer::Failed(_) => true,
            Answer::Response { status, body } => !is_success(*status)
                || body.as_str().unicode_len() <= MAX_DOCUMENT_CHARS,
        }
    }
}

/// What an answer holds: the error of the transport where that failed; no
/// records where the server has no such page; an error for any other
/// status that is no success; and else the records of the version table.
pub open spec fn scraped(answer: AnswerView) -> Result<Seq<VersionView>, ErrorView> {
    match answer {
        AnswerView::Failed(cause) => Err(ErrorView::Transport(cause)),
        AnswerView::Response { status, body } => if status == NOT_FOUND {
            Ok(Seq::empty())
        } else if !success(status) {
            Err(ErrorView::Http(status))
        } else {
            extracted(body)
        },
    }
}

/// The package site, known by the address of its root.
pub struct Client {
    url: String,
}

impl View for Client {
    type V = Seq<char>;

    closed spec fn view(&self) -> Seq<char> {
        self.url@
    }
}

impl Client {
    /// A client for the site whose pages stand below `url`.
    pub fn new(url: String) -> (client: Client)
        ensures
            client@ == url@,
    {
        Client { url }
    }

    /// The address of the page at `primary` and `secondary` below the
    /// root: the two are appended, in that order, as path segments.
    /// A root that cannot take path segments gives `NotABase`.
    pub fn page_url(&self, primary: &str, secondary: &str) -> (result: Result<String, Error>)
        requires
            self@.len() + primary@.len() + secondary@.len() <= MAX_URL_CHARS,
        ensures
            match result {
                Ok(url) => url_with_segments(self@, primary@, secondary@) == Some(url@),
                Err(error) => error == Error::NotABase && url_with_segments(
                    self@,
                    primary@,
                    secondary@,
                ) is None,
            },
    {
        match push_segments(self.url.as_str(), primary, secondary) {
            Some(url) => Ok(url),
            None => Err(Error::NotABase),
        }
    }

    /// Reads the answer to the request for a page.
    ///
    /// A page that the server does not have holds no records, whatever
    /// came as its text. A failed request and any other status that is no
    /// success are errors.
    pub fn scrape(&self, answer: Answer) -> (result: Result<Vec<Version>, Error>)
        requires
            answer.readable(),
        ensures
            extraction_view(result) == scraped(answer.deep_view()),
            (answer matches Answer::Response { status, .. } && status == NOT_FOUND) ==> (result matches Ok(
                records,
            ) && records.len() == 0),
    {
        match answer {
            Answer::Failed(cause) => Err(Error::Transport(cause)),
            Answer::Response { status, body } => {
                if status == NOT_FOUND {
                    let none: Vec<Version> = Vec::new();
                    assert(none.deep_view() == Seq::<VersionView>::empty());
                    Ok(none)
                } else if !is_success(status) {
                    Err(Error::Http(status))
                } else {
                    extract(body.as_str())
                }
            },
        }
    }

    /// The address of the root, as the client was given it.
    pub fn url(&self) -> (url: &str)
        ensures
            url@ == self@,
    {
        self.url.as_str()
    }
}

/// A page that the server does not have holds no records, and is no
/// error, whatever text came with the answer.
pub proof fn lemma_not_found_is_empty(body: Seq<char>)
    ensures
        scraped((AnswerView::Response { status: NOT_FOUND, body })) == Ok::<
            Seq<VersionView>,
            ErrorView,
        >(Seq::empty()),
{
}

/// A status that is neither a success nor "not found", such as 500, is
/// an error that holds the status, whatever text came with the answer.
pub proof fn lemma_other_status_is_error(status: u16, body: Seq<char>)
    requires
        status != NOT_FOUND,
        !success(status),
    ensures
        scraped((AnswerView::Response { status, body })) == Err::<Seq<VersionView>, ErrorView>(
            ErrorView::Http(status),
        ),
{
}

impl Default for Client {
    /// The client for [`BASE_URL`].
    fn default() -> (client: Client)
        ensures
            client@ == BASE_URL@,
    {
        Client::new(BASE_URL.to_owned())
    }
}

} // verus!
