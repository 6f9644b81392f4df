//! The survey of one package after another: what to request for a line of
//! input, and what the answer means for the count of missing packages.
//!
//! The survey itself sends nothing. For each line its caller asks
//! [`Survey::request`] what to fetch, fetches it, and hands what came back
//! to [`Survey::settle`].

use crate::client::scraped;
use crate::client::url_with_segments;
use crate::client::Answer;
use crate::client::AnswerView;
use crate::client::Client;
use crate::client::BASE_URL;
use crate::client::MAX_URL_CHARS;
use crate::client::success;
use crate::client::NOT_FOUND;
use crate::error::Error;
use crate::error::ErrorView;
use crate::table::Version;
use crate::table::VersionView;
use crate::text::lemma_split_at_first;
use crate::text::lemma_split_of_joined;
use crate::text::split_at_first;
use crate::text::split_once;
use vstd::prelude::*;

verus! {

/// The distribution in which a package is looked for.
pub const TARGET_DISTRIBUTION: &'static str = "Fedora Rawhide";

/// The first path segment of the page of the package `name`.
pub open spec fn primary_of(name: Seq<char>) -> Seq<char> {
    "rust-"@ + name
}

/// The second path segment of the page of the package `name`.
pub open spec fn secondary_of(name: Seq<char>) -> Seq<char> {
    primary_of(name) + "-devel"@
}

/// The two path segments below which the page of a package stands.
#[derive(Debug, PartialEq, Eq)]
pub struct FetchTarget {
    pub primary: String,
    pub secondary: String,
}

impl FetchTarget {
    /// The segments for the package `name`: `rust-` and the name, and the
    /// same again with `-devel` behind it.
    pub fn for_package(name: &str) -> (target: FetchTarget)
        ensures
            target.primary@ == primary_of(name@),
            target.secondary@ == secondary_of(name@),
    {
        let mut primary = "rust-".to_owned();
        primary.append(name);
        let mut secondary = primary.clone();
        secondary.append("-devel");
        FetchTarget { primary, secondary }
    }
}

/// Reads a line of input: the name of a package, one space, and its
/// version, which may hold further spaces. A line without a space has
/// nothing to read.
pub fn parse_line(line: &str) -> (pair: Option<(&str, &str)>)
    ensures
        pair.deep_view() == split_at_first(line@, ' '),
{
    split_once(line, ' ')
}

/// The records that are listed for `distribution`, character for
/// character, in their order.
pub open spec fn matching(records: Seq<VersionView>, distribution: Seq<char>) -> Seq<VersionView> {
    records.filter(|record: VersionView| record.distribution == distribution)
}

/// A record is kept if and only if its distribution is the one looked
/// for, character for character: neither another case nor a space more
/// will do.
pub proof fn lemma_matching_one(record: VersionView, distribution: Seq<char>)
    ensures
        matching(seq![record], distribution) == if record.distribution == distribution {
            seq![record]
        } else {
            Seq::<VersionView>::empty()
        },
{
    reveal_with_fuel(Seq::filter, 2);
}

/// What is kept of two runs of records, one after the other, is what is
/// kept of the first followed by what is kept of the second: order and
/// repetitions stay.
pub proof fn lemma_matching_concat(
    first: Seq<VersionView>,
    second: Seq<VersionView>,
    distribution: Seq<char>,
)
    ensures
        matching(first + second, distribution) == matching(first, distribution) + matching(
            second,
            distribution,
        ),
{
    Seq::filter_distributes_over_add(
        first,
        second,
        |record: VersionView| record.distribution == distribution,
    );
}

/// Keeps the records whose distribution is `distribution` exactly: case
/// counts, and so does every space.
pub fn keep_distribution(records: Vec<Version>, distribution: &str) -> (kept: Vec<Version>)
    ensures
        kept.deep_view() == matching(records.deep_view(), distribution@),
{
    let wanted = distribution.to_owned();
    let ghost all = records.deep_view();
    let mut kept: Vec<Version> = Vec::new();
    proof {
        reveal(Seq::filter);
    }
    for record in it: records
        invariant
            it.seq().len() == all.len(),
            forall|i: int| 0 <= i < all.len() ==> all[i] == (#[trigger] it.seq()[i]).deep_view(),
            wanted@ == distribution@,
            kept.deep_view() == matching(all.take(it.index() as int), distribution@),
    {
        proof {
            let seen = all.take(it.index() as int);
            assert(all.take(it.index() + 1) == seen + seq![record.deep_view()]);
            lemma_matching_concat(seen, seq![record.deep_view()], distribution@);
            lemma_matching_one(record.deep_view(), distribution@);
        }
        if record.distribution == wanted {
            kept.push(record);
        }
    }
    assert(all.take(all.len() as int) == all);
    kept
}

/// What to fetch for a line of input.
#[derive(Debug, PartialEq, Eq)]
pub struct Request {
    /// The name of the package, as the line gave it.
    pub package: String,
    /// The address of its page.
    pub url: String,
}

/// What the page of a package says of it.
#[derive(Debug, PartialEq, Eq)]
pub enum Outcome {
    /// No record is listed for the distribution.
    Missing,
    /// These records are: one at least.
    Found(Vec<Version>),
}

/// An [`Outcome`] with its records as values.
pub enum OutcomeView {
    Missing,
    Found(Seq<VersionView>),
}

impl DeepView for Outcome {
    type V = OutcomeView;

    open spec fn deep_view(&self) -> OutcomeView {
        match self {
            Outcome::Missing => OutcomeView::Missing,
            Outcome::Found(records) => OutcomeView::Found(records.deep_view()),
        }
    }
}

/// What to request for `line` from the site at `base`: nothing where the
/// line has no space; else the page of the package that it names, if the
/// base can take path segments. The name and the address make the
/// request.
pub open spec fn request_for(base: Seq<char>, line: Seq<char>) -> Result<
    Option<(Seq<char>, Seq<char>)>,
    ErrorView,
> {
    match split_at_first(line, ' ') {
        None => Ok(None),
        Some((name, version)) => match url_with_segments(
            base,
            primary_of(name),
            secondary_of(name),
        ) {
            Some(url) => Ok(Some((name, url))),
            None => Err(ErrorView::NotABase),
        },
    }
}

/// The view of what [`Survey::request`] returns.
pub open spec fn request_view(result: Result<Option<Request>, Error>) -> Result<
    Option<(Seq<char>, Seq<char>)>,
    ErrorView,
> {
    match result {
        Ok(Some(request)) => Ok(Some((request.package@, request.url@))),
        Ok(None) => Ok(None),
        Err(error) => Err(error.deep_view()),
    }
}

/// What an answer says of a package that is looked for in
/// `distribution`: missing where no record is listed for it, and else
/// found with the records that are.
pub open spec fn settled(distribution: Seq<char>, answer: AnswerView) -> Result<
    OutcomeView,
    ErrorView,
> {
    match scraped(answer) {
        Ok(records) => {
            let listed = matching(records, distribution);
            if listed.len() == 0 {
                Ok(OutcomeView::Missing)
            } else {
                Ok(OutcomeView::Found(listed))
            }
        },
        Err(error) => Err(error),
    }
}

/// The view of what [`Survey::settle`] returns.
pub open spec fn settle_view(result: Result<Outcome, Error>) -> Result<OutcomeView, ErrorView> {
    match result {
        Ok(outcome) => Ok(outcome.deep_view()),
        Err(error) => Err(error.deep_view()),
    }
}

/// A run over the lines of the input: the site, the distribution that is
/// looked for, and how many packages were missing so far.
pub struct Survey {
    pub client: Client,
    pub distribution: String,
    pub missing: u64,
}

impl Survey {
    /// The root and the two segments stay within [`MAX_URL_CHARS`], even
    /// if all of `line` were the name of the package.
    pub open spec fn fits(&self, line: Seq<char>) -> bool {
        self.client@.len() + primary_of(line).len() + secondary_of(line).len() <= MAX_URL_CHARS
    }

    /// `after` and `result` are what [`Survey::settle`] makes of `before`
    /// and of `answer`: the outcome is that of the answer, a missing
    /// package counts, and nothing else changes. An error leaves the count
    /// as it was.
    pub open spec fn settles(
        before: Survey,
        answer: AnswerView,
        after: Survey,
        result: Result<Outcome, Error>,
    ) -> bool {
        &&& settle_view(result) == settled(before.distribution@, answer)
        &&& after.client == before.client
        &&& after.distribution == before.distribution
        &&& after.missing == before.missing + (if result == Ok::<Outcome, Error>(Outcome::Missing) {
            1int
        } else {
            0int
        })
    }

    /// A survey that has seen no package yet.
    pub fn new(client: Client, distribution: String) -> (survey: Survey)
        ensures
            survey.client == client,
            survey.distribution == distribution,
            survey.missing == 0,
    {
        Survey { client, distribution, missing: 0 }
    }

    /// Whether `line` [`fits`](Survey::fits), and so can be handed to
    /// [`Survey::request`].
    pub fn line_fits(&self, line: &str) -> (yes: bool)
        ensures
            yes == self.fits(line@),
    {
        proof {
            reveal_strlit("rust-");
            reveal_strlit("-devel");
        }
        let base = self.client.url().unicode_len();
        let name = line.unicode_len();
        base <= MAX_URL_CHARS && name <= MAX_URL_CHARS && base + (5 + name) + (5 + name + 6)
            <= MAX_URL_CHARS
    }

    /// What to fetch for a line of input; `None` where the line has no
    /// space and is passed over. The version on the line is read and not
    /// used, and the count does not move.
    pub fn request(&self, line: &str) -> (result: Result<Option<Request>, Error>)
        requires
            self.fits(line@),
        ensures
            request_view(result) == request_for(self.client@, line@),
    {
        match parse_line(line) {
            None => Ok(None),
            Some((name, _version)) => {
                proof {
                    reveal_strlit("rust-");
                    reveal_strlit("-devel");
                    lemma_split_at_first(line@, ' ');
                }
                let target = FetchTarget::for_package(name);
                match self.client.page_url(target.primary.as_str(), target.secondary.as_str()) {
                    Ok(url) => Ok(Some(Request { package: name.to_owned(), url })),
                    Err(error) => Err(error),
                }
            },
        }
    }

    /// Takes the answer to the request for a package. A package with no
    /// record for the distribution is missing, and counted. An error ends
    /// the survey, and leaves the count alone.
    pub fn settle(&mut self, answer: Answer) -> (result: Result<Outcome, Error>)
        requires
            answer.readable(),
            old(self).missing < u64::MAX,
        ensures
            Survey::settles(*old(self), answer.deep_view(), *final(self), result),
    {
        match self.client.scrape(answer) {
            Err(error) => Err(error),
            Ok(records) => {
                let listed = keep_distribution(records, self.distribution.as_str());
                if listed.len() == 0 {
                    self.missing = self.missing + 1;
                    Ok(Outcome::Missing)
                } else {
                    Ok(Outcome::Found(listed))
                }
            },
        }
    }
}

impl Default for Survey {
    /// A survey of the site at [`BASE_URL`] that looks for
    /// [`TARGET_DISTRIBUTION`].
    fn default() -> (survey: Survey)
        ensures
            survey.client@ == BASE_URL@,
            survey.distribution@ == TARGET_DISTRIBUTION@,
            survey.missing == 0,
    {
        Survey::new(Client::default(), TARGET_DISTRIBUTION.to_owned())
    }
}

/// The version on a line has no say in what is requested: two lines that
/// name the same package ask for the same page.
pub proof fn lemma_version_not_used(
    base: Seq<char>,
    name: Seq<char>,
    version: Seq<char>,
    other: Seq<char>,
)
    requires
        !name.contains(' '),
    ensures
        request_for(base, name + seq![' '] + version) == request_for(
            base,
            name + seq![' '] + other,
        ),
{
    lemma_split_of_joined(name, ' ', version);
    lemma_split_of_joined(name, ' ', other);
}

/// A line without a space asks for nothing.
pub proof fn lemma_line_without_space_skipped(base: Seq<char>, line: Seq<char>)
    requires
        !line.contains(' '),
    ensures
        request_for(base, line) == Ok::<Option<(Seq<char>, Seq<char>)>, ErrorView>(None),
{
    lemma_split_at_first(line, ' ');
}

/// A package whose page the server does not have is missing, and counted
/// once, whatever text came with the answer.
pub proof fn lemma_not_found_is_missing(
    before: Survey,
    body: Seq<char>,
    after: Survey,
    result: Result<Outcome, Error>,
)
    requires
        Survey::settles(
            before,
            (AnswerView::Response { status: NOT_FOUND, body }),
            after,
            result,
        ),
    ensures
        result == Ok::<Outcome, Error>(Outcome::Missing),
        after.missing == before.missing + 1,
{
    reveal(Seq::filter);
}

/// A status that is neither a success nor "not found", such as 500, ends
/// the survey with an error that holds the status, and moves no count.
pub proof fn lemma_other_status_halts(
    before: Survey,
    status: u16,
    body: Seq<char>,
    after: Survey,
    result: Result<Outcome, Error>,
)
    requires
        status != NOT_FOUND,
        !success(status),
        Survey::settles(before, (AnswerView::Response { status, body }), after, result),
    ensures
        result == Err::<Outcome, Error>(Error::Http(status)),
        after.missing == before.missing,
{
}

/// Two surveys that stand alike make the same of the same line and of the
/// same answer: they request the same, come to the same outcome or the
/// same error, and count the same afterwards.
pub proof fn lemma_line_deterministic(
    one: Survey,
    other: Survey,
    line: Seq<char>,
    answer: AnswerView,
    one_request: Result<Option<Request>, Error>,
    other_request: Result<Option<Request>, Error>,
    one_after: Survey,
    one_result: Result<Outcome, Error>,
    other_after: Survey,
    other_result: Result<Outcome, Error>,
)
    requires
        one.client@ == other.client@,
        one.distribution@ == other.distribution@,
        one.missing == other.missing,
        request_view(one_request) == request_for(one.client@, line),
        request_view(other_request) == request_for(other.client@, line),
        Survey::settles(one, answer, one_after, one_result),
        Survey::settles(other, answer, other_after, other_result),
    ensures
        request_view(one_request) == request_view(other_request),
        settle_view(one_result) == settle_view(other_result),
        one_after.missing == other_after.missing,
{
}

} // verus!
