//! From the bytes of a feed document to articles.

use crate::model::{Article, ArticleView, PublishTime};
use crate::nesting::{nesting_is_within, nesting_within};
use vstd::prelude::*;

verus! {

/// The most entries that one feed document contributes to a refresh.
pub const MAX_ENTRIES_PER_FEED: usize = 50;

/// The most elements that may be open at one place of a feed document. A
/// document that nests deeper is no feed document to this library.
pub const MAX_NESTING: usize = 128;

/// Stands in for the title of an entry that has none.
pub const MISSING_TITLE: &'static str = "タイトルなし";

/// Stands in for the description of an entry that has none.
pub const MISSING_DESCRIPTION: &'static str = "説明なし";

/// Stands in for the link of an entry that has none. Every such entry gets
/// this one link, so they share their read state.
pub const MISSING_LINK: &'static str = "リンクなし";

/// The bytes did not hold a feed document.
#[derive(Clone, Copy, Debug, PartialEq, Eq, Structural)]
pub struct ParseFailure;

/// One entry of a feed document as it was written: each field is present or
/// not, and the date is still text.
#[derive(Debug, PartialEq, Eq)]
pub struct RawEntry {
    pub title: Option<String>,
    pub description: Option<String>,
    pub link: Option<String>,
    pub pub_date: Option<String>,
}

/// What a [`RawEntry`] is to a contract.
pub struct RawEntryView {
    pub title: Option<Seq<char>>,
    pub description: Option<Seq<char>>,
    pub link: Option<Seq<char>>,
    pub pub_date: Option<Seq<char>>,
}

impl View for RawEntry {
    type V = RawEntryView;

    open spec fn view(&self) -> RawEntryView {
        RawEntryView {
            title: self.title.deep_view(),
            description: self.description.deep_view(),
            link: self.link.deep_view(),
            pub_date: self.pub_date.deep_view(),
        }
    }
}

impl DeepView for RawEntry {
    type V = RawEntryView;

    open spec fn deep_view(&self) -> RawEntryView {
        self@
    }
}

#[verifier::external_type_specification]
#[verifier::external_body]
pub struct ExRssError(rss::Error);

#[verifier::external_type_specification]
#[verifier::external_body]
pub struct ExChronoParseError(chrono::ParseError);

/// The entries that `rss::Channel::read_from` finds in a document, in
/// document order, or `None` where it rejects the document.
pub uninterp spec fn rss_entries(bytes: Seq<u8>) -> Option<Seq<RawEntryView>>;

/// The instant that `chrono::DateTime::parse_from_rfc2822` reads from a
/// date, as seconds since the Unix epoch and nanoseconds into the second, or
/// `None` where it rejects the text.
pub uninterp spec fn rfc2822_instant(text: Seq<char>) -> Option<(i64, u32)>;

/// Calls `rss::Channel::read_from` on the bytes and copies out, for each item
/// of `Channel::items`, what `Item::title`, `Item::description`, `Item::link`
/// and `Item::pub_date` return. Trusted: whether the document is accepted
/// and which entries it holds depend on the bytes alone. The reader calls
/// itself once for each level of nested extension elements and has no limit
/// of its own, so it is handed only documents whose elements nest at most
/// [`MAX_NESTING`] deep. The depth is counted by the pass of
/// `nesting_within`, which splits the bytes into tags, comments, CDATA
/// sections, processing instructions and document type declarations where
/// the reader's tokenizer, `quick_xml::Reader`, splits them when it is
/// handed the whole document as one slice, as it is here.
#[verifier::external_body]
fn read_channel(bytes: &[u8]) -> (outcome: Result<Vec<RawEntry>, rss::Error>)
    requires
        nesting_within(bytes@, MAX_NESTING as nat),
    ensures
        outcome is Ok <==> rss_entries(bytes@) is Some,
        outcome is Ok ==> Some(outcome->Ok_0.deep_view()) == rss_entries(bytes@),
{
    let channel = rss::Channel::read_from(bytes)?;
    Ok(
        channel.items().iter().map(
            |item|
                RawEntry {
                    title: item.title().map(String::from),
                    description: item.description().map(String::from),
                    link: item.link().map(String::from),
                    pub_date: item.pub_date().map(String::from),
                },
        ).collect(),
    )
}

/// Calls `chrono::DateTime::parse_from_rfc2822` and reads the instant off
/// the result with `DateTime::timestamp` and
/// `DateTime::timestamp_subsec_nanos`. Trusted: whether the text is accepted
/// and which instant it names depend on the text alone.
#[verifier::external_body]
fn parse_rfc2822(text: &str) -> (outcome: Result<PublishTime, chrono::ParseError>)
    ensures
        outcome is Ok <==> rfc2822_instant(text@) is Some,
        outcome is Ok ==> Some((outcome->Ok_0.seconds, outcome->Ok_0.nanos)) == rfc2822_instant(
            text@,
        ),
{
    chrono::DateTime::parse_from_rfc2822(text).map(
        |instant|
            PublishTime { seconds: instant.timestamp(), nanos: instant.timestamp_subsec_nanos() },
    )
}

/// The publish time that a date text stands for; unknown where the text is
/// no RFC 2822 date.
pub open spec fn publish_time_of(text: Seq<char>) -> Option<PublishTime> {
    match rfc2822_instant(text) {
        Some((seconds, nanos)) => Some(PublishTime { seconds, nanos }),
        None => None,
    }
}

/// The publish time of an entry: unknown where the entry has no date or the
/// date does not parse.
pub open spec fn entry_publish_time(entry: RawEntryView) -> Option<PublishTime> {
    match entry.pub_date {
        Some(text) => publish_time_of(text),
        None => None,
    }
}

/// The article that an entry becomes, given its publish time and the name of
/// the feed it came from: each missing text gives way to its placeholder.
pub open spec fn article_with_time(
    entry: RawEntryView,
    published_at: Option<PublishTime>,
    source_name: Seq<char>,
) -> ArticleView {
    ArticleView {
        title: match entry.title {
            Some(text) => text,
            None => MISSING_TITLE@,
        },
        description: match entry.description {
            Some(text) => text,
            None => MISSING_DESCRIPTION@,
        },
        link: match entry.link {
            Some(text) => text,
            None => MISSING_LINK@,
        },
        published_at,
        source_name,
    }
}

/// The article that an entry of the feed named `source_name` becomes.
pub open spec fn article_of(entry: RawEntryView, source_name: Seq<char>) -> ArticleView {
    article_with_time(entry, entry_publish_time(entry), source_name)
}

/// The articles that a document's entries become: the first
/// [`MAX_ENTRIES_PER_FEED`] of them, in document order.
pub open spec fn articles_of(entries: Seq<RawEntryView>, source_name: Seq<char>) -> Seq<
    ArticleView,
> {
    Seq::new(
        if entries.len() <= MAX_ENTRIES_PER_FEED {
            entries.len()
        } else {
            MAX_ENTRIES_PER_FEED as nat
        },
        |i: int| article_of(entries[i], source_name),
    )
}

/// The articles that a feed document yields for the feed named
/// `source_name`, or `None` where the bytes are no feed document: where
/// their elements nest deeper than [`MAX_NESTING`], or the reader rejects
/// them. These are the only two causes.
pub open spec fn parsed(bytes: Seq<u8>, source_name: Seq<char>) -> Option<Seq<ArticleView>> {
    if nesting_within(bytes, MAX_NESTING as nat) {
        match rss_entries(bytes) {
            Some(entries) => Some(articles_of(entries, source_name)),
            None => None,
        }
    } else {
        None
    }
}

fn text_or(text: &Option<String>, placeholder: &str) -> (chosen: String)
    ensures
        chosen@ == match text.deep_view() {
            Some(given) => given,
            None => placeholder@,
        },
{
    match text {
        Some(given) => given.clone(),
        None => placeholder.to_owned(),
    }
}

/// Builds the article for one entry whose date has been read already.
pub fn build_article(entry: &RawEntry, published_at: Option<PublishTime>, source_name: &str) -> (article:
    Article)
    ensures
        article@ == article_with_time(entry@, published_at, source_name@),
{
    Article {
        title: text_or(&entry.title, MISSING_TITLE),
        description: text_or(&entry.description, MISSING_DESCRIPTION),
        link: text_or(&entry.link, MISSING_LINK),
        published_at,
        source_name: source_name.to_owned(),
    }
}

/// Reads a publish date. A text that is no RFC 2822 date gives an unknown
/// date, not an error.
pub fn read_publish_time(text: &str) -> (published_at: Option<PublishTime>)
    ensures
        published_at == publish_time_of(text@),
{
    match parse_rfc2822(text) {
        Ok(instant) => Some(instant),
        Err(_) => None,
    }
}

/// Turns the entries of one document into articles of the feed named
/// `source_name`: at most [`MAX_ENTRIES_PER_FEED`], in document order.
pub fn articles_from_entries(entries: &Vec<RawEntry>, source_name: &str) -> (articles: Vec<
    Article,
>)
    ensures
        articles.deep_view() == articles_of(entries.deep_view(), source_name@),
        articles.len() <= MAX_ENTRIES_PER_FEED,
{
    let count: usize = if entries.len() <= MAX_ENTRIES_PER_FEED {
        entries.len()
    } else {
        MAX_ENTRIES_PER_FEED
    };
    let mut articles: Vec<Article> = Vec::new();
    let mut i: usize = 0;
    while i < count
        invariant
            i <= count <= entries.len(),
            count <= MAX_ENTRIES_PER_FEED,
            articles.len() == i,
            forall|k: int|
                0 <= k < i ==> (#[trigger] articles[k])@ == article_of(
                    entries.deep_view()[k],
                    source_name@,
                ),
        decreases count - i,
    {
        let entry = &entries[i];
        let published_at = match &entry.pub_date {
            Some(text) => read_publish_time(text.as_str()),
            None => None,
        };
        articles.push(build_article(entry, published_at, source_name));
        i += 1;
    }
    assert(articles.deep_view() =~= articles_of(entries.deep_view(), source_name@));
    articles
}

/// Decodes a feed document into the articles of the feed named
/// `source_name`. Fails exactly when the bytes are no feed document: when
/// their elements nest deeper than [`MAX_NESTING`], or the reader rejects
/// them. A missing field or an unreadable date never fails it.
pub fn parse(bytes: &[u8], source_name: &str) -> (outcome: Result<Vec<Article>, ParseFailure>)
    ensures
        outcome is Ok <==> nesting_within(bytes@, MAX_NESTING as nat) && rss_entries(bytes@) is Some,
        outcome is Ok <==> parsed(bytes@, source_name@) is Some,
        outcome is Ok ==> Some(outcome->Ok_0.deep_view()) == parsed(bytes@, source_name@),
        outcome is Ok ==> outcome->Ok_0.len() <= MAX_ENTRIES_PER_FEED,
{
    if !nesting_is_within(bytes, MAX_NESTING) {
        return Err(ParseFailure);
    }
    match read_channel(bytes) {
        Ok(entries) => Ok(articles_from_entries(&entries, source_name)),
        Err(_) => Err(ParseFailure),
    }
}

} // verus!
