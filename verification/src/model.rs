//! The data that the reader works on: feed sources, publish times and
//! articles, each with the mathematical value that contracts speak of.

use vstd::prelude::*;

verus! {

/// A feed that the user follows. The name is what the user sees; two sources
/// may share one name.
#[derive(Debug, PartialEq, Eq)]
pub struct FeedSource {
    pub name: String,
    pub url: String,
}

/// What a [`FeedSource`] is to a contract.
pub struct FeedSourceView {
    pub name: Seq<char>,
    pub url: Seq<char>,
}

impl View for FeedSource {
    type V = FeedSourceView;

    open spec fn view(&self) -> FeedSourceView {
        FeedSourceView { name: self.name@, url: self.url@ }
    }
}

impl DeepView for FeedSource {
    type V = FeedSourceView;

    open spec fn deep_view(&self) -> FeedSourceView {
        self@
    }
}

impl Clone for FeedSource {
    fn clone(&self) -> (copy: Self)
        ensures
            copy == *self,
    {
        FeedSource { name: self.name.clone(), url: self.url.clone() }
    }
}

/// The persisted feed list: the sources in display order.
#[derive(Debug, PartialEq, Eq)]
pub struct FeedsConfig {
    pub feeds: Vec<FeedSource>,
}

/// An instant on the UTC time line: whole seconds since the Unix epoch and
/// the nanoseconds into that second. During a leap second `nanos` runs past
/// 999,999,999, so that the instant still lies between its neighbours.
#[derive(Clone, Copy, Debug, PartialEq, Eq, Structural)]
pub struct PublishTime {
    pub seconds: i64,
    pub nanos: u32,
}

impl PublishTime {
    /// `self` lies strictly earlier than `other`.
    pub open spec fn is_before(self, other: PublishTime) -> bool {
        self.seconds < other.seconds || (self.seconds == other.seconds && self.nanos < other.nanos)
    }

    pub fn before(&self, other: &PublishTime) -> (earlier: bool)
        ensures
            earlier == self.is_before(*other),
    {
        self.seconds < other.seconds || (self.seconds == other.seconds && self.nanos < other.nanos)
    }
}

/// `a` sorts strictly before `b` by date, an unknown date being earlier than
/// every known one.
pub open spec fn date_precedes(a: Option<PublishTime>, b: Option<PublishTime>) -> bool {
    match (a, b) {
        (Some(x), Some(y)) => x.is_before(y),
        (None, Some(_)) => true,
        (_, None) => false,
    }
}

pub fn date_is_earlier(a: &Option<PublishTime>, b: &Option<PublishTime>) -> (earlier: bool)
    ensures
        earlier == date_precedes(*a, *b),
{
    match (a, b) {
        (Some(x), Some(y)) => x.before(y),
        (None, Some(_)) => true,
        (_, None) => false,
    }
}

/// One entry of a feed. The link is the article's identity: two articles
/// with equal links are the same article as far as read state goes.
#[derive(Debug, PartialEq, Eq)]
pub struct Article {
    pub title: String,
    pub description: String,
    pub link: String,
    pub published_at: Option<PublishTime>,
    pub source_name: String,
}

/// What an [`Article`] is to a contract.
pub struct ArticleView {
    pub title: Seq<char>,
    pub description: Seq<char>,
    pub link: Seq<char>,
    pub published_at: Option<PublishTime>,
    pub source_name: Seq<char>,
}

impl View for Article {
    type V = ArticleView;

    open spec fn view(&self) -> ArticleView {
        ArticleView {
            title: self.title@,
            description: self.description@,
            link: self.link@,
            published_at: self.published_at,
            source_name: self.source_name@,
        }
    }
}

impl DeepView for Article {
    type V = ArticleView;

    open spec fn deep_view(&self) -> ArticleView {
        self@
    }
}

impl Clone for Article {
    fn clone(&self) -> (copy: Self)
        ensures
            copy == *self,
    {
        Article {
            title: self.title.clone(),
            description: self.description.clone(),
            link: self.link.clone(),
            published_at: self.published_at,
            source_name: self.source_name.clone(),
        }
    }
}

} // verus!
