//! The session: the feed list, the merged articles in their current order,
//! the read links and what the user has chosen to see.

use crate::model::{Article, ArticleView, FeedSource, FeedSourceView, FeedsConfig};
use crate::read_state::{after_mark, mark_is_new, marked_links, ReadState};
use crate::sorting::{is_sorted, is_stable_sort_of, sort_articles};
use crate::text::{lowercase, mentions, occurs_in_either, to_lowercase};
use vstd::prelude::*;

verus! {

/// A feed source was offered with an empty name or an empty URL.
#[derive(Clone, Copy, Debug, PartialEq, Eq, Structural)]
pub struct ValidationFailure;

/// Whether an article passes the source filter and the search: it comes from
/// the source named by the filter, where there is one, and its title or its
/// description mentions the query, where the query is not empty.
pub open spec fn is_shown(article: ArticleView, filter: Option<Seq<char>>, query: Seq<char>) -> bool {
    &&& filter is Some ==> article.source_name == filter->Some_0
    &&& query.len() > 0 ==> mentions(article.title, query) || mentions(article.description, query)
}

/// The articles that pass the source filter and the search, in the order in
/// which they stand.
pub open spec fn shown(articles: Seq<ArticleView>, filter: Option<Seq<char>>, query: Seq<char>) -> Seq<
    ArticleView,
> {
    articles.filter(|article: ArticleView| is_shown(article, filter, query))
}

/// The places of the articles that pass the source filter and the search,
/// in rising order.
pub open spec fn shown_positions(
    articles: Seq<ArticleView>,
    filter: Option<Seq<char>>,
    query: Seq<char>,
) -> Seq<int>
    decreases articles.len(),
{
    if articles.len() == 0 {
        Seq::empty()
    } else {
        let earlier = shown_positions(articles.drop_last(), filter, query);
        if is_shown(articles.last(), filter, query) {
            earlier.push(articles.len() - 1)
        } else {
            earlier
        }
    }
}

/// The articles shown are the articles at the shown places, in that order.
pub proof fn lemma_shown_are_at_shown_positions(
    articles: Seq<ArticleView>,
    filter: Option<Seq<char>>,
    query: Seq<char>,
)
    ensures
        shown_positions(articles, filter, query).len() == shown(articles, filter, query).len(),
        forall|k: int|
            0 <= k < shown(articles, filter, query).len() ==> {
                let place = #[trigger] shown_positions(articles, filter, query)[k];
                &&& 0 <= place < articles.len()
                &&& articles[place] == shown(articles, filter, query)[k]
            },
        forall|k: int, l: int|
            0 <= k < l < shown_positions(articles, filter, query).len() ==> shown_positions(
                articles,
                filter,
                query,
            )[k] < shown_positions(articles, filter, query)[l],
    decreases articles.len(),
{
    reveal(Seq::filter);
    if articles.len() > 0 {
        let earlier = articles.drop_last();
        lemma_shown_are_at_shown_positions(earlier, filter, query);
        let places = shown_positions(articles, filter, query);
        let earlier_places = shown_positions(earlier, filter, query);
        let found = shown(articles, filter, query);
        let earlier_found = shown(earlier, filter, query);
        let last = articles.last();
        let at_end = articles.len() - 1;
        if is_shown(last, filter, query) {
            assert(found == earlier_found.push(last));
            assert(places == earlier_places.push(at_end));
        } else {
            assert(found == earlier_found);
            assert(places == earlier_places);
        }
        assert(places.len() == found.len());
        assert forall|k: int| 0 <= k < earlier_places.len() implies (#[trigger] earlier_places[k])
            < earlier.len() by {
            assert(0 <= k < earlier_found.len());
        }
        assert forall|k: int| 0 <= k < found.len() implies {
            let place = #[trigger] places[k];
            &&& 0 <= place < articles.len()
            &&& articles[place] == found[k]
        } by {
            if k < earlier_found.len() {
                let place = earlier_places[k];
                assert(places[k] == place);
                assert(earlier[place] == earlier_found[k]);
                assert(found[k] == earlier_found[k]);
            } else {
                assert(places[k] == at_end);
                assert(found[k] == last);
            }
        }
        assert forall|k: int, l: int| 0 <= k < l < places.len() implies places[k] < places[l] by {
            assert(places[k] == earlier_places[k]);
            assert(earlier_places[k] < earlier.len());
            if l < earlier_places.len() {
                assert(places[l] == earlier_places[l]);
            } else {
                assert(places[l] == at_end);
            }
        }
    }
}

/// The source filter after the feed named `removed` was deleted: a filter
/// that named it is reset to "all", any other stays.
pub open spec fn filter_after_delete(filter: Option<Seq<char>>, removed: Seq<char>) -> Option<
    Seq<char>,
> {
    if filter == Some(removed) {
        None
    } else {
        filter
    }
}

/// Filtering twice is filtering once by both tests.
proof fn lemma_filter_twice<A>(items: Seq<A>, first: spec_fn(A) -> bool, second: spec_fn(A) -> bool)
    ensures
        items.filter(first).filter(second) == items.filter(|item: A| first(item) && second(item)),
    decreases items.len(),
{
    reveal(Seq::filter);
    if items.len() > 0 {
        lemma_filter_twice(items.drop_last(), first, second);
        let rest = items.drop_last().filter(first);
        if first(items.last()) {
            assert(items.filter(first) == rest.push(items.last()));
            assert(rest.push(items.last()).drop_last() =~= rest);
        }
    }
}

/// Two tests that agree on every item filter alike.
proof fn lemma_filter_by_equal_tests<A>(
    items: Seq<A>,
    first: spec_fn(A) -> bool,
    second: spec_fn(A) -> bool,
)
    requires
        forall|item: A| #[trigger] first(item) == second(item),
    ensures
        items.filter(first) == items.filter(second),
    decreases items.len(),
{
    reveal(Seq::filter);
    if items.len() > 0 {
        lemma_filter_by_equal_tests(items.drop_last(), first, second);
    }
}

/// With a source filter and no search, exactly the articles of that source
/// are shown.
pub proof fn lemma_source_filter_alone(articles: Seq<ArticleView>, source: Seq<char>)
    ensures
        shown(articles, Some(source), Seq::empty()) == articles.filter(
            |article: ArticleView| article.source_name == source,
        ),
{
    lemma_filter_by_equal_tests(
        articles,
        |article: ArticleView| is_shown(article, Some(source), Seq::empty()),
        |article: ArticleView| article.source_name == source,
    );
}

/// The source filter and the search compose: the two together show what the
/// search shows among the articles of the source, and what the source filter
/// shows among the articles that the search finds.
pub proof fn lemma_filter_and_search_compose(
    articles: Seq<ArticleView>,
    source: Seq<char>,
    query: Seq<char>,
)
    ensures
        shown(articles, Some(source), query) == shown(
            shown(articles, Some(source), Seq::empty()),
            None,
            query,
        ),
        shown(articles, Some(source), query) == shown(
            shown(articles, None, query),
            Some(source),
            Seq::empty(),
        ),
{
    let by_source = |article: ArticleView| is_shown(article, Some(source), Seq::empty());
    let by_query = |article: ArticleView| is_shown(article, None, query);
    let by_both = |article: ArticleView| is_shown(article, Some(source), query);
    lemma_filter_twice(articles, by_source, by_query);
    lemma_filter_twice(articles, by_query, by_source);
    lemma_filter_by_equal_tests(
        articles,
        |article: ArticleView| by_source(article) && by_query(article),
        by_both,
    );
    lemma_filter_by_equal_tests(
        articles,
        |article: ArticleView| by_query(article) && by_source(article),
        by_both,
    );
}

/// With no source filter and no search every article is shown.
pub proof fn lemma_no_filter_shows_all(articles: Seq<ArticleView>)
    ensures
        shown(articles, None, Seq::empty()) == articles,
    decreases articles.len(),
{
    reveal(Seq::filter);
    if articles.len() > 0 {
        lemma_no_filter_shows_all(articles.drop_last());
        assert(articles.drop_last().push(articles.last()) =~= articles);
    }
}

/// The feed list to start from, given what was read from the feed-list
/// record: its feeds, or none where the record was absent, unreadable or
/// malformed.
pub fn feeds_or_empty(loaded: Option<FeedsConfig>) -> (feeds: Vec<FeedSource>)
    ensures
        feeds.deep_view() == match loaded {
            Some(config) => config.feeds.deep_view(),
            None => Seq::empty(),
        },
{
    match loaded {
        Some(config) => config.feeds,
        None => {
            let feeds: Vec<FeedSource> = Vec::new();
            assert(feeds.deep_view() =~= Seq::<FeedSourceView>::empty());
            feeds
        },
    }
}

/// Whether the article passes the source filter and the search. `needle` is
/// the lowercased query.
fn passes(article: &Article, filter: &Option<String>, query: &str, needle: &str) -> (pass: bool)
    requires
        needle@ == lowercase(query@),
    ensures
        pass == is_shown(article@, filter.deep_view(), query@),
{
    let from_source = match filter {
        Some(name) => article.source_name == *name,
        None => true,
    };
    if !from_source {
        return false;
    }
    if query.is_empty() {
        return true;
    }
    let title = to_lowercase(article.title.as_str());
    let description = to_lowercase(article.description.as_str());
    occurs_in_either(title.as_str(), description.as_str(), needle)
}

/// The articles among `articles` that pass the source filter and the
/// search, in their order. Both tests are optional: no filter lets every
/// source pass, the empty query lets every text pass.
pub fn filter_articles(articles: &Vec<Article>, filter: &Option<String>, query: &str) -> (found:
    Vec<Article>)
    ensures
        found.deep_view() == shown(articles.deep_view(), filter.deep_view(), query@),
{
    let needle = to_lowercase(query);
    let ghost all = articles.deep_view();
    let ghost test = |article: ArticleView| is_shown(article, filter.deep_view(), query@);
    let mut found: Vec<Article> = Vec::new();
    let mut i: usize = 0;
    proof {
        reveal(Seq::filter);
        assert(found.deep_view() =~= all.take(0).filter(test));
    }
    while i < articles.len()
        invariant
            i <= articles.len(),
            all == articles.deep_view(),
            needle@ == lowercase(query@),
            test == |article: ArticleView| is_shown(article, filter.deep_view(), query@),
            found.deep_view() == all.take(i as int).filter(test),
        decreases articles.len() - i,
    {
        let ghost before = found.deep_view();
        let pass = passes(&articles[i], filter, query, needle.as_str());
        if pass {
            found.push(articles[i].clone());
            assert(found.deep_view() =~= before.push(all[i as int]));
        }
        proof {
            reveal(Seq::filter);
            assert(all.take(i + 1).drop_last() =~= all.take(i as int));
            assert(all.take(i + 1).last() == all[i as int]);
        }
        i += 1;
    }
    proof {
        assert(all.take(i as int) =~= all);
    }
    found
}

/// The places in `articles` of the articles that pass the source filter and
/// the search, in rising order.
pub fn filter_positions(articles: &Vec<Article>, filter: &Option<String>, query: &str) -> (found:
    Vec<usize>)
    ensures
        found@.map_values(|place: usize| place as int) == shown_positions(
            articles.deep_view(),
            filter.deep_view(),
            query@,
        ),
{
    let needle = to_lowercase(query);
    let ghost all = articles.deep_view();
    let mut found: Vec<usize> = Vec::new();
    let mut i: usize = 0;
    proof {
        assert(all.take(0) =~= Seq::<ArticleView>::empty());
        assert(found@.map_values(|place: usize| place as int) =~= Seq::<int>::empty());
    }
    while i < articles.len()
        invariant
            i <= articles.len(),
            all == articles.deep_view(),
            needle@ == lowercase(query@),
            found@.map_values(|place: usize| place as int) == shown_positions(
                all.take(i as int),
                filter.deep_view(),
                query@,
            ),
        decreases articles.len() - i,
    {
        let ghost before = found@.map_values(|place: usize| place as int);
        let pass = passes(&articles[i], filter, query, needle.as_str());
        if pass {
            found.push(i);
            assert(found@.map_values(|place: usize| place as int) =~= before.push(i as int));
        }
        proof {
            assert(all.take(i + 1).drop_last() =~= all.take(i as int));
            assert(all.take(i + 1).last() == all[i as int]);
        }
        i += 1;
    }
    proof {
        assert(all.take(i as int) =~= all);
    }
    found
}

/// The state of one session.
pub struct ArticleStore {
    feeds: Vec<FeedSource>,
    articles: Vec<Article>,
    read: ReadState,
    descending: bool,
    selected_index: Option<usize>,
    selected_filter: Option<String>,
    search_query: String,
}

/// What an [`ArticleStore`] is to a contract.
pub struct StoreView {
    /// The feed sources in display order.
    pub feeds: Seq<FeedSourceView>,
    /// The merged articles in their current order.
    pub articles: Seq<ArticleView>,
    /// The links of the articles that were opened.
    pub read: Set<Seq<char>>,
    /// The same links in the order of their first marking.
    pub read_links: Seq<Seq<char>>,
    /// Whether the newest articles come first.
    pub descending: bool,
    /// The place of the article that is open, if one is.
    pub selected_index: Option<usize>,
    /// The source whose articles are shown; `None` shows all.
    pub selected_filter: Option<Seq<char>>,
    /// The text that shown articles must mention; empty shows all.
    pub search_query: Seq<char>,
}

impl View for ArticleStore {
    type V = StoreView;

    closed spec fn view(&self) -> StoreView {
        StoreView {
            feeds: self.feeds.deep_view(),
            articles: self.articles.deep_view(),
            read: self.read@,
            read_links: self.read.links(),
            descending: self.descending,
            selected_index: self.selected_index,
            selected_filter: self.selected_filter.deep_view(),
            search_query: self.search_query@,
        }
    }
}

impl ArticleStore {
    /// The read state is well-formed and the articles stand in the current
    /// sort order.
    pub closed spec fn wf(&self) -> bool {
        &&& self.read.wf()
        &&& is_sorted(self.articles.deep_view(), self.descending)
    }

    /// In a well-formed store the articles are in order and the read set is
    /// the set of the listed read links.
    pub proof fn lemma_wf(&self)
        requires
            self.wf(),
        ensures
            is_sorted(self@.articles, self@.descending),
            self@.read == self@.read_links.to_set(),
            self@.read_links.no_duplicates(),
    {
        self.read.lemma_view_is_set_of_links();
    }

    /// Starts a session from what was loaded and fetched: the newest
    /// articles first, nothing selected, no filter and no search.
    pub fn new(feeds: Vec<FeedSource>, read: ReadState, articles: Vec<Article>) -> (store:
        ArticleStore)
        requires
            read.wf(),
        ensures
            store.wf(),
            store@.feeds == feeds.deep_view(),
            is_stable_sort_of(store@.articles, articles.deep_view(), true),
            store@.read == read@,
            store@.read_links == read.links(),
            store@.descending,
            store@.selected_index is None,
            store@.selected_filter is None,
            store@.search_query == Seq::<char>::empty(),
    {
        let mut articles = articles;
        sort_articles(&mut articles, true);
        ArticleStore {
            feeds,
            articles,
            read,
            descending: true,
            selected_index: None,
            selected_filter: None,
            search_query: String::new(),
        }
    }

    /// Replaces the articles by the outcome of a refresh and puts them in
    /// the current sort order.
    pub fn set_articles(&mut self, articles: Vec<Article>)
        requires
            old(self).wf(),
        ensures
            final(self).wf(),
            is_stable_sort_of(final(self)@.articles, articles.deep_view(), old(self)@.descending),
            final(self)@ == (StoreView { articles: final(self)@.articles, ..old(self)@ }),
    {
        self.articles = articles;
        sort_articles(&mut self.articles, self.descending);
    }

    /// Sets the sort direction and puts the articles in that order.
    pub fn sort(&mut self, descending: bool)
        requires
            old(self).wf(),
        ensures
            final(self).wf(),
            is_stable_sort_of(final(self)@.articles, old(self)@.articles, descending),
            final(self)@ == (StoreView {
                articles: final(self)@.articles,
                descending,
                ..old(self)@
            }),
    {
        self.descending = descending;
        sort_articles(&mut self.articles, descending);
    }

    /// Marks the article with this link as read. Returns whether that
    /// changed the read state, so that the caller persists only after a
    /// change.
    pub fn mark_read(&mut self, link: &str) -> (newly_read: bool)
        requires
            old(self).wf(),
        ensures
            final(self).wf(),
            newly_read == mark_is_new(old(self)@.read, link@),
            final(self)@ == (StoreView {
                read: after_mark(old(self)@.read, link@),
                read_links: marked_links(old(self)@.read_links, link@),
                ..old(self)@
            }),
    {
        self.read.mark_read(link)
    }

    /// Whether the article with this link was opened.
    pub fn is_read(&self, link: &str) -> (read: bool)
        ensures
            read == self@.read.contains(link@),
    {
        self.read.is_read(link)
    }

    /// The articles to show for a source filter and a search, in the
    /// current sort order, computed afresh on each call.
    pub fn filtered_view(&self, filter: &Option<String>, query: &str) -> (found: Vec<Article>)
        ensures
            found.deep_view() == shown(self@.articles, filter.deep_view(), query@),
    {
        filter_articles(&self.articles, filter, query)
    }

    /// The places of the articles to show for a source filter and a search,
    /// in rising order.
    pub fn filtered_positions(&self, filter: &Option<String>, query: &str) -> (found: Vec<usize>)
        ensures
            found@.map_values(|place: usize| place as int) == shown_positions(
                self@.articles,
                filter.deep_view(),
                query@,
            ),
    {
        filter_positions(&self.articles, filter, query)
    }

    /// Appends a feed source. A source with an empty name or an empty URL is
    /// rejected and changes nothing. After success the caller persists the
    /// feed list and refreshes.
    pub fn add_feed(&mut self, source: FeedSource) -> (outcome: Result<(), ValidationFailure>)
        requires
            old(self).wf(),
        ensures
            final(self).wf(),
            outcome is Err <==> source@.name.len() == 0 || source@.url.len() == 0,
            outcome is Err ==> final(self)@ == old(self)@,
            outcome is Ok ==> final(self)@ == (StoreView {
                feeds: old(self)@.feeds.push(source@),
                ..old(self)@
            }),
    {
        if source.name.as_str().is_empty() || source.url.as_str().is_empty() {
            return Err(ValidationFailure);
        }
        let ghost before = self.feeds.deep_view();
        self.feeds.push(source);
        assert(self.feeds.deep_view() =~= before.push(source@));
        Ok(())
    }

    /// Removes the feed source at `index` and hands it back; an index past
    /// the end removes nothing. A source filter that named the removed feed
    /// is reset to "all". After a removal the caller persists the feed list
    /// and refreshes.
    pub fn delete_feed(&mut self, index: usize) -> (removed: Option<FeedSource>)
        requires
            old(self).wf(),
        ensures
            final(self).wf(),
            removed is Some <==> index < old(self)@.feeds.len(),
            removed is None ==> final(self)@ == old(self)@,
            removed is Some ==> removed->Some_0@ == old(self)@.feeds[index as int],
            removed is Some ==> final(self)@ == (StoreView {
                feeds: old(self)@.feeds.remove(index as int),
                selected_filter: filter_after_delete(
                    old(self)@.selected_filter,
                    old(self)@.feeds[index as int].name,
                ),
                ..old(self)@
            }),
    {
        if index >= self.feeds.len() {
            return None;
        }
        let ghost before = self.feeds.deep_view();
        let removed = self.feeds.remove(index);
        assert(self.feeds.deep_view() =~= before.remove(index as int));
        let named = match &self.selected_filter {
            Some(name) => *name == removed.name,
            None => false,
        };
        if named {
            self.selected_filter = None;
        }
        Some(removed)
    }

    /// Opens the article at `index` and marks it as read, or closes the open
    /// article when `index` is `None`. An index past the end is kept as the
    /// selection but marks nothing. Returns whether the read state changed,
    /// so that the caller persists only after a change.
    pub fn select(&mut self, index: Option<usize>) -> (newly_read: bool)
        requires
            old(self).wf(),
        ensures
            final(self).wf(),
            match index {
                Some(at) if at < old(self)@.articles.len() => {
                    let link = old(self)@.articles[at as int].link;
                    &&& newly_read == mark_is_new(old(self)@.read, link)
                    &&& final(self)@ == (StoreView {
                        selected_index: index,
                        read: after_mark(old(self)@.read, link),
                        read_links: marked_links(old(self)@.read_links, link),
                        ..old(self)@
                    })
                },
                _ => {
                    &&& !newly_read
                    &&& final(self)@ == (StoreView { selected_index: index, ..old(self)@ })
                },
            },
    {
        self.selected_index = index;
        match index {
            Some(at) => {
                if at < self.articles.len() {
                    self.read.mark_read(self.articles[at].link.as_str())
                } else {
                    false
                }
            },
            None => false,
        }
    }

    /// Shows the articles of one source only, or of all with `None`, and
    /// closes the open article.
    pub fn set_filter(&mut self, filter: Option<String>)
        requires
            old(self).wf(),
        ensures
            final(self).wf(),
            final(self)@ == (StoreView {
                selected_filter: filter.deep_view(),
                selected_index: None,
                ..old(self)@
            }),
    {
        self.selected_filter = filter;
        self.selected_index = None;
    }

    /// Sets the text that shown articles must mention.
    pub fn set_search(&mut self, query: String)
        requires
            old(self).wf(),
        ensures
            final(self).wf(),
            final(self)@ == (StoreView { search_query: query@, ..old(self)@ }),
    {
        self.search_query = query;
    }

    /// The articles that the session shows: those that pass its own source
    /// filter and its own search, in the current sort order.
    pub fn visible(&self) -> (found: Vec<Article>)
        ensures
            found.deep_view() == shown(self@.articles, self@.selected_filter, self@.search_query),
    {
        filter_articles(&self.articles, &self.selected_filter, self.search_query.as_str())
    }

    /// The feed sources in display order.
    pub fn feeds(&self) -> (feeds: &Vec<FeedSource>)
        ensures
            feeds.deep_view() == self@.feeds,
    {
        &self.feeds
    }

    /// The merged articles in their current order.
    pub fn articles(&self) -> (articles: &Vec<Article>)
        ensures
            articles.deep_view() == self@.articles,
    {
        &self.articles
    }

    /// The read links.
    pub fn read_state(&self) -> (read: &ReadState)
        ensures
            read@ == self@.read,
            read.links() == self@.read_links,
            self.wf() ==> read.wf(),
    {
        &self.read
    }

    /// Whether the newest articles come first.
    pub fn descending(&self) -> (descending: bool)
        ensures
            descending == self@.descending,
    {
        self.descending
    }

    /// The place of the open article, if one is open.
    pub fn selected_index(&self) -> (index: Option<usize>)
        ensures
            index == self@.selected_index,
    {
        self.selected_index
    }

    /// The open article: the one at the selected place, if there is one.
    pub fn selected_article(&self) -> (article: Option<&Article>)
        ensures
            match self@.selected_index {
                Some(at) if at < self@.articles.len() => article is Some && article->Some_0@
                    == self@.articles[at as int],
                _ => article is None,
            },
    {
        match self.selected_index {
            Some(at) => {
                if at < self.articles.len() {
                    Some(&self.articles[at])
                } else {
                    None
                }
            },
            None => None,
        }
    }

    /// The source whose articles are shown; `None` shows all.
    pub fn selected_filter(&self) -> (filter: &Option<String>)
        ensures
            filter.deep_view() == self@.selected_filter,
    {
        &self.selected_filter
    }

    /// The text that shown articles must mention.
    pub fn search_query(&self) -> (query: &String)
        ensures
            query@ == self@.search_query,
    {
        &self.search_query
    }
}

} // verus!
