//! Merging what was fetched for each feed source into one article list.

use crate::model::{Article, ArticleView, FeedSource, FeedSourceView};
use crate::parser::{parse, parsed, MAX_ENTRIES_PER_FEED};
use vstd::prelude::*;
use vstd::seq_lib::lemma_flatten_concat;

verus! {

/// A feed could not be retrieved: the transport failed, the server answered
/// with an error, or the body could not be read.
#[derive(Clone, Copy, Debug, PartialEq, Eq, Structural)]
pub struct FetchFailure;

/// The document that was retrieved for the source at `index`, if one was.
/// A source for which nothing was handed in counts as failed.
pub open spec fn body_at(fetched: Seq<Result<Vec<u8>, FetchFailure>>, index: int) -> Option<
    Seq<u8>,
> {
    if 0 <= index < fetched.len() {
        match fetched[index] {
            Ok(bytes) => Some(bytes@),
            Err(_) => None,
        }
    } else {
        None
    }
}

/// The documents retrieved for the first `count` sources, one place each.
pub open spec fn bodies_of(fetched: Seq<Result<Vec<u8>, FetchFailure>>, count: nat) -> Seq<
    Option<Seq<u8>>,
> {
    Seq::new(count, |i: int| body_at(fetched, i))
}

/// What one source adds to a refresh: the articles of its document, or
/// nothing where the fetch failed or the document does not parse.
pub open spec fn contribution(source: FeedSourceView, body: Option<Seq<u8>>) -> Seq<ArticleView> {
    match body {
        Some(bytes) => match parsed(bytes, source.name) {
            Some(articles) => articles,
            None => Seq::empty(),
        },
        None => Seq::empty(),
    }
}

/// The contribution of each source, in the order of the sources. `bodies`
/// holds one place for each source.
pub open spec fn contributions(sources: Seq<FeedSourceView>, bodies: Seq<Option<Seq<u8>>>) -> Seq<
    Seq<ArticleView>,
>
    recommends
        bodies.len() == sources.len(),
{
    Seq::new(sources.len(), |i: int| contribution(sources[i], bodies[i]))
}

/// The merged article list of a refresh: the contributions of the sources,
/// one after the other in the order of the sources. `bodies` holds one place
/// for each source.
pub open spec fn merged(sources: Seq<FeedSourceView>, bodies: Seq<Option<Seq<u8>>>) -> Seq<
    ArticleView,
>
    recommends
        bodies.len() == sources.len(),
{
    contributions(sources, bodies).flatten()
}

/// No source adds more than [`MAX_ENTRIES_PER_FEED`] articles.
pub proof fn lemma_contribution_is_capped(source: FeedSourceView, body: Option<Seq<u8>>)
    ensures
        contribution(source, body).len() <= MAX_ENTRIES_PER_FEED,
{
}

/// A refresh of `n` sources yields at most `MAX_ENTRIES_PER_FEED * n`
/// articles.
pub proof fn lemma_merged_is_capped(sources: Seq<FeedSourceView>, bodies: Seq<Option<Seq<u8>>>)
    requires
        bodies.len() == sources.len(),
    ensures
        merged(sources, bodies).len() <= MAX_ENTRIES_PER_FEED * sources.len(),
{
    let parts = contributions(sources, bodies);
    assert forall|i: int| 0 <= i < parts.len() implies (#[trigger] parts[i]).len()
        <= MAX_ENTRIES_PER_FEED as int by {
        lemma_contribution_is_capped(sources[i], bodies[i]);
    }
    parts.lemma_flatten_length_le_mul(MAX_ENTRIES_PER_FEED as int);
    parts.lemma_flatten_and_flatten_alt_are_equivalent();
    assert(parts.len() * (MAX_ENTRIES_PER_FEED as int) == MAX_ENTRIES_PER_FEED * sources.len())
        by (nonlinear_arith)
        requires
            parts.len() == sources.len(),
    ;
}

/// The merged list follows the order of the sources: refreshing one list of
/// sources after another gives the articles of the first list, then those of
/// the second, whatever the order in which the documents arrived.
pub proof fn lemma_merged_keeps_source_order(
    first: Seq<FeedSourceView>,
    first_bodies: Seq<Option<Seq<u8>>>,
    second: Seq<FeedSourceView>,
    second_bodies: Seq<Option<Seq<u8>>>,
)
    requires
        first_bodies.len() == first.len(),
        second_bodies.len() == second.len(),
    ensures
        merged(first + second, first_bodies + second_bodies) == merged(first, first_bodies)
            + merged(second, second_bodies),
{
    let whole = contributions(first + second, first_bodies + second_bodies);
    let head = contributions(first, first_bodies);
    let tail = contributions(second, second_bodies);
    assert(whole =~= head + tail);
    lemma_flatten_concat(head, tail);
}

/// A source whose fetch failed leaves no trace: the refresh gives what it
/// would give without that source, the others in their order.
pub proof fn lemma_failed_source_adds_nothing(
    sources: Seq<FeedSourceView>,
    bodies: Seq<Option<Seq<u8>>>,
    failed: int,
)
    requires
        bodies.len() == sources.len(),
        0 <= failed < sources.len(),
        bodies[failed] is None,
    ensures
        merged(sources, bodies) == merged(sources.remove(failed), bodies.remove(failed)),
{
    let before = sources.subrange(0, failed);
    let before_bodies = bodies.subrange(0, failed);
    let after = sources.subrange(failed + 1, sources.len() as int);
    let after_bodies = bodies.subrange(failed + 1, bodies.len() as int);
    let one = seq![sources[failed]];
    let one_body = seq![bodies[failed]];
    assert(sources =~= before + (one + after));
    assert(bodies =~= before_bodies + (one_body + after_bodies));
    lemma_merged_keeps_source_order(before, before_bodies, one + after, one_body + after_bodies);
    lemma_merged_keeps_source_order(one, one_body, after, after_bodies);
    assert(contributions(one, one_body) =~= seq![Seq::<ArticleView>::empty()]);
    assert(merged(one, one_body) =~= Seq::<ArticleView>::empty()) by {
        contributions(one, one_body).lemma_flatten_one_element();
    }
    lemma_merged_keeps_source_order(before, before_bodies, after, after_bodies);
    assert(merged(sources, bodies) =~= merged(before, before_bodies) + merged(after, after_bodies));
}

/// Merges the outcome of one refresh cycle. `fetched` holds, at the place of
/// each source, the document retrieved from its URL or the failure to
/// retrieve it; a source without a place counts as failed. Each document is
/// parsed under its source's name. A source that failed to fetch or to parse
/// adds nothing and stops nothing: the result is what the other sources
/// yield, in the order of `sources`.
pub fn refresh_all(sources: &Vec<FeedSource>, fetched: &Vec<Result<Vec<u8>, FetchFailure>>) -> (articles:
    Vec<Article>)
    ensures
        articles.deep_view() == merged(
            sources.deep_view(),
            bodies_of(fetched@, sources@.len()),
        ),
        articles.len() <= MAX_ENTRIES_PER_FEED * sources.len(),
{
    let ghost source_views = sources.deep_view();
    let ghost bodies = bodies_of(fetched@, sources@.len());
    let ghost parts = contributions(source_views, bodies);
    let mut articles: Vec<Article> = Vec::new();
    let mut i: usize = 0;
    proof {
        assert(parts.subrange(0, 0).flatten() =~= Seq::<ArticleView>::empty());
    }
    while i < sources.len()
        invariant
            i <= sources.len(),
            source_views == sources.deep_view(),
            bodies == bodies_of(fetched@, sources@.len()),
            parts == contributions(source_views, bodies),
            articles.deep_view() == parts.subrange(0, i as int).flatten(),
        decreases sources.len() - i,
    {
        let ghost before = articles.deep_view();
        let source = &sources[i];
        if i < fetched.len() {
            match &fetched[i] {
                Ok(bytes) => {
                    match parse(bytes.as_slice(), source.name.as_str()) {
                        Ok(mut batch) => {
                            let ghost added = batch.deep_view();
                            articles.append(&mut batch);
                            assert(articles.deep_view() =~= before + added);
                        },
                        Err(_) => {},
                    }
                },
                Err(_) => {},
            }
        }
        proof {
            let step = parts[i as int];
            assert(step == contribution(source_views[i as int], bodies[i as int]));
            assert(articles.deep_view() =~= before + step);
            assert(parts.subrange(0, i + 1) =~= parts.subrange(0, i as int).push(step));
            parts.subrange(0, i as int).lemma_flatten_push(step);
        }
        i += 1;
    }
    proof {
        assert(parts.subrange(0, i as int) =~= parts);
        lemma_merged_is_capped(source_views, bodies);
    }
    articles
}

} // verus!
