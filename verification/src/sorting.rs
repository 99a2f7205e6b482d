//! Ordering articles by publish date, oldest or newest first, without
//! disturbing the order of articles that share a date.

use crate::model::{date_is_earlier, date_precedes, Article, ArticleView, PublishTime};
use vstd::prelude::*;

verus! {

/// `a` belongs strictly before `b`: it is the earlier of the two when the
/// oldest come first, the later when the newest come first. An unknown date
/// counts as earlier than every known one.
pub open spec fn sorts_before(a: ArticleView, b: ArticleView, descending: bool) -> bool {
    if descending {
        date_precedes(b.published_at, a.published_at)
    } else {
        date_precedes(a.published_at, b.published_at)
    }
}

/// No article stands behind one that belongs strictly after it.
pub open spec fn is_sorted(articles: Seq<ArticleView>, descending: bool) -> bool {
    forall|i: int, j: int|
        0 <= i < j < articles.len() ==> !sorts_before(
            #[trigger] articles[j],
            #[trigger] articles[i],
            descending,
        )
}

/// The articles published at `date`, in the order in which they stand.
pub open spec fn dated(articles: Seq<ArticleView>, date: Option<PublishTime>) -> Seq<ArticleView> {
    articles.filter(|article: ArticleView| article.published_at == date)
}

/// `sorted` is `given` put in order, the articles of one date left in the
/// order they had: it is in order, and for every date it holds the same
/// articles of that date in the same order as `given`.
pub open spec fn is_stable_sort_of(
    sorted: Seq<ArticleView>,
    given: Seq<ArticleView>,
    descending: bool,
) -> bool {
    &&& is_sorted(sorted, descending)
    &&& sorted.len() == given.len()
    &&& sorted.to_multiset() == given.to_multiset()
    &&& forall|date: Option<PublishTime>| #[trigger] dated(sorted, date) == dated(given, date)
}

/// Whether `a` belongs strictly before `b` in the given direction.
pub fn comes_before(a: &Article, b: &Article, descending: bool) -> (before: bool)
    ensures
        before == sorts_before(a@, b@, descending),
{
    if descending {
        date_is_earlier(&b.published_at, &a.published_at)
    } else {
        date_is_earlier(&a.published_at, &b.published_at)
    }
}

/// Among articles none of which has the date `date`, none is of that date.
proof fn lemma_dated_of_others(articles: Seq<ArticleView>, date: Option<PublishTime>)
    requires
        forall|k: int| 0 <= k < articles.len() ==> (#[trigger] articles[k]).published_at != date,
    ensures
        dated(articles, date) == Seq::<ArticleView>::empty(),
    decreases articles.len(),
{
    reveal(Seq::filter);
    if articles.len() > 0 {
        lemma_dated_of_others(articles.drop_last(), date);
    }
}

/// Moving the article at `from` forward to `to`, past articles of other
/// dates only, changes neither which articles there are nor, for any date,
/// the order of the articles of that date.
proof fn lemma_move_keeps_dated(
    articles: Seq<ArticleView>,
    to: int,
    from: int,
    date: Option<PublishTime>,
)
    requires
        0 <= to <= from < articles.len(),
        forall|k: int|
            to <= k < from ==> (#[trigger] articles[k]).published_at != articles[from].published_at,
    ensures
        dated(articles.remove(from).insert(to, articles[from]), date) == dated(articles, date),
        articles.remove(from).insert(to, articles[from]).to_multiset() == articles.to_multiset(),
{
    let head = articles.subrange(0, to);
    let passed = articles.subrange(to, from);
    let moved = seq![articles[from]];
    let tail = articles.subrange(from + 1, articles.len() as int);
    let keeps = |article: ArticleView| article.published_at == date;
    let after = articles.remove(from).insert(to, articles[from]);
    assert(articles =~= head + (passed + moved) + tail);
    assert(after =~= head + (moved + passed) + tail);
    Seq::filter_distributes_over_add(head + (passed + moved), tail, keeps);
    Seq::filter_distributes_over_add(head, passed + moved, keeps);
    Seq::filter_distributes_over_add(passed, moved, keeps);
    Seq::filter_distributes_over_add(head + (moved + passed), tail, keeps);
    Seq::filter_distributes_over_add(head, moved + passed, keeps);
    Seq::filter_distributes_over_add(moved, passed, keeps);
    if articles[from].published_at == date {
        lemma_dated_of_others(passed, date);
    } else {
        lemma_dated_of_others(moved, date);
    }
    assert(passed.filter(keeps) + moved.filter(keeps) =~= moved.filter(keeps) + passed.filter(
        keeps,
    ));
    vstd::seq_lib::lemma_multiset_commutative(head + (passed + moved), tail);
    vstd::seq_lib::lemma_multiset_commutative(head, passed + moved);
    vstd::seq_lib::lemma_multiset_commutative(passed, moved);
    vstd::seq_lib::lemma_multiset_commutative(head + (moved + passed), tail);
    vstd::seq_lib::lemma_multiset_commutative(head, moved + passed);
    vstd::seq_lib::lemma_multiset_commutative(moved, passed);
    assert(passed.to_multiset().add(moved.to_multiset()) =~= moved.to_multiset().add(
        passed.to_multiset(),
    ));
}

/// The articles of a date, when the last article is set aside: the same
/// without their last where the last article is of that date, unchanged
/// where it is not.
proof fn lemma_dated_without_last(articles: Seq<ArticleView>, date: Option<PublishTime>)
    requires
        articles.len() > 0,
    ensures
        articles.last().published_at == date ==> dated(articles, date) == dated(
            articles.drop_last(),
            date,
        ).push(articles.last()),
        articles.last().published_at != date ==> dated(articles, date) == dated(
            articles.drop_last(),
            date,
        ),
{
    reveal(Seq::filter);
}

/// Putting articles in order has one outcome only: two orderings of the same
/// articles that both keep the articles of each date in their given order
/// are the same ordering.
pub proof fn lemma_stable_sort_is_unique(
    first: Seq<ArticleView>,
    second: Seq<ArticleView>,
    given: Seq<ArticleView>,
    descending: bool,
)
    requires
        is_stable_sort_of(first, given, descending),
        is_stable_sort_of(second, given, descending),
    ensures
        first == second,
    decreases first.len(),
{
    if first.len() == 0 {
        assert(first =~= second);
    } else {
        let x = first.last();
        let y = second.last();
        assert(second.contains(y)) by {
            assert(second[second.len() - 1] == y);
        }
        assert(first.contains(x)) by {
            assert(first[first.len() - 1] == x);
        }
        assert(first.contains(y)) by {
            vstd::seq_lib::to_multiset_contains(first, y);
            vstd::seq_lib::to_multiset_contains(second, y);
        }
        assert(second.contains(x)) by {
            vstd::seq_lib::to_multiset_contains(first, x);
            vstd::seq_lib::to_multiset_contains(second, x);
        }
        let at_y = choose|i: int| 0 <= i < first.len() && first[i] == y;
        let at_x = choose|i: int| 0 <= i < second.len() && second[i] == x;
        assert(!sorts_before(x, y, descending)) by {
            if at_y < first.len() - 1 {
                assert(!sorts_before(first[first.len() - 1], first[at_y], descending));
            }
        }
        assert(!sorts_before(y, x, descending)) by {
            if at_x < second.len() - 1 {
                assert(!sorts_before(second[second.len() - 1], second[at_x], descending));
            }
        }
        let date = x.published_at;
        assert(y.published_at == date);
        lemma_dated_without_last(first, date);
        lemma_dated_without_last(second, date);
        assert(dated(first, date) == dated(given, date));
        assert(dated(second, date) == dated(given, date));
        assert(x == y) by {
            assert(dated(first, date).last() == x);
            assert(dated(second, date).last() == y);
        }
        let shorter = first.drop_last();
        let other = second.drop_last();
        assert forall|d: Option<PublishTime>| #[trigger] dated(other, d) == dated(shorter, d) by {
            lemma_dated_without_last(first, d);
            lemma_dated_without_last(second, d);
            assert(dated(first, d) == dated(given, d));
            assert(dated(second, d) == dated(given, d));
            if d == date {
                assert(dated(shorter, d) =~= dated(first, d).drop_last());
                assert(dated(other, d) =~= dated(second, d).drop_last());
            }
        }
        assert(shorter.to_multiset() =~= other.to_multiset()) by {
            assert(shorter =~= first.remove(first.len() - 1));
            assert(other =~= second.remove(second.len() - 1));
            vstd::seq_lib::to_multiset_remove(first, first.len() - 1);
            vstd::seq_lib::to_multiset_remove(second, second.len() - 1);
        }
        assert(is_sorted(shorter, descending)) by {
            assert forall|i: int, j: int| 0 <= i < j < shorter.len() implies !sorts_before(
                #[trigger] shorter[j],
                #[trigger] shorter[i],
                descending,
            ) by {
                assert(shorter[j] == first[j] && shorter[i] == first[i]);
            }
        }
        assert(is_sorted(other, descending)) by {
            assert forall|i: int, j: int| 0 <= i < j < other.len() implies !sorts_before(
                #[trigger] other[j],
                #[trigger] other[i],
                descending,
            ) by {
                assert(other[j] == second[j] && other[i] == second[i]);
            }
        }
        lemma_stable_sort_is_unique(shorter, other, shorter, descending);
        assert(first =~= shorter.push(x));
        assert(second =~= other.push(y));
    }
}

/// Puts the articles in order of publish date: oldest first, or newest first
/// when `descending`. Articles of unknown date count as oldest, so they come
/// first in ascending and last in descending order. Articles of one date
/// keep the order they had.
pub fn sort_articles(articles: &mut Vec<Article>, descending: bool)
    ensures
        is_stable_sort_of(final(articles).deep_view(), old(articles).deep_view(), descending),
{
    let ghost given = articles.deep_view();
    let mut i: usize = 0;
    while i < articles.len()
        invariant
            i <= articles.len(),
            articles.len() == given.len(),
            is_sorted(articles.deep_view().take(i as int), descending),
            articles.deep_view().to_multiset() == given.to_multiset(),
            forall|date: Option<PublishTime>|
                #[trigger] dated(articles.deep_view(), date) == dated(given, date),
        decreases articles.len() - i,
    {
        let ghost before = articles.deep_view();
        let mut to: usize = i;
        while to > 0 && comes_before(&articles[i], &articles[to - 1], descending)
            invariant
                to <= i < articles.len(),
                before == articles.deep_view(),
                forall|k: int| to <= k < i ==> sorts_before(before[i as int], #[trigger] before[k], descending),
            decreases to,
        {
            to -= 1;
        }
        if to < i {
            let moved = articles.remove(i);
            articles.insert(to, moved);
        }
        proof {
            let after = articles.deep_view();
            if to < i {
                assert(after =~= before.remove(i as int).insert(to as int, before[i as int]));
                assert forall|date: Option<PublishTime>| #[trigger]
                    dated(after, date) == dated(given, date) by {
                    lemma_move_keeps_dated(before, to as int, i as int, date);
                    assert(dated(before, date) == dated(given, date));
                }
                lemma_move_keeps_dated(before, to as int, i as int, None);
            } else {
                assert(after =~= before);
            }
            let old_prefix = before.take(i as int);
            let new_prefix = after.take(i + 1);
            assert forall|a: int, b: int| 0 <= a < b < new_prefix.len() implies !sorts_before(
                #[trigger] new_prefix[b],
                #[trigger] new_prefix[a],
                descending,
            ) by {
                let x = before[i as int];
                if b < to {
                    assert(new_prefix[a] == old_prefix[a] && new_prefix[b] == old_prefix[b]);
                } else if b == to {
                    assert(new_prefix[b] == x);
                    assert(new_prefix[a] == old_prefix[a]);
                    assert(to > 0);
                    assert(!sorts_before(x, before[to - 1], descending));
                    if a < to - 1 {
                        assert(!sorts_before(old_prefix[to - 1], old_prefix[a], descending));
                    }
                } else if a < to {
                    assert(new_prefix[a] == old_prefix[a] && new_prefix[b] == old_prefix[b - 1]);
                } else if a == to {
                    assert(new_prefix[a] == x);
                    assert(new_prefix[b] == before[b - 1]);
                    assert(sorts_before(x, before[b - 1], descending));
                } else {
                    assert(new_prefix[a] == old_prefix[a - 1] && new_prefix[b] == old_prefix[b - 1]);
                }
            }
        }
        i += 1;
    }
    proof {
        assert(articles.deep_view().take(i as int) =~= articles.deep_view());
    }
}

} // verus!
