use feed_reader::model::{date_is_earlier, Article, PublishTime};
use feed_reader::sorting::{comes_before, sort_articles};

const JAN_2024: i64 = 1704067200;
const JUN_2023: i64 = 1685577600;

fn article(title: &str, seconds: Option<i64>) -> Article {
    Article {
        title: title.to_string(),
        description: String::new(),
        link: format!("http://example.org/{title}"),
        published_at: seconds.map(|seconds| PublishTime { seconds, nanos: 0 }),
        source_name: "s".to_string(),
    }
}

fn titles(articles: &[Article]) -> Vec<&str> {
    articles.iter().map(|a| a.title.as_str()).collect()
}

fn sample() -> Vec<Article> {
    vec![
        article("none-1", None),
        article("2024", Some(JAN_2024)),
        article("none-2", None),
        article("2023", Some(JUN_2023)),
    ]
}

#[test]
fn descending_sort_puts_unknown_dates_last() {
    let mut articles = sample();
    sort_articles(&mut articles, true);
    assert_eq!(titles(&articles), vec!["2024", "2023", "none-1", "none-2"]);
    let dates: Vec<Option<i64>> =
        articles.iter().map(|a| a.published_at.map(|t| t.seconds)).collect();
    assert_eq!(dates, vec![Some(JAN_2024), Some(JUN_2023), None, None]);
}

#[test]
fn ascending_sort_puts_unknown_dates_first() {
    let mut articles = sample();
    sort_articles(&mut articles, false);
    assert_eq!(titles(&articles), vec!["none-1", "none-2", "2023", "2024"]);
    let dates: Vec<Option<i64>> =
        articles.iter().map(|a| a.published_at.map(|t| t.seconds)).collect();
    assert_eq!(dates, vec![None, None, Some(JUN_2023), Some(JAN_2024)]);
}

#[test]
fn sort_keeps_the_order_of_equal_dates() {
    let given = vec![
        article("b1", Some(20)),
        article("a1", Some(10)),
        article("b2", Some(20)),
        article("a2", Some(10)),
        article("b3", Some(20)),
    ];
    let mut ascending = given.clone();
    sort_articles(&mut ascending, false);
    assert_eq!(titles(&ascending), vec!["a1", "a2", "b1", "b2", "b3"]);
    let mut descending = given.clone();
    sort_articles(&mut descending, true);
    assert_eq!(titles(&descending), vec!["b1", "b2", "b3", "a1", "a2"]);
}

#[test]
fn sort_is_idempotent_and_keeps_every_article() {
    let mut once = sample();
    sort_articles(&mut once, true);
    let mut twice = once.clone();
    sort_articles(&mut twice, true);
    assert_eq!(once, twice);
    assert_eq!(once.len(), 4);
    for article in sample() {
        assert!(once.contains(&article));
    }
}

#[test]
fn sort_of_nothing_and_of_one() {
    let mut none: Vec<Article> = Vec::new();
    sort_articles(&mut none, true);
    assert!(none.is_empty());
    let mut one = vec![article("only", None)];
    sort_articles(&mut one, false);
    assert_eq!(titles(&one), vec!["only"]);
}

#[test]
fn sort_orders_a_reversed_list() {
    let mut articles: Vec<Article> =
        (0..20).rev().map(|n| article(&format!("{n:02}"), Some(n))).collect();
    sort_articles(&mut articles, false);
    let expected: Vec<String> = (0..20).map(|n| format!("{n:02}")).collect();
    assert_eq!(titles(&articles), expected.iter().map(|t| t.as_str()).collect::<Vec<_>>());
    sort_articles(&mut articles, true);
    let expected: Vec<String> = (0..20).rev().map(|n| format!("{n:02}")).collect();
    assert_eq!(titles(&articles), expected.iter().map(|t| t.as_str()).collect::<Vec<_>>());
}

#[test]
fn nanoseconds_break_ties_between_equal_seconds() {
    let early = PublishTime { seconds: 5, nanos: 1 };
    let late = PublishTime { seconds: 5, nanos: 2 };
    assert!(early.before(&late));
    assert!(!late.before(&early));
    assert!(!early.before(&early));
    assert!(PublishTime { seconds: 4, nanos: 9 }.before(&early));
    assert!(PublishTime { seconds: -1, nanos: 0 }.before(&PublishTime { seconds: 0, nanos: 0 }));
}

#[test]
fn an_unknown_date_is_earlier_than_any_known_one() {
    let known = Some(PublishTime { seconds: i64::MIN, nanos: 0 });
    assert!(date_is_earlier(&None, &known));
    assert!(!date_is_earlier(&known, &None));
    assert!(!date_is_earlier(&None, &None));
}

#[test]
fn comes_before_follows_the_direction() {
    let old = article("old", Some(1));
    let new = article("new", Some(2));
    let unknown = article("unknown", None);
    assert!(comes_before(&old, &new, false));
    assert!(!comes_before(&new, &old, false));
    assert!(comes_before(&new, &old, true));
    assert!(!comes_before(&old, &new, true));
    assert!(comes_before(&unknown, &old, false));
    assert!(comes_before(&old, &unknown, true));
    assert!(!comes_before(&old, &old, true));
    assert!(!comes_before(&old, &old, false));
}
