use feed_reader::aggregator::refresh_all;
use feed_reader::model::FeedSource;
use feed_reader::nesting::{nesting_is_within, step, Keyword, Mode, Quote, Scan};
use feed_reader::parser::{parse, ParseFailure, MAX_NESTING};

fn nested(levels: usize) -> String {
    format!("{}{}", "<x>".repeat(levels), "</x>".repeat(levels))
}

fn channel(inner: &str) -> Vec<u8> {
    format!(
        "<rss version=\"2.0\"><channel><title>t</title><link>l</link>\
         <description>d</description>{inner}</channel></rss>"
    )
    .into_bytes()
}

#[test]
fn nesting_counts_open_elements() {
    assert!(nesting_is_within(b"", 0));
    assert!(nesting_is_within(b"no markup at all", 0));
    assert!(!nesting_is_within(b"<a>", 0));
    assert!(nesting_is_within(b"<a>", 1));
    assert!(nesting_is_within(b"<a></a>", 1));
    assert!(!nesting_is_within(b"<a><b></b></a>", 1));
    assert!(nesting_is_within(b"<a><b></b></a>", 2));
    assert!(nesting_is_within(b"<a></a><b></b><c></c>", 1));
    assert!(!nesting_is_within(b"<a><b><c>", 2));
    assert!(nesting_is_within(b"<a><b><c>", 3));
}

#[test]
fn nesting_counts_a_self_closing_element_while_it_is_open() {
    assert!(!nesting_is_within(b"<a/>", 0));
    assert!(nesting_is_within(b"<a/>", 1));
    assert!(nesting_is_within("<a/>".repeat(1000).as_bytes(), 1));
    assert!(!nesting_is_within(b"<a><b/></a>", 1));
    assert!(nesting_is_within(b"<a><b/><c/></a>", 2));
}

#[test]
fn nesting_never_falls_below_zero() {
    assert!(nesting_is_within(b"</a></a></a><b></b>", 1));
    assert!(!nesting_is_within(b"</a></a></a><b><c>", 1));
}

#[test]
fn nesting_ignores_markup_inside_cdata_comments_and_instructions() {
    assert!(nesting_is_within(b"<a><![CDATA[<b><c><d></x></y>]]></a>", 1));
    assert!(nesting_is_within(b"<a><!-- <b><c> </x> --></a>", 1));
    assert!(nesting_is_within(b"<?xml version=\"1.0\"?><a><?pi <b><c> ?></a>", 1));
    assert!(!nesting_is_within(b"<a><![CDATA[ ]]><b>", 1));
    assert!(!nesting_is_within(b"<a><!-- --><b>", 1));
    assert!(!nesting_is_within(b"<a><?pi ?><b>", 1));
    // An end tag inside a section does not close the element around it.
    assert!(!nesting_is_within(b"<a><![CDATA[</a>]]><b>", 1));
    assert!(!nesting_is_within(b"<a><!--</a>--><b>", 1));
}

#[test]
fn nesting_reads_quotes_inside_tags() {
    assert!(nesting_is_within(b"<a b=\">\"></a>", 1));
    assert!(!nesting_is_within(b"<a b=\">\"><c>", 1));
    assert!(nesting_is_within(b"<a b='<c><d>'></a>", 1));
    assert!(nesting_is_within(b"<a b=\"/\"></a><c></c>", 1));
    assert!(!nesting_is_within(b"<a b='/'><c>", 1));
    assert!(nesting_is_within(b"<a b='x'/><c/>", 1));
}

#[test]
fn nesting_ends_a_short_comment_only_at_its_own_close() {
    // `<!--->` is no complete comment: the `>` stands too near the `<`.
    assert!(nesting_is_within(b"<!---><a><b>", 0));
    assert!(!nesting_is_within(b"<!----><a>", 0));
    assert!(!nesting_is_within(b"<!---><a>--><b>", 0));
}

#[test]
fn nesting_follows_a_doctype_without_internal_subset() {
    let plain = b"<!DOCTYPE rss PUBLIC \"-//Netscape//DTD RSS 0.91//EN\" \"http://x/[y]>\"><a/>";
    assert!(nesting_is_within(plain, 1));
    assert!(!nesting_is_within(plain, 0));
    assert!(!nesting_is_within(b"<!doctype x><a>", 0));
}

#[test]
fn nesting_follows_an_internal_subset_to_its_end() {
    let subset = b"<!DOCTYPE rss [ <!ENTITY a \"b\"> ]><a/>";
    assert!(nesting_is_within(subset, 1));
    assert!(!nesting_is_within(subset, 0));
    // Markup inside the subset opens no element.
    assert!(nesting_is_within(b"<!DOCTYPE r [<x><y><z>]><a/>", 1));
    assert!(nesting_is_within(b"<!DOCTYPE r [<x><y><z>", 0));
    // Behind the `]` the first `>` ends the declaration.
    assert!(!nesting_is_within(b"<!DOCTYPE r [] ignored ><a>", 0));
    assert!(nesting_is_within(b"<!DOCTYPE r [] <a>", 0));
}

#[test]
fn nesting_reads_quotes_in_entity_attlist_and_notation_declarations_only() {
    // The quoted `>` and `]` belong to the entity; `<a><b><c>` is still
    // markup of the subset, and `<d/>` is the first element.
    assert!(nesting_is_within(b"<!DOCTYPE r [<!ENTITY e \"x>]>\"><a><b><c>]><d/>", 1));
    assert!(nesting_is_within(b"<!DOCTYPE r [<!ATTLIST e 'x>]>'><a><b><c>]><d/>", 1));
    assert!(nesting_is_within(b"<!DOCTYPE r [<!NOTATION e \"x>]>\"><a><b><c>]><d/>", 1));
    assert!(nesting_is_within(b"<!DOCTYPE r [<!ENTITY a \"x>]><b>", 0));
    // An element declaration ends at the first `>`, quoted or not.
    assert!(!nesting_is_within(b"<!DOCTYPE r [<!ELEMENT a \"x>]><b>", 0));
    assert!(!nesting_is_within(b"<!DOCTYPE r [<!ENTIT a \"x>]><b>", 0));
    assert!(!nesting_is_within(b"<!DOCTYPE r [<!entity a \"x>]><b>", 0));
}

#[test]
fn nesting_reads_comments_and_instructions_of_an_internal_subset() {
    assert!(!nesting_is_within(b"<!DOCTYPE r [<!-- ]> -->]><a>", 0));
    assert!(nesting_is_within(b"<!DOCTYPE r [<!-- ]> -->]><a>", 1));
    assert!(nesting_is_within(b"<!DOCTYPE r [<!-- ]><a>", 0));
    assert!(!nesting_is_within(b"<!DOCTYPE r [<!---->]><a>", 0));
    assert!(nesting_is_within(b"<!DOCTYPE r [<!--->]><a>", 0));
    assert!(!nesting_is_within(b"<!DOCTYPE r [<!-x>]><a>", 0));
    assert!(!nesting_is_within(b"<!DOCTYPE r [<?p ]> ?>]><a>", 0));
    assert!(nesting_is_within(b"<!DOCTYPE r [<?p ]> ?>]><a>", 1));
    // Inside the subset `<?>` is no complete instruction; outside it is one.
    assert!(nesting_is_within(b"<!DOCTYPE r [<?>]><a>", 0));
    assert!(!nesting_is_within(b"<!DOCTYPE r [<??>]><a>", 0));
    assert!(!nesting_is_within(b"<?><a>", 0));
}

#[test]
fn step_walks_through_one_tag() {
    let start = Scan {
        mode: Mode::Text,
        depth: 0,
        quote: Quote::Outside,
        keyword: Keyword::Comment,
        run: 0,
        offset: 0,
        after_slash: false,
    };
    let opened = step(start, b'<', 5);
    assert_eq!(opened.mode, Mode::Opened);
    let in_tag = step(opened, b'a', 5);
    assert_eq!(in_tag.mode, Mode::StartTag);
    let quoted = step(in_tag, b'"', 5);
    assert_eq!(quoted.quote, Quote::Double);
    assert_eq!(step(quoted, b'>', 5).mode, Mode::StartTag);
    let closed = step(in_tag, b'>', 5);
    assert_eq!(closed.mode, Mode::Text);
    assert_eq!(closed.depth, 1);
    let too_deep = step(in_tag, b'>', 0);
    assert_eq!(too_deep.mode, Mode::TooDeep);
    assert_eq!(step(too_deep, b'<', 0), too_deep);
    assert_eq!(step(step(opened, b'!', 5), b'x', 5).mode, Mode::Stopped);
}

#[test]
fn step_walks_through_a_keyword_of_the_internal_subset() {
    let mut state = Scan {
        mode: Mode::Subset,
        depth: 3,
        quote: Quote::Outside,
        keyword: Keyword::Comment,
        run: 0,
        offset: 0,
        after_slash: false,
    };
    for &byte in b"<!ATTLIS" {
        state = step(state, byte, 5);
    }
    assert_eq!(state.mode, Mode::SubsetKeyword);
    assert_eq!(state.keyword, Keyword::Attlist);
    assert_eq!(state.run, 6);
    assert_eq!(step(state, b'T', 5).mode, Mode::SubsetQuoted);
    assert_eq!(step(state, b'x', 5).mode, Mode::SubsetDecl);
    assert_eq!(step(state, b'>', 5).mode, Mode::Subset);
    assert_eq!(step(state, b'T', 5).depth, 3);
}

#[test]
fn parse_accepts_nesting_up_to_the_limit() {
    assert_eq!(MAX_NESTING, 128);
    let at_limit = channel(&nested(MAX_NESTING - 2));
    assert_eq!(parse(&at_limit, "s"), Ok(Vec::new()));
    let past_limit = channel(&nested(MAX_NESTING - 1));
    assert_eq!(parse(&past_limit, "s"), Err(ParseFailure));
}

#[test]
fn parse_reads_nested_extension_elements_up_to_the_limit() {
    let deep = format!(
        "<item><title>kept</title><a:b>{}{}</a:b></item>",
        "<c>".repeat(MAX_NESTING - 4),
        "</c>".repeat(MAX_NESTING - 4)
    );
    let articles = parse(&channel(&deep), "s").unwrap();
    assert_eq!(articles.len(), 1);
    assert_eq!(articles[0].title, "kept");
}

#[test]
fn parse_fails_on_runaway_nesting_instead_of_running_out_of_stack() {
    let runaway = format!("<rss><channel><item><a:b>{}", "<c>".repeat(200_000));
    assert_eq!(parse(runaway.as_bytes(), "s"), Err(ParseFailure));
    let closed = channel(&format!(
        "<item><a:b>{}{}</a:b></item>",
        "<c>".repeat(200_000),
        "</c>".repeat(200_000)
    ));
    assert_eq!(parse(&closed, "s"), Err(ParseFailure));
}

#[test]
fn parse_reads_markup_kept_inside_cdata() {
    let body = format!("<p>{}</div></div>", "line<br>".repeat(500));
    let item = format!(
        "<item><title>t</title><description><![CDATA[{body}]]></description></item>"
    );
    let articles = parse(&channel(&item), "s").unwrap();
    assert_eq!(articles.len(), 1);
    assert_eq!(articles[0].description, body);
}

#[test]
fn parse_reads_many_sibling_entries() {
    let items = "<item><title>t</title><link>l</link><guid isPermaLink=\"false\">g</guid></item>"
        .repeat(40);
    assert_eq!(parse(&channel(&items), "s").unwrap().len(), 40);
}

#[test]
fn refresh_all_skips_a_source_whose_document_nests_too_deep() {
    let source = |name: &str| FeedSource { name: name.to_string(), url: "u".to_string() };
    let good = |title: &str| channel(&format!("<item><title>{title}</title></item>"));
    let runaway = format!("<rss><channel><item><a:b>{}", "<c>".repeat(50_000)).into_bytes();
    let sources = vec![source("A"), source("B"), source("C")];
    let fetched = vec![Ok(good("a")), Ok(runaway), Ok(good("c"))];
    let articles = refresh_all(&sources, &fetched);
    let titles: Vec<&str> = articles.iter().map(|a| a.title.as_str()).collect();
    assert_eq!(titles, vec!["a", "c"]);
}

#[test]
fn parse_reads_a_feed_whose_doctype_has_an_internal_subset() {
    let feed = "<?xml version=\"1.0\" encoding=\"UTF-8\"?>\n\
        <!DOCTYPE rss [\n\
          <!ENTITY publisher \"A > B ]> C\">\n\
          <!ELEMENT rss (channel)>\n\
          <!ATTLIST rss version CDATA #REQUIRED>\n\
          <!NOTATION gif SYSTEM 'image/gif'>\n\
          <!-- a comment with ]> and <item> inside -->\n\
          <?keep this ]> too ?>\n\
        ]>\n\
        <rss version=\"2.0\"><channel><title>t</title><link>l</link>\
        <description>d</description>\
        <item><title>first</title><link>http://example.org/1</link></item>\
        <item><title>second</title></item>\
        </channel></rss>";
    let articles = parse(feed.as_bytes(), "Old feed").unwrap();
    let titles: Vec<&str> = articles.iter().map(|a| a.title.as_str()).collect();
    assert_eq!(titles, vec!["first", "second"]);
    assert_eq!(articles[0].link, "http://example.org/1");
    assert_eq!(articles[1].source_name, "Old feed");
}

#[test]
fn parse_reads_a_feed_with_a_plain_doctype() {
    let feed = "<?xml version=\"1.0\"?>\
        <!DOCTYPE rss PUBLIC \"-//Netscape Communications//DTD RSS 0.91//EN\" \
        \"http://my.netscape.com/publish/formats/rss-0.91.dtd\">\
        <rss version=\"0.91\"><channel><title>t</title><link>l</link>\
        <description>d</description><item><title>only</title></item></channel></rss>";
    let articles = parse(feed.as_bytes(), "s").unwrap();
    assert_eq!(articles.len(), 1);
    assert_eq!(articles[0].title, "only");
}

#[test]
fn parse_caps_a_feed_with_an_internal_subset_at_fifty_entries() {
    let items: String =
        (0..60).map(|n| format!("<item><title>{n}</title></item>")).collect();
    let feed = format!(
        "<!DOCTYPE rss [<!ENTITY a \"b\">]><rss version=\"2.0\"><channel><title>t</title>\
         <link>l</link><description>d</description>{items}</channel></rss>"
    );
    let articles = parse(feed.as_bytes(), "Named").unwrap();
    assert_eq!(articles.len(), 50);
    assert_eq!(articles[0].title, "0");
    assert_eq!(articles[49].title, "49");
    assert!(articles.iter().all(|a| a.source_name == "Named"));
}

#[test]
fn parse_counts_elements_behind_an_internal_subset() {
    let deep = format!(
        "<!DOCTYPE rss [<!ENTITY a \"b\">]><rss><channel><item><a:b>{}",
        "<c>".repeat(100_000)
    );
    assert_eq!(parse(deep.as_bytes(), "s"), Err(ParseFailure));
}
