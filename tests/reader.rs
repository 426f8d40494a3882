use rss_reader::error::ReaderError;
use rss_reader::feed::{Channel, Item, Rss, SEPARATOR};
use rss_reader::reader::RssReader;
use rss_reader::registry::{labels, POLITICA_URL, PRIMA_PAGINA_URL, SPORT_URL};
use rss_reader::selection::parse_selection;
use rss_reader::session::{check_status, menu_text, on_status, on_transport_failure, Action};

fn item(title: &str, description: &str) -> Item {
    Item {
        title: title.to_string(),
        link: format!("https://example.com/{}", title),
        description: description.to_string(),
        pub_date: "Mon, 01 Jan 2024 10:00:00 +0100".to_string(),
    }
}

fn feed(items: Vec<Item>) -> Rss {
    Rss {
        channel: Channel {
            title: "News".to_string(),
            description: "All the news".to_string(),
            link: "https://example.com".to_string(),
            items,
        },
    }
}

#[test]
fn test_remove_tags() {
    let reader = RssReader::new().unwrap();
    let html = "<p>Hello <b>world</b>!</p>&nbsp;Test";
    let cleaned = reader.remove_tags(html);
    assert_eq!(cleaned, "Hello world! Test");
}

#[test]
fn test_category_urls() {
    let reader = RssReader::new().unwrap();
    assert!(reader.lookup(1).is_ok());
    assert!(reader.lookup(3).is_ok());
    assert!(!reader.lookup(10).is_ok());
}

#[test]
fn remove_tags_empty_and_plain() {
    let reader = RssReader::new().unwrap();
    assert_eq!(reader.remove_tags(""), "");
    assert_eq!(reader.remove_tags("no tags here"), "no tags here");
}

#[test]
fn remove_tags_unmatched_brackets_kept() {
    let reader = RssReader::new().unwrap();
    assert_eq!(reader.remove_tags("a < b"), "a < b");
    assert_eq!(reader.remove_tags("a > b"), "a > b");
    assert_eq!(reader.remove_tags("x<y"), "x<y");
}

#[test]
fn remove_tags_nested_looking_tag() {
    let reader = RssReader::new().unwrap();
    assert_eq!(reader.remove_tags("<a<b>>"), ">");
    assert_eq!(reader.remove_tags("<img src=\"a.png\"/>text"), "text");
}

#[test]
fn remove_tags_is_idempotent() {
    let reader = RssReader::new().unwrap();
    let inputs = ["<p>Hello <b>world</b>!</p>&nbsp;Test", "&&nbsp;nbsp;", "<a<b>>c", "x<y"];
    for input in inputs.iter() {
        let once = reader.remove_tags(input);
        let twice = reader.remove_tags(&once);
        assert_eq!(once, twice);
    }
}

#[test]
fn remove_tags_leaves_no_brackets_on_well_tagged_text() {
    let reader = RssReader::new().unwrap();
    let out = reader.remove_tags("<div class=\"x\">a</div><br/>b<i>c</i>");
    assert_eq!(out, "abc");
    assert!(!out.contains('<') && !out.contains('>'));
}

#[test]
fn remove_tags_entity_after_tags() {
    let reader = RssReader::new().unwrap();
    assert_eq!(reader.remove_tags("&nb<b>sp;"), " ");
    assert_eq!(reader.remove_tags("a&nbsp;&nbsp;b"), "a  b");
}

#[test]
fn lookup_known_and_unknown_ids() {
    let reader = RssReader::new().unwrap();
    assert_eq!(reader.lookup(1), Ok(PRIMA_PAGINA_URL));
    assert_eq!(reader.lookup(3), Ok(POLITICA_URL));
    assert_eq!(reader.lookup(8), Ok(SPORT_URL));
    assert_eq!(reader.lookup(10), Err(ReaderError::CategoryNotFound { id: 10 }));
    assert_eq!(reader.lookup(0), Err(ReaderError::CategoryNotFound { id: 0 }));
    assert_eq!(reader.lookup(9), Err(ReaderError::CategoryNotFound { id: 9 }));
}

#[test]
fn parse_selection_values() {
    assert_eq!(parse_selection("3\n"), Ok(3));
    assert_eq!(parse_selection("  +7 \t"), Ok(7));
    assert_eq!(parse_selection("4294967295"), Ok(4294967295));
    assert_eq!(parse_selection("4294967296"), Err(ReaderError::InvalidSelection));
    assert_eq!(parse_selection("abc"), Err(ReaderError::InvalidSelection));
    assert_eq!(parse_selection(""), Err(ReaderError::InvalidSelection));
    assert_eq!(parse_selection("+"), Err(ReaderError::InvalidSelection));
    assert_eq!(parse_selection("-1"), Err(ReaderError::InvalidSelection));
    assert_eq!(parse_selection("1 2"), Err(ReaderError::InvalidSelection));
}

#[test]
fn selecting_zero_exits_without_fetch() {
    let reader = RssReader::new().unwrap();
    assert!(matches!(reader.on_selection("0\n"), Action::Exit { code: 0 }));
}

#[test]
fn selecting_a_category_fetches_its_url() {
    let reader = RssReader::new().unwrap();
    match reader.on_selection("2\n") {
        Action::Fetch { url } => assert_eq!(url, "https://www.adnkronos.com/RSS_Ultimora.xml"),
        other => panic!("unexpected action {:?}", other),
    }
}

#[test]
fn selecting_unknown_or_invalid_fails() {
    let reader = RssReader::new().unwrap();
    match reader.on_selection("10") {
        Action::Fail { error } => assert_eq!(error, ReaderError::CategoryNotFound { id: 10 }),
        other => panic!("unexpected action {:?}", other),
    }
    match reader.on_selection("news") {
        Action::Fail { error } => assert_eq!(error, ReaderError::InvalidSelection),
        other => panic!("unexpected action {:?}", other),
    }
}

#[test]
fn status_404_fails_without_reading_body() {
    assert_eq!(check_status(404), Err(ReaderError::UnexpectedStatus { code: 404 }));
    match on_status(404) {
        Action::Fail { error } => assert_eq!(error, ReaderError::UnexpectedStatus { code: 404 }),
        other => panic!("unexpected action {:?}", other),
    }
}

#[test]
fn status_success_reads_body() {
    assert_eq!(check_status(200), Ok(()));
    assert_eq!(check_status(299), Ok(()));
    assert_eq!(check_status(300), Err(ReaderError::UnexpectedStatus { code: 300 }));
    assert_eq!(check_status(199), Err(ReaderError::UnexpectedStatus { code: 199 }));
    assert!(matches!(on_status(204), Action::ReadBody));
}

#[test]
fn transport_failure_is_reported() {
    match on_transport_failure("timed out".to_string()) {
        Action::Fail { error } => {
            assert_eq!(error, ReaderError::Transport { cause: "timed out".to_string() })
        }
        other => panic!("unexpected action {:?}", other),
    }
}

#[test]
fn parse_failure_displays_nothing() {
    let reader = RssReader::new().unwrap();
    match reader.on_body(Err("unexpected end of document".to_string())) {
        Action::Fail { error } => assert_eq!(
            error,
            ReaderError::ParseError { detail: "unexpected end of document".to_string() }
        ),
        other => panic!("unexpected action {:?}", other),
    }
}

#[test]
fn feed_with_items_renders_one_block_per_item_in_order() {
    let reader = RssReader::new().unwrap();
    let rss = feed(vec![
        item("first", "<p>One&nbsp;two</p>"),
        item("second", "plain"),
        item("third", "<b>bold</b>"),
    ]);
    let text = match reader.on_body(Ok(rss)) {
        Action::Display { text } => text,
        other => panic!("unexpected action {:?}", other),
    };
    assert_eq!(text.matches(SEPARATOR).count(), 3);
    let first = text.find("Title: first").unwrap();
    let second = text.find("Title: second").unwrap();
    let third = text.find("Title: third").unwrap();
    assert!(first < second && second < third);
    assert!(text.contains("Description: One two\n"));
    assert!(text.contains("Description: bold\n"));
    assert!(!text.contains("<p>"));
}

#[test]
fn display_feed_exact_text() {
    let reader = RssReader::new().unwrap();
    let rss = feed(vec![item("a", "x<br/>y")]);
    let expected = format!(
        "\nTitle: News\nLink: https://example.com\nDescription: All the news\n\n\
         Title: a\nLink: https://example.com/a\nDescription: xy\n\
         Published: Mon, 01 Jan 2024 10:00:00 +0100\n\n{}",
        SEPARATOR
    );
    assert_eq!(reader.display_feed(&rss), expected);
}

#[test]
fn display_feed_without_items() {
    let reader = RssReader::new().unwrap();
    let text = reader.display_feed(&feed(Vec::new()));
    assert_eq!(text, "\nTitle: News\nLink: https://example.com\nDescription: All the news\n\n");
}

#[test]
fn menu_lists_exit_and_categories_in_order() {
    let menu = menu_text();
    assert_eq!(
        menu,
        "Adnkronos RSS Reader\n0: Exit\n1: Prima Pagina\n2: Ultim'ora\n3: Politica\n\
         4: Esteri\n5: Cronaca\n6: Economia\n7: Finanza\n8: Sport\n\nSelect category number: "
    );
}

#[test]
fn labels_in_display_order() {
    let l = labels();
    assert_eq!(l.len(), 8);
    assert_eq!(l[0], (1, "Prima Pagina"));
    assert_eq!(l[1], (2, "Ultim'ora"));
    assert_eq!(l[7], (8, "Sport"));
    for (i, (id, _)) in l.iter().enumerate() {
        assert_eq!(*id as usize, i + 1);
    }
}
