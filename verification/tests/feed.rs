use yt_sub::error::ParseError;
use yt_sub::feed::{Entry, Feed};
use yt_sub::time::Timestamp;
use yt_sub::video::Video;

fn complete(title: &str, link: &str, secs: i64) -> Entry {
    Entry {
        title: Some(title.to_string()),
        link: Some(link.to_string()),
        published: Some(Timestamp::new(secs, 0)),
    }
}

#[test]
fn from_xml_reads_channel_and_entries() {
    let xml = "<feed><author><name>Some Channel</name></author>\
               <entry><title>One</title><link rel=\"alternate\" href=\"https://e.com/1\"/>\
               <published>2024-01-01T00:00:00+00:00</published></entry>\
               <entry><title>Two</title><link href=\"https://e.com/2\"/></entry>\
               <entry><published>soon</published></entry></feed>";
    let feed = Feed::from_xml(xml).unwrap();
    assert_eq!(feed.channel.as_deref(), Some("Some Channel"));
    assert_eq!(feed.entries.len(), 3);
    assert_eq!(feed.entries[0].title.as_deref(), Some("One"));
    assert_eq!(feed.entries[0].link.as_deref(), Some("https://e.com/1"));
    assert_eq!(feed.entries[0].published, Some(Timestamp::new(1704067200, 0)));
    assert_eq!(feed.entries[1].title.as_deref(), Some("Two"));
    assert_eq!(feed.entries[1].link.as_deref(), Some("https://e.com/2"));
    assert_eq!(feed.entries[1].published, None);
    assert_eq!(feed.entries[2].title, None);
    assert_eq!(feed.entries[2].link, None);
    assert_eq!(feed.entries[2].published, None);
}

#[test]
fn from_xml_takes_a_lone_entry_as_one() {
    let xml = "<feed><author><name>C</name></author>\
               <entry><title>Only</title><link href=\"https://e.com/1\"/>\
               <published>2024-01-01T00:00:00Z</published></entry></feed>";
    let feed = Feed::from_xml(xml).unwrap();
    assert_eq!(feed.entries.len(), 1);
    assert_eq!(feed.entries[0].title.as_deref(), Some("Only"));
}

#[test]
fn from_xml_of_other_documents_has_no_channel() {
    let feed = Feed::from_xml("<rss><channel><title>x</title></channel></rss>").unwrap();
    assert_eq!(feed.channel, None);
    assert!(feed.entries.is_empty());
    let feed = Feed::from_xml("").unwrap();
    assert_eq!(feed.channel, None);
    assert!(feed.entries.is_empty());
}

#[test]
fn from_xml_refuses_the_reserved_name() {
    let err = Feed::from_xml("<feed><#cdata/><![CDATA[x]]></feed>").unwrap_err();
    assert_eq!(err, ParseError::Malformed);
    let err = Feed::from_xml("<feed><title><![CDATA[a <#cdata b]]></title></feed>").unwrap_err();
    assert_eq!(err, ParseError::Malformed);
}

#[test]
fn from_xml_reads_character_data() {
    let xml = "<feed><author><name>C</name></author>\
               <entry><title>T</title><link href=\"https://e.com/1\"/>\
               <published>2024-01-01T00:00:00Z</published></entry>\
               <entry><title><![CDATA[raw]]></title></entry></feed>";
    let feed = Feed::from_xml(xml).unwrap();
    assert_eq!(feed.entries.len(), 2);
    assert_eq!(feed.entries[1].title, None);
}

#[test]
fn from_feed_makes_one_video_per_entry() {
    let feed = Feed {
        channel: Some("Channel".to_string()),
        entries: vec![complete("A", "la", 30), complete("B", "lb", 10), complete("C", "lc", 20)],
    };
    let videos = Video::from_feed(&feed, Some("@handle".to_string())).unwrap();
    assert_eq!(videos.len(), 3);
    let titles: Vec<&str> = videos.iter().map(|v| v.title.as_str()).collect();
    assert_eq!(titles, vec!["A", "B", "C"]);
    for v in &videos {
        assert_eq!(v.channel, "Channel");
        assert_eq!(v.channel_handle.as_deref(), Some("@handle"));
    }
    assert_eq!(videos[1].link, "lb");
    assert_eq!(videos[1].published_at, Timestamp::new(10, 0));
}

#[test]
fn from_feed_without_entries_is_empty() {
    let feed = Feed { channel: Some("Channel".to_string()), entries: Vec::new() };
    assert_eq!(Video::from_feed(&feed, None).unwrap().len(), 0);
}

#[test]
fn from_feed_needs_the_channel_name() {
    let feed = Feed { channel: None, entries: Vec::new() };
    assert_eq!(Video::from_feed(&feed, None).unwrap_err(), ParseError::Malformed);
    let feed = Feed { channel: None, entries: vec![complete("A", "la", 1)] };
    assert_eq!(Video::from_feed(&feed, None).unwrap_err(), ParseError::Malformed);
}

#[test]
fn from_feed_fails_on_one_incomplete_entry() {
    let cases = vec![
        Entry { title: None, ..complete("A", "la", 1) },
        Entry { link: None, ..complete("A", "la", 1) },
        Entry { published: None, ..complete("A", "la", 1) },
    ];
    for broken in cases {
        let feed = Feed {
            channel: Some("Channel".to_string()),
            entries: vec![complete("A", "la", 1), broken, complete("B", "lb", 2)],
        };
        assert_eq!(Video::from_feed(&feed, None).unwrap_err(), ParseError::Malformed);
    }
}

fn object(members: Vec<(&str, serde_json::Value)>) -> serde_json::Value {
    let mut map = serde_json::Map::new();
    for (key, value) in members {
        map.insert(key.to_string(), value);
    }
    serde_json::Value::Object(map)
}

fn text(s: &str) -> serde_json::Value {
    serde_json::Value::String(s.to_string())
}

fn json_entry(title: &str, href: &str, published: &str) -> serde_json::Value {
    object(vec![
        ("title", text(title)),
        ("link", object(vec![("@rel", text("alternate")), ("@href", text(href))])),
        ("published", text(published)),
    ])
}

#[test]
fn entry_from_json_picks_its_fields() {
    let e = Entry::from_json(&json_entry("T", "https://e.com/t", "2024-01-01T12:00:00+00:00"));
    assert_eq!(e.title.as_deref(), Some("T"));
    assert_eq!(e.link.as_deref(), Some("https://e.com/t"));
    assert_eq!(e.published, Some(Timestamp::new(1704110400, 0)));
}

#[test]
fn entry_from_json_leaves_out_what_is_no_string() {
    let e = Entry::from_json(&object(vec![
        ("title", serde_json::Value::Null),
        ("link", text("https://e.com/t")),
        ("published", serde_json::Value::Bool(true)),
    ]));
    assert_eq!(e.title, None);
    assert_eq!(e.link, None);
    assert_eq!(e.published, None);

    let e = Entry::from_json(&object(vec![
        ("title", serde_json::Value::Array(vec![text("a"), text("b")])),
        ("link", object(vec![("@href", serde_json::Value::Null)])),
        ("published", text("not a time")),
    ]));
    assert_eq!(e.title, None);
    assert_eq!(e.link, None);
    assert_eq!(e.published, None);

    let e = Entry::from_json(&text("just text"));
    assert_eq!(e.title, None);
    assert_eq!(e.link, None);
    assert_eq!(e.published, None);
}

#[test]
fn feed_from_json_reads_an_array_of_entries() {
    let doc = object(vec![(
        "feed",
        object(vec![
            ("author", object(vec![("name", text("Channel")), ("uri", text("u"))])),
            (
                "entry",
                serde_json::Value::Array(vec![
                    json_entry("A", "la", "2024-01-01T00:00:00Z"),
                    json_entry("B", "lb", "2024-01-02T00:00:00Z"),
                    serde_json::Value::Null,
                ]),
            ),
        ]),
    )]);
    let feed = Feed::from_json(&doc);
    assert_eq!(feed.channel.as_deref(), Some("Channel"));
    assert_eq!(feed.entries.len(), 3);
    assert_eq!(feed.entries[0].title.as_deref(), Some("A"));
    assert_eq!(feed.entries[1].link.as_deref(), Some("lb"));
    assert_eq!(feed.entries[2].title, None);
}

#[test]
fn feed_from_json_takes_anything_else_as_one_entry() {
    let doc = object(vec![(
        "feed",
        object(vec![("entry", json_entry("A", "la", "2024-01-01T00:00:00Z"))]),
    )]);
    let feed = Feed::from_json(&doc);
    assert_eq!(feed.channel, None);
    assert_eq!(feed.entries.len(), 1);
    assert_eq!(feed.entries[0].title.as_deref(), Some("A"));

    let doc = object(vec![("feed", object(vec![("entry", serde_json::Value::Null)]))]);
    let feed = Feed::from_json(&doc);
    assert_eq!(feed.entries.len(), 1);
    assert_eq!(feed.entries[0].title, None);
}

#[test]
fn feed_from_json_of_no_feed_is_empty() {
    for doc in [
        serde_json::Value::Null,
        text("feed"),
        serde_json::Value::Array(vec![]),
        object(vec![("feed", text("x"))]),
        object(vec![("feed", object(vec![("author", text("x"))]))]),
    ] {
        let feed = Feed::from_json(&doc);
        assert_eq!(feed.channel, None);
        assert!(feed.entries.is_empty());
    }
}
