//! A channel's feed: from the XML document to plain values.
//!
//! The document is converted to JSON by `xmltojson` and the JSON is read through
//! `serde_json`'s accessors. Verus sees neither from the inside, so each result
//! has a name, and [`Feed::from_json`] says over those names which values it
//! picks. Everything after that works on [`Feed`], which holds plain values.

use vstd::prelude::*;
use vstd::utf8::encode_utf8;
use crate::error::ParseError;
use crate::text::{contains_bytes, has_infix};
use crate::time::Timestamp;

verus! {

/// `serde_json::Value`, a JSON value. It is carried, never looked into.
#[verifier::external_type_specification]
#[verifier::external_body]
pub struct ExJsonValue(serde_json::Value);

/// `xmltojson::Error`, the converter's error. It says nothing more.
#[verifier::external_type_specification]
#[verifier::external_body]
pub struct ExXmlError(xmltojson::Error);

/// The JSON value that `xmltojson` makes of an XML text, or `None` where it
/// reports an error.
pub uninterp spec fn xml_json(xml: Seq<char>) -> Option<serde_json::Value>;

/// What a JSON value holds under `key`: the member of that name where the value is
/// an object that has one, `None` otherwise.
pub uninterp spec fn json_member(value: serde_json::Value, key: Seq<char>) -> Option<
    serde_json::Value,
>;

/// The text of a JSON value that is a string, `None` for any other value.
pub uninterp spec fn json_string(value: serde_json::Value) -> Option<Seq<char>>;

/// The elements of a JSON value that is an array, `None` for any other value.
pub uninterp spec fn json_array(value: serde_json::Value) -> Option<Seq<serde_json::Value>>;

/// Whether the text holds `<#cdata`, the opening of an element named as the
/// converter names character data.
pub open spec fn holds_reserved_name(xml: Seq<char>) -> bool {
    has_infix(encode_utf8(xml), encode_utf8("<#cdata"@))
}

/// Calls `xmltojson::to_json`. The result depends on the text alone, and it has a
/// name for that reason; nothing is claimed of what the JSON looks like, nor that
/// the conversion succeeds.
///
/// The converter keeps character data under the key `#cdata` and unwraps what it
/// finds there as a string; an element of that very name puts another kind of
/// value there, and the unwrapping fails. An element's name follows its `<` at
/// once, so a text without `<#cdata` has no such element, and only such texts are
/// handed over. The converter descends once per level of nesting and needs stack
/// for it as any recursion does; of memory no contract here speaks.
#[verifier::external_body]
fn xml_to_json(xml: &str) -> (r: Result<serde_json::Value, xmltojson::Error>)
    requires
        !holds_reserved_name(xml@),
    ensures
        r matches Ok(doc) ==> xml_json(xml@) == Some(doc),
        r is Err ==> xml_json(xml@) is None,
{
    xmltojson::to_json(xml)
}

/// Calls `serde_json::Value::get` with a string key: the member of that name of an
/// object, `None` for a missing key and for a value that is no object.
#[verifier::external_body]
fn member<'a>(value: &'a serde_json::Value, key: &str) -> (r: Option<&'a serde_json::Value>)
    ensures
        r matches Some(v) ==> json_member(*value, key@) == Some(*v),
        r is None ==> json_member(*value, key@) is None,
{
    value.get(key)
}

/// Calls `serde_json::Value::as_str`: the text of a string, `None` for any other
/// value.
#[verifier::external_body]
fn string_of<'a>(value: &'a serde_json::Value) -> (r: Option<&'a str>)
    ensures
        r matches Some(s) ==> json_string(*value) == Some(s@),
        r is None ==> json_string(*value) is None,
{
    value.as_str()
}

/// Calls `serde_json::Value::as_array`: the elements of an array, `None` for any
/// other value.
#[verifier::external_body]
fn items_of<'a>(value: &'a serde_json::Value) -> (r: Option<&'a Vec<serde_json::Value>>)
    ensures
        r matches Some(items) ==> json_array(*value) == Some(items@),
        r is None ==> json_array(*value) is None,
{
    value.as_array()
}

/// The text under `key` in `value`, where that member is a string.
pub open spec fn member_string(value: serde_json::Value, key: Seq<char>) -> Option<Seq<char>> {
    match json_member(value, key) {
        Some(v) => json_string(v),
        None => None,
    }
}

/// One entry of a feed as it was found; a field that the document lacks, or that
/// could not be read, is `None`.
#[derive(Debug)]
pub struct Entry {
    pub title: Option<String>,
    pub link: Option<String>,
    pub published: Option<Timestamp>,
}

/// An [`Entry`] with its texts as sequences of characters.
pub struct EntryView {
    pub title: Option<Seq<char>>,
    pub link: Option<Seq<char>>,
    pub published: Option<Timestamp>,
}

impl View for Entry {
    type V = EntryView;

    open spec fn view(&self) -> EntryView {
        EntryView {
            title: self.title.deep_view(),
            link: self.link.deep_view(),
            published: self.published,
        }
    }
}

impl EntryView {
    /// Whether the entry has all that a video needs.
    pub open spec fn complete(self) -> bool {
        self.title is Some && self.link is Some && self.published is Some
    }
}

/// A feed as it was found: the channel's display name and the entries, in the
/// order of the document.
#[derive(Debug)]
pub struct Feed {
    pub channel: Option<String>,
    pub entries: Vec<Entry>,
}

/// A [`Feed`] with its texts as sequences of characters.
pub struct FeedView {
    pub channel: Option<Seq<char>>,
    pub entries: Seq<EntryView>,
}

impl View for Feed {
    type V = FeedView;

    open spec fn view(&self) -> FeedView {
        FeedView {
            channel: self.channel.deep_view(),
            entries: self.entries@.map_values(|e: Entry| e@),
        }
    }
}

/// The entry that a JSON value stands for: its `title`, the `@href` of its `link`,
/// and the instant that its `published` text denotes.
pub open spec fn entry_of_json(value: serde_json::Value) -> EntryView {
    EntryView {
        title: member_string(value, "title"@),
        link: match json_member(value, "link"@) {
            Some(link) => member_string(link, "@href"@),
            None => None,
        },
        published: match member_string(value, "published"@) {
            Some(text) => Timestamp::of_text(text),
            None => None,
        },
    }
}

/// The JSON values that stand for the entries of a document. A document without
/// `feed.entry` has none. The converter makes an array of an element that
/// occurs more than once and leaves a single one as it is, so anything but an
/// array under `feed.entry` is one entry.
pub open spec fn entry_values(doc: serde_json::Value) -> Seq<serde_json::Value> {
    match json_member(doc, "feed"@) {
        Some(feed) => match json_member(feed, "entry"@) {
            Some(entry) => match json_array(entry) {
                Some(items) => items,
                None => seq![entry],
            },
            None => Seq::empty(),
        },
        None => Seq::empty(),
    }
}

/// The channel's display name in a document: the string at `feed.author.name`.
pub open spec fn channel_of_json(doc: serde_json::Value) -> Option<Seq<char>> {
    match json_member(doc, "feed"@) {
        Some(feed) => match json_member(feed, "author"@) {
            Some(author) => member_string(author, "name"@),
            None => None,
        },
        None => None,
    }
}

/// The feed that a JSON document stands for.
pub open spec fn feed_of_json(doc: serde_json::Value) -> FeedView {
    FeedView {
        channel: channel_of_json(doc),
        entries: entry_values(doc).map_values(|v: serde_json::Value| entry_of_json(v)),
    }
}

/// The feed that an XML text stands for; an error where the text is refused or
/// cannot be converted.
pub open spec fn feed_of_xml(xml: Seq<char>) -> Result<FeedView, ParseError> {
    if holds_reserved_name(xml) {
        Err(ParseError::Malformed)
    } else {
        match xml_json(xml) {
            Some(doc) => Ok(feed_of_json(doc)),
            None => Err(ParseError::Malformed),
        }
    }
}

/// A feed that was read, or the error, by its view.
pub open spec fn feed_result_view(r: Result<Feed, ParseError>) -> Result<FeedView, ParseError> {
    match r {
        Ok(feed) => Ok(feed@),
        Err(e) => Err(e),
    }
}

fn member_text(value: &serde_json::Value, key: &str) -> (r: Option<String>)
    ensures
        r.deep_view() == member_string(*value, key@),
{
    match member(value, key) {
        Some(v) => match string_of(v) {
            Some(s) => Some(s.to_owned()),
            None => None,
        },
        None => None,
    }
}

impl Entry {
    /// Reads one entry out of its JSON value.
    pub fn from_json(value: &serde_json::Value) -> (r: Entry)
        ensures
            r@ == entry_of_json(*value),
    {
        let title = member_text(value, "title");
        let link = match member(value, "link") {
            Some(link) => member_text(link, "@href"),
            None => None,
        };
        let published = match member_text(value, "published") {
            Some(text) => Timestamp::parse(text.as_str()),
            None => None,
        };
        Entry { title, link, published }
    }
}

impl Feed {
    /// Reads a feed out of the JSON document that the converter made.
    pub fn from_json(doc: &serde_json::Value) -> (r: Feed)
        ensures
            r@ == feed_of_json(*doc),
    {
        let mut channel: Option<String> = None;
        let mut entries: Vec<Entry> = Vec::new();
        if let Some(feed) = member(doc, "feed") {
            if let Some(author) = member(feed, "author") {
                channel = member_text(author, "name");
            }
            if let Some(entry) = member(feed, "entry") {
                match items_of(entry) {
                    Some(items) => {
                        let mut i: usize = 0;
                        while i < items.len()
                            invariant
                                i <= items.len(),
                                entries@.len() == i,
                                forall|k: int|
                                    0 <= k < i ==> (#[trigger] entries@[k])@ == entry_of_json(
                                        items@[k],
                                    ),
                            decreases items.len() - i,
                        {
                            entries.push(Entry::from_json(&items[i]));
                            i += 1;
                        }
                    },
                    None => {
                        entries.push(Entry::from_json(entry));
                    },
                }
            }
        }
        let r = Feed { channel, entries };
        assert(r@.entries =~= feed_of_json(*doc).entries);
        r
    }

    /// Converts the XML text of a feed and reads the feed out of it.
    ///
    /// A text that holds `<#cdata` is refused: no well-formed document has an
    /// element of that name, and the converter is not asked about one.
    pub fn from_xml(xml: &str) -> (r: Result<Feed, ParseError>)
        ensures
            feed_result_view(r) == feed_of_xml(xml@),
    {
        if contains_bytes(xml.as_bytes(), "<#cdata".as_bytes()) {
            return Err(ParseError::Malformed);
        }
        match xml_to_json(xml) {
            Ok(doc) => Ok(Feed::from_json(&doc)),
            Err(_) => Err(ParseError::Malformed),
        }
    }
}

} // verus!
