//! Videos: reading them from a feed, keeping the fresh ones, ordering them and
//! wording their notifications.

use vstd::prelude::*;
use crate::error::{FormatError, ParseError};
use crate::feed::{feed_of_xml, EntryView, Feed, FeedView};
use crate::notifier::{Notifier, NotifierKind};
use crate::text::{decimal, decimal_text, join, joined, views};
use crate::time::Timestamp;

verus! {

/// A published video.
#[derive(Debug)]
pub struct Video {
    /// The display name of the channel.
    pub channel: String,
    /// The channel's handle, where one is configured.
    pub channel_handle: Option<String>,
    pub title: String,
    pub link: String,
    pub published_at: Timestamp,
}

/// A [`Video`] with its texts as sequences of characters.
pub struct VideoView {
    pub channel: Seq<char>,
    pub channel_handle: Option<Seq<char>>,
    pub title: Seq<char>,
    pub link: Seq<char>,
    pub published_at: Timestamp,
}

impl View for Video {
    type V = VideoView;

    open spec fn view(&self) -> VideoView {
        VideoView {
            channel: self.channel@,
            channel_handle: self.channel_handle.deep_view(),
            title: self.title@,
            link: self.link@,
            published_at: self.published_at,
        }
    }
}

impl Clone for Video {
    fn clone(&self) -> (r: Video)
        ensures
            r@ == self@,
    {
        Video {
            channel: self.channel.clone(),
            channel_handle: clone_text(&self.channel_handle),
            title: self.title.clone(),
            link: self.link.clone(),
            published_at: self.published_at,
        }
    }
}

fn clone_text(text: &Option<String>) -> (r: Option<String>)
    ensures
        r.deep_view() == text.deep_view(),
{
    match text {
        Some(s) => Some(s.clone()),
        None => None,
    }
}

/// The view of each video, in order.
pub open spec fn video_views(videos: Seq<Video>) -> Seq<VideoView> {
    videos.map_values(|v: Video| v@)
}

/// The video that a complete entry of a channel's feed stands for.
pub open spec fn video_of_entry(
    channel: Seq<char>,
    channel_handle: Option<Seq<char>>,
    entry: EntryView,
) -> VideoView
    recommends
        entry.complete(),
{
    VideoView {
        channel,
        channel_handle,
        title: entry.title->0,
        link: entry.link->0,
        published_at: entry.published->0,
    }
}

/// Whether a feed has all that its videos need: the channel's name, and in each
/// entry a title, a link and a time of publication.
pub open spec fn feed_complete(feed: FeedView) -> bool {
    &&& feed.channel is Some
    &&& forall|i: int| 0 <= i < feed.entries.len() ==> (#[trigger] feed.entries[i]).complete()
}

/// The videos of a feed, one per entry and in the entries' order; an error for
/// a feed that is not complete. One incomplete entry fails the whole feed.
pub open spec fn videos_of_feed(feed: FeedView, channel_handle: Option<Seq<char>>) -> Result<
    Seq<VideoView>,
    ParseError,
> {
    if feed_complete(feed) {
        Ok(
            feed.entries.map_values(
                |e: EntryView| video_of_entry(feed.channel->0, channel_handle, e),
            ),
        )
    } else {
        Err(ParseError::Malformed)
    }
}

/// What reading the XML text of a channel's feed gives.
pub open spec fn videos_of_xml(xml: Seq<char>, channel_handle: Option<Seq<char>>) -> Result<
    Seq<VideoView>,
    ParseError,
> {
    match feed_of_xml(xml) {
        Ok(feed) => videos_of_feed(feed, channel_handle),
        Err(e) => Err(e),
    }
}

/// Videos that were read, or the error, by their views.
pub open spec fn videos_result_view<E>(r: Result<Vec<Video>, E>) -> Result<Seq<VideoView>, E> {
    match r {
        Ok(videos) => Ok(video_views(videos@)),
        Err(e) => Err(e),
    }
}

/// A text that was made, or the error, by its view.
pub open spec fn text_result_view(r: Result<String, FormatError>) -> Result<
    Seq<char>,
    FormatError,
> {
    match r {
        Ok(text) => Ok(text@),
        Err(e) => Err(e),
    }
}

/// How long ago, in words, for a whole number of elapsed seconds: hours from one
/// hour on, minutes from one minute on, and "just now" below that and for an
/// instant that is still to come.
pub open spec fn time_ago(elapsed_seconds: int) -> Seq<char> {
    let hours = elapsed_seconds / 3600;
    let minutes = elapsed_seconds / 60;
    if elapsed_seconds >= 3600 {
        if hours == 1 {
            "1 hour ago"@
        } else {
            decimal(hours as nat) + " hours ago"@
        }
    } else if elapsed_seconds >= 60 {
        if minutes == 1 {
            "1 minute ago"@
        } else {
            decimal(minutes as nat) + " minutes ago"@
        }
    } else {
        "just now"@
    }
}

/// A title that links to its video, as markdown writes it.
pub open spec fn markdown_link(title: Seq<char>, link: Seq<char>) -> Seq<char> {
    "["@ + title + "]("@ + link + ")"@
}

/// The parts of a log line: a dash, the channel's handle, the linked title, and
/// a dash with the time that has passed. A handle that is absent or empty is
/// left out, and so is an empty time.
pub open spec fn log_parts(video: VideoView, ago: Seq<char>) -> Seq<Seq<char>> {
    let handle: Seq<Seq<char>> = match video.channel_handle {
        Some(h) => if h.len() > 0 {
            seq![h]
        } else {
            seq![]
        },
        None => seq![],
    };
    let time: Seq<Seq<char>> = if ago.len() > 0 {
        seq!["- "@ + ago]
    } else {
        seq![]
    };
    seq!["-"@] + handle + seq![markdown_link(video.title, video.link)] + time
}

/// The line for a log: the parts with one space between each two.
pub open spec fn log_text(video: VideoView, ago: Seq<char>) -> Seq<char> {
    joined(log_parts(video, ago), " "@)
}

/// The message for Slack.
pub open spec fn slack_text(video: VideoView) -> Seq<char> {
    "*New video - "@ + video.channel + "* <"@ + video.link + "|"@ + video.title + ">"@
}

/// The notification of a video for a kind of notifier at the instant `now`.
pub open spec fn notification(video: VideoView, kind: NotifierKind, now: Timestamp) -> Result<
    Seq<char>,
    FormatError,
> {
    match kind {
        NotifierKind::Log => Ok(
            log_text(video, time_ago(now.whole_seconds_since(video.published_at))),
        ),
        NotifierKind::Slack => Ok(slack_text(video)),
        NotifierKind::Telegram => Err(FormatError::Unsupported),
    }
}

/// Whether the sequence runs from the newest video to the oldest.
pub open spec fn newest_first(videos: Seq<VideoView>) -> bool {
    forall|i: int, j: int|
        0 <= i < j < videos.len() ==> !(#[trigger] videos[j]).published_at.is_after(
            (#[trigger] videos[i]).published_at,
        )
}

/// Whether `after` holds the videos of `before`, the one at `i` taken from
/// `from[i]`, each exactly once, newer before older, and videos of one instant in
/// the order they had in `before`.
pub open spec fn stable_order(before: Seq<VideoView>, after: Seq<VideoView>, from: Seq<int>) -> bool {
    &&& after.len() == before.len()
    &&& from.len() == before.len()
    &&& forall|i: int|
        0 <= i < from.len() ==> 0 <= #[trigger] from[i] < before.len() && after[i] == before[from[i]]
    &&& forall|i: int, j: int|
        0 <= i < j < from.len() ==> {
            let a = before[#[trigger] from[i]].published_at;
            let b = before[#[trigger] from[j]].published_at;
            a.is_after(b) || (a == b && from[i] < from[j])
        }
}

/// Whether `after` is `before` sorted from newest to oldest, with videos of one
/// instant left in their order.
pub open spec fn sorted_newest_first(before: Seq<VideoView>, after: Seq<VideoView>) -> bool {
    exists|from: Seq<int>| stable_order(before, after, from)
}

/// Videos in a stable order run from newest to oldest.
pub proof fn lemma_stable_order_is_newest_first(
    before: Seq<VideoView>,
    after: Seq<VideoView>,
    from: Seq<int>,
)
    requires
        stable_order(before, after, from),
    ensures
        newest_first(after),
{
    assert forall|i: int, j: int| 0 <= i < j < after.len() implies !(#[trigger] after[j]).published_at.is_after(
        (#[trigger] after[i]).published_at,
    ) by {
        let a = before[from[i]].published_at;
        let b = before[from[j]].published_at;
        assert(a.is_after(b) || (a == b && from[i] < from[j]));
    }
}

impl VideoView {
    /// Whether the video was published strictly after `watermark`.
    pub open spec fn is_fresh(self, watermark: Timestamp) -> bool {
        self.published_at.is_after(watermark)
    }
}

/// The videos published strictly after `watermark`, in their order.
pub open spec fn fresh(videos: Seq<VideoView>, watermark: Timestamp) -> Seq<VideoView> {
    videos.filter(|v: VideoView| v.is_fresh(watermark))
}

impl Video {
    /// Whether the video was published strictly after `watermark`.
    pub fn is_fresh(&self, watermark: Timestamp) -> (r: bool)
        ensures
            r == self@.is_fresh(watermark),
    {
        self.published_at.is_after(watermark)
    }

    /// Makes the videos of a feed, each with the feed's channel name and the
    /// given handle. A feed without a channel name, or with an entry that lacks
    /// a title, a link or a time of publication, is malformed as a whole.
    pub fn from_feed(feed: &Feed, channel_handle: Option<String>) -> (r: Result<
        Vec<Video>,
        ParseError,
    >)
        ensures
            videos_result_view(r) == videos_of_feed(feed@, channel_handle.deep_view()),
    {
        let channel = match &feed.channel {
            Some(name) => name,
            None => {
                return Err(ParseError::Malformed);
            },
        };
        let mut videos: Vec<Video> = Vec::new();
        let mut i: usize = 0;
        while i < feed.entries.len()
            invariant
                i <= feed.entries.len(),
                feed.channel == Some(*channel),
                videos@.len() == i,
                forall|k: int| 0 <= k < i ==> (#[trigger] feed@.entries[k]).complete(),
                forall|k: int|
                    0 <= k < i ==> (#[trigger] videos@[k])@ == video_of_entry(
                        channel@,
                        channel_handle.deep_view(),
                        feed@.entries[k],
                    ),
            decreases feed.entries.len() - i,
        {
            let entry = &feed.entries[i];
            assert(feed@.entries[i as int] == entry@);
            let video = match (&entry.title, &entry.link, entry.published) {
                (Some(title), Some(link), Some(published_at)) => Video {
                    channel: channel.clone(),
                    channel_handle: clone_text(&channel_handle),
                    title: title.clone(),
                    link: link.clone(),
                    published_at,
                },
                _ => {
                    assert(!feed@.entries[i as int].complete());
                    return Err(ParseError::Malformed);
                },
            };
            videos.push(video);
            i += 1;
        }
        assert(video_views(videos@) =~= videos_of_feed(feed@, channel_handle.deep_view())->Ok_0);
        Ok(videos)
    }

    /// Reads the videos of a channel out of the XML text of its feed, one per
    /// entry and in the feed's order, each with the feed's channel name and the
    /// given handle. A feed without entries gives no videos and no error. A text
    /// that cannot be converted, a feed without a channel name and a feed with
    /// an entry that lacks a title, a link or a readable time of publication are
    /// malformed: one such entry fails the whole feed.
    pub fn parse_rss(rss_data: String, channel_handle: Option<String>) -> (r: Result<
        Vec<Video>,
        ParseError,
    >)
        ensures
            videos_result_view(r) == videos_of_xml(rss_data@, channel_handle.deep_view()),
    {
        match Feed::from_xml(rss_data.as_str()) {
            Ok(feed) => Video::from_feed(&feed, channel_handle),
            Err(e) => Err(e),
        }
    }

    /// How long before `now` the video was published, in words.
    pub fn format_time_ago(&self, now: Timestamp) -> (r: String)
        ensures
            r@ == time_ago(now.whole_seconds_since(self.published_at)),
    {
        let elapsed: i128 = now.seconds_since(self.published_at);
        if elapsed >= 3600 {
            let hours: u64 = ((elapsed as u128) / 3600) as u64;
            if hours == 1 {
                "1 hour ago".to_owned()
            } else {
                decimal_text(hours).concat(" hours ago")
            }
        } else if elapsed >= 60 {
            let minutes: u64 = ((elapsed as u128) / 60) as u64;
            if minutes == 1 {
                "1 minute ago".to_owned()
            } else {
                decimal_text(minutes).concat(" minutes ago")
            }
        } else {
            "just now".to_owned()
        }
    }

    /// Words the notification of the video for a notifier, at the instant `now`.
    pub fn notification_text(&self, notifier: &Notifier, now: Timestamp) -> (r: Result<
        String,
        FormatError,
    >)
        ensures
            text_result_view(r) == notification(self@, notifier.kind(), now),
    {
        let time_ago = self.format_time_ago(now);
        match notifier {
            Notifier::Log() => {
                let mut parts: Vec<String> = Vec::new();
                parts.push("-".to_owned());
                match &self.channel_handle {
                    Some(handle) => {
                        if !handle.as_str().is_empty() {
                            parts.push(handle.clone());
                        }
                    },
                    None => {},
                }
                let link = "[".to_owned().concat(self.title.as_str()).concat("](").concat(
                    self.link.as_str(),
                ).concat(")");
                parts.push(link);
                if !time_ago.as_str().is_empty() {
                    parts.push("- ".to_owned().concat(time_ago.as_str()));
                }
                assert(views(parts@) =~= log_parts(self@, time_ago@));
                Ok(join(&parts, " "))
            },
            Notifier::Slack(_) => {
                let text = "*New video - ".to_owned().concat(self.channel.as_str()).concat(
                    "* <",
                ).concat(self.link.as_str()).concat("|").concat(self.title.as_str()).concat(">");
                Ok(text)
            },
            Notifier::Telegram => Err(FormatError::Unsupported),
        }
    }

    /// Sorts the videos from newest to oldest. Videos published at one instant
    /// keep the order they came in.
    pub fn sort_newest_first(videos: &mut Vec<Video>)
        ensures
            sorted_newest_first(video_views(old(videos)@), video_views(final(videos)@)),
            newest_first(video_views(final(videos)@)),
            final(videos)@.len() == old(videos)@.len(),
    {
        let ghost before = video_views(videos@);
        let mut sorted: Vec<Video> = Vec::new();
        let ghost mut from: Seq<int> = Seq::empty();
        while videos.len() > 0
            invariant
                videos@.len() + sorted@.len() == before.len(),
                video_views(videos@) == before.take(videos@.len() as int),
                from.len() == sorted@.len(),
                forall|i: int|
                    0 <= i < from.len() ==> videos@.len() <= #[trigger] from[i] < before.len()
                        && sorted@[i]@ == before[from[i]],
                forall|i: int, j: int|
                    0 <= i < j < from.len() ==> {
                        let a = before[#[trigger] from[i]].published_at;
                        let b = before[#[trigger] from[j]].published_at;
                        a.is_after(b) || (a == b && from[i] < from[j])
                    },
            decreases videos@.len(),
        {
            let ghost rest = videos@;
            let ghost last = videos@.len() - 1;
            let video = videos.pop().unwrap();
            assert(video@ == before[last]) by {
                assert(video_views(rest)[last] == rest[last]@);
            }
            assert(video_views(videos@) =~= before.take(last));
            let mut at: usize = 0;
            while at < sorted.len() && sorted[at].published_at.is_after(video.published_at)
                invariant
                    at <= sorted.len(),
                    forall|k: int|
                        0 <= k < at ==> (#[trigger] sorted@[k]).published_at.is_after(
                            video.published_at,
                        ),
                decreases sorted.len() - at,
            {
                at += 1;
            }
            let ghost sorted_before = sorted@;
            let ghost from_before = from;
            sorted.insert(at, video);
            proof {
                from = from_before.insert(at as int, last);
                assert forall|i: int| 0 <= i < from.len() implies videos@.len() <= #[trigger] from[i]
                    < before.len() && sorted@[i]@ == before[from[i]] by {
                    if i < at {
                        assert(from[i] == from_before[i]);
                    } else if i > at {
                        assert(from[i] == from_before[i - 1]);
                    }
                }
                assert forall|i: int, j: int| 0 <= i < j < from.len() implies {
                    let a = before[#[trigger] from[i]].published_at;
                    let b = before[#[trigger] from[j]].published_at;
                    a.is_after(b) || (a == b && from[i] < from[j])
                } by {
                    // places in the sequence before the insertion
                    let was_i = if i < at { i } else { i - 1 };
                    let was_j = if j < at { j } else { j - 1 };
                    if i != at {
                        assert(from[i] == from_before[was_i]);
                        assert(sorted_before[was_i]@ == before[from_before[was_i]]);
                    }
                    if j != at {
                        assert(from[j] == from_before[was_j]);
                        assert(sorted_before[was_j]@ == before[from_before[was_j]]);
                    }
                    if i == at && at < sorted_before.len() {
                        // the search stopped at a video that is not newer than this one
                        assert(sorted_before[at as int]@ == before[from_before[at as int]]);
                    }
                }
            }
        }
        proof {
            assert(stable_order(before, video_views(sorted@), from));
            lemma_stable_order_is_newest_first(before, video_views(sorted@), from);
        }
        *videos = sorted;
    }

    /// Keeps the videos published strictly after `watermark`, in their order.
    pub fn filter_fresh(videos: &Vec<Video>, watermark: Timestamp) -> (r: Vec<Video>)
        ensures
            video_views(r@) == fresh(video_views(videos@), watermark),
    {
        let mut kept: Vec<Video> = Vec::new();
        let mut i: usize = 0;
        let ghost all = video_views(videos@);
        let ghost keep = |v: VideoView| v.is_fresh(watermark);
        while i < videos.len()
            invariant
                i <= videos.len(),
                all == video_views(videos@),
                keep == |v: VideoView| v.is_fresh(watermark),
                video_views(kept@) == all.take(i as int).filter(keep),
            decreases videos.len() - i,
        {
            proof {
                let upto = all.take(i + 1);
                assert(upto.drop_last() =~= all.take(i as int));
                assert(upto.last() == videos@[i as int]@);
                reveal(Seq::filter);
            }
            let ghost before = video_views(kept@);
            if videos[i].is_fresh(watermark) {
                kept.push(videos[i].clone());
                assert(video_views(kept@) =~= before.push(videos@[i as int]@));
            }
            i += 1;
        }
        assert(all.take(i as int) =~= all);
        kept
    }
}

} // verus!
