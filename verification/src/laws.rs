//! What holds of the library's functions, stated over the models that their
//! contracts use and proved from the definitions.

use vstd::prelude::*;
use crate::error::{FormatError, ParseError};
use crate::feed::{feed_of_xml, FeedView};
use crate::notifier::NotifierKind;
use crate::text::decimal;
use crate::time::Timestamp;
use crate::video::{
    feed_complete, fresh, lemma_stable_order_is_newest_first, log_text, markdown_link,
    newest_first, notification, sorted_newest_first, stable_order, time_ago, video_of_entry,
    videos_of_feed, videos_of_xml, VideoView,
};

verus! {

/// A feed that names its channel and has no entries gives no videos, and no
/// error.
pub proof fn lemma_feed_without_entries(feed: FeedView, channel_handle: Option<Seq<char>>)
    requires
        feed.channel is Some,
        feed.entries.len() == 0,
    ensures
        videos_of_feed(feed, channel_handle) == Ok::<Seq<VideoView>, ParseError>(Seq::empty()),
{
    assert(videos_of_feed(feed, channel_handle)->Ok_0 =~= Seq::<VideoView>::empty());
}

/// A document that converts to a feed with a channel name and no entries reads
/// as no videos, and no error.
pub proof fn lemma_document_without_entries(
    xml: Seq<char>,
    feed: FeedView,
    channel_handle: Option<Seq<char>>,
)
    requires
        feed_of_xml(xml) == Ok::<FeedView, ParseError>(feed),
        feed.channel is Some,
        feed.entries.len() == 0,
    ensures
        videos_of_xml(xml, channel_handle) == Ok::<Seq<VideoView>, ParseError>(Seq::empty()),
{
    lemma_feed_without_entries(feed, channel_handle);
}

/// A complete feed gives one video per entry, in the entries' order, each with
/// the feed's channel name, the given handle, and the entry's title, link and
/// time of publication.
pub proof fn lemma_one_video_per_entry(feed: FeedView, channel_handle: Option<Seq<char>>)
    requires
        feed_complete(feed),
    ensures
        videos_of_feed(feed, channel_handle) is Ok,
        videos_of_feed(feed, channel_handle)->Ok_0.len() == feed.entries.len(),
        forall|i: int|
            0 <= i < feed.entries.len() ==> {
                let video = #[trigger] videos_of_feed(feed, channel_handle)->Ok_0[i];
                &&& video.channel == feed.channel->0
                &&& video.channel_handle == channel_handle
                &&& Some(video.title) == feed.entries[i].title
                &&& Some(video.link) == feed.entries[i].link
                &&& Some(video.published_at) == feed.entries[i].published
            },
{
    assert forall|i: int| 0 <= i < feed.entries.len() implies {
        let video = #[trigger] videos_of_feed(feed, channel_handle)->Ok_0[i];
        &&& video.channel == feed.channel->0
        &&& video.channel_handle == channel_handle
        &&& Some(video.title) == feed.entries[i].title
        &&& Some(video.link) == feed.entries[i].link
        &&& Some(video.published_at) == feed.entries[i].published
    } by {
        assert(feed.entries[i].complete());
        assert(videos_of_feed(feed, channel_handle)->Ok_0[i] == video_of_entry(
            feed.channel->0,
            channel_handle,
            feed.entries[i],
        ));
    }
}

/// A feed with an entry that lacks something gives no videos at all.
pub proof fn lemma_incomplete_entry_fails_feed(
    feed: FeedView,
    channel_handle: Option<Seq<char>>,
    i: int,
)
    requires
        0 <= i < feed.entries.len(),
        !feed.entries[i].complete(),
    ensures
        videos_of_feed(feed, channel_handle) == Err::<Seq<VideoView>, ParseError>(ParseError::Malformed),
{
}

/// Filtering keeps exactly the videos published strictly after the watermark:
/// every video it keeps is one of the input and is fresh, every fresh video of
/// the input is kept, and a video published at the watermark itself is not.
pub proof fn lemma_fresh_is_exact(videos: Seq<VideoView>, watermark: Timestamp)
    ensures
        fresh(videos, watermark).len() <= videos.len(),
        forall|i: int|
            0 <= i < fresh(videos, watermark).len() ==> {
                let kept = #[trigger] fresh(videos, watermark)[i];
                &&& kept.published_at.is_after(watermark)
                &&& kept.published_at != watermark
                &&& videos.contains(kept)
            },
        forall|i: int|
            0 <= i < videos.len() ==> ((#[trigger] videos[i]).published_at.is_after(watermark)
                <==> fresh(videos, watermark).contains(videos[i])),
    decreases videos.len(),
{
    reveal(Seq::filter);
    let keep = |v: VideoView| v.is_fresh(watermark);
    if videos.len() > 0 {
        let front = videos.drop_last();
        lemma_fresh_is_exact(front, watermark);
        let kept_front = fresh(front, watermark);
        let kept = fresh(videos, watermark);
        assert(kept == if keep(videos.last()) {
            kept_front.push(videos.last())
        } else {
            kept_front
        });
        assert forall|i: int| 0 <= i < kept.len() implies {
            let k = #[trigger] kept[i];
            &&& k.published_at.is_after(watermark)
            &&& k.published_at != watermark
            &&& videos.contains(k)
        } by {
            if i < kept_front.len() {
                assert(kept[i] == kept_front[i]);
                let at = choose|at: int| 0 <= at < front.len() && front[at] == kept_front[i];
                assert(videos[at] == kept[i]);
            } else {
                assert(kept[i] == videos[videos.len() - 1]);
            }
        }
        assert forall|i: int| 0 <= i < videos.len() implies ((#[trigger] videos[i]).published_at.is_after(
            watermark,
        ) <==> kept.contains(videos[i])) by {
            if videos[i].published_at.is_after(watermark) {
                if i < front.len() {
                    assert(front[i] == videos[i]);
                    let at = choose|at: int|
                        0 <= at < kept_front.len() && kept_front[at] == front[i];
                    assert(kept[at] == videos[i]);
                } else {
                    assert(kept[kept.len() - 1] == videos[i]);
                }
            }
            if kept.contains(videos[i]) {
                let at = choose|at: int| 0 <= at < kept.len() && kept[at] == videos[i];
                assert(kept[at].published_at.is_after(watermark));
            }
        }
    }
}

/// A sequence that takes each element of another exactly once holds the same
/// elements as often.
proof fn lemma_rearranged<A>(before: Seq<A>, after: Seq<A>, from: Seq<int>)
    requires
        after.len() == before.len(),
        from.len() == before.len(),
        forall|i: int|
            0 <= i < from.len() ==> 0 <= #[trigger] from[i] < before.len() && after[i]
                == before[from[i]],
        forall|i: int, j: int| 0 <= i < j < from.len() ==> #[trigger] from[i] != #[trigger] from[j],
    ensures
        after.to_multiset() == before.to_multiset(),
    decreases before.len(),
{
    broadcast use vstd::seq_lib::group_to_multiset_ensures;

    if before.len() == 0 {
        assert(after =~= before);
    } else {
        let n = before.len() - 1;
        let k = from[n];
        let before_rest = before.remove(k);
        let after_rest = after.drop_last();
        let from_rest = Seq::new(
            n as nat,
            |i: int|
                if from[i] > k {
                    from[i] - 1
                } else {
                    from[i]
                },
        );
        assert forall|i: int| 0 <= i < from_rest.len() implies 0 <= #[trigger] from_rest[i]
            < before_rest.len() && after_rest[i] == before_rest[from_rest[i]] by {
            assert(from[i] != from[n]);
        }
        assert forall|i: int, j: int| 0 <= i < j < from_rest.len() implies #[trigger] from_rest[i]
            != #[trigger] from_rest[j] by {
            assert(from[i] != from[j]);
            assert(from[i] != from[n]);
            assert(from[j] != from[n]);
        }
        lemma_rearranged(before_rest, after_rest, from_rest);
        assert(after =~= after_rest.push(after[n]));
        assert(before.to_multiset().count(before[k]) > 0) by {
            assert(before.contains(before[k]));
        }
        assert(before.to_multiset() =~= before_rest.to_multiset().insert(before[k]));
    }
}

/// Sorting puts newer videos before older ones and neither loses nor invents a
/// video: the result holds each video as often as the input does.
pub proof fn lemma_sorted_newest_first(before: Seq<VideoView>, after: Seq<VideoView>)
    requires
        sorted_newest_first(before, after),
    ensures
        newest_first(after),
        after.len() == before.len(),
        after.to_multiset() == before.to_multiset(),
{
    let from = choose|from: Seq<int>| stable_order(before, after, from);
    lemma_stable_order_is_newest_first(before, after, from);
    assert forall|i: int, j: int| 0 <= i < j < from.len() implies #[trigger] from[i]
        != #[trigger] from[j] by {
        let a = before[from[i]].published_at;
        let b = before[from[j]].published_at;
        assert(a.is_after(b) || (a == b && from[i] < from[j]));
    }
    lemma_rearranged(before, after, from);
}

/// Sorting is stable: of two videos published at one instant, the one that came
/// first in the input comes first in the result.
pub proof fn lemma_sorting_keeps_ties(
    before: Seq<VideoView>,
    after: Seq<VideoView>,
    from: Seq<int>,
    i: int,
    j: int,
)
    requires
        stable_order(before, after, from),
        0 <= i < j < after.len(),
        after[i].published_at == after[j].published_at,
    ensures
        from[i] < from[j],
{
    let a = before[from[i]].published_at;
    let b = before[from[j]].published_at;
    assert(a.is_after(b) || (a == b && from[i] < from[j]));
}

/// A sequence of places that names none twice names every place.
proof fn lemma_every_place_taken(from: Seq<int>, place: int)
    requires
        forall|i: int| 0 <= i < from.len() ==> 0 <= #[trigger] from[i] < from.len(),
        forall|i: int, j: int| 0 <= i < j < from.len() ==> #[trigger] from[i] != #[trigger] from[j],
        0 <= place < from.len(),
    ensures
        exists|i: int| 0 <= i < from.len() && from[i] == place,
{
    broadcast use vstd::seq_lib::group_to_multiset_ensures;

    let places = Seq::new(from.len(), |i: int| i);
    lemma_rearranged(places, from, from);
    assert(places[place] == place);
    assert(places.contains(place));
    assert(places.to_multiset().count(place) > 0);
    assert(from.to_multiset().count(place) > 0);
}

/// Two orderings of the same videos agree in their first `upto` places.
proof fn lemma_orderings_agree(
    before: Seq<VideoView>,
    first: Seq<VideoView>,
    first_from: Seq<int>,
    second: Seq<VideoView>,
    second_from: Seq<int>,
    upto: int,
)
    requires
        stable_order(before, first, first_from),
        stable_order(before, second, second_from),
        0 <= upto <= before.len(),
    ensures
        forall|i: int| 0 <= i < upto ==> first_from[i] == second_from[i],
    decreases upto,
{
    if upto > 0 {
        let at = upto - 1;
        lemma_orderings_agree(before, first, first_from, second, second_from, at);
        let x = first_from[at];
        let y = second_from[at];
        if x != y {
            assert forall|i: int, j: int| 0 <= i < j < first_from.len() implies #[trigger] first_from[i]
                != #[trigger] first_from[j] by {
                let a = before[first_from[i]].published_at;
                let b = before[first_from[j]].published_at;
                assert(a.is_after(b) || (a == b && first_from[i] < first_from[j]));
            }
            assert forall|i: int, j: int| 0 <= i < j < second_from.len() implies #[trigger] second_from[i]
                != #[trigger] second_from[j] by {
                let a = before[second_from[i]].published_at;
                let b = before[second_from[j]].published_at;
                assert(a.is_after(b) || (a == b && second_from[i] < second_from[j]));
            }
            let kx = before[x].published_at;
            let ky = before[y].published_at;
            if kx.is_after(ky) || (kx == ky && x < y) {
                // x goes before y, yet the second ordering has y here: it has x later
                lemma_every_place_taken(second_from, x);
                let j = choose|j: int| 0 <= j < second_from.len() && second_from[j] == x;
                if j < at {
                    assert(first_from[j] == second_from[j]);
                    assert(first_from[j] != first_from[at]);
                } else {
                    assert(second_from[at] == y && second_from[j] == x);
                    assert(ky.is_after(kx) || (ky == kx && y < x));
                }
            } else {
                lemma_every_place_taken(first_from, y);
                let j = choose|j: int| 0 <= j < first_from.len() && first_from[j] == y;
                if j < at {
                    assert(first_from[j] == second_from[j]);
                    assert(second_from[j] != second_from[at]);
                } else {
                    assert(first_from[at] == x && first_from[j] == y);
                    assert(kx.is_after(ky) || (kx == ky && x < y));
                }
            }
        }
    }
}

/// Sorting has one result: two sequences that are each the input sorted from
/// newest to oldest, ties left in their order, are the same sequence.
pub proof fn lemma_sorting_is_determined(
    before: Seq<VideoView>,
    first: Seq<VideoView>,
    second: Seq<VideoView>,
)
    requires
        sorted_newest_first(before, first),
        sorted_newest_first(before, second),
    ensures
        first == second,
{
    let first_from = choose|from: Seq<int>| stable_order(before, first, from);
    let second_from = choose|from: Seq<int>| stable_order(before, second, from);
    lemma_orderings_agree(before, first, first_from, second, second_from, before.len() as int);
    assert forall|i: int| 0 <= i < first.len() implies first[i] == second[i] by {
        assert(first_from[i] == second_from[i]);
    }
    assert(first =~= second);
}

/// A log line for a video without a handle, or with an empty one, goes from the
/// dash straight to the linked title: one space, and no second one for the
/// handle that is not there.
pub proof fn lemma_log_text_without_handle(video: VideoView, ago: Seq<char>)
    requires
        video.channel_handle matches Some(handle) ==> handle.len() == 0,
        ago.len() > 0,
    ensures
        log_text(video, ago) == "- "@ + markdown_link(video.title, video.link) + " - "@ + ago,
        log_text(video, ago)[0] == '-',
        log_text(video, ago)[1] == ' ',
        log_text(video, ago)[2] == '[',
{
    reveal_strlit("-");
    reveal_strlit(" ");
    reveal_strlit("- ");
    reveal_strlit(" - ");
    reveal_strlit("[");
    let link = markdown_link(video.title, video.link);
    let parts = seq!["-"@, link, "- "@ + ago];
    assert(crate::video::log_parts(video, ago) =~= parts);
    reveal_with_fuel(crate::text::joined, 4);
    assert(parts.drop_last() =~= seq!["-"@, link]);
    assert(parts.drop_last().drop_last() =~= seq!["-"@]);
    assert(log_text(video, ago) =~= "- "@ + link + " - "@ + ago);
}

/// A log line for a video with a handle names the handle between the dash and
/// the linked title.
pub proof fn lemma_log_text_with_handle(video: VideoView, ago: Seq<char>)
    requires
        video.channel_handle is Some,
        video.channel_handle->0.len() > 0,
        ago.len() > 0,
    ensures
        log_text(video, ago) == "- "@ + video.channel_handle->0 + " "@ + markdown_link(
            video.title,
            video.link,
        ) + " - "@ + ago,
{
    reveal_strlit("-");
    reveal_strlit(" ");
    reveal_strlit("- ");
    reveal_strlit(" - ");
    let link = markdown_link(video.title, video.link);
    let handle = video.channel_handle->0;
    let parts = seq!["-"@, handle, link, "- "@ + ago];
    assert(crate::video::log_parts(video, ago) =~= parts);
    reveal_with_fuel(crate::text::joined, 5);
    assert(parts.drop_last() =~= seq!["-"@, handle, link]);
    assert(parts.drop_last().drop_last() =~= seq!["-"@, handle]);
    assert(parts.drop_last().drop_last().drop_last() =~= seq!["-"@]);
    assert(log_text(video, ago) =~= "- "@ + handle + " "@ + link + " - "@ + ago);
}

/// The notification for a log of a video without a handle, or with an empty
/// one: a dash, the linked title, a dash and the time that has passed, with one
/// space between each two and none doubled.
pub proof fn lemma_log_notification_without_handle(video: VideoView, now: Timestamp)
    requires
        video.channel_handle matches Some(handle) ==> handle.len() == 0,
    ensures
        notification(video, NotifierKind::Log, now) == Ok::<Seq<char>, FormatError>(
            "- "@ + markdown_link(video.title, video.link) + " - "@ + time_ago(
                now.whole_seconds_since(video.published_at),
            ),
        ),
{
    let ago = time_ago(now.whole_seconds_since(video.published_at));
    lemma_time_ago_is_not_empty(now.whole_seconds_since(video.published_at));
    lemma_log_text_without_handle(video, ago);
}

/// The notification for a log always holds the title linked to the video,
/// `[title](link)`, whole and in one piece.
pub proof fn lemma_log_notification_holds_link(video: VideoView, now: Timestamp)
    ensures
        exists|lead: Seq<char>, rest: Seq<char>|
            notification(video, NotifierKind::Log, now) == Ok::<Seq<char>, FormatError>(
                lead + markdown_link(video.title, video.link) + rest,
            ),
{
    let ago = time_ago(now.whole_seconds_since(video.published_at));
    lemma_log_text_holds_link(video, ago);
    let (lead, rest) = choose|lead: Seq<char>, rest: Seq<char>|
        log_text(video, ago) == lead + markdown_link(video.title, video.link) + rest;
    assert(notification(video, NotifierKind::Log, now) == Ok::<Seq<char>, FormatError>(
        lead + markdown_link(video.title, video.link) + rest,
    ));
}

/// A notifier of the kind that has no wording yet gets an error, never a text.
pub proof fn lemma_telegram_is_unsupported(video: VideoView, now: Timestamp)
    ensures
        notification(video, NotifierKind::Telegram, now) == Err::<Seq<char>, FormatError>(
            FormatError::Unsupported,
        ),
{
}

/// Every log line holds the title linked to the video, `[title](link)`, whole
/// and in one piece.
pub proof fn lemma_log_text_holds_link(video: VideoView, ago: Seq<char>)
    ensures
        exists|lead: Seq<char>, rest: Seq<char>|
            log_text(video, ago) == lead + markdown_link(video.title, video.link) + rest,
{
    reveal_strlit("-");
    reveal_strlit(" ");
    reveal_strlit("- ");
    let link = markdown_link(video.title, video.link);
    let parts = crate::video::log_parts(video, ago);
    let with_handle = video.channel_handle is Some && video.channel_handle->0.len() > 0;
    let handle = video.channel_handle->0;
    reveal_with_fuel(crate::text::joined, 5);
    let lead = if with_handle {
        "-"@ + " "@ + handle + " "@
    } else {
        "-"@ + " "@
    };
    let rest = if ago.len() > 0 {
        " "@ + ("- "@ + ago)
    } else {
        Seq::<char>::empty()
    };
    if with_handle {
        if ago.len() > 0 {
            assert(parts =~= seq!["-"@, handle, link, "- "@ + ago]);
            assert(parts.drop_last() =~= seq!["-"@, handle, link]);
            assert(parts.drop_last().drop_last() =~= seq!["-"@, handle]);
            assert(parts.drop_last().drop_last().drop_last() =~= seq!["-"@]);
        } else {
            assert(parts =~= seq!["-"@, handle, link]);
            assert(parts.drop_last() =~= seq!["-"@, handle]);
            assert(parts.drop_last().drop_last() =~= seq!["-"@]);
        }
    } else {
        if ago.len() > 0 {
            assert(parts =~= seq!["-"@, link, "- "@ + ago]);
            assert(parts.drop_last() =~= seq!["-"@, link]);
            assert(parts.drop_last().drop_last() =~= seq!["-"@]);
        } else {
            assert(parts =~= seq!["-"@, link]);
            assert(parts.drop_last() =~= seq!["-"@]);
        }
    }
    assert(log_text(video, ago) =~= lead + link + rest);
}

/// How elapsed time is worded: below a minute, and for a time still to come,
/// "just now"; within the second minute "1 minute ago"; from two minutes up to
/// the hour the whole minutes; within the second hour "1 hour ago"; from two
/// hours on the whole hours.
pub proof fn lemma_time_ago_wording(elapsed_seconds: int)
    ensures
        elapsed_seconds < 60 ==> time_ago(elapsed_seconds) == "just now"@,
        60 <= elapsed_seconds < 120 ==> time_ago(elapsed_seconds) == "1 minute ago"@,
        120 <= elapsed_seconds < 3600 ==> time_ago(elapsed_seconds) == decimal(
            (elapsed_seconds / 60) as nat,
        ) + " minutes ago"@,
        3600 <= elapsed_seconds < 7200 ==> time_ago(elapsed_seconds) == "1 hour ago"@,
        7200 <= elapsed_seconds ==> time_ago(elapsed_seconds) == decimal(
            (elapsed_seconds / 3600) as nat,
        ) + " hours ago"@,
{
}

/// The wording is never empty.
pub proof fn lemma_time_ago_is_not_empty(elapsed_seconds: int)
    ensures
        time_ago(elapsed_seconds).len() > 0,
{
    reveal_strlit("just now");
    reveal_strlit("1 minute ago");
    reveal_strlit("1 hour ago");
    reveal_strlit(" minutes ago");
    reveal_strlit(" hours ago");
}

} // verus!
