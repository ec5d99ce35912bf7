//! One run: from the fetched feeds to what each notifier is to be sent.
//!
//! A run fetches, decides and delivers. Fetching and delivering belong to the
//! caller; the deciding in between is [`RunArgs::run`], which takes what was
//! fetched and returns a [`RunPlan`]. No failure of a channel or a notifier
//! stops the others.

use vstd::prelude::*;
use crate::error::{ChannelError, FetchError, FormatError};
use crate::notifier::{Notifier, NotifierKind};
use crate::time::Timestamp;
use crate::video::{
    fresh, newest_first, notification, sorted_newest_first, video_views, videos_of_xml,
    videos_result_view, Video, VideoView,
};

verus! {

/// What is logged by a run that found nothing to notify of.
pub const NO_NEW_VIDEOS: &'static str = "No new videos found.";

/// `std::path::PathBuf`. A run carries the path and never reads it.
#[verifier::external_type_specification]
#[verifier::external_body]
pub struct ExPathBuf(std::path::PathBuf);

/// The arguments of a run.
#[derive(Debug)]
pub struct RunArgs {
    /// Where the settings are kept, if not in the usual place.
    pub config: Option<std::path::PathBuf>,
    /// Whether the run is one of a schedule; notifiers are told, and may pace
    /// their deliveries by it.
    pub cron: bool,
    /// Take as fresh what was published in the last so many hours, whenever the
    /// last run was.
    pub hours_offset: Option<u16>,
}

/// A channel as a run sees it: its configured handle and what fetching its feed
/// gave, the text of the feed or an error.
#[derive(Debug)]
pub struct ChannelFeed {
    pub handle: Option<String>,
    pub fetched: Result<String, FetchError>,
}

/// A [`ChannelFeed`] with its texts as sequences of characters.
pub struct ChannelFeedView {
    pub handle: Option<Seq<char>>,
    pub fetched: Result<Seq<char>, FetchError>,
}

impl View for ChannelFeed {
    type V = ChannelFeedView;

    open spec fn view(&self) -> ChannelFeedView {
        ChannelFeedView {
            handle: self.handle.deep_view(),
            fetched: match self.fetched {
                Ok(text) => Ok(text@),
                Err(e) => Err(e),
            },
        }
    }
}

impl ChannelFeedView {
    /// The channel's videos published strictly after `watermark`, in the feed's
    /// order, or why the channel has none to offer.
    pub open spec fn fresh_videos(self, watermark: Timestamp) -> Result<
        Seq<VideoView>,
        ChannelError,
    > {
        match self.fetched {
            Ok(text) => match videos_of_xml(text, self.handle) {
                Ok(videos) => Ok(fresh(videos, watermark)),
                Err(e) => Err(ChannelError::Parse(e)),
            },
            Err(e) => Err(ChannelError::Fetch(e)),
        }
    }

    /// The error that a run reports for the channel, if any.
    pub open spec fn error(self, watermark: Timestamp) -> Option<ChannelError> {
        match self.fresh_videos(watermark) {
            Ok(_) => None,
            Err(e) => Some(e),
        }
    }
}

/// The view of each channel, in order.
pub open spec fn feed_views(feeds: Seq<ChannelFeed>) -> Seq<ChannelFeedView> {
    feeds.map_values(|f: ChannelFeed| f@)
}

/// The fresh videos of all channels, channel after channel; a channel that
/// failed adds none.
pub open spec fn gathered(feeds: Seq<ChannelFeedView>, watermark: Timestamp) -> Seq<VideoView>
    decreases feeds.len(),
{
    if feeds.len() == 0 {
        Seq::empty()
    } else {
        gathered(feeds.drop_last(), watermark) + match feeds.last().fresh_videos(watermark) {
            Ok(videos) => videos,
            Err(_) => Seq::empty(),
        }
    }
}

/// The notifications of the videos for one kind of notifier, in the videos'
/// order; an error where a video cannot be worded for it.
pub open spec fn notifications(videos: Seq<VideoView>, kind: NotifierKind, now: Timestamp) -> Result<
    Seq<Seq<char>>,
    FormatError,
> {
    if forall|i: int| 0 <= i < videos.len() ==> notification(#[trigger] videos[i], kind, now) is Ok {
        Ok(videos.map_values(|v: VideoView| notification(v, kind, now)->Ok_0))
    } else {
        Err(FormatError::Unsupported)
    }
}

/// The texts of a batch by their views.
pub open spec fn batch_view(batch: Result<Vec<String>, FormatError>) -> Result<
    Seq<Seq<char>>,
    FormatError,
> {
    match batch {
        Ok(texts) => Ok(texts@.map_values(|s: String| s@)),
        Err(e) => Err(e),
    }
}

/// What a run decided.
#[derive(Debug)]
pub struct RunPlan {
    /// For each channel, in order, the error to report, if it has one.
    pub channel_errors: Vec<Option<ChannelError>>,
    /// The fresh videos of all channels, newest first.
    pub videos: Vec<Video>,
    /// For each notifier, in order, the texts to deliver or the error to report.
    /// Empty where there are no fresh videos: no notifier is then called.
    pub notifications: Vec<Result<Vec<String>, FormatError>>,
    /// What each notifier is told of how to pace its deliveries.
    pub batch: bool,
}

impl ChannelFeed {
    /// Reads the channel's feed and keeps the videos published strictly after
    /// `watermark`.
    pub fn fresh_videos(&self, watermark: Timestamp) -> (r: Result<Vec<Video>, ChannelError>)
        ensures
            videos_result_view(r) == self@.fresh_videos(watermark),
    {
        match &self.fetched {
            Ok(text) => {
                let handle = match &self.handle {
                    Some(h) => Some(h.clone()),
                    None => None,
                };
                match Video::parse_rss(text.clone(), handle) {
                    Ok(videos) => Ok(Video::filter_fresh(&videos, watermark)),
                    Err(e) => Err(ChannelError::Parse(e)),
                }
            },
            Err(e) => Err(ChannelError::Fetch(*e)),
        }
    }
}

impl Video {
    /// Words each video for the notifier, in order. One video that cannot be
    /// worded fails the batch.
    pub fn notification_texts(videos: &Vec<Video>, notifier: &Notifier, now: Timestamp) -> (r:
        Result<Vec<String>, FormatError>)
        ensures
            batch_view(r) == notifications(video_views(videos@), notifier.kind(), now),
    {
        let mut texts: Vec<String> = Vec::new();
        let mut i: usize = 0;
        while i < videos.len()
            invariant
                i <= videos.len(),
                texts@.len() == i,
                forall|k: int|
                    0 <= k < i ==> notification(
                        #[trigger] video_views(videos@)[k],
                        notifier.kind(),
                        now,
                    ) == Ok::<Seq<char>, FormatError>(texts@[k]@),
            decreases videos.len() - i,
        {
            match videos[i].notification_text(notifier, now) {
                Ok(text) => {
                    texts.push(text);
                },
                Err(e) => {
                    assert(notification(video_views(videos@)[i as int], notifier.kind(), now)
                        is Err);
                    return Err(e);
                },
            }
            i += 1;
        }
        assert(batch_view(Ok(texts))->Ok_0 =~= notifications(
            video_views(videos@),
            notifier.kind(),
            now,
        )->Ok_0);
        Ok(texts)
    }
}

impl RunArgs {
    /// The instant after which a video counts as fresh: so many hours before
    /// `now` where an offset is given, the last run otherwise.
    pub open spec fn spec_watermark(&self, now: Timestamp, last_run_at: Timestamp) -> Timestamp {
        match self.hours_offset {
            Some(hours) => now.hours_before(hours),
            None => last_run_at,
        }
    }

    /// Whether the offset, if one is given, reaches no further back from `now`
    /// than seconds can be counted.
    pub open spec fn offset_in_reach(&self, now: Timestamp) -> bool {
        self.hours_offset matches Some(hours) ==> now.secs - 3_600 * hours >= i64::MIN
    }

    /// The instant after which a video counts as fresh in this run.
    #[verifier::when_used_as_spec(spec_watermark)]
    pub fn watermark(&self, now: Timestamp, last_run_at: Timestamp) -> (r: Timestamp)
        requires
            self.offset_in_reach(now),
        ensures
            r == self.spec_watermark(now, last_run_at),
    {
        match self.hours_offset {
            Some(hours) => now.hours_before(hours),
            None => last_run_at,
        }
    }

    /// Decides a run from what was fetched.
    ///
    /// Each channel's feed is read and its fresh videos are kept; a channel that
    /// could not be fetched or read is reported and adds nothing. The fresh
    /// videos of all channels are put newest first, and worded for each
    /// notifier. Where nothing is fresh, nothing is worded.
    pub fn run(
        &self,
        now: Timestamp,
        last_run_at: Timestamp,
        feeds: &Vec<ChannelFeed>,
        notifiers: &Vec<Notifier>,
    ) -> (plan: RunPlan)
        requires
            self.offset_in_reach(now),
        ensures
            plan.batch == self.cron,
            plan.channel_errors@.len() == feeds@.len(),
            forall|i: int|
                0 <= i < feeds@.len() ==> #[trigger] plan.channel_errors@[i] == feeds@[i]@.error(
                    self.watermark(now, last_run_at),
                ),
            sorted_newest_first(
                gathered(feed_views(feeds@), self.watermark(now, last_run_at)),
                video_views(plan.videos@),
            ),
            newest_first(video_views(plan.videos@)),
            plan.videos@.len() == 0 ==> plan.notifications@.len() == 0,
            plan.videos@.len() > 0 ==> plan.notifications@.len() == notifiers@.len(),
            forall|i: int|
                0 <= i < plan.notifications@.len() ==> batch_view(#[trigger] plan.notifications@[i])
                    == notifications(video_views(plan.videos@), notifiers@[i].kind(), now),
    {
        let watermark = self.watermark(now, last_run_at);
        let mut channel_errors: Vec<Option<ChannelError>> = Vec::new();
        let mut new_videos: Vec<Video> = Vec::new();
        let mut c: usize = 0;
        while c < feeds.len()
            invariant
                c <= feeds.len(),
                channel_errors@.len() == c,
                forall|i: int|
                    0 <= i < c ==> #[trigger] channel_errors@[i] == feeds@[i]@.error(watermark),
                video_views(new_videos@) == gathered(feed_views(feeds@).take(c as int), watermark),
            decreases feeds.len() - c,
        {
            proof {
                let upto = feed_views(feeds@).take(c + 1);
                assert(upto.drop_last() =~= feed_views(feeds@).take(c as int));
                assert(upto.last() == feeds@[c as int]@);
            }
            let ghost before = video_views(new_videos@);
            match feeds[c].fresh_videos(watermark) {
                Ok(videos) => {
                    let mut videos = videos;
                    let ghost added = video_views(videos@);
                    new_videos.append(&mut videos);
                    assert(video_views(new_videos@) =~= before + added);
                    channel_errors.push(None);
                },
                Err(e) => {
                    assert(before + Seq::<VideoView>::empty() =~= before);
                    channel_errors.push(Some(e));
                },
            }
            c += 1;
        }
        assert(feed_views(feeds@).take(c as int) =~= feed_views(feeds@));

        let mut batches: Vec<Result<Vec<String>, FormatError>> = Vec::new();
        if new_videos.len() == 0 {
            proof {
                let nothing = video_views(new_videos@);
                assert(nothing =~= Seq::<VideoView>::empty());
                assert(crate::video::stable_order(nothing, nothing, Seq::<int>::empty()));
            }
            return RunPlan {
                channel_errors,
                videos: new_videos,
                notifications: batches,
                batch: self.cron,
            };
        }
        Video::sort_newest_first(&mut new_videos);

        let mut n: usize = 0;
        while n < notifiers.len()
            invariant
                n <= notifiers.len(),
                batches@.len() == n,
                forall|i: int|
                    0 <= i < n ==> batch_view(#[trigger] batches@[i]) == notifications(
                        video_views(new_videos@),
                        notifiers@[i].kind(),
                        now,
                    ),
            decreases notifiers.len() - n,
        {
            batches.push(Video::notification_texts(&new_videos, &notifiers[n], now));
            n += 1;
        }
        RunPlan { channel_errors, videos: new_videos, notifications: batches, batch: self.cron }
    }
}

} // verus!
