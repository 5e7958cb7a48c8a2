//! The tracks of comments of a session, and the timeline that they make.
use crate::danmaku::model::{DanmakuItem, ItemModel};
use crate::danmaku::timeline::{
    ascends, items_view, law_sorted_items_ascend, sorted_items, DanmakuTimeline,
};
use crate::time::{sat_add, Duration, MAX_NANOS};
use vstd::prelude::*;

verus! {

broadcast use vstd::seq_lib::group_seq_properties;

/// The id of the first track.
pub const DEFAULT_DANMAKU_TRACK_ID: u64 = 1;

/// One more than the largest number that a comment keeps of its id in a merged
/// timeline.
pub const ITEM_ID_LIMIT: u64 = 0x1_0000_0000_0000;

/// The largest number that stands for a track in a merged timeline.
pub const TRACK_PART_MAX: u64 = 0xffff;

// ---------------------------------------------------------------------------
// Offsets and ids
// ---------------------------------------------------------------------------

/// A time with an offset in microseconds: held at the longest span, and none
/// where it would be negative.
pub open spec fn offset_time(pts: nat, offset_micros: i64) -> Option<nat> {
    if offset_micros >= 0 {
        Some(sat_add(pts, (offset_micros * 1_000) as nat))
    } else if pts < -offset_micros * 1_000 {
        None
    } else {
        Some((pts + offset_micros * 1_000) as nat)
    }
}

/// Offsets a time.
pub fn apply_track_offset(pts: Duration, offset_micros: i64) -> (result: Option<Duration>)
    ensures
        result is Some <==> offset_time(pts@, offset_micros) is Some,
        result matches Some(time) ==> offset_time(pts@, offset_micros) == Some(time@),
{
    if offset_micros >= 0 {
        return Some(pts.saturating_add(Duration::from_micros(offset_micros as u64)));
    }
    let magnitude: u64 = (-(offset_micros as i128)) as u64;
    pts.checked_sub(Duration::from_micros(magnitude))
}

/// An offset is undone by the opposite one, unless the time was held at the
/// longest span on the way.
pub proof fn law_offset_is_undone(pts: nat, offset_micros: i64)
    requires
        pts <= MAX_NANOS,
        offset_micros > i64::MIN,
        pts + offset_micros * 1_000 <= MAX_NANOS,
    ensures
        offset_time(pts, offset_micros) matches Some(time) ==> offset_time(
            time,
            (-offset_micros) as i64,
        ) == Some(pts),
{
}

/// The id of a comment in a merged timeline: its track, and what of its own id
/// fits beside it.
pub open spec fn composed_id(track_id: u64, item_id: u64) -> u64 {
    let track = if track_id < TRACK_PART_MAX {
        track_id
    } else {
        TRACK_PART_MAX
    };
    (track * ITEM_ID_LIMIT + item_id % ITEM_ID_LIMIT) as u64
}

/// Composes the id of a comment in a merged timeline.
pub fn compose_track_item_id(track_id: u64, item_id: u64) -> (result: u64)
    ensures
        result == composed_id(track_id, item_id),
{
    let track: u64 = if track_id < 0xffff {
        track_id
    } else {
        0xffff
    };
    assert(track <= 0xffff ==> ((track << 48u64) | (item_id & 0xffff_ffff_ffff)) == track
        * 0x1_0000_0000_0000 + item_id % 0x1_0000_0000_0000) by (bit_vector);
    (track << 48) | (item_id & 0xffff_ffff_ffff)
}

/// Comments of different tracks, or with different ids, have different ids in a
/// merged timeline, as long as the numbers fit.
pub proof fn law_composed_ids_tell_apart(track: u64, item: u64, other_track: u64, other_item: u64)
    requires
        track <= TRACK_PART_MAX,
        other_track <= TRACK_PART_MAX,
        item < ITEM_ID_LIMIT,
        other_item < ITEM_ID_LIMIT,
        composed_id(track, item) == composed_id(other_track, other_item),
    ensures
        track == other_track,
        item == other_item,
{
}

// ---------------------------------------------------------------------------
// Tracks
// ---------------------------------------------------------------------------

/// Where a track comes from.
#[derive(Debug, Clone, PartialEq, Eq)]
pub enum DanmakuTrackSource {
    Unknown,
    File(String),
    Json,
    Remote(String),
    Manual,
}

/// The label of a source.
pub open spec fn label_of(source: DanmakuTrackSource) -> Seq<char> {
    match source {
        DanmakuTrackSource::Unknown => Seq::empty(),
        DanmakuTrackSource::File(path) => path@,
        DanmakuTrackSource::Json => "json"@,
        DanmakuTrackSource::Remote(value) => value@,
        DanmakuTrackSource::Manual => "manual"@,
    }
}

impl DanmakuTrackSource {
    /// The label of the source.
    pub fn label(&self) -> (result: String)
        ensures
            result@ == label_of(*self),
    {
        match self {
            DanmakuTrackSource::Unknown => String::new(),
            DanmakuTrackSource::File(path) => path.clone(),
            DanmakuTrackSource::Json => "json".to_owned(),
            DanmakuTrackSource::Remote(value) => value.clone(),
            DanmakuTrackSource::Manual => "manual".to_owned(),
        }
    }
}

/// A track of comments.
#[derive(Debug, Clone, PartialEq, Eq)]
pub struct DanmakuTrack {
    id: u64,
    name: String,
    source: DanmakuTrackSource,
    timeline: DanmakuTimeline,
    enabled: bool,
    offset: i64,
}

/// A track as plain values.
pub struct TrackModel {
    pub id: u64,
    pub name: Seq<char>,
    pub source: DanmakuTrackSource,
    pub items: Seq<ItemModel>,
    pub enabled: bool,
    pub offset: i64,
}

impl View for DanmakuTrack {
    type V = TrackModel;

    closed spec fn view(&self) -> TrackModel {
        TrackModel {
            id: self.id,
            name: self.name@,
            source: self.source,
            items: self.timeline@,
            enabled: self.enabled,
            offset: self.offset,
        }
    }
}

/// An enabled track without offset. No track has the id zero.
pub open spec fn fresh_track(
    id: u64,
    name: Seq<char>,
    source: DanmakuTrackSource,
    items: Seq<ItemModel>,
) -> TrackModel {
    TrackModel {
        id: if id < DEFAULT_DANMAKU_TRACK_ID {
            DEFAULT_DANMAKU_TRACK_ID
        } else {
            id
        },
        name,
        source,
        items,
        enabled: true,
        offset: 0,
    }
}

impl DanmakuTrack {
    /// An enabled track without offset.
    pub fn new(
        id: u64,
        name: String,
        source: DanmakuTrackSource,
        timeline: DanmakuTimeline,
    ) -> (result: Self)
        ensures
            result@ == fresh_track(id, name@, source, timeline@),
    {
        Self {
            id: if id < DEFAULT_DANMAKU_TRACK_ID {
                DEFAULT_DANMAKU_TRACK_ID
            } else {
                id
            },
            name,
            source,
            timeline,
            enabled: true,
            offset: 0,
        }
    }

    /// The id.
    pub fn id(&self) -> (result: u64)
        ensures
            result == self@.id,
    {
        self.id
    }

    /// The name.
    pub fn name(&self) -> (result: &str)
        ensures
            result@ == self@.name,
    {
        self.name.as_str()
    }

    /// The source.
    pub fn source(&self) -> (result: &DanmakuTrackSource)
        ensures
            *result == self@.source,
    {
        &self.source
    }

    /// The comments.
    pub fn timeline(&self) -> (result: &DanmakuTimeline)
        ensures
            result@ == self@.items,
    {
        &self.timeline
    }

    /// Whether the comments are shown.
    pub fn enabled(&self) -> (result: bool)
        ensures
            result == self@.enabled,
    {
        self.enabled
    }

    /// The offset in microseconds.
    pub fn offset(&self) -> (result: i64)
        ensures
            result == self@.offset,
    {
        self.offset
    }

    /// The offset as a span; a negative one is none.
    pub fn offset_duration(&self) -> (result: Duration)
        ensures
            result@ == (if self@.offset < 0 {
                0
            } else {
                self@.offset * 1_000
            }),
    {
        Duration::from_micros(
            if self.offset < 0 {
                0
            } else {
                self.offset as u64
            },
        )
    }

    /// The number of comments.
    pub fn item_count(&self) -> (result: usize)
        ensures
            result == self@.items.len(),
    {
        self.timeline.len()
    }
}

/// What is told about a track.
#[derive(Debug, Clone, PartialEq, Eq)]
pub struct DanmakuTrackInfo {
    pub id: u64,
    pub name: String,
    pub source: String,
    pub enabled: bool,
    pub offset_micros: i64,
    pub item_count: usize,
}

/// Whether an info tells of a track.
pub open spec fn tells_of(info: DanmakuTrackInfo, track: TrackModel) -> bool {
    &&& info.id == track.id
    &&& info.name@ == track.name
    &&& info.source@ == label_of(track.source)
    &&& info.enabled == track.enabled
    &&& info.offset_micros == track.offset
    &&& info.item_count == track.items.len()
}

/// The models of tracks.
pub open spec fn tracks_view(tracks: Seq<DanmakuTrack>) -> Seq<TrackModel> {
    Seq::new(tracks.len(), |i: int| tracks[i]@)
}

// ---------------------------------------------------------------------------
// Merging
// ---------------------------------------------------------------------------

/// The sum of two offsets, held at the bounds of a machine number.
pub open spec fn sum_offsets(a: i64, b: i64) -> i64 {
    if a + b > i64::MAX {
        i64::MAX
    } else if a + b < i64::MIN {
        i64::MIN
    } else {
        (a + b) as i64
    }
}

fn add_offsets(a: i64, b: i64) -> (result: i64)
    ensures
        result == sum_offsets(a, b),
{
    match a.checked_add(b) {
        Some(sum) => sum,
        None => {
            if a > 0 {
                i64::MAX
            } else {
                i64::MIN
            }
        },
    }
}

/// The comments of a track in a merged timeline. Those whose time would be
/// negative are left out.
pub open spec fn shifted_items(items: Seq<ItemModel>, track_id: u64, offset: i64) -> Seq<ItemModel>
    decreases items.len(),
{
    if items.len() == 0 {
        Seq::empty()
    } else {
        let before = shifted_items(items.drop_last(), track_id, offset);
        let item = items.last();
        match offset_time(item.pts, offset) {
            Some(pts) => before.push(
                ItemModel { id: composed_id(track_id, item.id), pts, ..item },
            ),
            None => before,
        }
    }
}

/// The comments of the enabled tracks, in the order of the tracks.
pub open spec fn merged_items(tracks: Seq<TrackModel>, global_offset: i64) -> Seq<ItemModel>
    decreases tracks.len(),
{
    if tracks.len() == 0 {
        Seq::empty()
    } else {
        let before = merged_items(tracks.drop_last(), global_offset);
        let track = tracks.last();
        if track.enabled {
            before + shifted_items(
                track.items,
                track.id,
                sum_offsets(track.offset, global_offset),
            )
        } else {
            before
        }
    }
}

/// The index of the first track with an id.
pub open spec fn track_index(tracks: Seq<TrackModel>, id: u64, from: nat) -> Option<int>
    decreases tracks.len() - from,
{
    if from >= tracks.len() {
        None
    } else if tracks[from as int].id == id {
        Some(from as int)
    } else {
        track_index(tracks, id, from + 1)
    }
}

/// The tracks with other ids.
pub open spec fn without_track(tracks: Seq<TrackModel>, id: u64) -> Seq<TrackModel>
    decreases tracks.len(),
{
    if tracks.len() == 0 {
        Seq::empty()
    } else if tracks.last().id == id {
        without_track(tracks.drop_last(), id)
    } else {
        without_track(tracks.drop_last(), id).push(tracks.last())
    }
}

/// A disabled track adds nothing to the merged timeline.
pub proof fn law_disabled_tracks_are_silent(tracks: Seq<TrackModel>, global_offset: i64)
    requires
        forall|i: int| 0 <= i < tracks.len() ==> !(#[trigger] tracks[i]).enabled,
    ensures
        merged_items(tracks, global_offset).len() == 0,
    decreases tracks.len(),
{
    if tracks.len() > 0 {
        assert(!tracks[tracks.len() - 1].enabled);
        assert forall|i: int| 0 <= i < tracks.drop_last().len() implies !(
        #[trigger] tracks.drop_last()[i]).enabled by {
            assert(!tracks[i].enabled);
        }
        law_disabled_tracks_are_silent(tracks.drop_last(), global_offset);
    }
}

// ---------------------------------------------------------------------------
// Sessions
// ---------------------------------------------------------------------------

/// A session as plain values.
pub struct SessionModel {
    pub tracks: Seq<TrackModel>,
    pub next_track_id: u64,
    pub global_offset: i64,
    pub version: u64,
}

impl SessionModel {
    /// The comments that are shown, in the order of their times.
    pub open spec fn active(self) -> Seq<ItemModel> {
        sorted_items(merged_items(self.tracks, self.global_offset))
    }

    /// Whether the ids of the tracks are different and the next one is free, as
    /// long as ids last.
    pub open spec fn has_distinct_ids(self) -> bool {
        self.next_track_id < u64::MAX ==> {
            &&& forall|i: int|
                0 <= i < self.tracks.len() ==> (#[trigger] self.tracks[i]).id < self.next_track_id
            &&& forall|i: int, j: int|
                0 <= i < j < self.tracks.len() ==> (#[trigger] self.tracks[i]).id != (
                #[trigger] self.tracks[j]).id
        }
    }

    /// The session with a newer version.
    pub open spec fn changed(self) -> SessionModel {
        SessionModel { version: newer(self.version), ..self }
    }

    /// The session with another offset for the first track with an id.
    pub open spec fn with_offset(self, id: u64, offset: i64) -> SessionModel {
        match track_index(self.tracks, id, 0) {
            None => self,
            Some(at) => SessionModel {
                tracks: self.tracks.update(at, TrackModel { offset, ..self.tracks[at] }),
                version: if self.tracks[at].offset == offset {
                    self.version
                } else {
                    newer(self.version)
                },
                ..self
            },
        }
    }

    /// The session with one more track.
    pub open spec fn with_track(self, track: TrackModel) -> SessionModel {
        SessionModel {
            tracks: self.tracks.push(track),
            next_track_id: if self.next_track_id < newer(track.id) {
                newer(track.id)
            } else {
                self.next_track_id
            },
            version: newer(self.version),
            ..self
        }
    }

    /// The id of the next track.
    pub open spec fn next_id(self) -> u64 {
        if self.next_track_id < DEFAULT_DANMAKU_TRACK_ID {
            DEFAULT_DANMAKU_TRACK_ID
        } else {
            self.next_track_id
        }
    }
}

/// The comments that are shown are in the order of their times.
pub proof fn law_active_comments_ascend(session: SessionModel)
    ensures
        ascends(session.active()),
{
    law_sorted_items_ascend(merged_items(session.tracks, session.global_offset));
}

/// The number after this one, held at the largest.
pub open spec fn newer(value: u64) -> u64 {
    if value == u64::MAX {
        u64::MAX
    } else {
        (value + 1) as u64
    }
}

fn to_newer(value: u64) -> (result: u64)
    ensures
        result == newer(value),
{
    if value == u64::MAX {
        value
    } else {
        value + 1
    }
}

/// The tracks of comments of a session.
#[derive(Debug, Clone, PartialEq, Eq)]
pub struct DanmakuSession {
    tracks: Vec<DanmakuTrack>,
    active_timeline: DanmakuTimeline,
    next_track_id: u64,
    global_offset: i64,
    version: u64,
    dirty: bool,
}

impl View for DanmakuSession {
    type V = SessionModel;

    closed spec fn view(&self) -> SessionModel {
        SessionModel {
            tracks: tracks_view(self.tracks@),
            next_track_id: self.next_track_id,
            global_offset: self.global_offset,
            version: self.version,
        }
    }
}

impl Default for DanmakuSession {
    fn default() -> (result: Self)
        ensures
            result.wf(),
            result@.tracks.len() == 0,
            result@.next_track_id == 1,
            result@.global_offset == 0,
            result@.version == 1,
    {
        Self::new()
    }
}

impl DanmakuSession {
    /// Whether the timeline at hand is that of the tracks, unless it is known to
    /// be out of date.
    pub closed spec fn wf(&self) -> bool {
        &&& !self.dirty ==> self.active_timeline@ == self@.active()
        &&& self@.has_distinct_ids()
    }

    /// Whether the timeline at hand holds comments.
    pub closed spec fn holds_timeline(&self) -> bool {
        self.active_timeline@.len() > 0
    }

    /// A session without tracks.
    pub fn new() -> (result: Self)
        ensures
            result.wf(),
            !result.holds_timeline(),
            result@.tracks.len() == 0,
            result@.next_track_id == 1,
            result@.global_offset == 0,
            result@.version == 1,
    {
        let result = Self {
            tracks: Vec::new(),
            active_timeline: DanmakuTimeline::default(),
            next_track_id: DEFAULT_DANMAKU_TRACK_ID,
            global_offset: 0,
            version: 1,
            dirty: false,
        };
        assert(result@.tracks =~= Seq::<TrackModel>::empty());
        proof {
            assert(merged_items(result@.tracks, 0) =~= Seq::<ItemModel>::empty());
            law_sorted_items_ascend(Seq::<ItemModel>::empty());
            assert(result@.active() =~= Seq::<ItemModel>::empty());
        }
        result
    }

    /// A session with one track.
    pub fn from_timeline(timeline: DanmakuTimeline) -> (result: Self)
        ensures
            result.wf(),
            result@.tracks == seq![
                fresh_track(1, "default"@, DanmakuTrackSource::Unknown, timeline@),
            ],
            result@.next_track_id == 2,
            result@.global_offset == 0,
            result@.version == 2,
    {
        let mut session = Self::new();
        let _ = session.replace_default_track(
            timeline,
            "default".to_owned(),
            DanmakuTrackSource::Unknown,
        );
        session
    }

    /// Adds a track with an id of its own.
    pub fn add_track(
        &mut self,
        timeline: DanmakuTimeline,
        name: String,
        source: DanmakuTrackSource,
    ) -> (result: u64)
        requires
            old(self).wf(),
        ensures
            final(self).wf(),
            result == old(self)@.next_id(),
            final(self)@ == old(self)@.with_track(
                fresh_track(result, name@, source, timeline@),
            ),
            result < u64::MAX ==> forall|i: int|
                0 <= i < old(self)@.tracks.len() ==> (#[trigger] old(self)@.tracks[i]).id != result,
    {
        let id: u64 = self.allocate_track_id();
        self.add_track_with_id(id, timeline, name, source)
    }

    /// Adds a track with an offset in microseconds.
    pub fn add_track_with_offset(
        &mut self,
        timeline: DanmakuTimeline,
        name: String,
        source: DanmakuTrackSource,
        offset_micros: i64,
    ) -> (result: u64)
        requires
            old(self).wf(),
        ensures
            final(self).wf(),
            result == old(self)@.next_id(),
            final(self)@ == old(self)@.with_track(
                fresh_track(result, name@, source, timeline@),
            ).with_offset(result, offset_micros),
            result < u64::MAX ==> final(self)@.tracks == old(self)@.tracks.push(
                TrackModel {
                    offset: offset_micros,
                    ..fresh_track(result, name@, source, timeline@)
                },
            ),
    {
        let ghost before = self@;
        let id: u64 = self.add_track(timeline, name, source);
        let ghost added = self@;
        proof {
            if id < u64::MAX {
                lemma_track_index_of_last(added.tracks, id, 0);
            }
        }
        let _ = self.set_track_offset(id, offset_micros);
        assert(id < u64::MAX ==> self@.tracks =~= before.tracks.push(
            TrackModel {
                offset: offset_micros,
                ..fresh_track(id, name@, source, timeline@)
            },
        ));
        id
    }

    /// Puts one track in the place of all.
    pub fn replace_default_track(
        &mut self,
        timeline: DanmakuTimeline,
        name: String,
        source: DanmakuTrackSource,
    ) -> (result: u64)
        ensures
            final(self).wf(),
            result == 1,
            final(self)@ == (SessionModel {
                tracks: seq![fresh_track(1, name@, source, timeline@)],
                next_track_id: 2,
                version: newer(old(self)@.version),
                ..old(self)@
            }),
    {
        self.tracks.clear();
        self.next_track_id = DEFAULT_DANMAKU_TRACK_ID + 1;
        let id: u64 = self.add_track_with_id(DEFAULT_DANMAKU_TRACK_ID, timeline, name, source);
        assert(self@.tracks =~= seq![fresh_track(1, name@, source, timeline@)]);
        id
    }

    /// Takes all tracks out. A session without tracks and without comments at
    /// hand stays as it is.
    pub fn clear(&mut self)
        requires
            old(self).wf(),
        ensures
            final(self).wf(),
            old(self)@.tracks.len() == 0 && !old(self).holds_timeline() ==> final(self)@ == old(
                self
            )@,
            old(self)@.tracks.len() > 0 || old(self).holds_timeline() ==> final(self)@ == (
            SessionModel {
                tracks: Seq::empty(),
                next_track_id: 1,
                version: newer(old(self)@.version),
                ..old(self)@
            }),
            !final(self).holds_timeline(),
    {
        if self.tracks.len() == 0 && self.active_timeline.is_empty() {
            return;
        }
        self.tracks.clear();
        self.active_timeline = DanmakuTimeline::default();
        self.next_track_id = DEFAULT_DANMAKU_TRACK_ID;
        self.mark_changed();
        assert(self@.tracks =~= Seq::<TrackModel>::empty());
        proof {
            assert(merged_items(self@.tracks, self.global_offset) =~= Seq::<ItemModel>::empty());
            law_sorted_items_ascend(Seq::<ItemModel>::empty());
            assert(self@.active() =~= Seq::<ItemModel>::empty());
        }
    }

    /// Takes the tracks with an id out, and tells whether there were any.
    pub fn remove_track(&mut self, track_id: u64) -> (result: bool)
        requires
            old(self).wf(),
        ensures
            final(self).wf(),
            result <==> without_track(old(self)@.tracks, track_id).len() != old(
                self
            )@.tracks.len(),
            final(self)@ == (SessionModel {
                tracks: without_track(old(self)@.tracks, track_id),
                version: if result {
                    newer(old(self)@.version)
                } else {
                    old(self)@.version
                },
                ..old(self)@
            }),
    {
        let before: usize = self.tracks.len();
        let ghost all = tracks_view(self.tracks@);
        let mut tracks: Vec<DanmakuTrack> = Vec::new();
        tracks.append(&mut self.tracks);
        let mut kept: Vec<DanmakuTrack> = Vec::new();
        assert(tracks_view(kept@) =~= without_track(all.take(0), track_id));
        assert(tracks_view(tracks@) =~= all);
        for track in it: tracks
            invariant
                all == tracks_view(it.seq()),
                tracks_view(kept@) == without_track(all.take(it.index()), track_id),
        {
            let ghost n = it.index();
            assert(all.take(n + 1).drop_last() =~= all.take(n));
            assert(all.take(n + 1).last() == track@);
            if track.id != track_id {
                let ghost sofar = tracks_view(kept@);
                kept.push(track);
                assert(tracks_view(kept@) =~= sofar.push(track@));
            }
        }
        assert(all.take(all.len() as int) =~= all);
        let removed = kept.len() != before;
        self.tracks = kept;
        proof {
            lemma_without_track(all, track_id);
            assert(tracks_view(self.tracks@).len() == self.tracks@.len());
            if !removed {
                assert(self@.tracks == all);
            }
        }
        if removed {
            self.mark_dirty();
        }
        removed
    }

    /// Shows or hides the comments of a track, and tells whether it is there.
    pub fn set_track_enabled(&mut self, track_id: u64, enabled: bool) -> (result: bool)
        requires
            old(self).wf(),
        ensures
            final(self).wf(),
            match track_index(old(self)@.tracks, track_id, 0) {
                None => !result && final(self)@ == old(self)@,
                Some(at) => {
                    let track = old(self)@.tracks[at];
                    &&& result
                    &&& final(self)@ == (SessionModel {
                        tracks: old(self)@.tracks.update(at, TrackModel { enabled, ..track }),
                        version: if track.enabled == enabled {
                            old(self)@.version
                        } else {
                            newer(old(self)@.version)
                        },
                        ..old(self)@
                    })
                },
            },
    {
        match self.find_track(track_id) {
            None => false,
            Some(at) => {
                let ghost all = self@.tracks;
                if self.tracks[at].enabled != enabled {
                    self.tracks[at].enabled = enabled;
                    self.mark_dirty();
                }
                assert(self@.tracks =~= all.update(
                    at as int,
                    TrackModel { enabled, ..all[at as int] },
                ));
                true
            },
        }
    }

    /// Sets the offset of a track, and tells whether it is there.
    pub fn set_track_offset(&mut self, track_id: u64, offset_micros: i64) -> (result: bool)
        requires
            old(self).wf(),
        ensures
            final(self).wf(),
            result <==> track_index(old(self)@.tracks, track_id, 0) is Some,
            final(self)@ == old(self)@.with_offset(track_id, offset_micros),
    {
        match self.find_track(track_id) {
            None => false,
            Some(at) => {
                let ghost all = self@.tracks;
                if self.tracks[at].offset != offset_micros {
                    self.tracks[at].offset = offset_micros;
                    self.mark_dirty();
                }
                assert(self@.tracks =~= all.update(
                    at as int,
                    TrackModel { offset: offset_micros, ..all[at as int] },
                ));
                true
            },
        }
    }

    /// Sets the offset of all tracks together.
    pub fn set_global_offset(&mut self, offset_micros: i64)
        requires
            old(self).wf(),
        ensures
            final(self).wf(),
            final(self)@ == (SessionModel {
                global_offset: offset_micros,
                version: if old(self)@.global_offset == offset_micros {
                    old(self)@.version
                } else {
                    newer(old(self)@.version)
                },
                ..old(self)@
            }),
    {
        if self.global_offset != offset_micros {
            self.global_offset = offset_micros;
            self.mark_dirty();
        }
    }

    /// The offset of all tracks together.
    pub fn global_offset(&self) -> (result: i64)
        ensures
            result == self@.global_offset,
    {
        self.global_offset
    }

    /// The tracks.
    pub fn tracks(&self) -> (result: &[DanmakuTrack])
        ensures
            tracks_view(result@) == self@.tracks,
    {
        self.tracks.as_slice()
    }

    /// What is told about the tracks.
    pub fn track_infos(&self) -> (result: Vec<DanmakuTrackInfo>)
        ensures
            result@.len() == self@.tracks.len(),
            forall|i: int|
                0 <= i < result@.len() ==> tells_of(#[trigger] result@[i], self@.tracks[i]),
    {
        let mut result: Vec<DanmakuTrackInfo> = Vec::new();
        let mut i: usize = 0;
        while i < self.tracks.len()
            invariant
                i <= self.tracks@.len(),
                result@.len() == i,
                forall|k: int| 0 <= k < i ==> tells_of(#[trigger] result@[k], self@.tracks[k]),
            decreases self.tracks@.len() - i,
        {
            let track: &DanmakuTrack = &self.tracks[i];
            assert(self@.tracks[i as int] == track@);
            result.push(
                DanmakuTrackInfo {
                    id: track.id,
                    name: track.name.clone(),
                    source: track.source.label(),
                    enabled: track.enabled,
                    offset_micros: track.offset,
                    item_count: track.item_count(),
                },
            );
            i += 1;
        }
        result
    }

    /// The version, which grows with every change.
    pub fn version(&self) -> (result: u64)
        ensures
            result == self@.version,
    {
        self.version
    }

    /// The comments of the enabled tracks, offset, in the order of their times.
    pub fn active_timeline(&mut self) -> (result: &DanmakuTimeline)
        requires
            old(self).wf(),
        ensures
            final(self).wf(),
            final(self)@ == old(self)@,
            result@ == old(self)@.active(),
    {
        self.rebuild_if_dirty();
        &self.active_timeline
    }

    /// A timeline of the comments of the enabled tracks, to keep.
    pub fn active_timeline_clone(&mut self) -> (result: DanmakuTimeline)
        requires
            old(self).wf(),
        ensures
            final(self).wf(),
            final(self)@ == old(self)@,
            result@ == old(self)@.active(),
    {
        self.rebuild_if_dirty();
        self.active_timeline.duplicate()
    }

    /// Whether no comment is shown.
    pub fn is_empty(&mut self) -> (result: bool)
        requires
            old(self).wf(),
        ensures
            final(self).wf(),
            final(self)@ == old(self)@,
            result <==> old(self)@.active().len() == 0,
    {
        self.rebuild_if_dirty();
        self.active_timeline.is_empty()
    }

    fn add_track_with_id(
        &mut self,
        id: u64,
        timeline: DanmakuTimeline,
        name: String,
        source: DanmakuTrackSource,
    ) -> (result: u64)
        requires
            id >= 1,
            old(self)@.next_track_id < u64::MAX ==> {
                &&& forall|i: int|
                    0 <= i < old(self)@.tracks.len() ==> (#[trigger] old(self)@.tracks[i]).id
                        < old(self)@.next_track_id
                &&& forall|i: int, j: int|
                    0 <= i < j < old(self)@.tracks.len() ==> (#[trigger] old(self)@.tracks[i]).id
                        != (#[trigger] old(self)@.tracks[j]).id
                &&& forall|i: int|
                    0 <= i < old(self)@.tracks.len() ==> (#[trigger] old(self)@.tracks[i]).id != id
            },
        ensures
            final(self).wf(),
            result == id,
            final(self)@ == old(self)@.with_track(fresh_track(id, name@, source, timeline@)),
    {
        let track = DanmakuTrack::new(id, name, source, timeline);
        self.tracks.push(track);
        let after: u64 = to_newer(id);
        if self.next_track_id < after {
            self.next_track_id = after;
        }
        self.mark_dirty();
        assert(self@.tracks =~= old(self)@.tracks.push(track@));
        id
    }

    fn allocate_track_id(&mut self) -> (result: u64)
        requires
            old(self).wf(),
        ensures
            result == old(self)@.next_id(),
            result >= 1,
            final(self)@ == (SessionModel { next_track_id: newer(result), ..old(self)@ }),
            final(self)@.has_distinct_ids(),
    {
        let id: u64 = if self.next_track_id < DEFAULT_DANMAKU_TRACK_ID {
            DEFAULT_DANMAKU_TRACK_ID
        } else {
            self.next_track_id
        };
        self.next_track_id = to_newer(id);
        id
    }

    fn find_track(&self, track_id: u64) -> (result: Option<usize>)
        ensures
            match track_index(self@.tracks, track_id, 0) {
                None => result is None,
                Some(at) => (result matches Some(k) && k == at) && 0 <= at < self@.tracks.len(),
            },
    {
        let mut i: usize = 0;
        while i < self.tracks.len()
            invariant
                i <= self.tracks@.len(),
                track_index(self@.tracks, track_id, 0) == track_index(
                    self@.tracks,
                    track_id,
                    i as nat,
                ),
            decreases self.tracks@.len() - i,
        {
            assert(self@.tracks[i as int] == self.tracks@[i as int]@);
            if self.tracks[i].id == track_id {
                return Some(i);
            }
            i += 1;
        }
        None
    }

    fn mark_dirty(&mut self)
        ensures
            final(self)@ == old(self)@.changed(),
            final(self).dirty,
            final(self).active_timeline == old(self).active_timeline,
    {
        self.dirty = true;
        self.mark_changed();
    }

    fn mark_changed(&mut self)
        ensures
            final(self)@ == old(self)@.changed(),
            final(self).dirty == old(self).dirty,
            final(self).active_timeline == old(self).active_timeline,
    {
        self.version = to_newer(self.version);
    }

    fn rebuild_if_dirty(&mut self)
        requires
            old(self).wf(),
        ensures
            final(self).wf(),
            final(self)@ == old(self)@,
            final(self).active_timeline@ == old(self)@.active(),
    {
        if !self.dirty {
            return;
        }
        let mut items: Vec<DanmakuItem> = Vec::new();
        let mut i: usize = 0;
        let ghost tracks = self@.tracks;
        let ghost global = self.global_offset;
        assert(items_view(items@) =~= merged_items(tracks.take(0), global));
        while i < self.tracks.len()
            invariant
                i <= self.tracks@.len(),
                self == old(self),
                tracks == self@.tracks,
                global == self.global_offset,
                items_view(items@) == merged_items(tracks.take(i as int), global),
            decreases self.tracks@.len() - i,
        {
            assert(tracks.take(i as int + 1).drop_last() =~= tracks.take(i as int));
            let track: &DanmakuTrack = &self.tracks[i];
            assert(tracks.take(i as int + 1).last() == track@);
            if track.enabled {
                let offset: i64 = add_offsets(track.offset, self.global_offset);
                push_shifted(&mut items, track.timeline.items(), track.id, offset);
            }
            i += 1;
        }
        assert(tracks.take(i as int) =~= tracks);
        self.active_timeline = DanmakuTimeline::in_time_order(items);
        self.dirty = false;
    }
}

/// Appends the comments of a track, offset and with the ids of a merged
/// timeline.
fn push_shifted(target: &mut Vec<DanmakuItem>, items: &[DanmakuItem], track_id: u64, offset: i64)
    ensures
        items_view(final(target)@) == items_view(old(target)@) + shifted_items(
            items_view(items@),
            track_id,
            offset,
        ),
{
    let ghost models = items_view(items@);
    let mut i: usize = 0;
    assert(items_view(target@) =~= items_view(old(target)@) + shifted_items(
        models.take(0),
        track_id,
        offset,
    ));
    while i < items.len()
        invariant
            i <= items@.len(),
            models == items_view(items@),
            items_view(target@) == items_view(old(target)@) + shifted_items(
                models.take(i as int),
                track_id,
                offset,
            ),
        decreases items@.len() - i,
    {
        assert(models.take(i as int + 1).drop_last() =~= models.take(i as int));
        let item: &DanmakuItem = &items[i];
        assert(models.take(i as int + 1).last() == item@);
        if let Some(pts) = apply_track_offset(item.pts, offset) {
            let ghost before = items_view(target@);
            let mut shifted = item.duplicate();
            shifted.id = compose_track_item_id(track_id, item.id);
            shifted.pts = pts;
            target.push(shifted);
            assert(items_view(target@) =~= before.push(shifted@));
        }
        i += 1;
        assert(items_view(target@) =~= items_view(old(target)@) + shifted_items(
            models.take(i as int),
            track_id,
            offset,
        ));
    }
    assert(models.take(i as int) =~= models);
}

proof fn lemma_track_index_of_last(tracks: Seq<TrackModel>, id: u64, from: nat)
    requires
        tracks.len() > 0,
        tracks.last().id == id,
        from < tracks.len(),
        forall|i: int| 0 <= i < tracks.len() - 1 ==> (#[trigger] tracks[i]).id != id,
    ensures
        track_index(tracks, id, from) == Some(tracks.len() - 1),
    decreases tracks.len() - from,
{
    if from < tracks.len() - 1 {
        assert(tracks[from as int].id != id);
        lemma_track_index_of_last(tracks, id, from + 1);
    }
}

/// What is left without a track are tracks from before, in their order; where
/// none was taken out, nothing changed.
proof fn lemma_without_track(tracks: Seq<TrackModel>, id: u64)
    ensures
        without_track(tracks, id).len() <= tracks.len(),
        without_track(tracks, id).len() == tracks.len() ==> without_track(tracks, id) == tracks,
        forall|k: int|
            0 <= k < without_track(tracks, id).len() ==> tracks.contains(
                #[trigger] without_track(tracks, id)[k],
            ) && without_track(tracks, id)[k].id != id,
        (forall|i: int, j: int|
            0 <= i < j < tracks.len() ==> (#[trigger] tracks[i]).id != (#[trigger] tracks[j]).id)
            ==> (forall|i: int, j: int|
            0 <= i < j < without_track(tracks, id).len() ==> (#[trigger] without_track(
                tracks,
                id,
            )[i]).id != (#[trigger] without_track(tracks, id)[j]).id),
    decreases tracks.len(),
{
    if tracks.len() > 0 {
        let shorter = tracks.drop_last();
        let rest = without_track(shorter, id);
        lemma_without_track(shorter, id);
        let result = without_track(tracks, id);
        assert forall|k: int| 0 <= k < result.len() implies tracks.contains(#[trigger] result[k])
            && result[k].id != id by {
            if k < rest.len() {
                assert(result[k] == rest[k]);
                assert(shorter.contains(rest[k]));
                let m = choose|m: int| 0 <= m < shorter.len() && shorter[m] == rest[k];
                assert(tracks[m] == rest[k]);
            } else {
                assert(tracks[tracks.len() - 1] == result[k]);
            }
        }
        if forall|i: int, j: int|
            0 <= i < j < tracks.len() ==> (#[trigger] tracks[i]).id != (#[trigger] tracks[j]).id {
            assert forall|i: int, j: int| 0 <= i < j < shorter.len() implies (
            #[trigger] shorter[i]).id != (#[trigger] shorter[j]).id by {
                assert(tracks[i].id != tracks[j].id);
            }
            assert forall|i: int, j: int| 0 <= i < j < result.len() implies (
            #[trigger] result[i]).id != (#[trigger] result[j]).id by {
                if j < rest.len() {
                    assert(rest[i].id != rest[j].id);
                } else {
                    assert(result[i] == rest[i]);
                    assert(shorter.contains(rest[i]));
                    let m = choose|m: int| 0 <= m < shorter.len() && shorter[m] == rest[i];
                    assert(tracks[m].id != tracks[tracks.len() - 1].id);
                }
            }
        }
        if result.len() == tracks.len() {
            assert(result =~= tracks);
        }
    }
}

/// An offset moves every time by the same span: later for one above zero, earlier for
/// one below, and what would come before the start is gone. Times keep their order.
pub proof fn law_offset_moves_times(pts: nat, other: nat, offset_micros: i64)
    requires
        pts <= other,
        other + offset_micros * 1_000 <= MAX_NANOS,
    ensures
        offset_time(pts, offset_micros) is None <==> pts + offset_micros * 1_000 < 0,
        offset_time(pts, offset_micros) matches Some(time) ==> time == pts + offset_micros * 1_000,
        offset_time(pts, offset_micros) is Some ==> offset_time(other, offset_micros) is Some
            && offset_time(pts, offset_micros)->0 <= offset_time(other, offset_micros)->0,
{
}

/// The offset of a track and that of all tracks add up.
pub proof fn law_offsets_add_up(pts: nat, a: i64, b: i64)
    requires
        i64::MIN <= a + b <= i64::MAX,
        pts + a * 1_000 >= 0,
        pts + (a + b) * 1_000 >= 0,
        pts + a * 1_000 <= MAX_NANOS,
        pts + (a + b) * 1_000 <= MAX_NANOS,
    ensures
        offset_time(pts, sum_offsets(a, b)) == offset_time(
            offset_time(pts, a)->0,
            b,
        ),
        sum_offsets(a, b) == a + b,
{
}

/// A composed id holds the track above the comment.
pub proof fn law_composed_ids_hold_both(track_id: u64, item_id: u64)
    requires
        track_id <= TRACK_PART_MAX,
        item_id < ITEM_ID_LIMIT,
    ensures
        composed_id(track_id, item_id) / ITEM_ID_LIMIT == track_id,
        composed_id(track_id, item_id) % ITEM_ID_LIMIT == item_id,
{
    vstd::arithmetic::div_mod::lemma_fundamental_div_mod_converse(
        track_id * ITEM_ID_LIMIT + item_id,
        ITEM_ID_LIMIT as int,
        track_id as int,
        item_id as int,
    );
}

/// Comments are moved one by one and keep their order; of each only the time and the
/// id change.
pub proof fn law_shifted_comments_are_the_same(
    before: Seq<ItemModel>,
    item: ItemModel,
    behind: Seq<ItemModel>,
    track_id: u64,
    offset: i64,
)
    ensures
        shifted_items(before + behind, track_id, offset) == shifted_items(before, track_id, offset)
            + shifted_items(behind, track_id, offset),
        offset_time(item.pts, offset) is None ==> shifted_items(
            seq![item],
            track_id,
            offset,
        ).len() == 0,
        offset_time(item.pts, offset) matches Some(pts) ==> {
            let moved = shifted_items(seq![item], track_id, offset);
            &&& moved.len() == 1
            &&& moved[0].pts == pts
            &&& moved[0].id == composed_id(track_id, item.id)
            &&& moved[0].text == item.text
            &&& moved[0].mode == item.mode
            &&& moved[0].color == item.color
            &&& moved[0].font_size == item.font_size
            &&& moved[0].opacity == item.opacity
            &&& moved[0].is_self == item.is_self
        },
    decreases behind.len(),
{
    let one = seq![item];
    assert(one.drop_last() =~= Seq::<ItemModel>::empty());
    assert(shifted_items(one.drop_last(), track_id, offset) =~= Seq::<ItemModel>::empty());
    if behind.len() == 0 {
        assert(before + behind =~= before);
        assert(shifted_items(before, track_id, offset) + shifted_items(behind, track_id, offset)
            =~= shifted_items(before, track_id, offset));
    } else {
        law_shifted_comments_are_the_same(before, item, behind.drop_last(), track_id, offset);
        assert((before + behind).drop_last() =~= before + behind.drop_last());
        assert((before + behind).last() == behind.last());
        assert(shifted_items(before + behind, track_id, offset) =~= shifted_items(
            before,
            track_id,
            offset,
        ) + shifted_items(behind, track_id, offset));
    }
}

/// Tracks are merged one after the other: each that is switched on brings all its
/// comments, moved by its own offset and that of all.
pub proof fn law_tracks_are_merged_in_order(
    before: Seq<TrackModel>,
    track: TrackModel,
    global_offset: i64,
)
    ensures
        merged_items(Seq::empty(), global_offset).len() == 0,
        track.enabled ==> merged_items(before.push(track), global_offset) == merged_items(
            before,
            global_offset,
        ) + shifted_items(track.items, track.id, sum_offsets(track.offset, global_offset)),
        !track.enabled ==> merged_items(before.push(track), global_offset) == merged_items(
            before,
            global_offset,
        ),
{
    assert(before.push(track).drop_last() =~= before);
}

/// A track is found by its id: the first that has it.
pub proof fn law_tracks_are_found_by_id(tracks: Seq<TrackModel>, id: u64, from: nat)
    ensures
        match track_index(tracks, id, from) {
            Some(at) => {
                &&& from <= at < tracks.len()
                &&& tracks[at].id == id
                &&& forall|i: int| from <= i < at ==> (#[trigger] tracks[i]).id != id
            },
            None => forall|i: int| from <= i < tracks.len() ==> (#[trigger] tracks[i]).id != id,
        },
    decreases tracks.len() - from,
{
    if from < tracks.len() && tracks[from as int].id != id {
        law_tracks_are_found_by_id(tracks, id, from + 1);
    }
}

/// A removed track is gone, and all others stay in their order.
pub proof fn law_removed_tracks_are_gone(
    before: Seq<TrackModel>,
    track: TrackModel,
    id: u64,
)
    ensures
        forall|i: int|
            0 <= i < without_track(before, id).len() ==> (#[trigger] without_track(before, id)[i]).id
                != id,
        track.id != id ==> without_track(before.push(track), id) == without_track(before, id).push(
            track,
        ),
        track.id == id ==> without_track(before.push(track), id) == without_track(before, id),
        without_track(Seq::empty(), id).len() == 0,
    decreases before.len(),
{
    assert(before.push(track).drop_last() =~= before);
    if before.len() > 0 {
        law_removed_tracks_are_gone(before.drop_last(), track, id);
        let rest = without_track(before.drop_last(), id);
        assert forall|i: int| 0 <= i < without_track(before, id).len() implies (
        #[trigger] without_track(before, id)[i]).id != id by {
            if i < rest.len() {
                assert(without_track(before, id)[i] == rest[i]);
            }
        }
    }
}

/// A new track comes behind the others, switched on and not moved, and an offset
/// changes that of one track and nothing else.
pub proof fn law_tracks_are_added_and_moved(
    session: SessionModel,
    id: u64,
    name: Seq<char>,
    source: DanmakuTrackSource,
    items: Seq<ItemModel>,
    at: int,
    offset: i64,
)
    requires
        id >= 1,
    ensures
        ({
            let track = fresh_track(id, name, source, items);
            let after = session.with_track(track);
            &&& track.id == id
            &&& track.items == items
            &&& track.enabled
            &&& track.offset == 0
            &&& after.tracks.len() == session.tracks.len() + 1
            &&& after.tracks.last() == track
            &&& after.tracks.drop_last() == session.tracks
            &&& after.global_offset == session.global_offset
            &&& session.version < u64::MAX ==> after.version == session.version + 1
        }),
        track_index(session.tracks, id, 0) == Some(at) ==> {
            let after = session.with_offset(id, offset);
            &&& after.tracks.len() == session.tracks.len()
            &&& after.tracks[at].offset == offset
            &&& after.tracks[at].id == session.tracks[at].id
            &&& after.tracks[at].items == session.tracks[at].items
            &&& after.tracks[at].enabled == session.tracks[at].enabled
            &&& forall|i: int|
                0 <= i < session.tracks.len() && i != at ==> #[trigger] after.tracks[i]
                    == session.tracks[i]
            &&& after.global_offset == session.global_offset
        },
{
    law_tracks_are_found_by_id(session.tracks, id, 0);
    let track = fresh_track(id, name, source, items);
    assert(session.tracks.push(track).drop_last() =~= session.tracks);
}

} // verus!
