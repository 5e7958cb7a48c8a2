//! Counts of what is laid out, for debugging.
use crate::danmaku::model::DanmakuMode;
use crate::danmaku::config::SINGLE_TENTH;
use crate::float_bits::{nearest_single, Single, SINGLE_ONE};
use vstd::prelude::*;

verus! {

broadcast use vstd::seq_lib::group_seq_properties;

/// The number of rows that are told apart.
pub const DANMAKU_DEBUG_BUCKETS: usize = 16;

/// The largest finite number.
pub const SINGLE_MAX: u32 = 0x7f7f_ffff;

/// The least finite number.
pub const SINGLE_MIN: u32 = 0xff7f_ffff;

// ---------------------------------------------------------------------------
// Buckets
// ---------------------------------------------------------------------------

/// How many comments are in a row.
#[derive(Debug, Clone, Copy, PartialEq, Eq, Structural)]
pub struct DanmakuDebugBucket {
    pub key: i32,
    pub count: u32,
}

impl Default for DanmakuDebugBucket {
    fn default() -> (result: Self)
        ensures
            result == (DanmakuDebugBucket { key: 0, count: 0 }),
    {
        Self { key: 0, count: 0 }
    }
}

/// How often a row occurs.
pub open spec fn occurrences(keys: Seq<i32>, key: i32) -> nat
    decreases keys.len(),
{
    if keys.len() == 0 {
        0
    } else {
        occurrences(keys.drop_last(), key) + if keys.last() == key {
            1nat
        } else {
            0nat
        }
    }
}

/// Whether buckets count rows: each row that occurs has one, in ascending order.
pub open spec fn counts_rows(buckets: Seq<DanmakuDebugBucket>, keys: Seq<i32>) -> bool {
    &&& forall|i: int, j: int|
        0 <= i < j < buckets.len() ==> (#[trigger] buckets[i]).key < (#[trigger] buckets[j]).key
    &&& forall|i: int|
        0 <= i < buckets.len() ==> {
            &&& (#[trigger] buckets[i]).count == occurrences(keys, buckets[i].key)
            &&& buckets[i].count > 0
        }
    &&& forall|key: i32| #[trigger]
        occurrences(keys, key) > 0 ==> exists|i: int|
            0 <= i < buckets.len() && (#[trigger] buckets[i]).key == key
}

proof fn lemma_occurrences_bound(keys: Seq<i32>, key: i32)
    ensures
        occurrences(keys, key) <= keys.len(),
    decreases keys.len(),
{
    if keys.len() > 0 {
        lemma_occurrences_bound(keys.drop_last(), key);
    }
}

/// Counts one more comment in a row.
fn count_row(buckets: &mut Vec<DanmakuDebugBucket>, key: i32, Ghost(keys): Ghost<Seq<i32>>)
    requires
        counts_rows(old(buckets)@, keys),
        keys.len() < u32::MAX,
    ensures
        counts_rows(final(buckets)@, keys.push(key)),
{
    let ghost before = buckets@;
    let ghost more = keys.push(key);
    assert(more.drop_last() =~= keys);
    proof {
        lemma_occurrences_bound(keys, key);
    }
    let mut at: usize = 0;
    while at < buckets.len() && buckets[at].key < key
        invariant
            at <= buckets@.len(),
            buckets@ == before,
            forall|i: int| 0 <= i < at ==> (#[trigger] before[i]).key < key,
        decreases buckets@.len() - at,
    {
        at += 1;
    }
    if at < buckets.len() && buckets[at].key == key {
        let count: u32 = buckets[at].count;
        assert(before[at as int].count == occurrences(keys, key));
        buckets[at] = DanmakuDebugBucket { key, count: count + 1 };
        proof {
            let after = buckets@;
            assert forall|i: int| 0 <= i < after.len() implies {
                &&& (#[trigger] after[i]).count == occurrences(more, after[i].key)
                &&& after[i].count > 0
            } by {
                assert(before[i].count == occurrences(keys, before[i].key));
                if i < at {
                    assert(before[i].key < before[at as int].key);
                } else if i > at {
                    assert(before[at as int].key < before[i].key);
                }
            }
            assert forall|i: int, j: int| 0 <= i < j < after.len() implies (
            #[trigger] after[i]).key < (#[trigger] after[j]).key by {
                assert(before[i].key < before[j].key);
            }
            assert forall|other: i32| #[trigger] occurrences(more, other) > 0 implies exists|i: int|
                0 <= i < after.len() && (#[trigger] after[i]).key == other by {
                if other == key {
                    assert(after[at as int].key == other);
                } else {
                    assert(occurrences(keys, other) > 0);
                    let i = choose|i: int| 0 <= i < before.len() && (#[trigger] before[i]).key == other;
                    assert(after[i].key == other);
                }
            }
        }
    } else {
        proof {
            assert forall|i: int| 0 <= i < before.len() implies (#[trigger] before[i]).key
                != key by {
                if i > at {
                    assert(before[at as int].key < before[i].key);
                }
            }
            if occurrences(keys, key) > 0 {
                let i = choose|i: int| 0 <= i < before.len() && (#[trigger] before[i]).key == key;
                assert(false);
            }
        }
        buckets.insert(at, DanmakuDebugBucket { key, count: 1 });
        proof {
            let after = buckets@;
            assert forall|i: int| 0 <= i < after.len() implies {
                &&& (#[trigger] after[i]).count == occurrences(more, after[i].key)
                &&& after[i].count > 0
            } by {
                if i < at {
                    assert(after[i] == before[i]);
                } else if i > at {
                    assert(after[i] == before[i - 1]);
                }
            }
            assert forall|i: int, j: int| 0 <= i < j < after.len() implies (
            #[trigger] after[i]).key < (#[trigger] after[j]).key by {
                let p = if i < at { i } else { i - 1 };
                let q = if j < at { j } else { j - 1 };
                if i == at {
                    assert(after[j] == before[j - 1]);
                    if j - 1 > at {
                        assert(before[at as int].key < before[j - 1].key);
                    }
                } else if j == at {
                    assert(after[i] == before[i]);
                } else {
                    assert(after[i] == before[p] && after[j] == before[q]);
                    assert(before[p].key < before[q].key);
                }
            }
            assert forall|other: i32| #[trigger] occurrences(more, other) > 0 implies exists|i: int|
                0 <= i < after.len() && (#[trigger] after[i]).key == other by {
                if other == key {
                    assert(after[at as int].key == other);
                } else {
                    assert(occurrences(keys, other) > 0);
                    let i = choose|i: int| 0 <= i < before.len() && (#[trigger] before[i]).key == other;
                    if i < at {
                        assert(after[i].key == other);
                    } else {
                        assert(after[i + 1].key == other);
                    }
                }
            }
        }
    }
}

/// The buckets that are told: the first ones, and empty ones behind them.
pub open spec fn told_buckets(source: Seq<DanmakuDebugBucket>) -> Seq<DanmakuDebugBucket> {
    Seq::new(
        DANMAKU_DEBUG_BUCKETS as nat,
        |i: int|
            if i < source.len() {
                source[i]
            } else {
                DanmakuDebugBucket { key: 0, count: 0 }
            },
    )
}

/// Tells the first buckets, and how many there are.
pub fn fill_debug_buckets(
    source: &Vec<DanmakuDebugBucket>,
    target: &mut [DanmakuDebugBucket; 16],
) -> (result: usize)
    ensures
        final(target)@ == told_buckets(source@),
        result == source@.len(),
{
    let mut i: usize = 0;
    while i < 16
        invariant
            i <= 16,
            target@.len() == 16,
            forall|k: int| 0 <= k < i ==> target@[k] == told_buckets(source@)[k],
        decreases 16 - i,
    {
        target[i] = if i < source.len() {
            source[i]
        } else {
            DanmakuDebugBucket::default()
        };
        i += 1;
    }
    assert(target@ =~= told_buckets(source@));
    source.len()
}

// ---------------------------------------------------------------------------
// Frames
// ---------------------------------------------------------------------------

/// What is counted of a comment: its mode, its track, the row that its upper
/// edge is in, and its edges.
#[derive(Debug, Clone, Copy, PartialEq, Eq, Structural)]
pub struct DanmakuRow {
    pub mode: DanmakuMode,
    pub track_index: usize,
    pub row_key: i32,
    pub top: Single,
    pub bottom: Single,
    pub height: Single,
}

/// What is counted of a comment at a height.
pub open spec fn row_at(mode: DanmakuMode, track_index: usize, y: Single, height: Single) -> DanmakuRow {
    DanmakuRow {
        mode,
        track_index,
        row_key: y.rounded_signed() as i32,
        top: y,
        bottom: y.sum(height),
        height,
    }
}

impl DanmakuRow {
    /// Whether the comment crosses the surface.
    pub open spec fn scrolls(self) -> bool {
        self.mode == DanmakuMode::Scroll || self.mode == DanmakuMode::ScrollReverse
    }

    /// What is counted of a comment at a height.
    pub fn new(mode: DanmakuMode, track_index: usize, y: Single, height: Single) -> (result: Self)
        ensures
            result == row_at(mode, track_index, y, height),
    {
        Self {
            mode,
            track_index,
            row_key: y.round_to_signed(),
            top: y,
            bottom: y.plus(height),
            height,
        }
    }
}

/// The rows of the comments that cross the surface.
pub open spec fn scroll_keys(rows: Seq<DanmakuRow>) -> Seq<i32>
    decreases rows.len(),
{
    if rows.len() == 0 {
        Seq::empty()
    } else if rows.last().scrolls() {
        scroll_keys(rows.drop_last()).push(rows.last().row_key)
    } else {
        scroll_keys(rows.drop_last())
    }
}

/// How many comments have a mode.
pub open spec fn mode_count(rows: Seq<DanmakuRow>, mode: DanmakuMode) -> nat
    decreases rows.len(),
{
    if rows.len() == 0 {
        0
    } else {
        mode_count(rows.drop_last(), mode) + if rows.last().mode == mode {
            1nat
        } else {
            0nat
        }
    }
}

/// The least track of the comments that cross.
pub open spec fn least_track(rows: Seq<DanmakuRow>) -> usize
    decreases rows.len(),
{
    if rows.len() == 0 {
        usize::MAX
    } else {
        let before = least_track(rows.drop_last());
        if rows.last().scrolls() && rows.last().track_index < before {
            rows.last().track_index
        } else {
            before
        }
    }
}

/// The greatest track of the comments that cross.
pub open spec fn greatest_track(rows: Seq<DanmakuRow>) -> usize
    decreases rows.len(),
{
    if rows.len() == 0 {
        0
    } else {
        let before = greatest_track(rows.drop_last());
        if rows.last().scrolls() && rows.last().track_index > before {
            rows.last().track_index
        } else {
            before
        }
    }
}

/// The uppermost edge of the comments that cross.
pub open spec fn least_top(rows: Seq<DanmakuRow>) -> Single
    decreases rows.len(),
{
    if rows.len() == 0 {
        Single { bits: SINGLE_MAX }
    } else if rows.last().scrolls() {
        least_top(rows.drop_last()).lesser(rows.last().top)
    } else {
        least_top(rows.drop_last())
    }
}

/// The lowest edge of the comments that cross.
pub open spec fn greatest_bottom(rows: Seq<DanmakuRow>) -> Single
    decreases rows.len(),
{
    if rows.len() == 0 {
        Single { bits: SINGLE_MIN }
    } else if rows.last().scrolls() {
        greatest_bottom(rows.drop_last()).greater(rows.last().bottom)
    } else {
        greatest_bottom(rows.drop_last())
    }
}

/// The height of the first comment that crosses and has one.
pub open spec fn first_height(rows: Seq<DanmakuRow>) -> Single
    decreases rows.len(),
{
    if rows.len() == 0 {
        Single { bits: 0 }
    } else {
        let before = first_height(rows.drop_last());
        if rows.last().scrolls() && !before.is_nan() && before.rank() <= 0 {
            rows.last().height
        } else {
            before
        }
    }
}

/// What was counted of some comments.
#[derive(Debug, Clone)]
pub struct DanmakuRowCounts {
    pub items: usize,
    pub scroll_items: usize,
    pub top_items: usize,
    pub bottom_items: usize,
    pub track_min: usize,
    pub track_max: usize,
    pub min_y: Single,
    pub max_y: Single,
    pub first_height: Single,
    pub buckets: Vec<DanmakuDebugBucket>,
}

/// Whether counts are those of some comments.
pub open spec fn counts_of(counts: DanmakuRowCounts, rows: Seq<DanmakuRow>) -> bool {
    &&& counts.items == rows.len()
    &&& counts.scroll_items == scroll_keys(rows).len()
    &&& counts.top_items == mode_count(rows, DanmakuMode::Top)
    &&& counts.bottom_items == mode_count(rows, DanmakuMode::Bottom)
    &&& counts.track_min == least_track(rows)
    &&& counts.track_max == greatest_track(rows)
    &&& counts.min_y == least_top(rows)
    &&& counts.max_y == greatest_bottom(rows)
    &&& counts.first_height == first_height(rows)
    &&& counts_rows(counts.buckets@, scroll_keys(rows))
}

proof fn lemma_counts_bound(rows: Seq<DanmakuRow>)
    ensures
        scroll_keys(rows).len() <= rows.len(),
        mode_count(rows, DanmakuMode::Top) <= rows.len(),
        mode_count(rows, DanmakuMode::Bottom) <= rows.len(),
    decreases rows.len(),
{
    if rows.len() > 0 {
        lemma_counts_bound(rows.drop_last());
    }
}

/// Counts comments.
pub fn count_rows(rows: &[DanmakuRow]) -> (result: DanmakuRowCounts)
    requires
        rows@.len() < u32::MAX,
    ensures
        counts_of(result, rows@),
{
    let mut counts = DanmakuRowCounts {
        items: 0,
        scroll_items: 0,
        top_items: 0,
        bottom_items: 0,
        track_min: usize::MAX,
        track_max: 0,
        min_y: Single { bits: SINGLE_MAX },
        max_y: Single { bits: SINGLE_MIN },
        first_height: Single { bits: 0 },
        buckets: Vec::new(),
    };
    let mut i: usize = 0;
    assert(rows@.take(0) =~= Seq::<DanmakuRow>::empty());
    while i < rows.len()
        invariant
            i <= rows@.len() < u32::MAX,
            counts_of(counts, rows@.take(i as int)),
        decreases rows@.len() - i,
    {
        let ghost before = rows@.take(i as int);
        let ghost after = rows@.take(i as int + 1);
        assert(after.drop_last() =~= before);
        proof {
            lemma_counts_bound(before);
        }
        let row: DanmakuRow = rows[i];
        assert(after.last() == row);
        counts.items = counts.items + 1;
        match row.mode {
            DanmakuMode::Scroll | DanmakuMode::ScrollReverse => {
                counts.scroll_items = counts.scroll_items + 1;
                count_row(&mut counts.buckets, row.row_key, Ghost(scroll_keys(before)));
                if row.track_index < counts.track_min {
                    counts.track_min = row.track_index;
                }
                if row.track_index > counts.track_max {
                    counts.track_max = row.track_index;
                }
                counts.min_y = counts.min_y.min_of(row.top);
                counts.max_y = counts.max_y.max_of(row.bottom);
                if !counts.first_height.check_nan() && counts.first_height.place() <= 0 {
                    counts.first_height = row.height;
                }
            },
            DanmakuMode::Top => {
                counts.top_items = counts.top_items + 1;
            },
            DanmakuMode::Bottom => {
                counts.bottom_items = counts.bottom_items + 1;
            },
            DanmakuMode::Special => {},
        }
        i += 1;
    }
    assert(rows@.take(i as int) =~= rows@);
    counts
}

/// What is told of prepared comments.
#[derive(Debug, Clone, Copy, PartialEq, Eq)]
pub struct DanmakuPreparedStats {
    pub source_items: usize,
    pub supported_items: usize,
    pub prepared_items: usize,
    pub filtered_items: usize,
    pub prepared_scroll_items: usize,
    pub prepared_top_items: usize,
    pub prepared_bottom_items: usize,
    pub prepared_scroll_rows: usize,
    pub prepared_scroll_min_y: Single,
    pub prepared_scroll_max_y: Single,
    pub expected_scroll_tracks: usize,
    pub dfm_track_count: usize,
    pub display_area_height: Single,
    pub scroll_area_height: Single,
    pub track_height: Single,
    pub scroll_bucket_count: usize,
    pub scroll_buckets: [DanmakuDebugBucket; 16],
}

/// What is told of the comments in a frame.
#[derive(Debug, Clone, Copy, PartialEq, Eq)]
pub struct DanmakuFrameStats {
    pub prepared: DanmakuPreparedStats,
    pub placed_items: usize,
    pub scroll_items: usize,
    pub top_items: usize,
    pub bottom_items: usize,
    pub scroll_rows: usize,
    pub scroll_track_min: usize,
    pub scroll_track_max: usize,
    pub scroll_min_y: Single,
    pub scroll_max_y: Single,
    pub scroll_bucket_count: usize,
    pub scroll_buckets: [DanmakuDebugBucket; 16],
}

fn no_buckets() -> (result: [DanmakuDebugBucket; 16])
    ensures
        result@ == told_buckets(Seq::empty()),
{
    let mut buckets = [DanmakuDebugBucket { key: 0, count: 0 }; 16];
    let none: Vec<DanmakuDebugBucket> = Vec::new();
    assert(none@ =~= Seq::<DanmakuDebugBucket>::empty());
    let _ = fill_debug_buckets(&none, &mut buckets);
    buckets
}

impl DanmakuPreparedStats {
    /// Whether nothing is told.
    pub open spec fn is_blank(self) -> bool {
        &&& self.source_items == 0 && self.supported_items == 0 && self.prepared_items == 0
        &&& self.filtered_items == 0 && self.prepared_scroll_items == 0
        &&& self.prepared_top_items == 0 && self.prepared_bottom_items == 0
        &&& self.prepared_scroll_rows == 0 && self.expected_scroll_tracks == 0
        &&& self.dfm_track_count == 0 && self.scroll_bucket_count == 0
        &&& self.prepared_scroll_min_y.bits == 0 && self.prepared_scroll_max_y.bits == 0
        &&& self.display_area_height.bits == 0 && self.scroll_area_height.bits == 0
        &&& self.track_height.bits == 0
        &&& self.scroll_buckets@ == told_buckets(Seq::empty())
    }
}

impl Default for DanmakuPreparedStats {
    fn default() -> (result: Self)
        ensures
            result.is_blank(),
    {
        let zero = Single { bits: 0 };
        Self {
            source_items: 0,
            supported_items: 0,
            prepared_items: 0,
            filtered_items: 0,
            prepared_scroll_items: 0,
            prepared_top_items: 0,
            prepared_bottom_items: 0,
            prepared_scroll_rows: 0,
            prepared_scroll_min_y: zero,
            prepared_scroll_max_y: zero,
            expected_scroll_tracks: 0,
            dfm_track_count: 0,
            display_area_height: zero,
            scroll_area_height: zero,
            track_height: zero,
            scroll_bucket_count: 0,
            scroll_buckets: no_buckets(),
        }
    }
}

impl DanmakuFrameStats {
    /// Whether nothing is told.
    pub open spec fn is_blank(self) -> bool {
        &&& self.prepared.is_blank()
        &&& self.placed_items == 0 && self.scroll_items == 0 && self.top_items == 0
        &&& self.bottom_items == 0 && self.scroll_rows == 0
        &&& self.scroll_track_min == 0 && self.scroll_track_max == 0
        &&& self.scroll_min_y.bits == 0 && self.scroll_max_y.bits == 0
        &&& self.scroll_bucket_count == 0
        &&& self.scroll_buckets@ == told_buckets(Seq::empty())
    }
}

impl Default for DanmakuFrameStats {
    fn default() -> (result: Self)
        ensures
            result.is_blank(),
    {
        let zero = Single { bits: 0 };
        Self {
            prepared: DanmakuPreparedStats::default(),
            placed_items: 0,
            scroll_items: 0,
            top_items: 0,
            bottom_items: 0,
            scroll_rows: 0,
            scroll_track_min: 0,
            scroll_track_max: 0,
            scroll_min_y: zero,
            scroll_max_y: zero,
            scroll_bucket_count: 0,
            scroll_buckets: no_buckets(),
        }
    }
}

/// The height of the area that comments may fill.
pub open spec fn area_height(height: u32, display_area: Single) -> Single {
    Single { bits: nearest_single(height as nat, 0) as u32 }.product(
        display_area.limited(Single { bits: SINGLE_TENTH }, Single { bits: SINGLE_ONE }),
    )
}

/// The height of a track: that of a comment and the gap behind it, and at least
/// one pixel.
pub open spec fn track_height(first: Single, gap_ratio: Single) -> Single {
    first.sum(first.product(gap_ratio)).greater(Single { bits: SINGLE_ONE })
}

/// How many whole tracks an area has, and at least one.
pub open spec fn whole_tracks(area: Single, track: Single) -> nat {
    let tracks = area.quotient(track).whole_part(usize::MAX as nat);
    if tracks < 1 {
        1
    } else {
        tracks
    }
}

/// A number, or zero where nothing was counted.
pub open spec fn if_any(count: nat, value: Single) -> Single {
    if count > 0 {
        value
    } else {
        Single { bits: 0 }
    }
}

impl DanmakuPreparedStats {
    /// What is told of prepared comments on a surface of some height.
    pub fn from_rows(
        source_items: usize,
        supported_items: usize,
        rows: &[DanmakuRow],
        height: u32,
        display_area: Single,
        gap_ratio: Single,
        dfm_track_count: usize,
    ) -> (result: Self)
        requires
            rows@.len() < u32::MAX,
        ensures
            result.source_items == source_items,
            result.supported_items == supported_items,
            result.prepared_items == rows@.len(),
            result.filtered_items == (if supported_items < rows@.len() {
                0
            } else {
                supported_items - rows@.len()
            }),
            result.prepared_scroll_items == scroll_keys(rows@).len(),
            result.prepared_top_items == mode_count(rows@, DanmakuMode::Top),
            result.prepared_bottom_items == mode_count(rows@, DanmakuMode::Bottom),
            result.prepared_scroll_min_y == if_any(scroll_keys(rows@).len(), least_top(rows@)),
            result.prepared_scroll_max_y == if_any(
                scroll_keys(rows@).len(),
                greatest_bottom(rows@),
            ),
            result.dfm_track_count == dfm_track_count,
            result.display_area_height == area_height(height, display_area),
            result.scroll_area_height == area_height(height, display_area),
            result.track_height == track_height(first_height(rows@), gap_ratio),
            result.expected_scroll_tracks == whole_tracks(
                result.scroll_area_height,
                result.track_height,
            ),
            result.prepared_scroll_rows == result.scroll_bucket_count,
            exists|buckets: Seq<DanmakuDebugBucket>| #[trigger]
                counts_rows(buckets, scroll_keys(rows@)) && result.scroll_bucket_count
                    == buckets.len() && result.scroll_buckets@ == told_buckets(buckets),
    {
        let counts = count_rows(rows);
        let mut buckets = no_buckets();
        let bucket_count: usize = fill_debug_buckets(&counts.buckets, &mut buckets);
        let zero = Single { bits: 0 };
        let any = counts.scroll_items > 0;
        assert(counts_rows(counts.buckets@, scroll_keys(rows@)));
        let area = Single::from_whole(height).times(
            display_area.clamp_to(Single { bits: SINGLE_TENTH }, Single { bits: SINGLE_ONE }),
        );
        let first = counts.first_height;
        let track = first.plus(first.times(gap_ratio)).max_of(Single { bits: SINGLE_ONE });
        let tracks: u64 = area.over(track).whole_to(usize::MAX as u64);
        Self {
            source_items,
            supported_items,
            prepared_items: rows.len(),
            filtered_items: if supported_items < rows.len() {
                0
            } else {
                supported_items - rows.len()
            },
            prepared_scroll_items: counts.scroll_items,
            prepared_top_items: counts.top_items,
            prepared_bottom_items: counts.bottom_items,
            prepared_scroll_rows: bucket_count,
            prepared_scroll_min_y: if any {
                counts.min_y
            } else {
                zero
            },
            prepared_scroll_max_y: if any {
                counts.max_y
            } else {
                zero
            },
            expected_scroll_tracks: if tracks < 1 {
                1
            } else {
                tracks as usize
            },
            dfm_track_count,
            display_area_height: area,
            scroll_area_height: area,
            track_height: track,
            scroll_bucket_count: bucket_count,
            scroll_buckets: buckets,
        }
    }
}

impl DanmakuFrameStats {
    /// What is told of the comments in a frame.
    pub fn from_rows(prepared: DanmakuPreparedStats, rows: &[DanmakuRow]) -> (result: Self)
        requires
            rows@.len() < u32::MAX,
        ensures
            result.prepared == prepared,
            result.placed_items == rows@.len(),
            result.scroll_items == scroll_keys(rows@).len(),
            result.top_items == mode_count(rows@, DanmakuMode::Top),
            result.bottom_items == mode_count(rows@, DanmakuMode::Bottom),
            result.scroll_track_min == (if scroll_keys(rows@).len() > 0 {
                least_track(rows@)
            } else {
                0
            }),
            result.scroll_track_max == (if scroll_keys(rows@).len() > 0 {
                greatest_track(rows@)
            } else {
                0
            }),
            result.scroll_min_y == if_any(scroll_keys(rows@).len(), least_top(rows@)),
            result.scroll_max_y == if_any(scroll_keys(rows@).len(), greatest_bottom(rows@)),
            result.scroll_rows == result.scroll_bucket_count,
            exists|buckets: Seq<DanmakuDebugBucket>| #[trigger]
                counts_rows(buckets, scroll_keys(rows@)) && result.scroll_bucket_count
                    == buckets.len() && result.scroll_buckets@ == told_buckets(buckets),
    {
        let counts = count_rows(rows);
        let mut buckets = no_buckets();
        let bucket_count: usize = fill_debug_buckets(&counts.buckets, &mut buckets);
        let zero = Single { bits: 0 };
        let any = counts.scroll_items > 0;
        assert(counts_rows(counts.buckets@, scroll_keys(rows@)));
        Self {
            prepared,
            placed_items: counts.items,
            scroll_items: counts.scroll_items,
            top_items: counts.top_items,
            bottom_items: counts.bottom_items,
            scroll_rows: bucket_count,
            scroll_track_min: if any {
                counts.track_min
            } else {
                0
            },
            scroll_track_max: if any {
                counts.track_max
            } else {
                0
            },
            scroll_min_y: if any {
                counts.min_y
            } else {
                zero
            },
            scroll_max_y: if any {
                counts.max_y
            } else {
                zero
            },
            scroll_bucket_count: bucket_count,
            scroll_buckets: buckets,
        }
    }
}

/// Rows are counted one by one: each adds one to the count of its mode, and those that
/// move add their row to the rows.
pub proof fn law_rows_are_counted(before: Seq<DanmakuRow>, row: DanmakuRow, mode: DanmakuMode)
    ensures
        mode_count(Seq::empty(), mode) == 0,
        row.mode == mode ==> mode_count(before.push(row), mode) == mode_count(before, mode) + 1,
        row.mode != mode ==> mode_count(before.push(row), mode) == mode_count(before, mode),
        row.scrolls() <==> row.mode == DanmakuMode::Scroll || row.mode
            == DanmakuMode::ScrollReverse,
        row.scrolls() ==> scroll_keys(before.push(row)) == scroll_keys(before).push(row.row_key),
        !row.scrolls() ==> scroll_keys(before.push(row)) == scroll_keys(before),
        scroll_keys(Seq::empty()).len() == 0,
{
    assert(before.push(row).drop_last() =~= before);
}

/// The first and the last track are those of rows that move, and every other lies
/// between them.
pub proof fn law_tracks_lie_between(rows: Seq<DanmakuRow>, i: int)
    requires
        0 <= i < rows.len(),
        rows[i].scrolls(),
    ensures
        least_track(rows) <= rows[i].track_index <= greatest_track(rows),
    decreases rows.len(),
{
    if i < rows.len() - 1 {
        assert(rows.drop_last()[i] == rows[i]);
        law_tracks_lie_between(rows.drop_last(), i);
    }
}

/// What is told of a row is what it was made from.
pub proof fn law_rows_tell_what_they_are(
    mode: DanmakuMode,
    track_index: usize,
    y: Single,
    height: Single,
)
    ensures
        row_at(mode, track_index, y, height).mode == mode,
        row_at(mode, track_index, y, height).track_index == track_index,
        row_at(mode, track_index, y, height).top == y,
        row_at(mode, track_index, y, height).bottom == y.sum(height),
        row_at(mode, track_index, y, height).height == height,
{
}

/// Keys are counted one by one.
pub proof fn law_keys_are_counted(before: Seq<i32>, key: i32, other: i32)
    ensures
        occurrences(Seq::empty(), key) == 0,
        occurrences(before.push(key), key) == occurrences(before, key) + 1,
        other != key ==> occurrences(before.push(key), other) == occurrences(before, other),
{
    assert(before.push(key).drop_last() =~= before);
}

/// The counts of rows are those of the rows of each kind.
pub proof fn law_counts_are_those_of_the_rows(
    counts: DanmakuRowCounts,
    rows: Seq<DanmakuRow>,
)
    requires
        counts_of(counts, rows),
    ensures
        counts.items == rows.len(),
        counts.scroll_items == scroll_keys(rows).len(),
        counts.top_items == mode_count(rows, DanmakuMode::Top),
        counts.bottom_items == mode_count(rows, DanmakuMode::Bottom),
        counts.track_min == least_track(rows),
        counts.track_max == greatest_track(rows),
        counts.min_y == least_top(rows),
        counts.max_y == greatest_bottom(rows),
{
}

/// The height that is told of rows is the first one that a scrolling row has.
pub proof fn law_first_height_is_told(rows: Seq<DanmakuRow>, row: DanmakuRow)
    ensures
        first_height(rows).rank() > 0 ==> first_height(rows.push(row)) == first_height(rows),
        !row.scrolls() ==> first_height(rows.push(row)) == first_height(rows),
        row.scrolls() && rows.len() == 0 ==> first_height(rows.push(row)) == row.height,
        row.scrolls() && first_height(rows).bits == 0 ==> first_height(rows.push(row))
            == row.height,
        first_height(Seq::<DanmakuRow>::empty()).bits == 0,
{
    assert(rows.push(row).drop_last() =~= rows);
    if rows.len() == 0 {
        assert(first_height(rows).bits == 0);
    }
}

} // verus!
