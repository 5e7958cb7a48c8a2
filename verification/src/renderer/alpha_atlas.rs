//! Packs the masks of subtitles into rows that are drawn at once.
use crate::float_bits::{nearest_single, Single};
use crate::float_sum::{nearest_signed, single_of_signed};
use crate::pixels::{blit, blitted, lemma_row_column, PixelRect};
use crate::renderer::wgpu::{
    DanmakuBatchInstance, InstanceModel, VideoPresentationLayout, SINGLE_255,
};
use crate::subtitle::bitmap::{
    ass_color, AssColor, SubtitleAlphaBitmap, SubtitleBitmapPlacement,
};
use vstd::prelude::*;

verus! {

broadcast use vstd::seq_lib::group_seq_properties;

/// Whether a mask is drawn: it has pixels, and its coverage reaches the last one.
pub open spec fn is_drawn(mask: SubtitleAlphaBitmap) -> bool {
    mask.placement.width > 0 && mask.placement.height > 0 && mask@.is_valid()
}

// ---------------------------------------------------------------------------
// Rows
// ---------------------------------------------------------------------------

/// The rows that are full, and the one that is being filled.
pub struct RowsModel {
    pub rows: Seq<Seq<usize>>,
    pub current: Seq<usize>,
    pub width: nat,
}

/// The rows of some masks. A mask that does not fit into the row goes to the
/// next one; the first of a row always fits.
pub open spec fn filled(masks: Seq<SubtitleAlphaBitmap>, max_width: nat) -> RowsModel
    decreases masks.len(),
{
    if masks.len() == 0 {
        RowsModel { rows: Seq::empty(), current: Seq::empty(), width: 0 }
    } else {
        let before = filled(masks.drop_last(), max_width);
        let mask = masks.last();
        let index = (masks.len() - 1) as usize;
        let width = mask.placement.width as nat;
        if !is_drawn(mask) {
            before
        } else if before.current.len() > 0 && before.width + width > max_width {
            RowsModel { rows: before.rows.push(before.current), current: seq![index], width }
        } else {
            RowsModel {
                rows: before.rows,
                current: before.current.push(index),
                width: before.width + width,
            }
        }
    }
}

/// The rows of some masks.
pub open spec fn rows_of(masks: Seq<SubtitleAlphaBitmap>, max_width: nat) -> Seq<Seq<usize>> {
    let all = filled(masks, max_width);
    if all.current.len() > 0 {
        all.rows.push(all.current)
    } else {
        all.rows
    }
}

/// Rows as sequences.
pub open spec fn rows_view(rows: Seq<Vec<usize>>) -> Seq<Seq<usize>> {
    Seq::new(rows.len(), |i: int| rows[i]@)
}

/// The masks that are drawn.
pub open spec fn drawn_masks(masks: Seq<SubtitleAlphaBitmap>) -> Seq<usize>
    decreases masks.len(),
{
    if masks.len() == 0 {
        Seq::empty()
    } else if is_drawn(masks.last()) {
        drawn_masks(masks.drop_last()).push((masks.len() - 1) as usize)
    } else {
        drawn_masks(masks.drop_last())
    }
}

/// Rows one after the other.
pub open spec fn joined_rows(rows: Seq<Seq<usize>>) -> Seq<usize>
    decreases rows.len(),
{
    if rows.len() == 0 {
        Seq::empty()
    } else {
        joined_rows(rows.drop_last()) + rows.last()
    }
}

/// The width of the first masks of a row.
pub open spec fn width_of(masks: Seq<SubtitleAlphaBitmap>, row: Seq<usize>) -> nat
    decreases row.len(),
{
    if row.len() == 0 {
        0
    } else {
        width_of(masks, row.drop_last()) + masks[row.last() as int].placement.width as nat
    }
}

/// The height of the highest mask of a row.
pub open spec fn height_of(masks: Seq<SubtitleAlphaBitmap>, row: Seq<usize>) -> nat
    decreases row.len(),
{
    if row.len() == 0 {
        0
    } else {
        let rest = height_of(masks, row.drop_last());
        let height = masks[row.last() as int].placement.height as nat;
        if height > rest {
            height
        } else {
            rest
        }
    }
}

/// Lays masks out in rows.
pub fn plan_rows(masks: &Vec<SubtitleAlphaBitmap>, max_width: u32) -> (result: Vec<Vec<usize>>)
    ensures
        rows_view(result@) == rows_of(masks@, max_width as nat),
{
    let ghost all = masks@;
    let mut rows: Vec<Vec<usize>> = Vec::new();
    let mut current: Vec<usize> = Vec::new();
    let mut width: u64 = 0;
    let mut i: usize = 0;
    assert(all.take(0) =~= Seq::<SubtitleAlphaBitmap>::empty());
    assert(rows_view(rows@) =~= Seq::<Seq<usize>>::empty());
    while i < masks.len()
        invariant
            i <= all.len(),
            all == masks@,
            width <= u32::MAX,
            current@.len() == 0 ==> width == 0,
            ({
                let model = filled(all.take(i as int), max_width as nat);
                &&& rows_view(rows@) == model.rows
                &&& current@ == model.current
                &&& width == model.width
            }),
        decreases all.len() - i,
    {
        assert(all.take(i as int + 1).drop_last() =~= all.take(i as int));
        assert(all.take(i as int + 1).last() == all[i as int]);
        let mask: &SubtitleAlphaBitmap = &masks[i];
        if mask.placement.width != 0 && mask.placement.height != 0 && mask.is_valid() {
            let added: u64 = mask.placement.width as u64;
            if current.len() > 0 && width + added > max_width as u64 {
                let mut full: Vec<usize> = Vec::new();
                let ghost held = current@;
                full.append(&mut current);
                assert(full@ =~= held);
                let ghost before = rows@;
                rows.push(full);
                assert(rows_view(rows@) =~= rows_view(before).push(held));
                assert(current@ =~= Seq::<usize>::empty());
                width = 0;
                current.push(i);
                assert(current@ =~= seq![i]);
            } else {
                current.push(i);
            }
            width = width + added;
        }
        i += 1;
    }
    assert(all.take(i as int) =~= all);
    if current.len() > 0 {
        let ghost before = rows@;
        let ghost held = current@;
        rows.push(current);
        assert(rows_view(rows@) =~= rows_view(before).push(held));
    }
    rows
}

/// Every mask with pixels is in one row, and the rows keep the order of the masks.
pub proof fn law_every_mask_is_in_one_row(masks: Seq<SubtitleAlphaBitmap>, max_width: nat)
    ensures
        joined_rows(rows_of(masks, max_width)) == drawn_masks(masks),
{
    lemma_filled_joins(masks, max_width);
    let all = filled(masks, max_width);
    if all.current.len() > 0 {
        assert(all.rows.push(all.current).drop_last() =~= all.rows);
    } else {
        assert(joined_rows(all.rows) + all.current =~= joined_rows(all.rows));
    }
}

proof fn lemma_filled_joins(masks: Seq<SubtitleAlphaBitmap>, max_width: nat)
    ensures
        joined_rows(filled(masks, max_width).rows) + filled(masks, max_width).current
            == drawn_masks(masks),
    decreases masks.len(),
{
    if masks.len() > 0 {
        let before = filled(masks.drop_last(), max_width);
        let index = (masks.len() - 1) as usize;
        lemma_filled_joins(masks.drop_last(), max_width);
        assert(before.rows.push(before.current).drop_last() =~= before.rows);
        assert((joined_rows(before.rows) + before.current) + seq![index] =~= drawn_masks(
            masks.drop_last(),
        ).push(index));
        assert(joined_rows(before.rows) + before.current.push(index) =~= drawn_masks(
            masks.drop_last(),
        ).push(index));
    } else {
        assert(joined_rows(filled(masks, max_width).rows) + filled(masks, max_width).current
            =~= drawn_masks(masks));
    }
}

/// A row is no wider than allowed, unless it holds a single mask.
pub proof fn law_rows_fit(masks: Seq<SubtitleAlphaBitmap>, max_width: nat)
    requires
        masks.len() <= usize::MAX,
    ensures
        forall|i: int|
            0 <= i < rows_of(masks, max_width).len() ==> (#[trigger] rows_of(
                masks,
                max_width,
            )[i]).len() == 1 || width_of(masks, rows_of(masks, max_width)[i]) <= max_width,
{
    lemma_filled_fits(masks, max_width);
}

/// The indices of a row belong to masks that are drawn.
pub open spec fn is_row(masks: Seq<SubtitleAlphaBitmap>, row: Seq<usize>) -> bool {
    &&& row.len() > 0
    &&& forall|k: int|
        0 <= k < row.len() ==> (#[trigger] row[k]) < masks.len() && is_drawn(masks[row[k] as int])
}

proof fn lemma_width_of_prefix(masks: Seq<SubtitleAlphaBitmap>, row: Seq<usize>)
    requires
        masks.len() > 0,
        forall|k: int| 0 <= k < row.len() ==> (#[trigger] row[k]) < masks.len() - 1,
    ensures
        width_of(masks, row) == width_of(masks.drop_last(), row),
    decreases row.len(),
{
    if row.len() > 0 {
        let shorter = row.drop_last();
        assert forall|k: int| 0 <= k < shorter.len() implies (#[trigger] shorter[k]) < masks.len()
            - 1 by {
            assert(shorter[k] == row[k]);
        }
        lemma_width_of_prefix(masks, shorter);
        assert(row[row.len() - 1] < masks.len() - 1);
    }
}

proof fn lemma_filled_fits(masks: Seq<SubtitleAlphaBitmap>, max_width: nat)
    requires
        masks.len() <= usize::MAX,
    ensures
        ({
            let all = filled(masks, max_width);
            &&& all.width == width_of(masks, all.current)
            &&& all.current.len() <= 1 || all.width <= max_width
            &&& all.current.len() > 0 ==> is_row(masks, all.current)
            &&& forall|i: int|
                0 <= i < all.rows.len() ==> is_row(masks, #[trigger] all.rows[i])
            &&& forall|i: int|
                0 <= i < all.rows.len() ==> (#[trigger] all.rows[i]).len() == 1 || width_of(
                    masks,
                    all.rows[i],
                ) <= max_width
        }),
    decreases masks.len(),
{
    if masks.len() > 0 {
        let shorter = masks.drop_last();
        let before = filled(shorter, max_width);
        let all = filled(masks, max_width);
        let index = (masks.len() - 1) as usize;
        lemma_filled_fits(shorter, max_width);
        assert forall|row: Seq<usize>| #[trigger] is_row(shorter, row) implies is_row(masks, row)
            && width_of(masks, row) == width_of(shorter, row) by {
            assert forall|k: int| 0 <= k < row.len() implies (#[trigger] row[k]) < masks.len()
                && is_drawn(masks[row[k] as int]) by {
                assert(row[k] < shorter.len());
                assert(masks[row[k] as int] == shorter[row[k] as int]);
            }
            lemma_width_of_prefix(masks, row);
        }
        if before.current.len() > 0 {
            assert(is_row(shorter, before.current));
        } else {
            lemma_width_of_prefix(masks, before.current);
        }
        assert forall|i: int| 0 <= i < before.rows.len() implies is_row(
            masks,
            #[trigger] before.rows[i],
        ) && width_of(masks, before.rows[i]) == width_of(shorter, before.rows[i]) by {
            assert(is_row(shorter, before.rows[i]));
        }
        if is_drawn(masks.last()) {
            assert(before.current.push(index).drop_last() =~= before.current);
            assert(seq![index].drop_last() =~= Seq::<usize>::empty());
            assert(width_of(masks, Seq::<usize>::empty()) == 0);
            assert forall|k: int| 0 <= k < all.current.len() implies (#[trigger] all.current[k])
                < masks.len() && is_drawn(masks[all.current[k] as int]) by {
                if k < before.current.len() && all.current.len() > 1 {
                    assert(all.current[k] == before.current[k]);
                    assert(before.current[k] < shorter.len());
                }
            }
            assert forall|i: int| 0 <= i < all.rows.len() implies is_row(
                masks,
                #[trigger] all.rows[i],
            ) && (all.rows[i].len() == 1 || width_of(masks, all.rows[i]) <= max_width) by {
                if i < before.rows.len() {
                    assert(all.rows[i] == before.rows[i]);
                } else {
                    assert(all.rows[i] == before.current);
                }
            }
        }
    }
}

// ---------------------------------------------------------------------------
// Pixels
// ---------------------------------------------------------------------------

/// The rectangle of a mask in its row.
pub open spec fn place_of(masks: Seq<SubtitleAlphaBitmap>, row: Seq<usize>, k: int) -> PixelRect {
    PixelRect {
        x: width_of(masks, row.take(k)) as usize,
        y: 0,
        width: masks[row[k] as int].placement.width as usize,
        height: masks[row[k] as int].placement.height as usize,
    }
}

/// The pixels of the first masks of a row.
pub open spec fn packed(masks: Seq<SubtitleAlphaBitmap>, row: Seq<usize>, count: int) -> Seq<u8>
    decreases count,
{
    let width = width_of(masks, row);
    if count <= 0 {
        Seq::new(width * height_of(masks, row), |i: int| 0u8)
    } else {
        let mask = masks[row[count - 1] as int];
        blitted(
            packed(masks, row, count - 1),
            width,
            place_of(masks, row, count - 1),
            mask.alpha@,
            mask.stride as nat,
        )
    }
}

/// A row of masks as one picture.
#[derive(Debug)]
pub struct AlphaAtlasRow {
    pub width: u32,
    pub height: u32,
    pub pixels: Vec<u8>,
    /// Where each mask begins.
    pub columns: Vec<u32>,
}

/// Whether a row can be packed: its size fits into memory.
pub open spec fn can_pack(masks: Seq<SubtitleAlphaBitmap>, row: Seq<usize>) -> bool {
    &&& is_row(masks, row)
    &&& width_of(masks, row) <= u32::MAX
    &&& width_of(masks, row) * height_of(masks, row) <= usize::MAX
    &&& forall|k: int|
        0 <= k < row.len() ==> masks[(#[trigger] row[k]) as int].alpha@.len() < usize::MAX
}

proof fn lemma_widths_grow(masks: Seq<SubtitleAlphaBitmap>, row: Seq<usize>, k: int)
    requires
        0 <= k < row.len(),
    ensures
        width_of(masks, row.take(k + 1)) == width_of(masks, row.take(k))
            + masks[row[k] as int].placement.width,
        width_of(masks, row.take(k + 1)) <= width_of(masks, row),
        masks[row[k] as int].placement.height <= height_of(masks, row),
    decreases row.len() - k,
{
    assert(row.take(k + 1).drop_last() =~= row.take(k));
    if k + 1 < row.len() {
        lemma_widths_grow(masks, row, k + 1);
        assert(row.take(k + 2).drop_last() =~= row.take(k + 1));
    } else {
        assert(row.take(k + 1) =~= row);
    }
    lemma_height_of(masks, row, k);
}

proof fn lemma_height_of(masks: Seq<SubtitleAlphaBitmap>, row: Seq<usize>, k: int)
    requires
        0 <= k < row.len(),
    ensures
        masks[row[k] as int].placement.height <= height_of(masks, row),
    decreases row.len(),
{
    if k < row.len() - 1 {
        assert(row.drop_last()[k] == row[k]);
        lemma_height_of(masks, row.drop_last(), k);
    }
}

fn measure_row(masks: &Vec<SubtitleAlphaBitmap>, row: &Vec<usize>) -> (result: (u32, u32))
    requires
        can_pack(masks@, row@),
    ensures
        result.0 == width_of(masks@, row@),
        result.1 == height_of(masks@, row@),
{
    let mut width: u32 = 0;
    let mut height: u32 = 0;
    let mut k: usize = 0;
    assert(row@.take(0) =~= Seq::<usize>::empty());
    while k < row.len()
        invariant
            k <= row@.len(),
            can_pack(masks@, row@),
            width == width_of(masks@, row@.take(k as int)),
            height == height_of(masks@, row@.take(k as int)),
        decreases row@.len() - k,
    {
        proof {
            lemma_widths_grow(masks@, row@, k as int);
            assert(row@.take(k as int + 1).drop_last() =~= row@.take(k as int));
            assert(row@[k as int] < masks@.len());
        }
        let mask: &SubtitleAlphaBitmap = &masks[row[k]];
        width += mask.placement.width;
        if mask.placement.height > height {
            height = mask.placement.height;
        }
        k += 1;
    }
    assert(row@.take(k as int) =~= row@);
    (width, height)
}

fn blank(len: usize) -> (result: Vec<u8>)
    ensures
        result@ == Seq::new(len as nat, |i: int| 0u8),
{
    let mut result: Vec<u8> = Vec::new();
    let mut i: usize = 0;
    while i < len
        invariant
            i <= len,
            result@ == Seq::new(i as nat, |k: int| 0u8),
        decreases len - i,
    {
        result.push(0);
        i += 1;
        assert(result@ =~= Seq::new(i as nat, |k: int| 0u8));
    }
    result
}

/// Packs the masks of a row side by side.
pub fn pack_row(masks: &Vec<SubtitleAlphaBitmap>, row: &Vec<usize>) -> (result: AlphaAtlasRow)
    requires
        can_pack(masks@, row@),
    ensures
        result.width == width_of(masks@, row@),
        result.height == height_of(masks@, row@),
        result.pixels@ == packed(masks@, row@, row@.len() as int),
        result.columns@.len() == row@.len(),
        forall|k: int|
            0 <= k < row@.len() ==> (#[trigger] result.columns@[k]) == width_of(
                masks@,
                row@.take(k),
            ),
{
    let (width, height) = measure_row(masks, row);
    let ghost len = width_of(masks@, row@) * height_of(masks@, row@);
    assert(width * height <= 0xffff_ffff * 0xffff_ffff && width * height >= 0) by (nonlinear_arith)
        requires
            0 <= width <= 0xffff_ffff,
            0 <= height <= 0xffff_ffff,
    ;
    let size: usize = (width as u64 * height as u64) as usize;
    let mut pixels = blank(size);
    assert(pixels@ =~= packed(masks@, row@, 0));
    let mut columns: Vec<u32> = Vec::new();
    let mut column: u32 = 0;
    let mut k: usize = 0;
    assert(row@.take(0) =~= Seq::<usize>::empty());
    while k < row.len()
        invariant
            k <= row@.len(),
            can_pack(masks@, row@),
            width == width_of(masks@, row@),
            height == height_of(masks@, row@),
            size == width * height,
            pixels@.len() == size,
            pixels@ == packed(masks@, row@, k as int),
            column == width_of(masks@, row@.take(k as int)),
            columns@.len() == k,
            forall|j: int|
                0 <= j < k ==> (#[trigger] columns@[j]) == width_of(masks@, row@.take(j)),
        decreases row@.len() - k,
    {
        proof {
            lemma_widths_grow(masks@, row@, k as int);
            assert(row@[k as int] < masks@.len() && is_drawn(masks@[row@[k as int] as int]));
            assert(masks@[row@[k as int] as int].alpha@.len() < usize::MAX);
        }
        let mask: &SubtitleAlphaBitmap = &masks[row[k]];
        let rect = PixelRect {
            x: column as usize,
            y: 0,
            width: mask.placement.width as usize,
            height: mask.placement.height as usize,
        };
        proof {
            let w = width as int;
            let h = mask.placement.height as int;
            assert((h - 1) * w + w <= w * height as int && (h - 1) * w >= 0) by (nonlinear_arith)
                requires
                    1 <= h <= height as int,
                    w >= 0,
            ;
            assert(mask.stride * (h - 1) == (h - 1) * mask.stride) by (nonlinear_arith);
            assert(rect == place_of(masks@, row@, k as int));
        }
        blit(&mut pixels, width as usize, rect, &mask.alpha, mask.stride);
        columns.push(column);
        column += mask.placement.width;
        k += 1;
    }
    AlphaAtlasRow { width, height, pixels, columns }
}

/// Each pixel of a mask is found in the row at the place of the mask.
pub proof fn law_packed_mask_shows_its_coverage(
    masks: Seq<SubtitleAlphaBitmap>,
    row: Seq<usize>,
    k: int,
    x: nat,
    y: nat,
)
    requires
        can_pack(masks, row),
        0 <= k < row.len(),
        x < masks[row[k] as int].placement.width,
        y < masks[row[k] as int].placement.height,
    ensures
        packed(masks, row, row.len() as int)[(y * width_of(masks, row) + width_of(
            masks,
            row.take(k),
        ) + x) as int] == masks[row[k] as int]@.coverage(x as int, y as int),
{
    lemma_packed(masks, row, row.len() as int, k, x, y);
}

proof fn lemma_packed(
    masks: Seq<SubtitleAlphaBitmap>,
    row: Seq<usize>,
    count: int,
    k: int,
    x: nat,
    y: nat,
)
    requires
        can_pack(masks, row),
        0 <= k < count <= row.len(),
        x < masks[row[k] as int].placement.width,
        y < masks[row[k] as int].placement.height,
    ensures
        packed(masks, row, count).len() == width_of(masks, row) * height_of(masks, row),
        packed(masks, row, count)[(y * width_of(masks, row) + width_of(masks, row.take(k))
            + x) as int] == masks[row[k] as int]@.coverage(x as int, y as int),
    decreases count,
{
    let width = width_of(masks, row) as int;
    let height = height_of(masks, row) as int;
    let column = width_of(masks, row.take(k)) + x;
    let at = y * width + column;
    lemma_widths_grow(masks, row, k);
    lemma_packed_len(masks, row, count);
    lemma_packed_len(masks, row, count - 1);
    assert(column < width);
    lemma_row_column(width, y as int, column as int);
    assert(0 <= at < width * height) by (nonlinear_arith)
        requires
            at == y * width + column,
            0 <= column < width,
            0 <= y < height,
    ;
    let j = count - 1;
    lemma_widths_grow(masks, row, j);
    if j == k {
        assert(place_of(masks, row, j).holds(at, width));
    } else {
        lemma_packed(masks, row, count - 1, k, x, y);
        lemma_places_ascend(masks, row, k, j);
        assert(!place_of(masks, row, j).holds(at, width));
    }
}

proof fn lemma_packed_len(masks: Seq<SubtitleAlphaBitmap>, row: Seq<usize>, count: int)
    ensures
        packed(masks, row, count).len() == width_of(masks, row) * height_of(masks, row),
    decreases count,
{
    if count > 0 {
        lemma_packed_len(masks, row, count - 1);
    }
}

proof fn lemma_places_ascend(masks: Seq<SubtitleAlphaBitmap>, row: Seq<usize>, k: int, j: int)
    requires
        0 <= k < j < row.len(),
    ensures
        width_of(masks, row.take(k + 1)) <= width_of(masks, row.take(j)),
    decreases j - k,
{
    if k + 1 < j {
        lemma_places_ascend(masks, row, k, j - 1);
        lemma_widths_grow(masks, row, j - 1);
    }
}

// ---------------------------------------------------------------------------
// Instances
// ---------------------------------------------------------------------------

/// A part of a whole, as a number; a whole of none counts as one.
pub open spec fn part_of(part: nat, whole: nat) -> Single {
    (Single { bits: nearest_single(part, 0) as u32 }).quotient(
        Single {
            bits: nearest_single(
                if whole == 0 {
                    1
                } else {
                    whole
                },
                0,
            ) as u32,
        },
    )
}

fn to_part(part: u32, whole: u32) -> (result: Single)
    ensures
        result == part_of(part as nat, whole as nat),
{
    let whole: u32 = if whole == 0 {
        1
    } else {
        whole
    };
    Single::from_whole(part).over(Single::from_whole(whole))
}

/// A channel of a colour, as a number between zero and one.
pub open spec fn channel_of(value: u8) -> Single {
    (Single { bits: nearest_single(value as nat, 0) as u32 }).quotient(Single { bits: SINGLE_255 })
}

fn to_channel(value: u8) -> (result: Single)
    ensures
        result == channel_of(value),
{
    Single::from_whole(value as u32).over(Single { bits: SINGLE_255 })
}

/// How a mask of a row is drawn.
pub open spec fn instance_of(
    masks: Seq<SubtitleAlphaBitmap>,
    row: Seq<usize>,
    k: int,
    layout: VideoPresentationLayout,
) -> InstanceModel {
    let mask = masks[row[k] as int];
    let color = ass_color(mask.color_rgba);
    InstanceModel {
        rect: layout.mapped(
            nearest_signed(mask.placement.x as int, 0),
            nearest_signed(mask.placement.y as int, 0),
            Single { bits: nearest_single(mask.placement.width as nat, 0) as u32 },
            Single { bits: nearest_single(mask.placement.height as nat, 0) as u32 },
        ),
        tex_rect: seq![
            part_of(width_of(masks, row.take(k)), width_of(masks, row)),
            Single { bits: 0 },
            part_of(mask.placement.width as nat, width_of(masks, row)),
            part_of(mask.placement.height as nat, height_of(masks, row)),
        ],
        color: seq![
            channel_of(color.red),
            channel_of(color.green),
            channel_of(color.blue),
            channel_of(color.alpha),
        ],
    }
}

/// How the masks of a row are drawn.
pub fn row_instances(
    masks: &Vec<SubtitleAlphaBitmap>,
    row: &Vec<usize>,
    atlas: &AlphaAtlasRow,
    layout: VideoPresentationLayout,
) -> (result: Vec<DanmakuBatchInstance>)
    requires
        is_row(masks@, row@),
        atlas.width == width_of(masks@, row@),
        atlas.height == height_of(masks@, row@),
        atlas.columns@.len() == row@.len(),
        forall|k: int|
            0 <= k < row@.len() ==> (#[trigger] atlas.columns@[k]) == width_of(
                masks@,
                row@.take(k),
            ),
    ensures
        result@.len() == row@.len(),
        forall|k: int|
            0 <= k < row@.len() ==> (#[trigger] result@[k])@ == instance_of(
                masks@,
                row@,
                k,
                layout,
            ),
{
    let mut result: Vec<DanmakuBatchInstance> = Vec::new();
    let mut k: usize = 0;
    while k < row.len()
        invariant
            k <= row@.len(),
            is_row(masks@, row@),
            atlas.width == width_of(masks@, row@),
            atlas.height == height_of(masks@, row@),
            atlas.columns@.len() == row@.len(),
            forall|j: int|
                0 <= j < row@.len() ==> (#[trigger] atlas.columns@[j]) == width_of(
                    masks@,
                    row@.take(j),
                ),
            result@.len() == k,
            forall|j: int|
                0 <= j < k ==> (#[trigger] result@[j])@ == instance_of(masks@, row@, j, layout),
        decreases row@.len() - k,
    {
        assert(row@[k as int] < masks@.len());
        let mask: &SubtitleAlphaBitmap = &masks[row[k]];
        let color = AssColor::from_libass_rgba(mask.color_rgba);
        let column: u32 = atlas.columns[k];
        let tex_rect = [
            to_part(column, atlas.width),
            Single { bits: 0 },
            to_part(mask.placement.width, atlas.width),
            to_part(mask.placement.height, atlas.height),
        ];
        let tint = [
            to_channel(color.red),
            to_channel(color.green),
            to_channel(color.blue),
            to_channel(color.alpha),
        ];
        let ghost wanted = instance_of(masks@, row@, k as int, layout);
        assert(tex_rect@ =~= wanted.tex_rect);
        assert(tint@ =~= wanted.color);
        let instance = DanmakuBatchInstance {
            rect: layout.map_source_rect(
                single_of_signed(mask.placement.x),
                single_of_signed(mask.placement.y),
                Single::from_whole(mask.placement.width),
                Single::from_whole(mask.placement.height),
            ),
            tex_rect,
            color: tint,
        };
        result.push(instance);
        k += 1;
    }
    result
}

/// A mask of a row is drawn from the part of the row that holds it: as far across as
/// the masks before it are wide, from the top, and no larger than it is.
pub proof fn law_masks_of_a_row_are_drawn_from_their_part(
    masks: Seq<SubtitleAlphaBitmap>,
    row: Seq<usize>,
    k: int,
    layout: VideoPresentationLayout,
)
    ensures
        instance_of(masks, row, k, layout).tex_rect == seq![
            part_of(width_of(masks, row.take(k)), width_of(masks, row)),
            Single { bits: 0 },
            part_of(masks[row[k] as int].placement.width as nat, width_of(masks, row)),
            part_of(masks[row[k] as int].placement.height as nat, height_of(masks, row)),
        ],
{
}

/// A mask of a row is drawn in its own colour: red, green, blue and how opaque it is.
pub proof fn law_masks_of_a_row_are_drawn_in_their_colour(
    masks: Seq<SubtitleAlphaBitmap>,
    row: Seq<usize>,
    k: int,
    layout: VideoPresentationLayout,
    color: AssColor,
)
    requires
        color == ass_color(masks[row[k] as int].color_rgba),
    ensures
        instance_of(masks, row, k, layout).color == seq![
            channel_of(color.red),
            channel_of(color.green),
            channel_of(color.blue),
            channel_of(color.alpha),
        ],
{
}

/// A mask of a row is drawn where it belongs on the picture.
pub proof fn law_masks_of_a_row_are_drawn_in_their_place(
    masks: Seq<SubtitleAlphaBitmap>,
    row: Seq<usize>,
    k: int,
    layout: VideoPresentationLayout,
    placement: SubtitleBitmapPlacement,
)
    requires
        placement == masks[row[k] as int].placement,
    ensures
        instance_of(masks, row, k, layout).rect == layout.mapped(
            nearest_signed(placement.x as int, 0),
            nearest_signed(placement.y as int, 0),
            (Single { bits: nearest_single(placement.width as nat, 0) as u32 }),
            (Single { bits: nearest_single(placement.height as nat, 0) as u32 }),
        ),
{
}

/// A row is as wide as all its masks together and as high as the highest.
pub proof fn law_rows_are_as_large_as_their_masks(
    masks: Seq<SubtitleAlphaBitmap>,
    row: Seq<usize>,
    index: usize,
)
    ensures
        width_of(masks, Seq::empty()) == 0,
        height_of(masks, Seq::empty()) == 0,
        width_of(masks, row.push(index)) == width_of(masks, row)
            + masks[index as int].placement.width,
        height_of(masks, row.push(index)) >= height_of(masks, row),
        height_of(masks, row.push(index)) >= masks[index as int].placement.height,
        height_of(masks, row.push(index)) == height_of(masks, row) || height_of(
            masks,
            row.push(index),
        ) == masks[index as int].placement.height,
{
    assert(row.push(index).drop_last() =~= row);
}

} // verus!
