//! Decoded subtitles, taken over from a decoder.
use crate::binary64::{quotient_nanos, quotient_to_nanos};
use crate::ffmpeg::stamp::{FfmpegError, PacketTimestamp, Result};
use crate::subtitle::bitmap::{planes_view, PlaneModel, SubtitleBitmapPlane};
use crate::subtitle::decoded::{DecodedSubtitleFrame, SubtitleTextFormat, SubtitleTextSegment};
use crate::time::{sat_add, span_view, Duration, MAX_NANOS};
use vstd::arithmetic::div_mod::lemma_fundamental_div_mod_converse;
use vstd::prelude::*;

verus! {

broadcast use vstd::seq_lib::group_seq_properties;

/// The most colours of a palette.
pub const PALETTE_COUNT: i32 = 256;

/// What a rectangle of a subtitle holds.
#[derive(Debug, Clone, Copy, PartialEq, Eq, Structural)]
pub enum SubtitleRectKind {
    Text,
    Ass,
    Bitmap,
    Other,
}

/// A rectangle of a subtitle. Its text, pixels and palette may be missing.
#[derive(Debug, Clone, PartialEq, Eq)]
pub struct SubtitleRect {
    pub kind: SubtitleRectKind,
    pub text: Option<String>,
    pub ass: Option<String>,
    pub flags: i32,
    pub x: i32,
    pub y: i32,
    pub w: i32,
    pub h: i32,
    pub stride: i32,
    pub colors: i32,
    pub pixels: Option<Vec<u8>>,
    pub palette: Option<Vec<u32>>,
}

/// A subtitle as a decoder hands it out.
#[derive(Debug, Clone, PartialEq, Eq)]
pub struct SubtitlePacket {
    pub pts: i64,
    pub start_display_time: u32,
    pub end_display_time: u32,
    pub rects: Vec<Option<SubtitleRect>>,
}

// ---------------------------------------------------------------------------
// Times
// ---------------------------------------------------------------------------

/// The time of a subtitle: its own stamp in microseconds, if it has one that is
/// not negative, else that of its packet.
pub open spec fn start_of(pts: i64, packet: Option<PacketTimestamp>) -> Option<nat> {
    if pts >= 0 {
        quotient_nanos(pts as nat, 1_000_000)
    } else {
        match packet {
            Some(stamp) => stamp.nanos(),
            None => None,
        }
    }
}

/// The time of a subtitle.
pub fn subtitle_start_time(pts: i64, packet: Option<PacketTimestamp>) -> (result: Option<Duration>)
    requires
        packet matches Some(stamp) ==> stamp.is_in_range(),
    ensures
        span_view(result) == start_of(pts, packet),
        pts >= 0 ==> result is Some,
{
    if pts >= 0 {
        return match quotient_to_nanos(pts as u64, 1_000_000) {
            Some(nanos) => Duration::try_from_nanos(nanos),
            None => None,
        };
    }
    match packet {
        Some(stamp) => stamp.as_duration(),
        None => None,
    }
}

/// The end of a subtitle that starts at a time: none where it is to be shown for
/// no time, or without end.
pub open spec fn end_of(start: Option<nat>, start_display: u32, end_display: u32) -> Option<nat> {
    match start {
        Some(start) => if end_display <= start_display || end_display == u32::MAX {
            None
        } else {
            Some(sat_add(start, ((end_display - start_display) * 1_000_000) as nat))
        },
        None => None,
    }
}

/// The end of a subtitle that starts at a time.
pub fn subtitle_end_time(
    start: Option<Duration>,
    start_display_time: u32,
    end_display_time: u32,
) -> (result: Option<Duration>)
    ensures
        span_view(result) == end_of(span_view(start), start_display_time, end_display_time),
{
    match start {
        Some(start) => {
            if end_display_time <= start_display_time || end_display_time == u32::MAX {
                return None;
            }
            let millis: u64 = (end_display_time - start_display_time) as u64;
            Some(start.saturating_add(Duration::from_millis(millis)))
        },
        None => None,
    }
}

// ---------------------------------------------------------------------------
// Bitmaps
// ---------------------------------------------------------------------------

/// One byte of a palette colour: its bytes are, from the highest, alpha, red,
/// green and blue.
pub open spec fn palette_channel(color: u32, channel: int) -> u8 {
    if channel == 0 {
        (color / 0x1_0000 % 0x100) as u8
    } else if channel == 1 {
        (color / 0x100 % 0x100) as u8
    } else if channel == 2 {
        (color % 0x100) as u8
    } else {
        (color / 0x100_0000) as u8
    }
}

/// The red, green, blue and alpha of a palette colour.
pub fn palette_color_to_rgba(color: u32) -> (result: [u8; 4])
    ensures
        result@ == seq![
            palette_channel(color, 0),
            palette_channel(color, 1),
            palette_channel(color, 2),
            palette_channel(color, 3),
        ],
{
    let result = [
        (color / 0x1_0000 % 0x100) as u8,
        (color / 0x100 % 0x100) as u8,
        (color % 0x100) as u8,
        (color / 0x100_0000) as u8,
    ];
    assert(result@ =~= seq![
        palette_channel(color, 0),
        palette_channel(color, 1),
        palette_channel(color, 2),
        palette_channel(color, 3),
    ]);
    result
}

impl SubtitleRect {
    /// Whether the bitmap has pixels.
    pub open spec fn has_pixels(self) -> bool {
        self.w > 0 && self.h > 0
    }

    /// Whether a bitmap with pixels can be read: it has rows and colours.
    pub open spec fn is_readable(self) -> bool {
        &&& self.pixels is Some
        &&& self.palette is Some
        &&& self.stride >= self.w
        &&& 0 < self.colors <= PALETTE_COUNT
    }

    /// Whether the rows and colours of a bitmap are as many as it says, and its
    /// pixels can be held in memory.
    pub open spec fn is_backed(self) -> bool {
        self.kind == SubtitleRectKind::Bitmap && self.has_pixels() && self.is_readable() ==> {
            &&& (self.h - 1) * self.stride + self.w <= self.pixels->0@.len()
            &&& self.colors <= self.palette->0@.len()
            &&& self.w * self.h * 4 <= usize::MAX
        }
    }

    /// The colour of a pixel; an index beyond the palette is that of no colour.
    pub open spec fn color_at(self, x: int, y: int) -> u32 {
        let index = self.pixels->0@[y * self.stride + x];
        if index < self.colors {
            self.palette->0@[index as int]
        } else {
            0
        }
    }

    /// The pixels of the bitmap.
    pub open spec fn rgba(self) -> Seq<u8> {
        Seq::new(
            (self.w * self.h * 4) as nat,
            |i: int| palette_channel(self.color_at(i / 4 % self.w as int, i / 4 / self.w as int), i % 4),
        )
    }

    /// The plane of the bitmap.
    pub open spec fn plane(self) -> PlaneModel {
        PlaneModel {
            x: self.x,
            y: self.y,
            width: self.w as u32,
            height: self.h as u32,
            rgba: self.rgba(),
        }
    }
}

proof fn lemma_pixel_index(width: int, height: int, x: int, y: int, channel: int)
    requires
        0 <= x < width,
        0 <= y < height,
        0 <= channel < 4,
    ensures
        ({
            let i = (y * width + x) * 4 + channel;
            &&& 0 <= i < width * height * 4
            &&& i % 4 == channel
            &&& i / 4 % width == x
            &&& i / 4 / width == y
        }),
{
    let i = (y * width + x) * 4 + channel;
    lemma_fundamental_div_mod_converse(i, 4, y * width + x, channel);
    lemma_fundamental_div_mod_converse(y * width + x, width, y, x);
    assert(0 <= y * width + x < width * height) by (nonlinear_arith)
        requires
            0 <= x < width,
            0 <= y < height,
    ;
}

/// Turns a bitmap with a palette into a plane. One without pixels has none, and
/// one without rows or colours is refused.
pub fn subtitle_bitmap_rect_to_rgba_plane(rect: &SubtitleRect) -> (result: Result<
    Option<SubtitleBitmapPlane>,
>)
    requires
        rect.kind == SubtitleRectKind::Bitmap,
        rect.is_backed(),
    ensures
        if !rect.has_pixels() {
            result matches Ok(plane) && plane is None
        } else if !rect.is_readable() {
            result matches Err(error) && error == (FfmpegError::InvalidSubtitleBitmap {
                width: rect.w,
                height: rect.h,
                stride: rect.stride,
                colors: rect.colors,
            })
        } else {
            result matches Ok(plane) && plane is Some && plane->0@ == rect.plane()
        },
{
    if rect.w <= 0 || rect.h <= 0 {
        return Ok(None);
    }
    let (pixels, palette) = match (&rect.pixels, &rect.palette) {
        (Some(pixels), Some(palette)) if rect.stride >= rect.w && rect.colors > 0 && rect.colors
            <= PALETTE_COUNT => (pixels, palette),
        _ => {
            return Err(
                FfmpegError::InvalidSubtitleBitmap {
                    width: rect.w,
                    height: rect.h,
                    stride: rect.stride,
                    colors: rect.colors,
                },
            );
        },
    };
    let width: usize = rect.w as usize;
    let height: usize = rect.h as usize;
    let stride: usize = rect.stride as usize;
    let colors: usize = rect.colors as usize;
    let available: usize = pixels.len();
    let ghost whole = rect.rgba();
    let mut rgba: Vec<u8> = Vec::new();
    assert(0 * width == 0) by (nonlinear_arith);
    assert(rgba@ =~= whole.take(0));
    let mut y: usize = 0;
    while y < height
        invariant
            y <= height,
            width == rect.w,
            height == rect.h,
            stride == rect.stride,
            colors == rect.colors,
            0 < width <= stride,
            rect.pixels == Some(*pixels),
            rect.palette == Some(*palette),
            colors <= palette@.len(),
            available == pixels@.len(),
            (height - 1) * stride + width <= available,
            whole == rect.rgba(),
            rgba@ == whole.take(y * width * 4),
            y * width * 4 <= whole.len(),
        decreases height - y,
    {
        proof {
            assert(0 <= y * stride <= (height - 1) * stride) by (nonlinear_arith)
                requires
                    0 <= y <= height - 1,
                    stride >= 0,
            ;
        }
        let start: usize = y * stride;
        let mut x: usize = 0;
        while x < width
            invariant
                x <= width,
                y < height,
                width == rect.w,
                height == rect.h,
                stride == rect.stride,
                colors == rect.colors,
                start == y * stride,
                start + width <= pixels@.len() <= usize::MAX,
                rect.pixels == Some(*pixels),
                rect.palette == Some(*palette),
                colors <= palette@.len(),
                whole == rect.rgba(),
                rgba@ == whole.take((y * width + x) * 4),
                (y * width + x) * 4 <= whole.len(),
            decreases width - x,
        {
            let index: usize = pixels[start + x] as usize;
            let color: u32 = if index < colors {
                palette[index]
            } else {
                0
            };
            proof {
                lemma_pixel_index(width as int, height as int, x as int, y as int, 0);
                lemma_pixel_index(width as int, height as int, x as int, y as int, 1);
                lemma_pixel_index(width as int, height as int, x as int, y as int, 2);
                lemma_pixel_index(width as int, height as int, x as int, y as int, 3);
                assert(rect.color_at(x as int, y as int) == color);
            }
            let bytes = palette_color_to_rgba(color);
            rgba.push(bytes[0]);
            rgba.push(bytes[1]);
            rgba.push(bytes[2]);
            rgba.push(bytes[3]);
            x += 1;
            assert(rgba@ =~= whole.take((y * width + x) * 4));
        }
        assert((y + 1) * width == y * width + width) by (nonlinear_arith);
        y += 1;
    }
    assert(height * width == width * height) by (nonlinear_arith);
    assert(whole.take(y * width * 4) =~= whole);
    Ok(
        Some(
            SubtitleBitmapPlane {
                x: rect.x,
                y: rect.y,
                width: rect.w as u32,
                height: rect.h as u32,
                rgba,
            },
        ),
    )
}

// ---------------------------------------------------------------------------
// Subtitles
// ---------------------------------------------------------------------------

/// Whether the rectangle is to be shown in any case.
pub open spec fn is_forced(flags: i32) -> bool {
    flags & 1 != 0
}

/// The texts and planes of some rectangles, and whether any is forced.
pub struct ImportModel {
    pub text: Seq<(SubtitleTextFormat, Seq<char>, bool)>,
    pub planes: Seq<PlaneModel>,
    pub forced: bool,
}

/// What a text adds: nothing where it is missing or empty.
pub open spec fn with_text(
    model: ImportModel,
    format: SubtitleTextFormat,
    text: Option<String>,
    forced: bool,
) -> ImportModel {
    match text {
        Some(text) => if text@.len() > 0 {
            ImportModel {
                text: model.text.push((format, text@, forced)),
                forced: model.forced || forced,
                ..model
            }
        } else {
            model
        },
        None => model,
    }
}

/// What comes of some rectangles: their texts and planes, or the first refusal.
pub open spec fn rects_outcome(rects: Seq<Option<SubtitleRect>>) -> core::result::Result<
    ImportModel,
    SubtitleRect,
>
    decreases rects.len(),
{
    if rects.len() == 0 {
        Ok(ImportModel { text: Seq::empty(), planes: Seq::empty(), forced: false })
    } else {
        match rects_outcome(rects.drop_last()) {
            Err(rect) => Err(rect),
            Ok(model) => match rects.last() {
                None => Ok(model),
                Some(rect) => match rect.kind {
                    SubtitleRectKind::Text => Ok(
                        with_text(
                            model,
                            SubtitleTextFormat::PlainText,
                            rect.text,
                            is_forced(rect.flags),
                        ),
                    ),
                    SubtitleRectKind::Ass => Ok(
                        with_text(model, SubtitleTextFormat::Ass, rect.ass, is_forced(rect.flags)),
                    ),
                    SubtitleRectKind::Bitmap => if !rect.has_pixels() {
                        Ok(model)
                    } else if !rect.is_readable() {
                        Err(rect)
                    } else {
                        Ok(
                            ImportModel {
                                planes: model.planes.push(rect.plane()),
                                forced: model.forced || is_forced(rect.flags),
                                ..model
                            },
                        )
                    },
                    SubtitleRectKind::Other => Ok(model),
                },
            },
        }
    }
}

proof fn lemma_rects_stop(rects: Seq<Option<SubtitleRect>>, n: int)
    requires
        0 <= n <= rects.len(),
        rects_outcome(rects.take(n)) is Err,
    ensures
        rects_outcome(rects) == rects_outcome(rects.take(n)),
    decreases rects.len(),
{
    if n < rects.len() {
        assert(rects.drop_last().take(n) =~= rects.take(n));
        lemma_rects_stop(rects.drop_last(), n);
    } else {
        assert(rects.take(n) =~= rects);
    }
}

/// The texts of segments.
pub open spec fn segments_model(segments: Seq<SubtitleTextSegment>) -> Seq<
    (SubtitleTextFormat, Seq<char>, bool),
> {
    Seq::new(
        segments.len(),
        |i: int| (segments[i].format, segments[i].text@, segments[i].forced),
    )
}

/// Whether a frame holds what was imported.
pub open spec fn holds_import(frame: DecodedSubtitleFrame, model: ImportModel) -> bool {
    &&& segments_model(frame.text@) == model.text
    &&& planes_view(frame.bitmap.planes@) == model.planes
    &&& frame.forced == model.forced
}

fn push_text(
    frame: &mut DecodedSubtitleFrame,
    format: SubtitleTextFormat,
    text: &Option<String>,
    forced: bool,
    Ghost(model): Ghost<ImportModel>,
)
    requires
        holds_import(*old(frame), model),
    ensures
        holds_import(*final(frame), with_text(model, format, *text, forced)),
        final(frame).track_id == old(frame).track_id,
        final(frame).start == old(frame).start,
        final(frame).end == old(frame).end,
        final(frame).bitmap == old(frame).bitmap,
{
    if let Some(text) = text {
        if !text.as_str().is_empty() {
            let segment = SubtitleTextSegment::new(format, text.clone()).with_forced(forced);
            frame.push_text(segment);
            assert(segments_model(frame.text@) =~= model.text.push((format, text@, forced)));
        }
    }
}

/// Takes a subtitle over from a decoder: its start is offset by the time after
/// which it is shown, and its rectangles become texts and planes.
pub fn import_av_subtitle(
    track_id: i64,
    packet: Option<PacketTimestamp>,
    subtitle: &SubtitlePacket,
) -> (result: Result<DecodedSubtitleFrame>)
    requires
        packet matches Some(stamp) ==> stamp.is_in_range(),
        forall|i: int|
            0 <= i < subtitle.rects@.len() ==> (#[trigger] subtitle.rects@[i] matches Some(rect)
                ==> rect.is_backed()),
    ensures
        match rects_outcome(subtitle.rects@) {
            Err(rect) => result matches Err(error) && error == (
            FfmpegError::InvalidSubtitleBitmap {
                width: rect.w,
                height: rect.h,
                stride: rect.stride,
                colors: rect.colors,
            }),
            Ok(model) => {
                let start = match start_of(subtitle.pts, packet) {
                    Some(pts) => Some(
                        sat_add(pts, (subtitle.start_display_time * 1_000_000) as nat),
                    ),
                    None => None,
                };
                result matches Ok(frame) && {
                    &&& frame.track_id == track_id
                    &&& span_view(frame.start) == start
                    &&& span_view(frame.end) == end_of(
                        start,
                        subtitle.start_display_time,
                        subtitle.end_display_time,
                    )
                    &&& frame.bitmap.pts@ == (match start {
                        Some(pts) => pts,
                        None => 0,
                    })
                    &&& holds_import(frame, model)
                }
            },
        },
{
    let offset = Duration::from_millis(subtitle.start_display_time as u64);
    let start = match subtitle_start_time(subtitle.pts, packet) {
        Some(pts) => Some(pts.saturating_add(offset)),
        None => None,
    };
    let end = subtitle_end_time(start, subtitle.start_display_time, subtitle.end_display_time);
    let mut frame = DecodedSubtitleFrame::new(track_id, start, end);
    let ghost first = frame;
    let mut index: usize = 0;
    let ghost mut model = ImportModel {
        text: Seq::empty(),
        planes: Seq::empty(),
        forced: false,
    };
    assert(segments_model(frame.text@) =~= model.text);
    assert(planes_view(frame.bitmap.planes@) =~= model.planes);
    while index < subtitle.rects.len()
        invariant
            index <= subtitle.rects@.len(),
            frame.track_id == first.track_id,
            frame.start == first.start,
            frame.end == first.end,
            frame.bitmap.pts == first.bitmap.pts,
            holds_import(frame, model),
            rects_outcome(subtitle.rects@.take(index as int)) == Ok::<ImportModel, SubtitleRect>(
                model,
            ),
            forall|i: int|
                0 <= i < subtitle.rects@.len() ==> (#[trigger] subtitle.rects@[i] matches Some(rect)
                    ==> rect.is_backed()),
        decreases subtitle.rects@.len() - index,
    {
        let ghost longer = subtitle.rects@.take(index as int + 1);
        assert(longer.drop_last() =~= subtitle.rects@.take(index as int));
        assert(longer.last() == subtitle.rects@[index as int]);
        if let Some(rect) = &subtitle.rects[index] {
            let forced = rect.flags & 1 != 0;
            match rect.kind {
                SubtitleRectKind::Text => {
                    push_text(
                        &mut frame,
                        SubtitleTextFormat::PlainText,
                        &rect.text,
                        forced,
                        Ghost(model),
                    );
                    proof {
                        model = with_text(
                            model,
                            SubtitleTextFormat::PlainText,
                            rect.text,
                            forced,
                        );
                    }
                },
                SubtitleRectKind::Ass => {
                    push_text(
                        &mut frame,
                        SubtitleTextFormat::Ass,
                        &rect.ass,
                        forced,
                        Ghost(model),
                    );
                    proof {
                        model = with_text(model, SubtitleTextFormat::Ass, rect.ass, forced);
                    }
                },
                SubtitleRectKind::Bitmap => match subtitle_bitmap_rect_to_rgba_plane(rect) {
                    Ok(Some(plane)) => {
                        let ghost before = planes_view(frame.bitmap.planes@);
                        frame.push_bitmap_plane(plane, forced);
                        assert(planes_view(frame.bitmap.planes@) =~= before.push(plane@));
                        proof {
                            model = ImportModel {
                                planes: model.planes.push(plane@),
                                forced: model.forced || forced,
                                ..model
                            };
                        }
                    },
                    Ok(None) => {},
                    Err(error) => {
                        proof {
                            lemma_rects_stop(subtitle.rects@, index as int + 1);
                        }
                        return Err(error);
                    },
                },
                SubtitleRectKind::Other => {},
            }
        }
        index += 1;
    }
    assert(subtitle.rects@.take(index as int) =~= subtitle.rects@);
    Ok(frame)
}

/// The colours of a palette have their bytes from the highest: alpha, red, green and
/// blue; a pixel has them in the order red, green, blue and alpha.
pub proof fn law_palette_colours_have_their_bytes(
    word: u32,
    alpha: u8,
    red: u8,
    green: u8,
    blue: u8,
)
    requires
        word == alpha * 0x100_0000 + red * 0x1_0000 + green * 0x100 + blue,
    ensures
        palette_channel(word, 0) == red,
        palette_channel(word, 1) == green,
        palette_channel(word, 2) == blue,
        palette_channel(word, 3) == alpha,
{
    assert(word / 0x100 == alpha * 0x1_0000 + red * 0x100 + green);
    assert(word / 0x1_0000 == alpha * 0x100 + red);
    assert(word / 0x100_0000 == alpha);
}

/// A rectangle is drawn place by place: each pixel has the colour of the palette that
/// its index names, and none where the palette has no such colour.
pub proof fn law_rectangles_are_drawn_place_by_place(rect: SubtitleRect, x: int, y: int, channel: int)
    requires
        0 <= x < rect.w,
        0 <= y < rect.h,
        0 <= channel < 4,
    ensures
        ({
            let at = 4 * (y * rect.w + x) + channel;
            let index = rect.pixels->0@[y * rect.stride + x];
            &&& rect.plane().x == rect.x
            &&& rect.plane().y == rect.y
            &&& rect.plane().width == rect.w
            &&& rect.plane().height == rect.h
            &&& 0 <= at < rect.plane().rgba.len()
            &&& index < rect.colors ==> rect.plane().rgba[at] == palette_channel(
                rect.palette->0@[index as int],
                channel,
            )
            &&& index >= rect.colors ==> rect.plane().rgba[at] == 0
        }),
{
    let width = rect.w as int;
    let height = rect.h as int;
    let pixel = y * width + x;
    lemma_fundamental_div_mod_converse(pixel, width, y, x);
    assert(0 <= pixel < width * height) by (nonlinear_arith)
        requires
            0 <= x < width,
            0 <= y < height,
            pixel == y * width + x,
    ;
    let at = 4 * pixel + channel;
    assert(at / 4 == pixel && at % 4 == channel);
}

/// A subtitle lasts as many milliseconds as lie between its display times; where its
/// end is not behind its start, or is open, it has no end.
pub proof fn law_subtitles_last_between_their_display_times(
    start: nat,
    start_display: u32,
    end_display: u32,
)
    requires
        start + u32::MAX * 1_000_000 <= MAX_NANOS,
    ensures
        start_display < end_display && end_display < u32::MAX ==> end_of(
            Some(start),
            start_display,
            end_display,
        ) == Some((start + (end_display - start_display) * 1_000_000) as nat),
        end_display <= start_display ==> end_of(Some(start), start_display, end_display) is None,
        end_of(Some(start), start_display, u32::MAX) is None,
        end_of(None, start_display, end_display) is None,
{
}

/// Rectangles are taken over in their order: texts as texts of their kind, bitmaps as
/// planes; those that are missing or of another kind change nothing.
pub proof fn law_rectangles_are_taken_over(before: Seq<Option<SubtitleRect>>, rect: SubtitleRect)
    requires
        rects_outcome(before) is Ok,
    ensures
        rects_outcome(before.push(None)) == rects_outcome(before),
        ({
            let model = rects_outcome(before)->Ok_0;
            let after = rects_outcome(before.push(Some(rect)));
            match rect.kind {
                SubtitleRectKind::Text => {
                    &&& after is Ok
                    &&& after->Ok_0.planes == model.planes
                    &&& rect.text matches Some(text) ==> text@.len() > 0 ==> after->Ok_0.text
                        == model.text.push((SubtitleTextFormat::PlainText, text@, is_forced(rect.flags)))
                },
                SubtitleRectKind::Ass => {
                    &&& after is Ok
                    &&& after->Ok_0.planes == model.planes
                    &&& rect.ass matches Some(text) ==> text@.len() > 0 ==> after->Ok_0.text
                        == model.text.push((SubtitleTextFormat::Ass, text@, is_forced(rect.flags)))
                },
                SubtitleRectKind::Bitmap => {
                    &&& !rect.has_pixels() ==> after == rects_outcome(before)
                    &&& rect.has_pixels() && !rect.is_readable() ==> after is Err
                    &&& rect.has_pixels() && rect.is_readable() ==> after is Ok
                        && after->Ok_0.planes == model.planes.push(rect.plane())
                        && after->Ok_0.text == model.text
                },
                SubtitleRectKind::Other => after == rects_outcome(before),
            }
        }),
{
    assert(before.push(None).drop_last() =~= before);
    assert(before.push(Some(rect)).drop_last() =~= before);
}

/// A subtitle starts at its own stamp, in microseconds, if it has one, and otherwise at
/// that of its packet.
pub proof fn law_subtitles_start_at_their_own_stamp(pts: i64, packet: PacketTimestamp)
    ensures
        pts >= 0 ==> start_of(pts, Some(packet)) == start_of(pts, None),
        pts >= 0 ==> start_of(pts, None) == quotient_nanos(pts as nat, 1_000_000),
        pts < 0 ==> start_of(pts, Some(packet)) == packet.nanos(),
        pts < 0 ==> start_of(pts, None) is None,
{
}

} // verus!
