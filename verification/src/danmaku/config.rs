//! How comments are laid out.
use crate::danmaku::model::{DanmakuShadowStyle, DEFAULT_CONFIG_FONT_SIZE, DEFAULT_SOURCE_FONT_SIZE};
use crate::float_bits::{Single, SINGLE_ONE};
use crate::text::{chars_of, string_of, trim, trim_spec};
use crate::time::Duration;
use crate::float_laws::{law_number_by_itself_is_one, law_one_changes_nothing};
use vstd::prelude::*;

verus! {

broadcast use vstd::seq_lib::group_seq_properties;

/// The number 0.001.
pub const SINGLE_THOUSANDTH: u32 = 0x3a83_126f;

/// The number 0.1.
pub const SINGLE_TENTH: u32 = 0x3dcc_cccd;

/// The number 0.15.
pub const SINGLE_0_15: u32 = 0x3e19_999a;

/// The number 0.2.
pub const SINGLE_FIFTH: u32 = 0x3e4c_cccd;

/// The number 2.
pub const SINGLE_TWO: u32 = 0x4000_0000;

/// The number 4.
pub const SINGLE_FOUR: u32 = 0x4080_0000;

/// The number 10.
pub const SINGLE_TEN: u32 = 0x4120_0000;

/// The number 60.
pub const SINGLE_60: u32 = 0x4270_0000;

/// The number 1000.
pub const SINGLE_THOUSAND: u32 = 0x447a_0000;

/// The number 0.06.
pub const SINGLE_0_06: u32 = 0x3d75_c28f;

/// The number 2.6.
pub const SINGLE_2_6: u32 = 0x4026_6666;

/// How comments are laid out.
#[derive(Debug, Clone, PartialEq, Eq)]
pub struct DanmakuLayoutConfig {
    pub font_size: Single,
    pub opacity: Single,
    pub display_area: Single,
    pub scroll_duration_seconds: Single,
    pub scroll_speed_factor: Single,
    pub track_gap_ratio: Single,
    pub outline_width: Single,
    pub shadow_offset: [Single; 2],
    pub shadow_style: DanmakuShadowStyle,
    pub custom_font_family: String,
    pub custom_font_file_path: String,
    pub merge_duplicates: bool,
    pub allow_stacking: bool,
    pub allow_scroll_overwrite: bool,
    pub max_quantity: Option<u32>,
    pub max_lines_per_mode: Option<u32>,
    pub block_top: bool,
    pub block_bottom: bool,
    pub block_scroll: bool,
    pub block_words: Vec<String>,
    pub enabled: bool,
}

/// A layout as plain values.
pub struct ConfigModel {
    pub font_size: Single,
    pub opacity: Single,
    pub display_area: Single,
    pub scroll_duration_seconds: Single,
    pub scroll_speed_factor: Single,
    pub track_gap_ratio: Single,
    pub outline_width: Single,
    pub shadow_offset: (Single, Single),
    pub shadow_style: DanmakuShadowStyle,
    pub font_family: Seq<char>,
    pub font_file_path: Seq<char>,
    pub merge_duplicates: bool,
    pub allow_stacking: bool,
    pub allow_scroll_overwrite: bool,
    pub max_quantity: Option<u32>,
    pub max_lines_per_mode: Option<u32>,
    pub block_top: bool,
    pub block_bottom: bool,
    pub block_scroll: bool,
    pub block_words: Seq<Seq<char>>,
    pub enabled: bool,
}

/// The texts of words.
pub open spec fn words_view(words: Seq<String>) -> Seq<Seq<char>> {
    Seq::new(words.len(), |i: int| words[i]@)
}

impl View for DanmakuLayoutConfig {
    type V = ConfigModel;

    open spec fn view(&self) -> ConfigModel {
        ConfigModel {
            font_size: self.font_size,
            opacity: self.opacity,
            display_area: self.display_area,
            scroll_duration_seconds: self.scroll_duration_seconds,
            scroll_speed_factor: self.scroll_speed_factor,
            track_gap_ratio: self.track_gap_ratio,
            outline_width: self.outline_width,
            shadow_offset: (self.shadow_offset@[0], self.shadow_offset@[1]),
            shadow_style: self.shadow_style,
            font_family: self.custom_font_family@,
            font_file_path: self.custom_font_file_path@,
            merge_duplicates: self.merge_duplicates,
            allow_stacking: self.allow_stacking,
            allow_scroll_overwrite: self.allow_scroll_overwrite,
            max_quantity: self.max_quantity,
            max_lines_per_mode: self.max_lines_per_mode,
            block_top: self.block_top,
            block_bottom: self.block_bottom,
            block_scroll: self.block_scroll,
            block_words: words_view(self.block_words@),
            enabled: self.enabled,
        }
    }
}

/// A number held within bounds; what is not finite counts as a default.
pub open spec fn held(value: Single, default: u32, low: u32, high: u32) -> Single {
    value.finite_or(Single { bits: default }).limited(Single { bits: low }, Single { bits: high })
}

fn hold(value: Single, default: u32, low: u32, high: u32) -> (result: Single)
    ensures
        result == held(value, default, low, high),
{
    value.or_if_not_finite(Single { bits: default }).clamp_to(
        Single { bits: low },
        Single { bits: high },
    )
}

impl ConfigModel {
    /// The layout with every number within its bounds, and without white space
    /// around the font names.
    pub open spec fn sanitized(self) -> ConfigModel {
        ConfigModel {
            font_size: self.font_size.finite_or(
                Single { bits: DEFAULT_CONFIG_FONT_SIZE },
            ).raised_to(Single { bits: SINGLE_ONE }),
            opacity: held(self.opacity, SINGLE_ONE, 0, SINGLE_ONE),
            display_area: held(self.display_area, SINGLE_ONE, SINGLE_TENTH, SINGLE_ONE),
            scroll_duration_seconds: held(
                self.scroll_duration_seconds,
                SINGLE_TEN,
                SINGLE_ONE,
                SINGLE_60,
            ),
            scroll_speed_factor: held(
                self.scroll_speed_factor,
                SINGLE_ONE,
                SINGLE_FIFTH,
                SINGLE_FOUR,
            ),
            track_gap_ratio: held(self.track_gap_ratio, SINGLE_0_15, 0, SINGLE_TWO),
            outline_width: held(self.outline_width, SINGLE_ONE, 0, SINGLE_FOUR),
            shadow_offset: (
                self.shadow_offset.0.finite_or(Single { bits: SINGLE_ONE }),
                self.shadow_offset.1.finite_or(Single { bits: SINGLE_ONE }),
            ),
            font_family: trim_spec(self.font_family),
            font_file_path: trim_spec(self.font_file_path),
            ..self
        }
    }

    /// Whether two layouts are the same: their numbers are equal, whatever their
    /// patterns.
    pub open spec fn is_same(self, other: ConfigModel) -> bool {
        &&& self.font_size.is_equal(other.font_size)
        &&& self.opacity.is_equal(other.opacity)
        &&& self.display_area.is_equal(other.display_area)
        &&& self.scroll_duration_seconds.is_equal(other.scroll_duration_seconds)
        &&& self.scroll_speed_factor.is_equal(other.scroll_speed_factor)
        &&& self.track_gap_ratio.is_equal(other.track_gap_ratio)
        &&& self.outline_width.is_equal(other.outline_width)
        &&& self.shadow_offset.0.is_equal(other.shadow_offset.0)
        &&& self.shadow_offset.1.is_equal(other.shadow_offset.1)
        &&& self.shadow_style == other.shadow_style
        &&& self.font_family == other.font_family
        &&& self.font_file_path == other.font_file_path
        &&& self.merge_duplicates == other.merge_duplicates
        &&& self.allow_stacking == other.allow_stacking
        &&& self.allow_scroll_overwrite == other.allow_scroll_overwrite
        &&& self.max_quantity == other.max_quantity
        &&& self.max_lines_per_mode == other.max_lines_per_mode
        &&& self.block_top == other.block_top
        &&& self.block_bottom == other.block_bottom
        &&& self.block_scroll == other.block_scroll
        &&& self.block_words == other.block_words
        &&& self.enabled == other.enabled
    }

    /// Whether two layouts use the same font.
    pub open spec fn has_same_font(self, other: ConfigModel) -> bool {
        self.font_family == other.font_family && self.font_file_path == other.font_file_path
    }
}

proof fn lemma_trim_twice(s: Seq<char>)
    ensures
        trim_spec(trim_spec(s)) == trim_spec(s),
{
    let a = crate::text::trim_start_spec(s);
    lemma_trim_start_front(s);
    lemma_trim_end_keeps_front(a);
    lemma_trim_end_back(a);
    let b = trim_spec(s);
    assert(crate::text::trim_start_spec(b) == b);
}

proof fn lemma_trim_start_front(s: Seq<char>)
    ensures
        crate::text::trim_start_spec(s).len() > 0 ==> !crate::text::is_space(
            crate::text::trim_start_spec(s)[0],
        ),
    decreases s.len(),
{
    if s.len() > 0 && crate::text::is_space(s[0]) {
        lemma_trim_start_front(s.skip(1));
    }
}

proof fn lemma_trim_end_keeps_front(s: Seq<char>)
    ensures
        crate::text::trim_end_spec(s).len() <= s.len(),
        crate::text::trim_end_spec(s).len() > 0 ==> crate::text::trim_end_spec(s)[0] == s[0],
    decreases s.len(),
{
    if s.len() > 0 && crate::text::is_space(s.last()) {
        lemma_trim_end_keeps_front(s.drop_last());
    }
}

proof fn lemma_trim_end_back(s: Seq<char>)
    ensures
        crate::text::trim_end_spec(crate::text::trim_end_spec(s)) == crate::text::trim_end_spec(s),
    decreases s.len(),
{
    if s.len() > 0 && crate::text::is_space(s.last()) {
        lemma_trim_end_back(s.drop_last());
    }
}

/// A number that is within its bounds stays as it is.
proof fn lemma_held_settles(value: Single, default: u32, low: u32, high: u32)
    requires
        default < 0x7f80_0000,
        low <= high < 0x7f80_0000,
    ensures
        held(held(value, default, low, high), default, low, high) == held(
            value,
            default,
            low,
            high,
        ),
        held(value, default, low, high).is_finite(),
{
}

/// A font size that is large enough stays as it is.
proof fn lemma_raised_settles(value: Single, default: u32, floor: u32)
    requires
        default < 0x7f80_0000,
        floor < 0x7f80_0000,
    ensures
        ({
            let once = value.finite_or(Single { bits: default }).raised_to(Single { bits: floor });
            &&& once.finite_or(Single { bits: default }).raised_to(Single { bits: floor }) == once
            &&& once.is_finite()
        }),
{
}

/// A layout that was made sound once stays as it is.
pub proof fn law_sanitizing_settles(config: ConfigModel)
    ensures
        config.sanitized().sanitized() == config.sanitized(),
        config.sanitized().is_same(config.sanitized()),
{
    lemma_trim_twice(config.font_family);
    lemma_trim_twice(config.font_file_path);
    lemma_raised_settles(config.font_size, DEFAULT_CONFIG_FONT_SIZE, SINGLE_ONE);
    lemma_held_settles(config.opacity, SINGLE_ONE, 0, SINGLE_ONE);
    lemma_held_settles(config.display_area, SINGLE_ONE, SINGLE_TENTH, SINGLE_ONE);
    lemma_held_settles(config.scroll_duration_seconds, SINGLE_TEN, SINGLE_ONE, SINGLE_60);
    lemma_held_settles(config.scroll_speed_factor, SINGLE_ONE, SINGLE_FIFTH, SINGLE_FOUR);
    lemma_held_settles(config.track_gap_ratio, SINGLE_0_15, 0, SINGLE_TWO);
    lemma_held_settles(config.outline_width, SINGLE_ONE, 0, SINGLE_FOUR);
    let once = config.sanitized();
    let twice = once.sanitized();
    assert(once.shadow_offset.0.is_finite() && once.shadow_offset.1.is_finite());
    assert(twice.shadow_offset == once.shadow_offset);
    assert(twice.font_size == once.font_size);
    assert(twice.opacity == once.opacity);
    assert(twice.display_area == once.display_area);
    assert(twice.scroll_duration_seconds == once.scroll_duration_seconds);
    assert(twice.scroll_speed_factor == once.scroll_speed_factor);
    assert(twice.track_gap_ratio == once.track_gap_ratio);
    assert(twice.outline_width == once.outline_width);
}

/// The settings of a layout that names none.
pub open spec fn default_settings() -> ConfigModel {
    ConfigModel {
        font_size: Single { bits: DEFAULT_CONFIG_FONT_SIZE },
        opacity: Single { bits: SINGLE_ONE },
        display_area: Single { bits: SINGLE_ONE },
        scroll_duration_seconds: Single { bits: SINGLE_TEN },
        scroll_speed_factor: Single { bits: SINGLE_ONE },
        track_gap_ratio: Single { bits: SINGLE_0_15 },
        outline_width: Single { bits: SINGLE_ONE },
        shadow_offset: (Single { bits: SINGLE_ONE }, Single { bits: SINGLE_ONE }),
        shadow_style: DanmakuShadowStyle::Strong,
        font_family: Seq::empty(),
        font_file_path: Seq::empty(),
        merge_duplicates: false,
        allow_stacking: false,
        allow_scroll_overwrite: true,
        max_quantity: None,
        max_lines_per_mode: None,
        block_top: false,
        block_bottom: false,
        block_scroll: false,
        block_words: Seq::empty(),
        enabled: true,
    }
}

impl Default for DanmakuLayoutConfig {
    fn default() -> (result: Self)
        ensures
            result@ == default_settings(),
    {
        let one = Single { bits: SINGLE_ONE };
        let block_words: Vec<String> = Vec::new();
        assert(words_view(block_words@) =~= Seq::<Seq<char>>::empty());
        Self {
            font_size: Single { bits: DEFAULT_CONFIG_FONT_SIZE },
            opacity: one,
            display_area: one,
            scroll_duration_seconds: Single { bits: SINGLE_TEN },
            scroll_speed_factor: one,
            track_gap_ratio: Single { bits: SINGLE_0_15 },
            outline_width: one,
            shadow_offset: [one, one],
            shadow_style: DanmakuShadowStyle::Strong,
            custom_font_family: String::new(),
            custom_font_file_path: String::new(),
            merge_duplicates: false,
            allow_stacking: false,
            allow_scroll_overwrite: true,
            max_quantity: None,
            max_lines_per_mode: None,
            block_top: false,
            block_bottom: false,
            block_scroll: false,
            block_words,
            enabled: true,
        }
    }
}

/// Other words of the same letters.
pub fn copy_words(words: &Vec<String>) -> (result: Vec<String>)
    ensures
        words_view(result@) == words_view(words@),
{
    let mut result: Vec<String> = Vec::new();
    let mut i: usize = 0;
    assert(words_view(result@) =~= words_view(words@).take(0));
    while i < words.len()
        invariant
            i <= words@.len(),
            words_view(result@) == words_view(words@).take(i as int),
        decreases words@.len() - i,
    {
        let ghost before = words_view(result@);
        let word = words[i].clone();
        result.push(word);
        assert(words_view(result@) =~= before.push(word@));
        i += 1;
        assert(words_view(result@) =~= words_view(words@).take(i as int));
    }
    assert(words_view(words@).take(i as int) =~= words_view(words@));
    result
}

fn same_words(a: &Vec<String>, b: &Vec<String>) -> (result: bool)
    ensures
        result <==> words_view(a@) == words_view(b@),
{
    if a.len() != b.len() {
        assert(words_view(a@).len() != words_view(b@).len());
        return false;
    }
    let mut i: usize = 0;
    while i < a.len()
        invariant
            i <= a@.len(),
            a@.len() == b@.len(),
            forall|k: int| 0 <= k < i ==> (#[trigger] a@[k])@ == b@[k]@,
        decreases a@.len() - i,
    {
        if a[i] != b[i] {
            assert(words_view(a@)[i as int] != words_view(b@)[i as int]);
            return false;
        }
        i += 1;
    }
    assert(words_view(a@) =~= words_view(b@));
    true
}

fn trimmed(text: &String) -> (result: String)
    ensures
        result@ == trim_spec(text@),
{
    let chars = chars_of(text);
    string_of(trim(&chars))
}

fn same_limit(a: Option<u32>, b: Option<u32>) -> (result: bool)
    ensures
        result <==> a == b,
{
    match (a, b) {
        (Some(x), Some(y)) => x == y,
        (None, None) => true,
        _ => false,
    }
}

impl DanmakuLayoutConfig {
    /// The layout with every number within its bounds.
    pub fn sanitized(&self) -> (result: Self)
        ensures
            result@ == self@.sanitized(),
    {
        let one = Single { bits: SINGLE_ONE };
        Self {
            font_size: self.font_size.or_if_not_finite(
                Single { bits: DEFAULT_CONFIG_FONT_SIZE },
            ).at_least(one),
            opacity: hold(self.opacity, SINGLE_ONE, 0, SINGLE_ONE),
            display_area: hold(self.display_area, SINGLE_ONE, SINGLE_TENTH, SINGLE_ONE),
            scroll_duration_seconds: hold(
                self.scroll_duration_seconds,
                SINGLE_TEN,
                SINGLE_ONE,
                SINGLE_60,
            ),
            scroll_speed_factor: hold(
                self.scroll_speed_factor,
                SINGLE_ONE,
                SINGLE_FIFTH,
                SINGLE_FOUR,
            ),
            track_gap_ratio: hold(self.track_gap_ratio, SINGLE_0_15, 0, SINGLE_TWO),
            outline_width: hold(self.outline_width, SINGLE_ONE, 0, SINGLE_FOUR),
            shadow_offset: [
                self.shadow_offset[0].or_if_not_finite(one),
                self.shadow_offset[1].or_if_not_finite(one),
            ],
            shadow_style: self.shadow_style,
            custom_font_family: trimmed(&self.custom_font_family),
            custom_font_file_path: trimmed(&self.custom_font_file_path),
            merge_duplicates: self.merge_duplicates,
            allow_stacking: self.allow_stacking,
            allow_scroll_overwrite: self.allow_scroll_overwrite,
            max_quantity: self.max_quantity,
            max_lines_per_mode: self.max_lines_per_mode,
            block_top: self.block_top,
            block_bottom: self.block_bottom,
            block_scroll: self.block_scroll,
            block_words: copy_words(&self.block_words),
            enabled: self.enabled,
        }
    }

    /// The same layout, to keep.
    pub fn duplicate(&self) -> (result: Self)
        ensures
            result@ == self@,
    {
        Self {
            font_size: self.font_size,
            opacity: self.opacity,
            display_area: self.display_area,
            scroll_duration_seconds: self.scroll_duration_seconds,
            scroll_speed_factor: self.scroll_speed_factor,
            track_gap_ratio: self.track_gap_ratio,
            outline_width: self.outline_width,
            shadow_offset: self.shadow_offset,
            shadow_style: self.shadow_style,
            custom_font_family: self.custom_font_family.clone(),
            custom_font_file_path: self.custom_font_file_path.clone(),
            merge_duplicates: self.merge_duplicates,
            allow_stacking: self.allow_stacking,
            allow_scroll_overwrite: self.allow_scroll_overwrite,
            max_quantity: self.max_quantity,
            max_lines_per_mode: self.max_lines_per_mode,
            block_top: self.block_top,
            block_bottom: self.block_bottom,
            block_scroll: self.block_scroll,
            block_words: copy_words(&self.block_words),
            enabled: self.enabled,
        }
    }

    /// Whether two layouts are the same.
    pub fn same_as(&self, other: &DanmakuLayoutConfig) -> (result: bool)
        ensures
            result == self@.is_same(other@),
    {
        self.font_size.equals(other.font_size) && self.opacity.equals(other.opacity)
            && self.display_area.equals(other.display_area) && self.scroll_duration_seconds.equals(
            other.scroll_duration_seconds,
        ) && self.scroll_speed_factor.equals(other.scroll_speed_factor)
            && self.track_gap_ratio.equals(other.track_gap_ratio) && self.outline_width.equals(
            other.outline_width,
        ) && self.shadow_offset[0].equals(other.shadow_offset[0]) && self.shadow_offset[1].equals(
            other.shadow_offset[1],
        ) && self.shadow_style == other.shadow_style && self.custom_font_family
            == other.custom_font_family && self.custom_font_file_path
            == other.custom_font_file_path && self.merge_duplicates == other.merge_duplicates
            && self.allow_stacking == other.allow_stacking && self.allow_scroll_overwrite
            == other.allow_scroll_overwrite && same_limit(self.max_quantity, other.max_quantity)
            && same_limit(self.max_lines_per_mode, other.max_lines_per_mode) && self.block_top
            == other.block_top && self.block_bottom == other.block_bottom && self.block_scroll
            == other.block_scroll && same_words(&self.block_words, &other.block_words)
            && self.enabled == other.enabled
    }

    /// Whether two layouts use the same font.
    pub fn same_font(&self, other: &DanmakuLayoutConfig) -> (result: bool)
        ensures
            result == self@.has_same_font(other@),
    {
        self.custom_font_family == other.custom_font_family && self.custom_font_file_path
            == other.custom_font_file_path
    }
}

// ---------------------------------------------------------------------------
// Sizes and durations
// ---------------------------------------------------------------------------

/// How long a comment takes to cross, in milliseconds.
pub open spec fn scroll_millis(config: ConfigModel) -> nat {
    let seconds = config.scroll_duration_seconds.finite_or(Single { bits: SINGLE_TEN }).raised_to(
        Single { bits: SINGLE_ONE },
    );
    let speed = config.scroll_speed_factor.finite_or(Single { bits: SINGLE_ONE }).raised_to(
        Single { bits: SINGLE_THOUSANDTH },
    );
    seconds.product(Single { bits: SINGLE_THOUSAND }).quotient(speed).raised_to(
        Single { bits: SINGLE_ONE },
    ).rounded(u64::MAX as nat)
}

/// How long a comment takes to cross: the scroll duration by the speed.
pub fn compute_scroll_duration(config: &DanmakuLayoutConfig) -> (result: Duration)
    ensures
        result@ == scroll_millis(config@) * 1_000_000,
{
    let one = Single { bits: SINGLE_ONE };
    let seconds = config.scroll_duration_seconds.or_if_not_finite(
        Single { bits: SINGLE_TEN },
    ).at_least(one);
    let speed = config.scroll_speed_factor.or_if_not_finite(one).at_least(
        Single { bits: SINGLE_THOUSANDTH },
    );
    let millis: u64 = seconds.times(Single { bits: SINGLE_THOUSAND }).over(speed).at_least(
        one,
    ).round_to(u64::MAX);
    Duration::from_millis(millis)
}

/// The font size of a layout on a surface.
pub open spec fn config_font_size(config_font_size: Single, scale_factor: Single) -> Single {
    let logical = config_font_size.finite_or(Single { bits: DEFAULT_CONFIG_FONT_SIZE }).raised_to(
        Single { bits: SINGLE_ONE },
    );
    let scale = scale_factor.finite_or(Single { bits: SINGLE_ONE }).raised_to(
        Single { bits: SINGLE_THOUSANDTH },
    );
    logical.product(scale).raised_to(Single { bits: SINGLE_ONE })
}

/// The font size of a layout on a surface: never less than one pixel.
pub fn effective_config_font_size(font_size: Single, scale_factor: Single) -> (result: Single)
    ensures
        result == config_font_size(font_size, scale_factor),
{
    let one = Single { bits: SINGLE_ONE };
    let logical = font_size.or_if_not_finite(Single { bits: DEFAULT_CONFIG_FONT_SIZE }).at_least(
        one,
    );
    let scale = scale_factor.or_if_not_finite(one).at_least(Single { bits: SINGLE_THOUSANDTH });
    logical.times(scale).at_least(one)
}

/// The font size of a comment on a surface: that of the layout, scaled by the
/// comment's own size as a part of the size that it has by default.
pub open spec fn item_font_size(source: Single, config_size: Single, scale: Single) -> Single {
    let base = config_font_size(config_size, scale);
    let size = source.finite_or(Single { bits: DEFAULT_SOURCE_FONT_SIZE });
    if size.rank() > 0 {
        base.product(size.quotient(Single { bits: DEFAULT_SOURCE_FONT_SIZE })).raised_to(
            Single { bits: SINGLE_ONE },
        )
    } else {
        base.raised_to(Single { bits: SINGLE_ONE })
    }
}

/// The font size of a comment on a surface.
pub fn effective_font_size(
    source_font_size: Single,
    font_size: Single,
    scale_factor: Single,
) -> (result: Single)
    ensures
        result == item_font_size(source_font_size, font_size, scale_factor),
{
    let one = Single { bits: SINGLE_ONE };
    let reference = Single { bits: DEFAULT_SOURCE_FONT_SIZE };
    let base = effective_config_font_size(font_size, scale_factor);
    let source = source_font_size.or_if_not_finite(reference);
    if source.place() > 0 {
        base.times(source.over(reference)).at_least(one)
    } else {
        base.at_least(one)
    }
}

/// An offset on a surface.
pub fn scale_offset(offset: [Single; 2], scale_factor: Single) -> (result: [Single; 2])
    ensures
        ({
            let scale = scale_factor.finite_or(Single { bits: SINGLE_ONE }).raised_to(
                Single { bits: SINGLE_THOUSANDTH },
            );
            result@ == seq![offset@[0].product(scale), offset@[1].product(scale)]
        }),
{
    let scale = scale_factor.or_if_not_finite(Single { bits: SINGLE_ONE }).at_least(
        Single { bits: SINGLE_THOUSANDTH },
    );
    let result = [offset[0].times(scale), offset[1].times(scale)];
    assert(result@ =~= seq![offset@[0].product(scale), offset@[1].product(scale)]);
    result
}

/// The width of an outline in pixels.
pub open spec fn outline_px(font_size: Single, outline_width: Single) -> Single {
    let multiplier = outline_width.limited(Single { bits: 0 }, Single { bits: SINGLE_FOUR });
    if multiplier.is_nan() || multiplier.rank() <= 0 || !multiplier.is_finite() {
        Single { bits: 0 }
    } else {
        font_size.product(Single { bits: SINGLE_0_06 }).limited(
            Single { bits: SINGLE_ONE },
            Single { bits: SINGLE_2_6 },
        ).product(multiplier)
    }
}

/// The width of an outline in pixels: a part of the font size between one and
/// 2.6, times the width of the layout.
pub fn resolve_outline_px(font_size: Single, outline_width: Single) -> (result: Single)
    ensures
        result == outline_px(font_size, outline_width),
{
    let multiplier = outline_width.clamp_to(Single { bits: 0 }, Single { bits: SINGLE_FOUR });
    if multiplier.check_nan() || multiplier.place() <= 0 || !multiplier.check_finite() {
        Single { bits: 0 }
    } else {
        font_size.times(Single { bits: SINGLE_0_06 }).clamp_to(
            Single { bits: SINGLE_ONE },
            Single { bits: SINGLE_2_6 },
        ).times(multiplier)
    }
}

/// Settings are held in their ranges: what lies within stays, what lies beyond goes to
/// the nearer end, and what is no finite number to its default. Nothing else changes
/// but white space around the names of the font.
pub proof fn law_settings_are_held_in_range(config: ConfigModel, value: Single, default: u32, low: u32, high: u32)
    requires
        low <= default <= high < 0x7f80_0000,
    ensures
        low <= held(value, default, low, high).rank() <= high,
        !value.is_finite() ==> held(value, default, low, high).bits == default,
        value.is_finite() && low <= value.rank() <= high ==> held(value, default, low, high)
            == value,
        value.is_finite() && value.rank() < low ==> held(value, default, low, high).bits == low,
        value.is_finite() && value.rank() > high ==> held(value, default, low, high).bits == high,
        ({
            let sane = config.sanitized();
            &&& 0 <= sane.opacity.rank() <= SINGLE_ONE
            &&& SINGLE_TENTH <= sane.display_area.rank() <= SINGLE_ONE
            &&& SINGLE_ONE <= sane.scroll_duration_seconds.rank() <= SINGLE_60
            &&& SINGLE_FIFTH <= sane.scroll_speed_factor.rank() <= SINGLE_FOUR
            &&& 0 <= sane.track_gap_ratio.rank() <= SINGLE_TWO
            &&& 0 <= sane.outline_width.rank() <= SINGLE_FOUR
            &&& sane.font_size.rank() >= SINGLE_ONE
            &&& config.font_size.is_finite() && config.font_size.rank() >= SINGLE_ONE
                ==> sane.font_size == config.font_size
            &&& config.shadow_offset.0.is_finite() ==> sane.shadow_offset.0
                == config.shadow_offset.0
            &&& config.shadow_offset.1.is_finite() ==> sane.shadow_offset.1
                == config.shadow_offset.1
            &&& sane.shadow_style == config.shadow_style
            &&& sane.merge_duplicates == config.merge_duplicates
            &&& sane.allow_stacking == config.allow_stacking
            &&& sane.allow_scroll_overwrite == config.allow_scroll_overwrite
            &&& sane.max_quantity == config.max_quantity
            &&& sane.max_lines_per_mode == config.max_lines_per_mode
            &&& sane.block_top == config.block_top
            &&& sane.block_bottom == config.block_bottom
            &&& sane.block_scroll == config.block_scroll
            &&& sane.block_words == config.block_words
            &&& sane.enabled == config.enabled
            &&& sane.font_family == trim_spec(config.font_family)
            &&& sane.font_file_path == trim_spec(config.font_file_path)
        }),
{
}

/// Each setting within its range stays as it is.
pub proof fn law_sane_settings_stay(config: ConfigModel)
    ensures
        ({
            let sane = config.sanitized();
            &&& config.opacity.is_finite() && 0 <= config.opacity.rank() <= SINGLE_ONE
                ==> sane.opacity == config.opacity
            &&& config.display_area.is_finite() && SINGLE_TENTH <= config.display_area.rank()
                <= SINGLE_ONE ==> sane.display_area == config.display_area
            &&& config.scroll_duration_seconds.is_finite() && SINGLE_ONE
                <= config.scroll_duration_seconds.rank() <= SINGLE_60
                ==> sane.scroll_duration_seconds == config.scroll_duration_seconds
            &&& config.scroll_speed_factor.is_finite() && SINGLE_FIFTH
                <= config.scroll_speed_factor.rank() <= SINGLE_FOUR ==> sane.scroll_speed_factor
                == config.scroll_speed_factor
            &&& config.track_gap_ratio.is_finite() && 0 <= config.track_gap_ratio.rank()
                <= SINGLE_TWO ==> sane.track_gap_ratio == config.track_gap_ratio
            &&& config.outline_width.is_finite() && 0 <= config.outline_width.rank()
                <= SINGLE_FOUR ==> sane.outline_width == config.outline_width
            &&& !config.opacity.is_finite() ==> sane.opacity.bits == SINGLE_ONE
            &&& !config.display_area.is_finite() ==> sane.display_area.bits == SINGLE_ONE
            &&& !config.scroll_duration_seconds.is_finite() ==> sane.scroll_duration_seconds.bits
                == SINGLE_TEN
            &&& !config.scroll_speed_factor.is_finite() ==> sane.scroll_speed_factor.bits
                == SINGLE_ONE
            &&& !config.track_gap_ratio.is_finite() ==> sane.track_gap_ratio.bits == SINGLE_0_15
            &&& !config.outline_width.is_finite() ==> sane.outline_width.bits == SINGLE_ONE
        }),
{
}

/// A comment crosses in the duration that is set, divided by the speed.
pub proof fn law_speed_divides_the_duration(config: ConfigModel)
    requires
        config.scroll_duration_seconds.is_finite(),
        config.scroll_duration_seconds.rank() >= SINGLE_ONE,
        config.scroll_speed_factor.is_finite(),
        config.scroll_speed_factor.rank() >= SINGLE_FIFTH,
    ensures
        ({
            let millis = config.scroll_duration_seconds.product(
                (Single { bits: SINGLE_THOUSAND }),
            ).quotient(config.scroll_speed_factor);
            &&& !millis.is_nan() && millis.rank() >= SINGLE_ONE ==> scroll_millis(config)
                == millis.rounded(u64::MAX as nat)
        }),
{
}

/// A comment with a size of its own is larger or smaller than others in that ratio; one
/// without has the size of the layout. No text is smaller than one.
pub proof fn law_sizes_follow_the_comment(source: Single, config_size: Single, scale: Single)
    ensures
        ({
            let base = config_font_size(config_size, scale);
            let size = item_font_size(source, config_size, scale);
            &&& base.rank() >= SINGLE_ONE
            &&& size.rank() >= SINGLE_ONE
            &&& source.is_finite() && source.rank() <= 0 ==> size == base.raised_to(
                (Single { bits: SINGLE_ONE }),
            )
            &&& source.is_finite() && source.rank() > 0 ==> {
                let wanted = base.product(
                    source.quotient((Single { bits: DEFAULT_SOURCE_FONT_SIZE })),
                );
                !wanted.is_nan() && wanted.rank() >= SINGLE_ONE ==> size == wanted
            }
        }),
{
}

/// An outline of no width is none, and any other is as many times as wide as it is set
/// to.
pub proof fn law_outlines_follow_their_setting(font_size: Single, outline_width: Single)
    ensures
        outline_width.rank() <= 0 && !outline_width.is_nan() ==> outline_px(
            font_size,
            outline_width,
        ).bits == 0,
        outline_width.is_nan() ==> outline_px(font_size, outline_width).bits == 0,
        outline_width.is_finite() && 0 < outline_width.rank() <= SINGLE_FOUR ==> outline_px(
            font_size,
            outline_width,
        ) == font_size.product((Single { bits: SINGLE_0_06 })).limited(
            (Single { bits: SINGLE_ONE }),
            (Single { bits: SINGLE_2_6 }),
        ).product(outline_width),
{
}

/// A comment of the usual size has the size of the layout.
pub proof fn law_usual_comments_have_the_size_of_the_layout(config_size: Single, scale: Single)
    requires
        config_font_size(config_size, scale).is_finite(),
    ensures
        item_font_size((Single { bits: DEFAULT_SOURCE_FONT_SIZE }), config_size, scale)
            == config_font_size(config_size, scale),
{
    law_number_by_itself_is_one((Single { bits: DEFAULT_SOURCE_FONT_SIZE }));
    law_one_changes_nothing(config_font_size(config_size, scale));
}

} // verus!
