//! Comments that fly over the video: what they say, how they look, and how they
//! are laid out.
use crate::float_bits::{bit_length, nearest_single, Single, SINGLE_ONE};
use crate::float_laws::law_number_by_itself_is_one;
use crate::num::{to_wrapped_i32, wrap_i32};
use crate::text::{chars_eq_str, chars_of, lower_spec, to_lower, trim, trim_spec};
use crate::time::Duration;
use vstd::arithmetic::power2::{lemma2_to64, pow2};
use vstd::prelude::*;

verus! {

/// The font size of a comment that names none: 25.
pub const DEFAULT_SOURCE_FONT_SIZE: u32 = 0x41c8_0000;

/// The font size of a layout that names none: 30.
pub const DEFAULT_CONFIG_FONT_SIZE: u32 = 0x41f0_0000;

/// The generation of a first layout.
pub const DEFAULT_GENERATION: u64 = 1;

/// How long a comment stands still, in milliseconds.
pub const DEFAULT_STATIC_MILLIS: u64 = 3_800;

/// How long a comment takes to cross where nothing is laid out, in
/// milliseconds.
pub const DEFAULT_SCROLL_MILLIS: u64 = 9_000;

// ---------------------------------------------------------------------------
// Errors
// ---------------------------------------------------------------------------

/// What can go wrong with comments.
#[derive(Debug)]
pub enum DanmakuError {
    /// A field that is not what it should be; holds its name.
    InvalidField(String),
    /// A comment without text.
    MissingText,
    /// A document that cannot be read; holds why.
    Parse(String),
    /// A file that cannot be read; holds why.
    Io(String),
}

/// An error, with its text as a sequence of characters.
pub enum DanmakuErrorModel {
    InvalidField(Seq<char>),
    MissingText,
    Parse(Seq<char>),
    Io(Seq<char>),
}

impl View for DanmakuError {
    type V = DanmakuErrorModel;

    open spec fn view(&self) -> DanmakuErrorModel {
        match *self {
            DanmakuError::InvalidField(text) => DanmakuErrorModel::InvalidField(text@),
            DanmakuError::MissingText => DanmakuErrorModel::MissingText,
            DanmakuError::Parse(text) => DanmakuErrorModel::Parse(text@),
            DanmakuError::Io(text) => DanmakuErrorModel::Io(text@),
        }
    }
}

/// The result of an operation on comments.
pub type Result<T> = core::result::Result<T, DanmakuError>;

/// Whether an error of one comment lets the others pass.
pub open spec fn skips_item(error: DanmakuErrorModel) -> bool {
    error is MissingText || error is InvalidField
}

/// Tells whether an error of one comment lets the others pass.
pub fn should_skip_item_error(error: &DanmakuError) -> (result: bool)
    ensures
        result == skips_item(error@),
{
    matches!(error, DanmakuError::MissingText | DanmakuError::InvalidField(_))
}

// ---------------------------------------------------------------------------
// Modes
// ---------------------------------------------------------------------------

/// How a comment moves.
#[derive(Debug, Clone, Copy, PartialEq, Eq, Hash, Structural)]
pub enum DanmakuMode {
    Scroll,
    ScrollReverse,
    Top,
    Bottom,
    Special,
}

/// The mode with a code.
pub open spec fn mode_of_code(code: u32) -> DanmakuMode {
    match code {
        6 => DanmakuMode::ScrollReverse,
        5 => DanmakuMode::Top,
        4 => DanmakuMode::Bottom,
        7 => DanmakuMode::Special,
        _ => DanmakuMode::Scroll,
    }
}

/// The code of a mode.
pub open spec fn code_of_mode(mode: DanmakuMode) -> i32 {
    match mode {
        DanmakuMode::Scroll => 1,
        DanmakuMode::ScrollReverse => 6,
        DanmakuMode::Top => 5,
        DanmakuMode::Bottom => 4,
        DanmakuMode::Special => 7,
    }
}

/// The mode with a name or a written code.
pub open spec fn mode_of_text(text: Seq<char>) -> DanmakuMode {
    let name = lower_spec(trim_spec(text));
    if name == "top"@ || name == "fix_top"@ || name == "fixed_top"@ || name == "5"@ {
        DanmakuMode::Top
    } else if name == "bottom"@ || name == "fix_bottom"@ || name == "fixed_bottom"@ || name
        == "4"@ {
        DanmakuMode::Bottom
    } else if name == "reverse"@ || name == "scroll_reverse"@ || name == "left"@ || name == "l2r"@
        || name == "6"@ {
        DanmakuMode::ScrollReverse
    } else if name == "special"@ || name == "7"@ {
        DanmakuMode::Special
    } else {
        DanmakuMode::Scroll
    }
}

impl DanmakuMode {
    /// Reads a code.
    pub fn from_bilibili_mode(value: u32) -> (result: Self)
        ensures
            result == mode_of_code(value),
    {
        match value {
            6 => DanmakuMode::ScrollReverse,
            5 => DanmakuMode::Top,
            4 => DanmakuMode::Bottom,
            7 => DanmakuMode::Special,
            _ => DanmakuMode::Scroll,
        }
    }

    /// Reads a name or a written code.
    pub fn from_text(value: &str) -> (result: Self)
        ensures
            result == mode_of_text(value@),
    {
        let chars = chars_of(value);
        let name = to_lower(trim(&chars));
        if chars_eq_str(&name, "top") || chars_eq_str(&name, "fix_top") || chars_eq_str(
            &name,
            "fixed_top",
        ) || chars_eq_str(&name, "5") {
            DanmakuMode::Top
        } else if chars_eq_str(&name, "bottom") || chars_eq_str(&name, "fix_bottom")
            || chars_eq_str(&name, "fixed_bottom") || chars_eq_str(&name, "4") {
            DanmakuMode::Bottom
        } else if chars_eq_str(&name, "reverse") || chars_eq_str(&name, "scroll_reverse")
            || chars_eq_str(&name, "left") || chars_eq_str(&name, "l2r") || chars_eq_str(
            &name,
            "6",
        ) {
            DanmakuMode::ScrollReverse
        } else if chars_eq_str(&name, "special") || chars_eq_str(&name, "7") {
            DanmakuMode::Special
        } else {
            DanmakuMode::Scroll
        }
    }
}

/// The code of a mode.
pub fn mode_to_dfm_type_code(mode: DanmakuMode) -> (result: i32)
    ensures
        result == code_of_mode(mode),
{
    match mode {
        DanmakuMode::Scroll => 1,
        DanmakuMode::ScrollReverse => 6,
        DanmakuMode::Top => 5,
        DanmakuMode::Bottom => 4,
        DanmakuMode::Special => 7,
    }
}

/// The mode with a code that may be negative.
pub open spec fn mode_of_signed_code(code: i32) -> DanmakuMode {
    mode_of_code(if code < 0 { 0u32 } else { code as u32 })
}

/// Reads a code that may be negative.
pub fn dfm_type_code_to_mode(type_code: i32) -> (result: DanmakuMode)
    ensures
        result == mode_of_signed_code(type_code),
{
    DanmakuMode::from_bilibili_mode(
        if type_code < 0 {
            0
        } else {
            type_code as u32
        },
    )
}

/// A mode is read back from its code.
pub proof fn law_mode_code_round_trip(mode: DanmakuMode)
    ensures
        mode_of_signed_code(code_of_mode(mode)) == mode,
        mode_of_code(code_of_mode(mode) as u32) == mode,
{
}

// ---------------------------------------------------------------------------
// Colours
// ---------------------------------------------------------------------------

/// A colour, by fractions of full intensity.
#[derive(Debug, Clone, Copy, PartialEq, Eq, Structural)]
pub struct DanmakuColor {
    pub red: Single,
    pub green: Single,
    pub blue: Single,
    pub alpha: Single,
}

/// The number 255.
pub const SINGLE_255: u32 = 0x437f_0000;

/// A byte as a fraction of 255.
pub open spec fn byte_fraction(value: nat) -> Single {
    (Single { bits: nearest_single(value, 0) as u32 }).quotient(Single { bits: SINGLE_255 })
}

/// A byte as a fraction of 255.
fn to_fraction(value: u8) -> (result: Single)
    ensures
        result == byte_fraction(value as nat),
{
    Single::from_whole(value as u32).over(Single { bits: SINGLE_255 })
}

/// An opaque colour by the bytes of its channels.
pub open spec fn rgb_color(red: nat, green: nat, blue: nat) -> DanmakuColor {
    DanmakuColor {
        red: byte_fraction(red),
        green: byte_fraction(green),
        blue: byte_fraction(blue),
        alpha: Single { bits: SINGLE_ONE },
    }
}

/// The opaque colour of a word: its bytes are, from the third, red, green and
/// blue.
pub open spec fn decimal_color(value: u32) -> DanmakuColor {
    rgb_color(
        (value / 0x1_0000 % 0x100) as nat,
        (value / 0x100 % 0x100) as nat,
        (value % 0x100) as nat,
    )
}

/// The colour of a word: its bytes are, from the highest, alpha, red, green and
/// blue.
pub open spec fn argb_color(value: u32) -> DanmakuColor {
    DanmakuColor { alpha: byte_fraction((value / 0x100_0000) as nat), ..decimal_color(value) }
}

/// A fraction of full intensity as a byte.
pub open spec fn fraction_byte(value: Single) -> nat {
    value.limited(Single { bits: 0 }, Single { bits: SINGLE_ONE }).product(
        Single { bits: SINGLE_255 },
    ).rounded(255)
}

/// A fraction of full intensity as a byte.
fn to_byte(value: Single) -> (result: u32)
    ensures
        result == fraction_byte(value),
        result <= 255,
{
    value.clamp_to(Single { bits: 0 }, Single { bits: SINGLE_ONE }).times(
        Single { bits: SINGLE_255 },
    ).round_to(255) as u32
}

/// The word of a colour at an opacity.
pub open spec fn argb_word(color: DanmakuColor, opacity: Single) -> nat {
    fraction_byte(color.alpha.product(opacity)) * 0x100_0000 + fraction_byte(color.red) * 0x1_0000
        + fraction_byte(color.green) * 0x100 + fraction_byte(color.blue)
}

impl DanmakuColor {
    /// White.
    pub fn white() -> (result: Self)
        ensures
            result == rgb_color(255, 255, 255),
    {
        Self::rgb_u8(255, 255, 255)
    }

    /// An opaque colour.
    pub fn rgb_u8(red: u8, green: u8, blue: u8) -> (result: Self)
        ensures
            result == rgb_color(red as nat, green as nat, blue as nat),
    {
        Self {
            red: to_fraction(red),
            green: to_fraction(green),
            blue: to_fraction(blue),
            alpha: Single { bits: SINGLE_ONE },
        }
    }

    /// Reads an opaque colour from a word.
    pub fn from_decimal(value: u32) -> (result: Self)
        ensures
            result == decimal_color(value),
    {
        assert((value >> 16) & 0xff == value / 0x1_0000 % 0x100) by (bit_vector);
        assert((value >> 8) & 0xff == value / 0x100 % 0x100) by (bit_vector);
        assert(value & 0xff == value % 0x100) by (bit_vector);
        Self::rgb_u8(
            ((value >> 16) & 0xff) as u8,
            ((value >> 8) & 0xff) as u8,
            (value & 0xff) as u8,
        )
    }

    /// Reads a colour from a word.
    pub fn from_argb(value: u32) -> (result: Self)
        ensures
            result == argb_color(value),
    {
        let opaque = Self::from_decimal(value);
        Self {
            red: opaque.red,
            green: opaque.green,
            blue: opaque.blue,
            alpha: to_fraction((value / 0x100_0000) as u8),
        }
    }

    /// The channels, each between zero and one, with the alpha scaled by an
    /// opacity.
    pub fn rgba(self, opacity: Single) -> (result: [Single; 4])
        ensures
            result@ == seq![
                self.red.limited(Single { bits: 0 }, Single { bits: SINGLE_ONE }),
                self.green.limited(Single { bits: 0 }, Single { bits: SINGLE_ONE }),
                self.blue.limited(Single { bits: 0 }, Single { bits: SINGLE_ONE }),
                self.alpha.product(opacity).limited(
                    Single { bits: 0 },
                    Single { bits: SINGLE_ONE },
                ),
            ],
    {
        let zero = Single { bits: 0 };
        let one = Single { bits: SINGLE_ONE };
        let result = [
            self.red.clamp_to(zero, one),
            self.green.clamp_to(zero, one),
            self.blue.clamp_to(zero, one),
            self.alpha.times(opacity).clamp_to(zero, one),
        ];
        assert(result@ =~= seq![
            self.red.limited(Single { bits: 0 }, Single { bits: SINGLE_ONE }),
            self.green.limited(Single { bits: 0 }, Single { bits: SINGLE_ONE }),
            self.blue.limited(Single { bits: 0 }, Single { bits: SINGLE_ONE }),
            self.alpha.product(opacity).limited(Single { bits: 0 }, Single { bits: SINGLE_ONE }),
        ]);
        result
    }
}

/// The word of a colour at an opacity: its bytes are, from the highest, alpha,
/// red, green and blue.
pub fn color_to_argb(color: DanmakuColor, opacity: Single) -> (result: i32)
    ensures
        result == wrap_i32(argb_word(color, opacity)),
{
    let alpha: u32 = to_byte(color.alpha.times(opacity));
    let red: u32 = to_byte(color.red);
    let green: u32 = to_byte(color.green);
    let blue: u32 = to_byte(color.blue);
    to_wrapped_i32(alpha * 0x100_0000 + red * 0x1_0000 + green * 0x100 + blue)
}

// ---------------------------------------------------------------------------
// Comments
// ---------------------------------------------------------------------------

/// A comment.
#[derive(Debug, Clone, PartialEq, Eq)]
pub struct DanmakuItem {
    pub id: u64,
    pub pts: Duration,
    pub text: String,
    pub mode: DanmakuMode,
    pub font_size: Single,
    pub color: DanmakuColor,
    pub opacity: Single,
    pub is_self: bool,
}

/// A comment, with its time in nanoseconds.
pub struct ItemModel {
    pub id: u64,
    pub pts: nat,
    pub text: Seq<char>,
    pub mode: DanmakuMode,
    pub font_size: Single,
    pub color: DanmakuColor,
    pub opacity: Single,
    pub is_self: bool,
}

impl View for DanmakuItem {
    type V = ItemModel;

    open spec fn view(&self) -> ItemModel {
        ItemModel {
            id: self.id,
            pts: self.pts@,
            text: self.text@,
            mode: self.mode,
            font_size: self.font_size,
            color: self.color,
            opacity: self.opacity,
            is_self: self.is_self,
        }
    }
}

impl ItemModel {
    /// The comment as a timeline takes it: with an id, a font size of at least
    /// one, and an opacity between zero and one. A comment that shows nothing is
    /// not taken.
    pub open spec fn normal(self, fallback_id: u64) -> Option<ItemModel> {
        if trim_spec(self.text).len() == 0 {
            None
        } else {
            Some(
                ItemModel {
                    id: if self.id == 0 {
                        fallback_id
                    } else {
                        self.id
                    },
                    font_size: self.font_size.finite_or(
                        Single { bits: DEFAULT_SOURCE_FONT_SIZE },
                    ).raised_to(Single { bits: SINGLE_ONE }),
                    opacity: self.opacity.finite_or(Single { bits: SINGLE_ONE }).limited(
                        Single { bits: 0 },
                        Single { bits: SINGLE_ONE },
                    ),
                    ..self
                },
            )
        }
    }
}

impl DanmakuItem {
    /// Another comment that says and looks the same.
    pub fn duplicate(&self) -> (result: Self)
        ensures
            result@ == self@,
    {
        DanmakuItem {
            id: self.id,
            pts: self.pts,
            text: self.text.clone(),
            mode: self.mode,
            font_size: self.font_size,
            color: self.color,
            opacity: self.opacity,
            is_self: self.is_self,
        }
    }

    /// The comment as a timeline takes it.
    pub fn normalized(self, fallback_id: u64) -> (result: Result<Self>)
        ensures
            match self@.normal(fallback_id) {
                Some(item) => result is Ok && result->Ok_0@ == item,
                None => result is Err && result->Err_0@ == DanmakuErrorModel::MissingText,
            },
    {
        let chars = chars_of(&self.text);
        if trim(&chars).len() == 0 {
            return Err(DanmakuError::MissingText);
        }
        Ok(
            DanmakuItem {
                id: if self.id == 0 {
                    fallback_id
                } else {
                    self.id
                },
                pts: self.pts,
                text: self.text,
                mode: self.mode,
                font_size: self.font_size.or_if_not_finite(
                    Single { bits: DEFAULT_SOURCE_FONT_SIZE },
                ).at_least(Single { bits: SINGLE_ONE }),
                color: self.color,
                opacity: self.opacity.or_if_not_finite(Single { bits: SINGLE_ONE }).clamp_to(
                    Single { bits: 0 },
                    Single { bits: SINGLE_ONE },
                ),
                is_self: self.is_self,
            },
        )
    }
}

// ---------------------------------------------------------------------------
// Viewports
// ---------------------------------------------------------------------------

/// The surface that comments fly over.
#[derive(Debug, Clone, Copy, PartialEq, Eq, Structural)]
pub struct DanmakuViewport {
    pub width: u32,
    pub height: u32,
    pub scale_factor: Single,
}

impl DanmakuViewport {
    /// A surface of at least one pixel, at scale one.
    pub fn new(width: u32, height: u32) -> (result: Self)
        ensures
            result == viewport_of(width, height, Single { bits: SINGLE_ONE }),
    {
        Self::with_scale(width, height, Single { bits: SINGLE_ONE })
    }

    /// A surface of at least one pixel. A scale that is not finite and greater
    /// than zero counts as one.
    pub fn with_scale(width: u32, height: u32, scale_factor: Single) -> (result: Self)
        ensures
            result == viewport_of(width, height, scale_factor),
    {
        let scale_factor = if scale_factor.check_finite() && scale_factor.place() > 0 {
            scale_factor
        } else {
            Single { bits: SINGLE_ONE }
        };
        Self {
            width: if width == 0 {
                1
            } else {
                width
            },
            height: if height == 0 {
                1
            } else {
                height
            },
            scale_factor,
        }
    }
}

/// The surface of at least one pixel with a usable scale.
pub open spec fn viewport_of(width: u32, height: u32, scale_factor: Single) -> DanmakuViewport {
    DanmakuViewport {
        width: if width == 0 {
            1
        } else {
            width
        },
        height: if height == 0 {
            1
        } else {
            height
        },
        scale_factor: if scale_factor.is_finite() && scale_factor.rank() > 0 {
            scale_factor
        } else {
            Single { bits: SINGLE_ONE }
        },
    }
}

// ---------------------------------------------------------------------------
// Shadows
// ---------------------------------------------------------------------------

/// How strong the shadow of a comment is.
#[derive(Debug, Clone, Copy, PartialEq, Eq, Structural)]
pub enum DanmakuShadowStyle {
    NoShadow,
    Soft,
    Medium,
    Strong,
}

impl Default for DanmakuShadowStyle {
    fn default() -> (result: Self)
        ensures
            result == DanmakuShadowStyle::Strong,
    {
        DanmakuShadowStyle::Strong
    }
}

/// The style with a code; an unknown code is that of the strongest.
pub open spec fn style_of_code(value: i32) -> DanmakuShadowStyle {
    match value {
        0 => DanmakuShadowStyle::NoShadow,
        1 => DanmakuShadowStyle::Soft,
        2 => DanmakuShadowStyle::Medium,
        _ => DanmakuShadowStyle::Strong,
    }
}

/// The code of a style.
pub open spec fn code_of_style(style: DanmakuShadowStyle) -> i32 {
    match style {
        DanmakuShadowStyle::NoShadow => 0,
        DanmakuShadowStyle::Soft => 1,
        DanmakuShadowStyle::Medium => 2,
        DanmakuShadowStyle::Strong => 3,
    }
}

/// The alpha of a style's shadow.
pub open spec fn alpha_of_style(style: DanmakuShadowStyle) -> Single {
    match style {
        DanmakuShadowStyle::NoShadow => Single { bits: 0 },
        DanmakuShadowStyle::Soft => Single { bits: 0x3eae_147b },
        DanmakuShadowStyle::Medium => Single { bits: 0x3ee1_47ae },
        DanmakuShadowStyle::Strong => Single { bits: 0x3f0c_cccd },
    }
}

impl DanmakuShadowStyle {
    /// Reads a code.
    pub fn from_code(value: i32) -> (result: Self)
        ensures
            result == style_of_code(value),
    {
        match value {
            0 => DanmakuShadowStyle::NoShadow,
            1 => DanmakuShadowStyle::Soft,
            2 => DanmakuShadowStyle::Medium,
            3 => DanmakuShadowStyle::Strong,
            _ => DanmakuShadowStyle::Strong,
        }
    }

    /// The code of the style.
    pub fn code(self) -> (result: i32)
        ensures
            result == code_of_style(self),
    {
        match self {
            DanmakuShadowStyle::NoShadow => 0,
            DanmakuShadowStyle::Soft => 1,
            DanmakuShadowStyle::Medium => 2,
            DanmakuShadowStyle::Strong => 3,
        }
    }
}

/// The alpha of a style's shadow: none, 0.34, 0.44 or 0.55.
pub fn shadow_style_alpha(style: DanmakuShadowStyle) -> (result: Single)
    ensures
        result == alpha_of_style(style),
{
    match style {
        DanmakuShadowStyle::NoShadow => Single { bits: 0 },
        DanmakuShadowStyle::Soft => Single { bits: 0x3eae_147b },
        DanmakuShadowStyle::Medium => Single { bits: 0x3ee1_47ae },
        DanmakuShadowStyle::Strong => Single { bits: 0x3f0c_cccd },
    }
}

/// A style is read back from its code, and the code of what is read from a
/// style's code is that code.
pub proof fn law_shadow_code_round_trip(style: DanmakuShadowStyle)
    ensures
        style_of_code(code_of_style(style)) == style,
        0 <= code_of_style(style) <= 3,
{
}

/// Four bytes in one word.
proof fn lemma_byte_places(a: int, r: int, g: int, b: int)
    requires
        0 <= a < 0x100,
        0 <= r < 0x100,
        0 <= g < 0x100,
        0 <= b < 0x100,
    ensures
        ({
            let word = a * 0x100_0000 + r * 0x1_0000 + g * 0x100 + b;
            &&& 0 <= word < 0x1_0000_0000
            &&& word / 0x100_0000 == a
            &&& word / 0x1_0000 % 0x100 == r
            &&& word / 0x100 % 0x100 == g
            &&& word % 0x100 == b
        }),
{
    let word = a * 0x100_0000 + r * 0x1_0000 + g * 0x100 + b;
    assert(word / 0x100 == a * 0x1_0000 + r * 0x100 + g);
    assert(word / 0x1_0000 == a * 0x100 + r);
}

/// The word of a colour is a machine word: each channel takes its own byte.
pub proof fn law_argb_word_is_a_word(color: DanmakuColor, opacity: Single)
    ensures
        argb_word(color, opacity) <= u32::MAX,
        argb_word(color, opacity) / 0x100_0000 == fraction_byte(color.alpha.product(opacity)),
        argb_word(color, opacity) / 0x1_0000 % 0x100 == fraction_byte(color.red),
        argb_word(color, opacity) / 0x100 % 0x100 == fraction_byte(color.green),
        argb_word(color, opacity) % 0x100 == fraction_byte(color.blue),
{
    let alpha = fraction_byte(color.alpha.product(opacity)) as int;
    let red = fraction_byte(color.red) as int;
    let green = fraction_byte(color.green) as int;
    let blue = fraction_byte(color.blue) as int;
    lemma_byte_places(alpha, red, green, blue);
}

/// A colour that is written as a word of three bytes, the red one first, is read as
/// these bytes; what stands above them does not matter unless it is read as alpha.
pub proof fn law_color_words_hold_their_bytes(
    word: u32,
    alpha: nat,
    red: nat,
    green: nat,
    blue: nat,
)
    requires
        alpha < 0x100 && red < 0x100 && green < 0x100 && blue < 0x100,
        word == alpha * 0x100_0000 + red * 0x1_0000 + green * 0x100 + blue,
    ensures
        decimal_color(word) == rgb_color(red, green, blue),
        decimal_color(word).red == byte_fraction(red),
        decimal_color(word).green == byte_fraction(green),
        decimal_color(word).blue == byte_fraction(blue),
        decimal_color(word).alpha == (Single { bits: SINGLE_ONE }),
        argb_color(word).alpha == byte_fraction(alpha),
        argb_color(word).red == byte_fraction(red),
        argb_color(word).green == byte_fraction(green),
        argb_color(word).blue == byte_fraction(blue),
{
    lemma_byte_places(alpha as int, red as int, green as int, blue as int);
}

/// A full byte is full intensity, and none is none; a comment that is opaque shows its
/// colour as it is.
pub proof fn law_full_bytes_are_full_intensity()
    ensures
        byte_fraction(255).bits == SINGLE_ONE,
        byte_fraction(0).bits == 0,
{
    lemma2_to64();
    reveal_with_fuel(bit_length, 10);
    assert(bit_length(255) == 8);
    assert(255 * pow2(16) == 255 * 0x1_0000) by (nonlinear_arith)
        requires
            pow2(16) == 0x1_0000,
    ;
    assert(nearest_single(255, 0) == SINGLE_255);
    law_number_by_itself_is_one((Single { bits: SINGLE_255 }));
}

/// A viewport is as large as it is told to be, though never empty, and has the scale that
/// it is told, though never one that is none.
pub proof fn law_viewports_are_as_told(width: u32, height: u32, scale_factor: Single)
    ensures
        viewport_of(width, height, scale_factor).width >= 1,
        viewport_of(width, height, scale_factor).height >= 1,
        width > 0 ==> viewport_of(width, height, scale_factor).width == width,
        height > 0 ==> viewport_of(width, height, scale_factor).height == height,
        scale_factor.is_finite() && scale_factor.rank() > 0 ==> viewport_of(
            width,
            height,
            scale_factor,
        ).scale_factor == scale_factor,
        !scale_factor.is_finite() || scale_factor.rank() <= 0 ==> viewport_of(
            width,
            height,
            scale_factor,
        ).scale_factor.bits == SINGLE_ONE,
{
}

/// The codes and the names of the modes say what they mean.
pub proof fn law_modes_are_told_by_code_and_name(text: Seq<char>)
    ensures
        mode_of_code(1) == DanmakuMode::Scroll,
        mode_of_code(4) == DanmakuMode::Bottom,
        mode_of_code(5) == DanmakuMode::Top,
        mode_of_code(6) == DanmakuMode::ScrollReverse,
        mode_of_code(7) == DanmakuMode::Special,
        lower_spec(trim_spec(text)) == "top"@ ==> mode_of_text(text) == DanmakuMode::Top,
        lower_spec(trim_spec(text)) == "bottom"@ ==> mode_of_text(text) == DanmakuMode::Bottom,
        lower_spec(trim_spec(text)) == "reverse"@ ==> mode_of_text(text)
            == DanmakuMode::ScrollReverse,
        lower_spec(trim_spec(text)) == "special"@ ==> mode_of_text(text) == DanmakuMode::Special,
        lower_spec(trim_spec(text)) == "scroll"@ ==> mode_of_text(text) == DanmakuMode::Scroll,
{
    reveal_strlit("top");
    reveal_strlit("fix_top");
    reveal_strlit("fixed_top");
    reveal_strlit("5");
    reveal_strlit("bottom");
    reveal_strlit("fix_bottom");
    reveal_strlit("fixed_bottom");
    reveal_strlit("4");
    reveal_strlit("reverse");
    reveal_strlit("scroll_reverse");
    reveal_strlit("left");
    reveal_strlit("l2r");
    reveal_strlit("6");
    reveal_strlit("special");
    reveal_strlit("7");
    reveal_strlit("scroll");
    assert("fix_top"@[0] == 'f' && "reverse"@[0] == 'r' && "special"@[0] == 's' && "scroll"@[0]
        == 's' && "bottom"@[0] == 'b');
    assert("top"@.len() == 3 && "fixed_top"@.len() == 9 && "5"@.len() == 1);
    assert("fix_bottom"@.len() == 10 && "fixed_bottom"@.len() == 12 && "4"@.len() == 1);
    assert("scroll_reverse"@.len() == 14 && "left"@.len() == 4 && "l2r"@.len() == 3);
    assert("bottom"@.len() == 6 && "scroll"@.len() == 6 && "6"@.len() == 1 && "7"@.len() == 1);
    assert("special"@.len() == 7 && "reverse"@.len() == 7 && "fix_top"@.len() == 7);
}

} // verus!
