//! Glyphs and texts that have been drawn once.
use crate::danmaku::atlas::{GlyphCacheKey, RasterizedGlyph};
use crate::danmaku::text::{PreparedTextLayout, TextLayoutCacheKey};
use crate::presenter::text_events::{hash_of, simple_hash};
use std::collections::HashMap;
use vstd::prelude::*;
use vstd::utf8::encode_utf8;

verus! {

broadcast use {vstd::std_specs::hash::group_hash_axioms, vstd::seq_lib::group_seq_properties};

// ---------------------------------------------------------------------------
// Glyphs
// ---------------------------------------------------------------------------

/// The glyphs that have been drawn.
#[derive(Debug)]
pub struct GlyphCache {
    glyphs: HashMap<u128, RasterizedGlyph>,
}

impl View for GlyphCache {
    type V = Map<u128, RasterizedGlyph>;

    closed spec fn view(&self) -> Map<u128, RasterizedGlyph> {
        self.glyphs@
    }
}

impl GlyphCache {
    /// The glyph with a key, if it has been drawn.
    pub open spec fn drawn(self, key: GlyphCacheKey) -> Option<RasterizedGlyph> {
        if self@.contains_key(key.code()) {
            Some(self@[key.code()])
        } else {
            None
        }
    }

    /// No glyphs.
    pub fn new() -> (result: Self)
        ensures
            result@ == Map::<u128, RasterizedGlyph>::empty(),
    {
        Self { glyphs: HashMap::new() }
    }

    /// The glyph with a key, if it has been drawn.
    pub fn get(&self, key: GlyphCacheKey) -> (result: Option<&RasterizedGlyph>)
        ensures
            result is Some <==> self.drawn(key) is Some,
            result matches Some(glyph) ==> self.drawn(key) == Some(*glyph),
    {
        self.glyphs.get(&key.to_code())
    }

    /// The keys whose glyphs have to be drawn, by their places.
    pub fn missing(&self, keys: &[GlyphCacheKey]) -> (result: Vec<usize>)
        ensures
            forall|i: int| 0 <= i < result@.len() ==> (#[trigger] result@[i]) < keys@.len(),
            forall|i: int, j: int|
                0 <= i < j < result@.len() ==> #[trigger] result@[i] < #[trigger] result@[j],
            forall|place: usize|
                place < keys@.len() ==> (#[trigger] result@.contains(place) <==> self.drawn(
                    keys@[place as int],
                ) is None),
    {
        let mut places: Vec<usize> = Vec::new();
        let mut i: usize = 0;
        while i < keys.len()
            invariant
                i <= keys@.len(),
                forall|k: int| 0 <= k < places@.len() ==> (#[trigger] places@[k]) < i,
                forall|k: int, l: int|
                    0 <= k < l < places@.len() ==> #[trigger] places@[k] < #[trigger] places@[l],
                forall|place: usize|
                    place < i ==> (#[trigger] places@.contains(place) <==> self.drawn(
                        keys@[place as int],
                    ) is None),
            decreases keys@.len() - i,
        {
            let ghost before = places@;
            if self.get(keys[i]).is_none() {
                places.push(i);
                proof {
                    assert(places@[before.len() as int] == i);
                    assert forall|place: usize| place < i + 1 implies (
                    #[trigger] places@.contains(place) <==> self.drawn(keys@[place as int])
                        is None) by {
                        if before.contains(place) {
                            let k = choose|k: int| 0 <= k < before.len() && before[k] == place;
                            assert(places@[k] == place);
                        }
                        if places@.contains(place) && place != i {
                            let k = choose|k: int| 0 <= k < places@.len() && places@[k] == place;
                            assert(before[k] == place);
                        }
                    }
                }
            }
            i += 1;
        }
        places
    }

    /// Keeps a glyph that has been drawn, unless there is one with its key.
    pub fn keep(&mut self, glyph: RasterizedGlyph)
        ensures
            final(self)@ == (if old(self)@.contains_key(glyph.key.code()) {
                old(self)@
            } else {
                old(self)@.insert(glyph.key.code(), glyph)
            }),
    {
        let code: u128 = glyph.key.to_code();
        if !self.glyphs.contains_key(&code) {
            let _ = self.glyphs.insert(code, glyph);
        }
    }
}

/// A glyph that is kept is found again, and keeping it finds others as before.
pub proof fn law_kept_glyphs_are_found(
    before: GlyphCache,
    after: GlyphCache,
    glyph: RasterizedGlyph,
    other: GlyphCacheKey,
)
    requires
        after@ == (if before@.contains_key(glyph.key.code()) {
            before@
        } else {
            before@.insert(glyph.key.code(), glyph)
        }),
    ensures
        after.drawn(glyph.key) == (match before.drawn(glyph.key) {
            Some(earlier) => Some(earlier),
            None => Some(glyph),
        }),
        other != glyph.key ==> after.drawn(other) == before.drawn(other),
{
    if other.code() == glyph.key.code() {
        crate::danmaku::atlas::law_key_codes_tell_apart(other, glyph.key);
    }
}

// ---------------------------------------------------------------------------
// Texts
// ---------------------------------------------------------------------------

/// What the glyphs of a text depend on, with the text as a sequence of
/// characters.
pub struct TextKeyModel {
    pub text: Seq<char>,
    pub font_size_milli: u32,
    pub outline_radius: u16,
}

impl View for TextLayoutCacheKey {
    type V = TextKeyModel;

    open spec fn view(&self) -> TextKeyModel {
        TextKeyModel {
            text: self.text@,
            font_size_milli: self.font_size_milli,
            outline_radius: self.outline_radius,
        }
    }
}

/// A text that has been laid out.
#[derive(Debug)]
pub struct CachedText {
    pub key: TextLayoutCacheKey,
    pub layout: PreparedTextLayout,
}

/// The texts that have been laid out, by the hashes of their texts.
#[derive(Debug)]
pub struct TextLayoutCache {
    buckets: HashMap<u64, Vec<CachedText>>,
}

/// The last text with a key.
pub open spec fn last_with(texts: Seq<CachedText>, key: TextKeyModel) -> Option<PreparedTextLayout>
    decreases texts.len(),
{
    if texts.len() == 0 {
        None
    } else if texts.last().key@ == key {
        Some(texts.last().layout)
    } else {
        last_with(texts.drop_last(), key)
    }
}

fn find_with<'a>(texts: &'a Vec<CachedText>, key: &TextLayoutCacheKey) -> (result: Option<
    &'a PreparedTextLayout,
>)
    ensures
        result is Some <==> last_with(texts@, key@) is Some,
        result matches Some(layout) ==> last_with(texts@, key@) == Some(*layout),
{
    let mut n: usize = texts.len();
    assert(texts@.take(n as int) =~= texts@);
    while n > 0
        invariant
            n <= texts@.len(),
            last_with(texts@.take(n as int), key@) == last_with(texts@, key@),
        decreases n,
    {
        assert(texts@.take(n as int).drop_last() =~= texts@.take(n as int - 1));
        let other: &TextLayoutCacheKey = &texts[n - 1].key;
        if other.font_size_milli == key.font_size_milli && other.outline_radius
            == key.outline_radius && other.text == key.text {
            assert(other@ == key@);
            return Some(&texts[n - 1].layout);
        }
        n -= 1;
    }
    None
}

impl TextLayoutCache {
    /// The text with a key, if it has been laid out.
    pub closed spec fn laid_out(self, key: TextKeyModel) -> Option<PreparedTextLayout> {
        let hash = hash_of(encode_utf8(key.text));
        if self.buckets@.contains_key(hash) {
            last_with(self.buckets@[hash]@, key)
        } else {
            None
        }
    }

    /// No texts.
    pub fn new() -> (result: Self)
        ensures
            forall|key: TextKeyModel| #[trigger] result.laid_out(key) is None,
    {
        Self { buckets: HashMap::new() }
    }

    /// The text with a key, if it has been laid out.
    pub fn get(&self, key: &TextLayoutCacheKey) -> (result: Option<&PreparedTextLayout>)
        ensures
            result is Some <==> self.laid_out(key@) is Some,
            result matches Some(layout) ==> self.laid_out(key@) == Some(*layout),
    {
        match self.buckets.get(&simple_hash(key.text.as_str())) {
            Some(texts) => find_with(texts, key),
            None => None,
        }
    }

    /// Keeps a text that has been laid out, in place of an earlier one.
    pub fn insert(&mut self, key: TextLayoutCacheKey, layout: PreparedTextLayout)
        ensures
            final(self).laid_out(key@) == Some(layout),
            forall|other: TextKeyModel|
                other != key@ ==> #[trigger] final(self).laid_out(other) == old(self).laid_out(
                    other,
                ),
    {
        let hash: u64 = simple_hash(key.text.as_str());
        let mut texts = match self.buckets.remove(&hash) {
            Some(texts) => texts,
            None => Vec::new(),
        };
        let ghost before = texts@;
        let ghost entry = CachedText { key, layout };
        assert(before.push(entry).drop_last() =~= before);
        texts.push(CachedText { key, layout });
        let _ = self.buckets.insert(hash, texts);
        proof {
            assert(self.buckets@[hash]@ =~= before.push(entry));
            if !old(self).buckets@.contains_key(hash) {
                assert(before =~= Seq::<CachedText>::empty());
            }
            assert forall|other: TextKeyModel| other != key@ implies #[trigger] self.laid_out(other)
                == old(self).laid_out(other) by {
                let place = hash_of(encode_utf8(other.text));
                if place == hash {
                    assert(last_with(before.push(entry), other) == last_with(before, other));
                }
            }
        }
    }
}

/// What was put in last under a key is found under it, and not under another one.
pub proof fn law_last_layout_is_found(texts: Seq<CachedText>, text: CachedText, key: TextKeyModel)
    ensures
        last_with(texts.push(text), text.key@) == Some(text.layout),
        text.key@ != key ==> last_with(texts.push(text), key) == last_with(texts, key),
        last_with(Seq::<CachedText>::empty(), key) is None,
{
    assert(texts.push(text).drop_last() =~= texts);
}

} // verus!
