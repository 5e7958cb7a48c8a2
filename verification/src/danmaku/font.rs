//! Fonts: which ones are tried, and which one shows a character.
use crate::text::{char_is_space, chars_of, is_space, string_of, trim, trim_spec};
use ab_glyph::Font;
use std::collections::HashMap;
use vstd::prelude::*;

verus! {

broadcast use {vstd::std_specs::hash::group_hash_axioms, vstd::seq_lib::group_seq_properties};

// ---------------------------------------------------------------------------
// Choices
// ---------------------------------------------------------------------------

/// A family of fonts.
#[derive(Debug, Clone, PartialEq, Eq)]
pub enum FontFamily {
    /// The one of a name.
    Named(String),
    /// The one that stands for those without serifs.
    SansSerif,
    /// The one that stands for those with serifs.
    Serif,
}

/// A family of fonts, with its name as a sequence of characters.
pub enum FamilyModel {
    Named(Seq<char>),
    SansSerif,
    Serif,
}

impl View for FontFamily {
    type V = FamilyModel;

    open spec fn view(&self) -> FamilyModel {
        match *self {
            FontFamily::Named(name) => FamilyModel::Named(name@),
            FontFamily::SansSerif => FamilyModel::SansSerif,
            FontFamily::Serif => FamilyModel::Serif,
        }
    }
}

/// A font that may be at hand.
#[derive(Debug, Clone, PartialEq, Eq)]
pub enum FontChoice {
    /// The one that comes with the player.
    BuiltIn,
    /// The one of a file.
    File(String),
    /// One of a family.
    Family(FontFamily),
}

/// A font that may be at hand, with its name as a sequence of characters.
pub enum ChoiceModel {
    BuiltIn,
    File(Seq<char>),
    Family(FamilyModel),
}

impl View for FontChoice {
    type V = ChoiceModel;

    open spec fn view(&self) -> ChoiceModel {
        match *self {
            FontChoice::BuiltIn => ChoiceModel::BuiltIn,
            FontChoice::File(path) => ChoiceModel::File(path@),
            FontChoice::Family(family) => ChoiceModel::Family(family@),
        }
    }
}

/// Choices as models.
pub open spec fn choices_view(choices: Seq<FontChoice>) -> Seq<ChoiceModel> {
    Seq::new(choices.len(), |i: int| choices[i]@)
}

/// The fonts that are tried where none is asked for, in order.
pub open spec fn default_choices() -> Seq<ChoiceModel> {
    seq![
        ChoiceModel::BuiltIn,
        ChoiceModel::Family(FamilyModel::Named("PingFang SC"@)),
        ChoiceModel::Family(FamilyModel::Named("Hiragino Sans GB"@)),
        ChoiceModel::Family(FamilyModel::Named("Microsoft YaHei"@)),
        ChoiceModel::Family(FamilyModel::Named("Noto Sans CJK SC"@)),
        ChoiceModel::Family(FamilyModel::Named("Noto Sans CJK"@)),
        ChoiceModel::Family(FamilyModel::Named("Source Han Sans SC"@)),
        ChoiceModel::Family(FamilyModel::SansSerif),
        ChoiceModel::File("/System/Library/Fonts/Supplemental/Arial Unicode.ttf"@),
        ChoiceModel::File("/Library/Fonts/Arial Unicode.ttf"@),
        ChoiceModel::File("/System/Library/Fonts/PingFang.ttc"@),
        ChoiceModel::File("/System/Library/Fonts/STHeiti Light.ttc"@),
        ChoiceModel::File("/System/Library/Fonts/Supplemental/Arial.ttf"@),
        ChoiceModel::File("/System/Library/Fonts/SFNS.ttf"@),
        ChoiceModel::File("/usr/share/fonts/opentype/noto/NotoSansCJK-Regular.ttc"@),
        ChoiceModel::File("/usr/share/fonts/truetype/noto/NotoSansCJK-Regular.ttc"@),
        ChoiceModel::File("/usr/share/fonts/truetype/noto/NotoSans-Regular.ttf"@),
        ChoiceModel::File("/usr/share/fonts/truetype/dejavu/DejaVuSans.ttf"@),
        ChoiceModel::File("C:\\Windows\\Fonts\\msyh.ttc"@),
        ChoiceModel::File("C:\\Windows\\Fonts\\simhei.ttf"@),
        ChoiceModel::File("C:\\Windows\\Fonts\\arial.ttf"@),
    ]
}

/// The fonts that are tried where none is asked for, in order.
pub fn default_font_choices() -> (result: Vec<FontChoice>)
    ensures
        choices_view(result@) == default_choices(),
{
    let result = vec![
        FontChoice::BuiltIn,
        FontChoice::Family(FontFamily::Named("PingFang SC".to_owned())),
        FontChoice::Family(FontFamily::Named("Hiragino Sans GB".to_owned())),
        FontChoice::Family(FontFamily::Named("Microsoft YaHei".to_owned())),
        FontChoice::Family(FontFamily::Named("Noto Sans CJK SC".to_owned())),
        FontChoice::Family(FontFamily::Named("Noto Sans CJK".to_owned())),
        FontChoice::Family(FontFamily::Named("Source Han Sans SC".to_owned())),
        FontChoice::Family(FontFamily::SansSerif),
        FontChoice::File("/System/Library/Fonts/Supplemental/Arial Unicode.ttf".to_owned()),
        FontChoice::File("/Library/Fonts/Arial Unicode.ttf".to_owned()),
        FontChoice::File("/System/Library/Fonts/PingFang.ttc".to_owned()),
        FontChoice::File("/System/Library/Fonts/STHeiti Light.ttc".to_owned()),
        FontChoice::File("/System/Library/Fonts/Supplemental/Arial.ttf".to_owned()),
        FontChoice::File("/System/Library/Fonts/SFNS.ttf".to_owned()),
        FontChoice::File("/usr/share/fonts/opentype/noto/NotoSansCJK-Regular.ttc".to_owned()),
        FontChoice::File("/usr/share/fonts/truetype/noto/NotoSansCJK-Regular.ttc".to_owned()),
        FontChoice::File("/usr/share/fonts/truetype/noto/NotoSans-Regular.ttf".to_owned()),
        FontChoice::File("/usr/share/fonts/truetype/dejavu/DejaVuSans.ttf".to_owned()),
        FontChoice::File("C:\\Windows\\Fonts\\msyh.ttc".to_owned()),
        FontChoice::File("C:\\Windows\\Fonts\\simhei.ttf".to_owned()),
        FontChoice::File("C:\\Windows\\Fonts\\arial.ttf".to_owned()),
    ];
    assert(choices_view(result@) =~= default_choices());
    result
}

/// The fonts that are tried for settings: the file and the family that they
/// name, if they name any, before all others.
pub open spec fn configured_choices(family: Seq<char>, file_path: Seq<char>) -> Seq<ChoiceModel> {
    let files = if trim_spec(file_path).len() > 0 {
        seq![ChoiceModel::File(trim_spec(file_path))]
    } else {
        Seq::empty()
    };
    let families = if trim_spec(family).len() > 0 {
        seq![ChoiceModel::Family(FamilyModel::Named(trim_spec(family)))]
    } else {
        Seq::empty()
    };
    files + families + default_choices()
}

/// The fonts that are tried for settings, in order.
pub fn configured_font_choices(family: &str, file_path: &str) -> (result: Vec<FontChoice>)
    ensures
        choices_view(result@) == configured_choices(family@, file_path@),
{
    let mut result: Vec<FontChoice> = Vec::new();
    let path_chars = chars_of(file_path);
    let path = trim(&path_chars);
    if path.len() > 0 {
        result.push(FontChoice::File(string_of(path)));
    }
    let family_chars = chars_of(family);
    let name = trim(&family_chars);
    if name.len() > 0 {
        result.push(FontChoice::Family(FontFamily::Named(string_of(name))));
    }
    let ghost first = result@;
    let rest = default_font_choices();
    let ghost others = rest@;
    for choice in it: rest
        invariant
            it.seq() == others,
            result@ =~= first + others.take(it.index()),
    {
        result.push(choice);
    }
    assert(result@ =~= first + others);
    assert forall|i: int| 0 <= i < others.len() implies #[trigger] choices_view(result@)[first.len()
        + i] == choices_view(others)[i] by {
        assert(result@[first.len() + i] == others[i]);
    }
    assert(choices_view(result@) =~= configured_choices(family@, file_path@));
    result
}

/// Families as models.
pub open spec fn families_view(families: Seq<FontFamily>) -> Seq<FamilyModel> {
    Seq::new(families.len(), |i: int| families[i]@)
}

/// The families that are searched for characters that the font lacks, in order.
pub open spec fn fallback_families_spec() -> Seq<FamilyModel> {
    seq![
        FamilyModel::Named("PingFang SC"@),
        FamilyModel::Named("Hiragino Sans GB"@),
        FamilyModel::Named("Hiragino Sans"@),
        FamilyModel::Named("Apple SD Gothic Neo"@),
        FamilyModel::Named("Songti SC"@),
        FamilyModel::Named("STHeiti"@),
        FamilyModel::Named("Microsoft YaHei"@),
        FamilyModel::Named("SimHei"@),
        FamilyModel::Named("Noto Sans CJK SC"@),
        FamilyModel::Named("Noto Sans CJK JP"@),
        FamilyModel::Named("Noto Sans CJK"@),
        FamilyModel::Named("Source Han Sans SC"@),
        FamilyModel::Named("Source Han Sans"@),
        FamilyModel::Named("Arial Unicode MS"@),
        FamilyModel::Named("Arial Unicode"@),
        FamilyModel::Named("Segoe UI Symbol"@),
        FamilyModel::SansSerif,
        FamilyModel::Serif,
    ]
}

/// The families that are searched for characters that the font lacks, in order.
pub fn fallback_families() -> (result: Vec<FontFamily>)
    ensures
        families_view(result@) == fallback_families_spec(),
{
    let result = vec![
        FontFamily::Named("PingFang SC".to_owned()),
        FontFamily::Named("Hiragino Sans GB".to_owned()),
        FontFamily::Named("Hiragino Sans".to_owned()),
        FontFamily::Named("Apple SD Gothic Neo".to_owned()),
        FontFamily::Named("Songti SC".to_owned()),
        FontFamily::Named("STHeiti".to_owned()),
        FontFamily::Named("Microsoft YaHei".to_owned()),
        FontFamily::Named("SimHei".to_owned()),
        FontFamily::Named("Noto Sans CJK SC".to_owned()),
        FontFamily::Named("Noto Sans CJK JP".to_owned()),
        FontFamily::Named("Noto Sans CJK".to_owned()),
        FontFamily::Named("Source Han Sans SC".to_owned()),
        FontFamily::Named("Source Han Sans".to_owned()),
        FontFamily::Named("Arial Unicode MS".to_owned()),
        FontFamily::Named("Arial Unicode".to_owned()),
        FontFamily::Named("Segoe UI Symbol".to_owned()),
        FontFamily::SansSerif,
        FontFamily::Serif,
    ];
    assert(families_view(result@) =~= fallback_families_spec());
    result
}

// ---------------------------------------------------------------------------
// Faces
// ---------------------------------------------------------------------------

/// The fonts that are installed: each face has an id, and each family is looked
/// up by its name.
#[verifier::external_type_specification]
#[verifier::external_body]
pub struct ExDatabase(fontdb::Database);

/// What a face is known by.
#[verifier::external_type_specification]
#[verifier::external_body]
pub struct ExFaceId(fontdb::ID);

/// The faces of a database, in the order in which it walks them.
pub uninterp spec fn faces_of(database: fontdb::Database) -> Seq<fontdb::ID>;

/// The face of a family that is nearest to the normal width, slant and weight.
pub uninterp spec fn face_of_family(database: fontdb::Database, family: FamilyModel) -> Option<
    fontdb::ID,
>;

/// `fontdb::Database::faces`, of which the ids are kept.
///
/// What is walked, and in which order, is a function of the database.
#[verifier::external_body]
fn all_faces(database: &fontdb::Database) -> (result: Vec<fontdb::ID>)
    ensures
        result@ == faces_of(*database),
{
    database.faces().map(|face| face.id).collect()
}

/// `fontdb::Database::query` with one family and otherwise the default query,
/// which asks for the normal width, slant and weight.
///
/// What is found is a function of the database and the family, and is a face of
/// the database.
#[verifier::external_body]
fn query_family(database: &fontdb::Database, family: &FontFamily) -> (result: Option<fontdb::ID>)
    ensures
        result == face_of_family(*database, family@),
        result matches Some(face) ==> faces_of(*database).contains(face),
{
    let family = match family {
        FontFamily::Named(name) => fontdb::Family::Name(name),
        FontFamily::SansSerif => fontdb::Family::SansSerif,
        FontFamily::Serif => fontdb::Family::Serif,
    };
    database.query(&fontdb::Query { families: &[family], ..fontdb::Query::default() })
}

/// `==` on `fontdb::ID`, which is derived.
///
/// Two ids are equal just if they are the same.
#[verifier::external_body]
fn same_face(first: fontdb::ID, second: fontdb::ID) -> (result: bool)
    ensures
        result == (first == second),
{
    first == second
}

/// The face of a choice. The built-in font and files are not in a database.
pub fn choice_face(database: &fontdb::Database, choice: &FontChoice) -> (result: Option<fontdb::ID>)
    ensures
        result == (match choice@ {
            ChoiceModel::Family(family) => face_of_family(*database, family),
            _ => None,
        }),
{
    match choice {
        FontChoice::Family(family) => query_family(database, family),
        _ => None,
    }
}

/// The faces of a list, each where it comes first.
pub open spec fn distinct(faces: Seq<fontdb::ID>) -> Seq<fontdb::ID>
    decreases faces.len(),
{
    if faces.len() == 0 {
        Seq::empty()
    } else {
        let before = distinct(faces.drop_last());
        if before.contains(faces.last()) {
            before
        } else {
            before.push(faces.last())
        }
    }
}

/// Appends a face unless it is in the list.
pub fn push_unique_face(faces: &mut Vec<fontdb::ID>, face: fontdb::ID)
    ensures
        final(faces)@ == (if old(faces)@.contains(face) {
            old(faces)@
        } else {
            old(faces)@.push(face)
        }),
{
    let mut i: usize = 0;
    while i < faces.len()
        invariant
            i <= faces@.len(),
            faces@ == old(faces)@,
            forall|k: int| 0 <= k < i ==> faces@[k] != face,
        decreases faces@.len() - i,
    {
        if same_face(faces[i], face) {
            assert(faces@.contains(faces@[i as int]));
            return;
        }
        i += 1;
    }
    faces.push(face);
}

/// The faces of some families, without those that have none.
pub open spec fn found_faces(database: fontdb::Database, families: Seq<FamilyModel>) -> Seq<
    fontdb::ID,
>
    decreases families.len(),
{
    if families.len() == 0 {
        Seq::empty()
    } else {
        match face_of_family(database, families.last()) {
            Some(face) => found_faces(database, families.drop_last()).push(face),
            None => found_faces(database, families.drop_last()),
        }
    }
}

/// The order in which the faces of a database are searched: those of the preferred
/// families, then all others.
pub open spec fn search_order_spec(database: fontdb::Database) -> Seq<fontdb::ID> {
    distinct(found_faces(database, fallback_families_spec()) + faces_of(database))
}

/// The order in which the faces of a database are searched. It searches each of
/// them, and no others.
pub fn search_order(database: &fontdb::Database) -> (result: Vec<fontdb::ID>)
    ensures
        result@ == search_order_spec(*database),
        forall|face: fontdb::ID| #[trigger]
            result@.contains(face) <==> faces_of(*database).contains(face),
{
    let mut faces: Vec<fontdb::ID> = Vec::new();
    let families = fallback_families();
    let ghost wanted = families_view(families@);
    let mut i: usize = 0;
    assert(wanted.take(0) =~= Seq::<FamilyModel>::empty());
    while i < families.len()
        invariant
            i <= families@.len(),
            wanted == families_view(families@),
            faces@ == distinct(found_faces(*database, wanted.take(i as int))),
            forall|face: fontdb::ID| #[trigger]
                found_faces(*database, wanted.take(i as int)).contains(face) ==> faces_of(
                    *database,
                ).contains(face),
        decreases families@.len() - i,
    {
        let ghost before = found_faces(*database, wanted.take(i as int));
        assert(wanted.take(i as int + 1).drop_last() =~= wanted.take(i as int));
        assert(wanted.take(i as int + 1).last() == families@[i as int]@);
        if let Some(face) = query_family(database, &families[i]) {
            push_unique_face(&mut faces, face);
            assert(before.push(face).drop_last() =~= before);
        }
        i += 1;
    }
    assert(wanted.take(i as int) =~= wanted);
    let ghost first = found_faces(*database, fallback_families_spec());
    let others = all_faces(database);
    let mut k: usize = 0;
    assert(first + others@.take(0) =~= first);
    while k < others.len()
        invariant
            k <= others@.len(),
            faces@ == distinct(first + others@.take(k as int)),
        decreases others@.len() - k,
    {
        let ghost before = first + others@.take(k as int);
        push_unique_face(&mut faces, others[k]);
        assert((first + others@.take(k as int + 1)).drop_last() =~= before);
        assert((first + others@.take(k as int + 1)).last() == others@[k as int]);
        k += 1;
    }
    assert(others@.take(k as int) =~= others@);
    proof {
        law_every_face_is_searched_once(first + others@);
        assert forall|face: fontdb::ID| #[trigger] faces@.contains(face) <==> faces_of(
            *database,
        ).contains(face) by {
            assert((first + others@).contains(face) <==> first.contains(face) || others@.contains(
                face,
            ));
        }
    }
    faces
}

/// A list without repetitions holds the same faces, each once.
pub proof fn law_every_face_is_searched_once(faces: Seq<fontdb::ID>)
    ensures
        forall|i: int, j: int|
            0 <= i < j < distinct(faces).len() ==> #[trigger] distinct(faces)[i]
                != #[trigger] distinct(faces)[j],
        forall|face: fontdb::ID| #[trigger] distinct(faces).contains(face) <==> faces.contains(face),
    decreases faces.len(),
{
    if faces.len() > 0 {
        let rest = faces.drop_last();
        let before = distinct(rest);
        law_every_face_is_searched_once(rest);
        assert(faces =~= rest.push(faces.last()));
        assert forall|face: fontdb::ID| #[trigger] distinct(faces).contains(face) <==> faces.contains(
            face,
        ) by {
            assert(before.contains(face) <==> rest.contains(face));
            if faces.contains(face) && face != faces.last() {
                let i = choose|i: int| 0 <= i < faces.len() && faces[i] == face;
                assert(rest[i] == face);
            }
            if rest.contains(face) {
                let i = choose|i: int| 0 <= i < rest.len() && rest[i] == face;
                assert(faces[i] == face);
            }
            if face == faces.last() {
                assert(faces[faces.len() - 1] == face);
            }
            if before.contains(face) {
                let i = choose|i: int| 0 <= i < before.len() && before[i] == face;
                assert(distinct(faces)[i] == face);
            }
            if !before.contains(faces.last()) {
                assert(distinct(faces)[before.len() as int] == faces.last());
            }
        }
    }
}

// ---------------------------------------------------------------------------
// Search
// ---------------------------------------------------------------------------

/// Whether a font with this glyph for a character shows it. White space needs no
/// glyph.
pub fn has_glyph(ch: char, glyph_id: u16) -> (result: bool)
    ensures
        result <==> is_space(ch) || glyph_id != 0,
{
    char_is_space(ch) || glyph_id != 0
}

/// Whether bytes hold a font at a place of a collection; a single font is at the
/// first place.
pub uninterp spec fn holds_font(data: Seq<u8>, face_index: u32) -> bool;

/// The number of the glyph that a font has for a character, zero where it has
/// none.
pub uninterp spec fn glyph_of(data: Seq<u8>, face_index: u32, ch: char) -> u16;

/// `ab_glyph::FontRef::try_from_slice_and_index`, which reads a font from bytes.
///
/// Whether there is one is a function of the bytes and the place.
#[verifier::external_body]
fn reads_font(data: &[u8], face_index: u32) -> (result: bool)
    ensures
        result == holds_font(data@, face_index),
{
    ab_glyph::FontRef::try_from_slice_and_index(data, face_index).is_ok()
}

/// `ab_glyph::Font::glyph_id`, on the font that
/// `ab_glyph::FontRef::try_from_slice_and_index` reads from bytes.
///
/// There is a number where there is a font, and it is a function of the bytes,
/// the place and the character.
#[verifier::external_body]
fn glyph_number(data: &[u8], face_index: u32, ch: char) -> (result: Option<u16>)
    ensures
        result == (if holds_font(data@, face_index) {
            Some(glyph_of(data@, face_index, ch))
        } else {
            None
        }),
{
    match ab_glyph::FontRef::try_from_slice_and_index(data, face_index) {
        Ok(font) => Some(font.glyph_id(ch).0),
        Err(_) => None,
    }
}

/// Whether the font that bytes hold shows a character, if they hold one.
pub fn face_shows(data: &[u8], face_index: u32, ch: char) -> (result: Option<bool>)
    ensures
        result == (if holds_font(data@, face_index) {
            Some(is_space(ch) || glyph_of(data@, face_index, ch) != 0)
        } else {
            None
        }),
{
    match glyph_number(data, face_index, ch) {
        Some(glyph_id) => Some(has_glyph(ch, glyph_id)),
        None => None,
    }
}

/// Whether a file is at hand and holds a font at its first place.
pub open spec fn is_usable(file: Option<Vec<u8>>) -> bool {
    file matches Some(data) && holds_font(data@, 0)
}

/// The first of some files that holds a font. A file that is not at hand is
/// passed over.
pub fn first_font(files: &[Option<Vec<u8>>]) -> (result: Option<usize>)
    ensures
        match result {
            Some(at) => at < files@.len() && is_usable(files@[at as int]) && forall|i: int|
                0 <= i < at ==> !is_usable(#[trigger] files@[i]),
            None => forall|i: int| 0 <= i < files@.len() ==> !is_usable(#[trigger] files@[i]),
        },
{
    let mut i: usize = 0;
    while i < files.len()
        invariant
            i <= files@.len(),
            forall|k: int| 0 <= k < i ==> !is_usable(#[trigger] files@[k]),
        decreases files@.len() - i,
    {
        if let Some(data) = &files[i] {
            if reads_font(data.as_slice(), 0) {
                return Some(i);
            }
        }
        i += 1;
    }
    None
}

/// What is known of a face.
#[derive(Debug, Clone, Copy, PartialEq, Eq, Structural)]
pub enum FaceState {
    /// It has not been read.
    Unread,
    /// It could not be read.
    Unreadable,
    /// It has been read, and its font has this number.
    Font(u32),
}

/// What a search for a character asks for next.
#[derive(Debug, Clone, Copy, PartialEq, Eq, Structural)]
pub enum FontStep {
    /// The search is over: the font with this number shows the character, or none
    /// does.
    Found(Option<u32>),
    /// The face at this place has to be read.
    Read { face: usize },
    /// It has to be seen whether the font of the face at this place shows the
    /// character.
    Ask { face: usize, font_id: u32 },
}

/// The fonts that characters are looked for in when the first font lacks them.
#[derive(Debug)]
pub struct SystemFontFallback {
    ids: Vec<fontdb::ID>,
    faces: Vec<FaceState>,
    chars: HashMap<u32, Option<u32>>,
    next_font_id: u32,
}

/// The faces in the order of search, what is known of each of them and of the
/// characters, and the next number.
pub struct FallbackModel {
    pub ids: Seq<fontdb::ID>,
    pub faces: Seq<FaceState>,
    pub chars: Map<u32, Option<u32>>,
    pub next_font_id: u32,
}

impl View for SystemFontFallback {
    type V = FallbackModel;

    closed spec fn view(&self) -> FallbackModel {
        FallbackModel {
            ids: self.ids@,
            faces: self.faces@,
            chars: self.chars@,
            next_font_id: self.next_font_id,
        }
    }
}

/// The number after this one, held at the largest, and never zero.
pub open spec fn number_after(font_id: u32) -> u32 {
    if font_id == u32::MAX {
        u32::MAX
    } else {
        (font_id + 1) as u32
    }
}

impl FallbackModel {
    /// The first face from a place on that may show something.
    pub open spec fn readable_from(self, face: int) -> int
        decreases self.faces.len() - face,
    {
        if 0 <= face < self.faces.len() && self.faces[face] == FaceState::Unreadable {
            self.readable_from(face + 1)
        } else {
            face
        }
    }

    /// What a search does at a place.
    pub open spec fn step_at(self, face: int) -> FontStep {
        let next = self.readable_from(face);
        if next >= self.faces.len() {
            FontStep::Found(None)
        } else {
            match self.faces[next] {
                FaceState::Font(font_id) => FontStep::Ask { face: next as usize, font_id },
                _ => FontStep::Read { face: next as usize },
            }
        }
    }

    /// What is known once a character has been looked for.
    pub open spec fn knowing(self, ch: char, font_id: Option<u32>) -> FallbackModel {
        FallbackModel { chars: self.chars.insert(ch as u32, font_id), ..self }
    }

    /// What is known after a step: that no font shows the character, if the
    /// search has ended so.
    pub open spec fn after_step(self, ch: char, step: FontStep) -> FallbackModel {
        match step {
            FontStep::Found(font_id) => self.knowing(ch, font_id),
            _ => self,
        }
    }

    /// What is known once a face has been read, or could not be.
    pub open spec fn with_face(self, face: int, is_read: bool) -> FallbackModel {
        if is_read {
            FallbackModel {
                faces: self.faces.update(face, FaceState::Font(self.next_font_id)),
                next_font_id: number_after(self.next_font_id),
                ..self
            }
        } else {
            FallbackModel { faces: self.faces.update(face, FaceState::Unreadable), ..self }
        }
    }
}

impl SystemFontFallback {
    /// A search over the faces of a database, of which none has been read.
    pub fn new(database: &fontdb::Database, next_font_id: u32) -> (result: Self)
        ensures
            result@.ids == search_order_spec(*database),
            result@.faces == Seq::new(result@.ids.len(), |i: int| FaceState::Unread),
            result@.chars == Map::<u32, Option<u32>>::empty(),
            result@.next_font_id == next_font_id,
    {
        let ids = search_order(database);
        let face_count: usize = ids.len();
        let mut faces: Vec<FaceState> = Vec::new();
        while faces.len() < face_count
            invariant
                faces@.len() <= face_count,
                forall|i: int| 0 <= i < faces@.len() ==> faces@[i] == FaceState::Unread,
            decreases face_count - faces@.len(),
        {
            faces.push(FaceState::Unread);
        }
        assert(faces@ =~= Seq::new(face_count as nat, |i: int| FaceState::Unread));
        Self { ids, faces, chars: HashMap::new(), next_font_id }
    }

    /// The face at a place of the search, if there is one.
    pub fn face_id(&self, face: usize) -> (result: Option<fontdb::ID>)
        ensures
            result == (if face < self@.ids.len() {
                Some(self@.ids[face as int])
            } else {
                None
            }),
    {
        if face < self.ids.len() {
            Some(self.ids[face])
        } else {
            None
        }
    }

    fn step_from(&mut self, ch: char, start: usize) -> (result: FontStep)
        ensures
            result == old(self)@.step_at(start as int),
            final(self)@ == old(self)@.after_step(ch, result),
    {
        let mut face: usize = start;
        while face < self.faces.len() && self.faces[face] == FaceState::Unreadable
            invariant
                self@ == old(self)@,
                self@.readable_from(face as int) == self@.readable_from(start as int),
            decreases crate::time::sat_sub(self@.faces.len(), face as nat),
        {
            face += 1;
        }
        if face >= self.faces.len() {
            let _ = self.chars.insert(ch as u32, None);
            return FontStep::Found(None);
        }
        match self.faces[face] {
            FaceState::Font(font_id) => FontStep::Ask { face, font_id },
            _ => FontStep::Read { face },
        }
    }

    /// Looks for a font that shows a character. What was found once is not looked
    /// for again.
    pub fn resolve(&mut self, ch: char) -> (result: FontStep)
        ensures
            old(self)@.chars.contains_key(ch as u32) ==> result == FontStep::Found(
                old(self)@.chars[ch as u32],
            ) && final(self)@ == old(self)@,
            !old(self)@.chars.contains_key(ch as u32) ==> result == old(self)@.step_at(0)
                && final(self)@ == old(self)@.after_step(ch, result),
    {
        if let Some(known) = self.chars.get(&(ch as u32)) {
            return FontStep::Found(*known);
        }
        self.step_from(ch, 0)
    }

    /// Goes on once a face has been read, or could not be. A font gets the next
    /// number.
    pub fn face_read(&mut self, ch: char, face: usize, is_read: bool) -> (result: FontStep)
        requires
            face < old(self)@.faces.len(),
        ensures
            ({
                let known = old(self)@.with_face(face as int, is_read);
                &&& result == known.step_at(face as int)
                &&& final(self)@ == known.after_step(ch, result)
            }),
    {
        if is_read {
            let font_id: u32 = self.next_font_id;
            self.faces.set(face, FaceState::Font(font_id));
            self.next_font_id = if font_id == u32::MAX {
                u32::MAX
            } else {
                font_id + 1
            };
        } else {
            self.faces.set(face, FaceState::Unreadable);
        }
        assert(self@ == old(self)@.with_face(face as int, is_read));
        self.step_from(ch, face)
    }

    /// Goes on once it is known whether the font of a face shows the character.
    pub fn face_asked(&mut self, ch: char, face: usize, font_id: u32, shows: bool) -> (result:
        FontStep)
        requires
            face < old(self)@.faces.len(),
        ensures
            shows ==> result == FontStep::Found(Some(font_id)) && final(self)@ == old(self)@.knowing(
                ch,
                Some(font_id),
            ),
            !shows ==> result == old(self)@.step_at(face + 1) && final(self)@
                == old(self)@.after_step(ch, result),
    {
        if shows {
            let _ = self.chars.insert(ch as u32, Some(font_id));
            return FontStep::Found(Some(font_id));
        }
        let count: usize = self.faces.len();
        assert(face < count);
        self.step_from(ch, face + 1)
    }
}

/// What was found for a character is found again without a search, whatever is
/// found for other characters in between.
pub proof fn law_characters_are_looked_for_once(
    known: FallbackModel,
    ch: char,
    font_id: Option<u32>,
    other: char,
    other_id: Option<u32>,
)
    requires
        ch != other,
    ensures
        known.knowing(ch, font_id).chars.contains_key(ch as u32),
        known.knowing(ch, font_id).chars[ch as u32] == font_id,
        known.knowing(ch, font_id).knowing(other, other_id).chars[ch as u32] == font_id,
{
    assert(ch as u32 != other as u32);
}

/// Fonts that are read one after the other have different numbers, until the
/// numbers run out.
pub proof fn law_fonts_have_their_own_numbers(known: FallbackModel, first: int, second: int)
    requires
        0 <= first < known.faces.len(),
        0 <= second < known.faces.len(),
        first != second,
        known.next_font_id < u32::MAX,
    ensures
        ({
            let both = known.with_face(first, true).with_face(second, true);
            both.faces[first] != both.faces[second]
        }),
{
}

/// The fonts that are tried first are those of the settings, a file before a family,
/// and with neither of them the built-in one.
pub proof fn law_configured_fonts_come_first(family: Seq<char>, file_path: Seq<char>)
    ensures
        trim_spec(file_path).len() > 0 ==> configured_choices(family, file_path)[0]
            == ChoiceModel::File(trim_spec(file_path)),
        trim_spec(file_path).len() == 0 && trim_spec(family).len() > 0 ==> configured_choices(
            family,
            file_path,
        )[0] == ChoiceModel::Family(FamilyModel::Named(trim_spec(family))),
        trim_spec(file_path).len() > 0 && trim_spec(family).len() > 0 ==> configured_choices(
            family,
            file_path,
        )[1] == ChoiceModel::Family(FamilyModel::Named(trim_spec(family))),
        trim_spec(file_path).len() == 0 && trim_spec(family).len() == 0 ==> configured_choices(
            family,
            file_path,
        )[0] == ChoiceModel::BuiltIn,
        configured_choices(family, file_path).len() == 21 + (if trim_spec(file_path).len() > 0 {
            1int
        } else {
            0
        }) + (if trim_spec(family).len() > 0 {
            1int
        } else {
            0
        }),
        configured_choices(family, file_path).contains(ChoiceModel::BuiltIn),
{
    let all = configured_choices(family, file_path);
    let skipped = all.len() - 21;
    assert(all[skipped] == default_choices()[0]);
}

/// Faces are found in the order of the families, and a family without a face is passed
/// over.
pub proof fn law_faces_are_found_in_order(
    database: fontdb::Database,
    families: Seq<FamilyModel>,
    family: FamilyModel,
)
    ensures
        found_faces(database, families.push(family)) == (match face_of_family(database, family) {
            Some(face) => found_faces(database, families).push(face),
            None => found_faces(database, families),
        }),
        found_faces(database, Seq::<FamilyModel>::empty()).len() == 0,
{
    assert(families.push(family).drop_last() =~= families);
}

impl FallbackModel {
    /// The face that is asked next is the first one from there on that can be read: one
    /// that is known is asked, one that is not is read, and where there is none no font
    /// is found.
    pub proof fn law_next_readable_face_is_asked(self, face: int)
        requires
            0 <= face <= self.faces.len(),
        ensures
            ({
                let next = self.readable_from(face);
                &&& face <= next <= self.faces.len()
                &&& forall|i: int|
                    face <= i < next ==> #[trigger] self.faces[i] == FaceState::Unreadable
                &&& next < self.faces.len() ==> self.faces[next] != FaceState::Unreadable
                &&& next == self.faces.len() ==> self.step_at(face) == FontStep::Found(None)
                &&& next < self.faces.len() ==> (self.faces[next] matches FaceState::Font(font_id)
                    ==> self.step_at(face) == (FontStep::Ask { face: next as usize, font_id }))
                &&& next < self.faces.len() && !(self.faces[next] is Font) ==> self.step_at(face)
                    == (FontStep::Read { face: next as usize })
            }),
        decreases self.faces.len() - face,
    {
        if face < self.faces.len() && self.faces[face] == FaceState::Unreadable {
            self.law_next_readable_face_is_asked(face + 1);
        }
    }
}

} // verus!
